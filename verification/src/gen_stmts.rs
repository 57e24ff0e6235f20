//! Statements: control flow and `return`.

use vstd::prelude::*;
use crate::ast::{Expr, Stmt};
use crate::codegen::CodeGen;
use crate::model::{
    frame, gen_extends, lemma_cur_extends, lemma_gen_extends_refl, lemma_gen_extends_trans, refines,
};
use crate::opcode::{CodeWord, Opcode};
use crate::rules::{
    gen_assign, gen_decl, gen_expr, gen_for, gen_if, gen_lhs_opt, gen_opt_stmt, gen_range,
    for_shape, gen_results, gen_return, gen_stmt, gen_stmts, if_shape, range_shape,
};
use crate::value::{EntIndex, ErrorKind, GenError, LeftHandSide, TypeError};

verus! {

impl CodeGen {
    /// Lowers `return`: each result is lowered, stored to the local slot of
    /// its number and popped, then comes `RETURN`. How many results the
    /// function declares is not asked: a result is refused only where the
    /// function has no local slot of its number at all, so that the store
    /// would name a slot that is not there.
    pub fn visit_stmt_return(&mut self, results: &Vec<Expr>) -> (r: Result<(), GenError>)
        requires
            old(self).active(),
        ensures
            refines(r, final(self)@, crate::rules::gen_return(old(self)@, *results)),
            r is Ok ==> results.len() <= final(self)@.cur().local_alloc,
            final(self).active(),
            frame(old(self)@, final(self)@),
            r is Ok ==> gen_extends(old(self)@, final(self)@),
        decreases results, results.len(),
    {
        reveal_with_fuel(gen_return, 1);
        reveal_with_fuel(gen_results, 1);
        let ghost m0 = self@;
        let mut i: usize = 0;
        proof {
            lemma_gen_extends_refl(m0);
        }
        while i < results.len()
            invariant
                i <= results.len(),
                self.active(),
                m0 == old(self)@,
                gen_extends(m0, self@),
                frame(m0, self@),
                gen_results(m0, *results, 0) == gen_results(self@, *results, i as int),
                i <= self@.cur().local_alloc,
            decreases results.len() - i,
        {
            reveal_with_fuel(gen_return, 1);
            reveal_with_fuel(gen_results, 1);
            reveal_with_fuel(gen_expr, 1);
            let ghost m1 = self@;
            self.visit_expr(&results[i])?;
            let ghost m2 = self@;
            if i >= self.objects().function(self.cur_key()).local_alloc() {
                return Err(
                    GenError {
                        pos: results[i].pos(),
                        kind: ErrorKind::Type(TypeError::NoResultSlot),
                    },
                );
            }
            proof {
                lemma_cur_extends(m1, m2);
                crate::model::lemma_local_slot(m2, i as int);
            }
            self.emit_store(LeftHandSide::Primitive(EntIndex::LocalVar(i as i16)), -1, None);
            let ghost m3 = self@;
            self.emit_code(Opcode::POP);
            proof {
                lemma_gen_extends_trans(m0, m1, m2);
                lemma_gen_extends_trans(m0, m2, m3);
                lemma_gen_extends_trans(m0, m3, self@);
                lemma_gen_extends_trans(m2, m3, self@);
                lemma_cur_extends(m2, self@);
            }
            i = i + 1;
        }
        let ghost m4 = self@;
        self.emit_code(Opcode::RETURN);
        proof {
            lemma_gen_extends_trans(m0, m4, self@);
            lemma_cur_extends(m4, self@);
        }
        Ok(())
    }

    /// Lowers a statement that may be left out.
    fn gen_opt_stmt(&mut self, stmt: &Option<Box<Stmt>>) -> (r: Result<(), GenError>)
        requires
            old(self).active(),
        ensures
            refines(r, final(self)@, gen_opt_stmt(old(self)@, *stmt)),
            final(self).active(),
            frame(old(self)@, final(self)@),
            r is Ok ==> gen_extends(old(self)@, final(self)@),
        decreases stmt, 2nat,
    {
        reveal_with_fuel(gen_opt_stmt, 1);
        reveal_with_fuel(gen_stmt, 1);
        match stmt {
            Some(x) => self.visit_stmt(x),
            None => {
                proof {
                    lemma_gen_extends_refl(self@);
                }
                Ok(())
            },
        }
    }

    /// Lowers `if`: the condition, a jump over the body where it fails, the
    /// body, and where there is an `else`, a jump over it after the body.
    /// Without an `else` the conditional jump aims at the end of the body;
    /// with one it aims at the first word of the `else`, and the jump after
    /// the body aims at the end of the `else`.
    pub fn visit_stmt_if(&mut self, stmt: &Stmt) -> (r: Result<(), GenError>)
        requires
            old(self).active(),
        ensures
            refines(r, final(self)@, gen_if(old(self)@, *stmt)),
            final(self).active(),
            frame(old(self)@, final(self)@),
            r is Ok ==> gen_extends(old(self)@, final(self)@),
            r is Ok ==> (*stmt matches Stmt::If(ifs) ==> if_shape(old(self)@, final(self)@, ifs)),
        decreases stmt, 0nat,
    {
        reveal_with_fuel(gen_if, 1);
        reveal_with_fuel(gen_opt_stmt, 1);
        reveal_with_fuel(gen_expr, 1);
        reveal_with_fuel(gen_stmts, 1);
        reveal_with_fuel(gen_stmt, 1);
        let ghost m0 = self@;
        let ifstmt = match stmt {
            Stmt::If(ifs) => ifs,
            _ => {
                proof {
                    lemma_gen_extends_refl(m0);
                }
                return Ok(());
            },
        };
        self.gen_opt_stmt(&ifstmt.init)?;
        let ghost ma = self@;
        self.visit_expr(&ifstmt.cond)?;
        let ghost m1 = self@;
        let top_marker: usize = self.here();
        // place holder, to be set later
        self.emit_inst(Opcode::JUMP_IF_NOT, 0);
        let ghost m1b = self@;
        self.visit_stmt_block(&ifstmt.body)?;
        let ghost m2 = self@;
        proof {
            lemma_gen_extends_trans(m0, ma, m1);
            lemma_gen_extends_trans(m0, m1, m1b);
            lemma_gen_extends_trans(m0, m1b, m2);
            lemma_cur_extends(m0, m1);
            lemma_cur_extends(m1b, m2);
        }
        match &ifstmt.els {
            Some(els) => {
                let marker_if_arm_end: usize = self.here();
                // place holder, to be set later
                self.emit_inst(Opcode::JUMP, 0);
                let ghost m3 = self@;
                proof {
                    lemma_gen_extends_trans(m0, m2, m3);
                }
                // set the correct else jump target
                let mid: usize = self.here();
                self.patch(ifstmt.pos, top_marker, mid, Ghost(m0))?;
                let ghost m4 = self@;
                self.visit_stmt(els)?;
                let ghost m5 = self@;
                proof {
                    lemma_gen_extends_trans(m0, m4, m5);
                    lemma_cur_extends(m4, m5);
                }
                // set the correct if_arm_end jump target
                let end: usize = self.here();
                self.patch(ifstmt.pos, marker_if_arm_end, end, Ghost(m0))?;
                proof {
                    let c = self@.cur().code;
                    assert(m3.cur().code[top_marker as int] == m1b.cur().code[top_marker as int]);
                    assert(m5.cur().code[top_marker as int] == m4.cur().code[top_marker as int]);
                    assert(m5.cur().code[top_marker + 1] == m4.cur().code[top_marker + 1]);
                    assert(m5.cur().code[marker_if_arm_end as int]
                        == m4.cur().code[marker_if_arm_end as int]);
                    assert(c[top_marker as int] == CodeWord::Code(Opcode::JUMP_IF_NOT));
                    assert(c[top_marker + 1] == CodeWord::Data((mid - (top_marker + 2)) as i16));
                    assert(c[marker_if_arm_end as int] == CodeWord::Code(Opcode::JUMP));
                    assert(c[marker_if_arm_end + 1] == CodeWord::Data(
                        (end - (marker_if_arm_end + 2)) as i16,
                    ));
                    assert(crate::rules::after_opt_stmt(m0, ifstmt.init) == ma);
                    assert(crate::rules::after_expr(ma, ifstmt.cond) == m1);
                    assert(crate::rules::after_stmts(m1b, ifstmt.body) == m2);
                    assert(if_shape(m0, self@, *ifstmt));
                }
                Ok(())
            },
            None => {
                let end: usize = self.here();
                self.patch(ifstmt.pos, top_marker, end, Ghost(m0))?;
                proof {
                    let c = self@.cur().code;
                    assert(m2.cur().code[top_marker as int] == m1b.cur().code[top_marker as int]);
                    assert(c[top_marker as int] == CodeWord::Code(Opcode::JUMP_IF_NOT));
                    assert(c[top_marker + 1] == CodeWord::Data((end - (top_marker + 2)) as i16));
                    assert(crate::rules::after_opt_stmt(m0, ifstmt.init) == ma);
                    assert(crate::rules::after_expr(ma, ifstmt.cond) == m1);
                    assert(crate::rules::after_stmts(m1b, ifstmt.body) == m2);
                    assert(if_shape(m0, self@, *ifstmt));
                }
                Ok(())
            },
        }
    }

    /// Lowers `for`: the condition with a jump out where it fails, the body,
    /// the post statement, and a jump back to the condition. That jump is
    /// the last instruction of the loop, and the jump out aims at the word
    /// after it.
    pub fn visit_stmt_for(&mut self, stmt: &Stmt) -> (r: Result<(), GenError>)
        requires
            old(self).active(),
        ensures
            refines(r, final(self)@, gen_for(old(self)@, *stmt)),
            final(self).active(),
            frame(old(self)@, final(self)@),
            r is Ok ==> gen_extends(old(self)@, final(self)@),
            r is Ok ==> (*stmt matches Stmt::For(fs) ==> for_shape(old(self)@, final(self)@, fs)),
        decreases stmt, 0nat,
    {
        reveal_with_fuel(gen_for, 1);
        reveal_with_fuel(gen_opt_stmt, 1);
        reveal_with_fuel(gen_expr, 1);
        reveal_with_fuel(gen_stmts, 1);
        let ghost m0 = self@;
        let fstmt = match stmt {
            Stmt::For(fs) => fs,
            _ => {
                proof {
                    lemma_gen_extends_refl(m0);
                }
                return Ok(());
            },
        };
        self.gen_opt_stmt(&fstmt.init)?;
        let ghost ma = self@;
        let top_marker: usize = self.here();
        let out_marker: Option<usize> = match &fstmt.cond {
            Some(cond) => {
                self.visit_expr(cond)?;
                let ghost m1 = self@;
                let at: usize = self.here();
                // place holder, to be set later
                self.emit_inst(Opcode::JUMP_IF_NOT, 0);
                proof {
                    lemma_gen_extends_trans(ma, m1, self@);
                    lemma_cur_extends(ma, m1);
                    assert(crate::rules::after_expr(ma, *cond) == m1);
                }
                Some(at)
            },
            None => {
                proof {
                    lemma_gen_extends_refl(ma);
                }
                None
            },
        };
        let ghost m2 = self@;
        self.visit_stmt_block(&fstmt.body)?;
        let ghost m3 = self@;
        self.gen_opt_stmt(&fstmt.post)?;
        let ghost m4 = self@;
        proof {
            lemma_gen_extends_trans(m2, m3, m4);
            lemma_gen_extends_trans(ma, m2, m4);
            lemma_gen_extends_trans(m0, ma, m4);
            lemma_cur_extends(ma, m4);
            lemma_cur_extends(m2, m4);
            lemma_cur_extends(m0, ma);
        }
        // jump to the top
        self.emit_jump(fstmt.pos, Opcode::JUMP, top_marker)?;
        let ghost m5 = self@;
        proof {
            lemma_gen_extends_trans(m0, m4, m5);
            lemma_cur_extends(m4, m5);
        }
        proof {
            assert(m5.cur().code[m4.here()] == CodeWord::Code(Opcode::JUMP));
            assert(m5.cur().code[m4.here() + 1] == CodeWord::Data(
                (top_marker - (m4.here() + 2)) as i16,
            ));
        }
        // set the correct jump out target
        match out_marker {
            Some(at) => {
                let end: usize = self.here();
                self.patch(fstmt.pos, at, end, Ghost(m0))?;
                proof {
                    let c = self@.cur().code;
                    assert(m4.cur().code[at as int] == m2.cur().code[at as int]);
                    assert(m5.cur().code[at as int] == m4.cur().code[at as int]);
                    assert(c[at as int] == CodeWord::Code(Opcode::JUMP_IF_NOT));
                    assert(c[at + 1] == CodeWord::Data((end - (at + 2)) as i16));
                    assert(crate::rules::after_opt_stmt(m0, fstmt.init) == ma);
                    assert(for_shape(m0, self@, *fstmt));
                }
                Ok(())
            },
            None => {
                proof {
                    assert(crate::rules::after_opt_stmt(m0, fstmt.init) == ma);
                    assert(for_shape(m0, self@, *fstmt));
                }
                Ok(())
            },
        }
    }

    /// Lowers `for key, val := range expr`: the targets, the operand, the
    /// seed of the cursor, then the loop. The jump after the body aims at
    /// `RANGE`, and `RANGE` jumps to the word after that jump when the
    /// operand is exhausted.
    pub fn visit_stmt_range(&mut self, stmt: &Stmt) -> (r: Result<(), GenError>)
        requires
            old(self).active(),
        ensures
            refines(r, final(self)@, gen_range(old(self)@, *stmt)),
            final(self).active(),
            frame(old(self)@, final(self)@),
            r is Ok ==> gen_extends(old(self)@, final(self)@),
            r is Ok ==> (*stmt matches Stmt::Range(rs) ==> range_shape(old(self)@, final(self)@, rs)),
        decreases stmt, 0nat,
    {
        reveal_with_fuel(gen_range, 1);
        reveal_with_fuel(gen_expr, 1);
        reveal_with_fuel(gen_stmts, 1);
        let ghost m0 = self@;
        let rstmt = match stmt {
            Stmt::Range(rs) => rs,
            _ => {
                proof {
                    lemma_gen_extends_refl(m0);
                }
                return Ok(());
            },
        };
        let key = self.gen_lhs_opt(&rstmt.key, rstmt.define)?;
        let ghost m1 = self@;
        let val = self.gen_lhs_opt(&rstmt.val, rstmt.define)?;
        let ghost m2 = self@;
        self.visit_expr(&rstmt.expr)?;
        let ghost m3 = self@;
        self.emit_inst(Opcode::PUSH_IMM, -1);
        let ghost m4 = self@;
        let marker: usize = self.here();
        // place holder: where to jump when the range is done
        self.emit_inst(Opcode::RANGE, 0);
        let ghost m4b = self@;
        let mut lhs: Vec<LeftHandSide> = Vec::new();
        lhs.push(key);
        lhs.push(val);
        proof {
            assert(lhs@ =~= seq![key, val]);
            lemma_gen_extends_trans(m0, m1, m2);
            lemma_gen_extends_trans(m0, m2, m3);
            lemma_gen_extends_trans(m0, m3, m4);
            lemma_gen_extends_trans(m0, m4, m4b);
            lemma_gen_extends_trans(m1, m2, m3);
            lemma_gen_extends_trans(m1, m3, m4);
            lemma_gen_extends_trans(m1, m4, m4b);
            lemma_gen_extends_trans(m2, m3, m4);
            lemma_gen_extends_trans(m2, m4, m4b);
            lemma_cur_extends(m0, m4);
            if let LeftHandSide::Primitive(idx) = key {
                crate::model::lemma_loadable(m1, m4b, idx);
            }
            if let LeftHandSide::Primitive(idx) = val {
                crate::model::lemma_loadable(m2, m4b, idx);
            }
        }
        self.gen_stores(&lhs, rstmt.pos)?;
        let ghost m5 = self@;
        self.visit_stmt_block(&rstmt.body)?;
        let ghost m6 = self@;
        proof {
            lemma_gen_extends_trans(m4b, m5, m6);
            lemma_gen_extends_trans(m0, m4b, m6);
            lemma_cur_extends(m4b, m6);
        }
        // jump to the top
        self.emit_jump(rstmt.pos, Opcode::JUMP, marker)?;
        let ghost m7 = self@;
        proof {
            lemma_gen_extends_trans(m0, m6, m7);
            lemma_cur_extends(m6, m7);
        }
        // now tell RANGE where to jump after it's done
        let end: usize = self.here();
        self.patch(rstmt.pos, marker, end, Ghost(m0))?;
        proof {
            let c = self@.cur().code;
            lemma_gen_extends_trans(m4b, m6, m7);
            lemma_cur_extends(m4b, m7);
            assert(m7.cur().code[marker as int] == m4b.cur().code[marker as int]);
            assert(m7.cur().code[marker - 1] == m4b.cur().code[marker - 1]);
            assert(m7.cur().code[marker - 2] == m4b.cur().code[marker - 2]);
            assert(c[marker as int] == CodeWord::Code(Opcode::RANGE));
            assert(c[end - 2] == CodeWord::Code(Opcode::JUMP));
            assert(c[end - 1] == CodeWord::Data((marker - (m6.here() + 2)) as i16));
            lemma_cur_extends(m0, m3);
            assert(m0.here() + 2 <= marker);
            assert(c[marker + 1] == CodeWord::Data((end - (marker + 2)) as i16));
            assert(crate::rules::gen_lhs_opt(m0, rstmt.key, rstmt.define)->Ok_0.0 == m1);
            assert(crate::rules::gen_lhs_opt(m1, rstmt.val, rstmt.define)->Ok_0.0 == m2);
            assert(crate::rules::after_expr(m2, rstmt.expr) == m3);
            assert(range_shape(m0, self@, *rstmt));
        }
        Ok(())
    }

    /// Lowers a statement.
    pub fn visit_stmt(&mut self, stmt: &Stmt) -> (r: Result<(), GenError>)
        requires
            old(self).active(),
        ensures
            refines(r, final(self)@, gen_stmt(old(self)@, *stmt)),
            final(self).active(),
            frame(old(self)@, final(self)@),
            r is Ok ==> gen_extends(old(self)@, final(self)@),
        decreases stmt, 1nat,
    {
        reveal_with_fuel(gen_stmt, 1);
        reveal_with_fuel(gen_expr, 1);
        reveal_with_fuel(gen_return, 1);
        reveal_with_fuel(gen_stmts, 1);
        reveal_with_fuel(gen_if, 1);
        reveal_with_fuel(gen_for, 1);
        reveal_with_fuel(gen_range, 1);
        let ghost m0 = self@;
        match stmt {
            Stmt::Decl(decl) => self.visit_decl(decl),
            Stmt::Empty => {
                proof {
                    lemma_gen_extends_refl(self@);
                }
                Ok(())
            },
            Stmt::Expr(expr) => self.visit_expr(expr),
            Stmt::IncDec(_, _) => self.gen_assign(stmt),
            Stmt::Assign(_, _, _) => self.gen_assign(stmt),
            Stmt::Return(_, results) => self.visit_stmt_return(results),
            Stmt::Block(list) => self.visit_stmt_block(list),
            Stmt::If(_) => self.visit_stmt_if(stmt),
            Stmt::For(_) => self.visit_stmt_for(stmt),
            Stmt::Range(_) => self.visit_stmt_range(stmt),
            Stmt::Bad(pos) => Err(GenError { pos: *pos, kind: ErrorKind::NotImplemented }),
            Stmt::Labeled(pos) => Err(GenError { pos: *pos, kind: ErrorKind::NotImplemented }),
            Stmt::Send(pos) => Err(GenError { pos: *pos, kind: ErrorKind::NotImplemented }),
            Stmt::Go(pos) => Err(GenError { pos: *pos, kind: ErrorKind::NotImplemented }),
            Stmt::Defer(pos) => Err(GenError { pos: *pos, kind: ErrorKind::NotImplemented }),
            Stmt::Branch(pos) => Err(GenError { pos: *pos, kind: ErrorKind::NotImplemented }),
            Stmt::Case(pos) => Err(GenError { pos: *pos, kind: ErrorKind::NotImplemented }),
            Stmt::Switch(pos) => Err(GenError { pos: *pos, kind: ErrorKind::NotImplemented }),
            Stmt::TypeSwitch(pos) => Err(GenError { pos: *pos, kind: ErrorKind::NotImplemented }),
            Stmt::Comm(pos) => Err(GenError { pos: *pos, kind: ErrorKind::NotImplemented }),
            Stmt::Select(pos) => Err(GenError { pos: *pos, kind: ErrorKind::NotImplemented }),
        }
    }

    /// Lowers the statements of a block, in order.
    pub fn visit_stmt_block(&mut self, list: &Vec<Stmt>) -> (r: Result<(), GenError>)
        requires
            old(self).active(),
        ensures
            refines(r, final(self)@, gen_stmts(old(self)@, *list, 0)),
            final(self).active(),
            frame(old(self)@, final(self)@),
            r is Ok ==> gen_extends(old(self)@, final(self)@),
        decreases list, list.len(),
    {
        reveal_with_fuel(gen_stmts, 1);
        let ghost m0 = self@;
        let mut i: usize = 0;
        proof {
            lemma_gen_extends_refl(m0);
        }
        while i < list.len()
            invariant
                i <= list.len(),
                self.active(),
                m0 == old(self)@,
                gen_extends(m0, self@),
                frame(m0, self@),
                gen_stmts(m0, *list, 0) == gen_stmts(self@, *list, i as int),
            decreases list.len() - i,
        {
            reveal_with_fuel(gen_stmts, 1);
            reveal_with_fuel(gen_stmt, 1);
            let ghost m1 = self@;
            self.visit_stmt(&list[i])?;
            proof {
                lemma_gen_extends_trans(m0, m1, self@);
            }
            i = i + 1;
        }
        Ok(())
    }
}

} // verus!
