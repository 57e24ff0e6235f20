//! Assignment: the targets, the values, and the stores.

use vstd::prelude::*;
use crate::ast::{AssignTok, Expr, Stmt};
use crate::codegen::CodeGen;
use crate::gen_values::opt_expr;
use crate::model::{
    frame, gen_extends, GenView, lemma_cur_extends, lemma_gen_extends_refl, lemma_gen_extends_trans, lemma_loadable, loadable, refines,
};
use crate::opcode::Opcode;
use crate::rules::{
    assign_opcode, emit_op_store, emit_pops, emit_stores, gen_assign, gen_assign_def_var, gen_expr,
    gen_exprs, gen_lhs, gen_lhs_list, gen_lhs_opt, gen_rhs_values, gen_stores, load_defaults,
    prep_total, values_mismatch,
};
use crate::value::{EntIndex, ErrorKind, GenError, LeftHandSide, Value};

verus! {

/// Every target that is an address names a slot that is there.
pub open spec fn targets_ok(m: GenView, lhs: Seq<LeftHandSide>) -> bool {
    forall|i: int|
        0 <= i < lhs.len() ==> ((#[trigger] lhs[i]) matches LeftHandSide::Primitive(idx)
            ==> loadable(m, idx))
}

/// The state after an expression is lowered.
pub open spec fn gen_expr_then(m: GenView, e: Expr) -> Result<GenView, crate::model::Failure> {
    match crate::rules::gen_expr(m, e) {
        Ok((m1, _)) => Ok(m1),
        Err(x) => Err(x),
    }
}

/// The zero value of a type is the one given, and the state after it is
/// found is the one given.
pub open spec fn type_default_is(m: GenView, t: Expr, after: GenView, zero: Value) -> bool {
    crate::rules::type_default(m, t) == Ok::<(GenView, Value), crate::model::Failure>((after, zero))
}

/// Targets that are in order stay so after more work.
pub proof fn lemma_targets_ok(a: GenView, b: GenView, lhs: Seq<LeftHandSide>)
    requires
        crate::model::gen_wf(a),
        gen_extends(a, b),
        a.func_stack.len() > 0,
        targets_ok(a, lhs),
    ensures
        targets_ok(b, lhs),
{
    assert forall|i: int|
        0 <= i < lhs.len() implies ((#[trigger] lhs[i]) matches LeftHandSide::Primitive(
        idx,
    ) ==> loadable(b, idx)) by {
        if let LeftHandSide::Primitive(idx) = lhs[i] {
            lemma_loadable(a, b, idx);
        }
    }
}

/// The number that preparing targets pushed is not negative.
pub proof fn lemma_prep_total_nonneg(lhs: Seq<LeftHandSide>)
    ensures
        prep_total(lhs) >= 0,
    decreases lhs.len(),
{
    if lhs.len() > 0 {
        lemma_prep_total_nonneg(lhs.drop_last());
    }
}

/// The operator that an assignment applies, if any.
pub fn assign_op(tok: AssignTok) -> (r: Option<Opcode>)
    ensures
        r == assign_opcode(tok),
{
    match tok {
        AssignTok::Assign => None,
        AssignTok::Define => None,
        AssignTok::AddAssign => Some(Opcode::ADD),
        AssignTok::SubAssign => Some(Opcode::SUB),
        AssignTok::MulAssign => Some(Opcode::MUL),
        AssignTok::QuoAssign => Some(Opcode::QUO),
        AssignTok::RemAssign => Some(Opcode::REM),
        AssignTok::AndAssign => Some(Opcode::AND),
        AssignTok::OrAssign => Some(Opcode::OR),
        AssignTok::XorAssign => Some(Opcode::XOR),
        AssignTok::ShlAssign => Some(Opcode::SHL),
        AssignTok::ShrAssign => Some(Opcode::SHR),
        AssignTok::AndNotAssign => Some(Opcode::AND_NOT),
    }
}

/// How many stack words preparing the targets pushed.
fn total_prep(lhs: &Vec<LeftHandSide>) -> (r: usize)
    requires
        lhs.len() <= 32767,
    ensures
        r == prep_total(lhs@),
        r <= 2 * lhs.len(),
{
    let mut acc: usize = 0;
    let mut i: usize = 0;
    assert(lhs@.subrange(0, 0) =~= Seq::empty());
    while i < lhs.len()
        invariant
            i <= lhs.len(),
            lhs.len() <= 32767,
            acc == prep_total(lhs@.subrange(0, i as int)),
            acc <= 2 * i,
        decreases lhs.len() - i,
    {
        proof {
            let t = lhs@.subrange(0, i + 1);
            assert(t.drop_last() =~= lhs@.subrange(0, i as int));
            assert(t.last() == lhs@[i as int]);
        }
        let w: usize = match lhs[i] {
            LeftHandSide::Primitive(_) => 0,
            LeftHandSide::IndexSelExpr(_) => 2,
            LeftHandSide::Deref(_) => 1,
        };
        acc = acc + w;
        i = i + 1;
    }
    assert(lhs@.subrange(0, lhs.len() as int) =~= lhs@);
    acc
}

/// Whether an expression is a call.
pub fn is_call(e: &Expr) -> (b: bool)
    ensures
        b == (*e is Call),
{
    match e {
        Expr::Call(_, _, _) => true,
        _ => false,
    }
}

impl CodeGen {
    /// Stores the values on top of the stack to the targets, and pops the
    /// values and what preparing the targets pushed: as many words are
    /// popped as were pushed.
    pub(crate) fn gen_stores(&mut self, lhs: &Vec<LeftHandSide>, pos: usize) -> (r: Result<
        (),
        GenError,
    >)
        requires
            old(self).active(),
            targets_ok(old(self)@, lhs@),
        ensures
            refines(r, final(self)@, gen_stores(old(self)@, lhs@, pos)),
            final(self).active(),
            frame(old(self)@, final(self)@),
            r is Ok ==> gen_extends(old(self)@, final(self)@),
    {
        reveal(crate::rules::gen_stores);
        let ghost m0 = self@;
        proof {
            lemma_prep_total_nonneg(lhs@);
        }
        if lhs.len() > 32767 {
            return Err(GenError { pos, kind: ErrorKind::Overflow });
        }
        let total: i32 = (total_prep(lhs) + lhs.len()) as i32;
        if total > 32767 {
            return Err(GenError { pos, kind: ErrorKind::Overflow });
        }
        let mut cur: i32 = -total;
        let mut i: usize = 0;
        proof {
            lemma_gen_extends_refl(m0);
        }
        while i < lhs.len()
            invariant
                i <= lhs.len(),
                self.active(),
                m0 == old(self)@,
                gen_extends(m0, self@),
                frame(m0, self@),
                targets_ok(self@, lhs@),
                emit_stores(m0, lhs@, 0, -total as int) == emit_stores(
                    self@,
                    lhs@,
                    i as int,
                    cur as int,
                ),
                -32767 <= cur <= 2 * i - total,
                0 <= total <= 32767,
                lhs.len() <= 32767,
            decreases lhs.len() - i,
        {
            let ghost m1 = self@;
            let val: i16 = (i as i32 - lhs.len() as i32) as i16;
            match lhs[i] {
                LeftHandSide::Primitive(_) => {
                    self.emit_store(lhs[i], val, None);
                },
                LeftHandSide::IndexSelExpr(_) => {
                    self.emit_store(LeftHandSide::IndexSelExpr(cur as i16), val, None);
                    // the lhs of IndexSelExpr takes two spots
                    cur = cur + 2;
                },
                LeftHandSide::Deref(_) => {
                    self.emit_store(LeftHandSide::Deref(cur as i16), val, None);
                    cur = cur + 1;
                },
            }
            proof {
                lemma_gen_extends_trans(m0, m1, self@);
                lemma_targets_ok(m1, self@, lhs@);
            }
            i = i + 1;
        }
        let ghost m2 = self@;
        let mut k: i32 = total;
        while k > 0
            invariant
                0 <= k <= total,
                self.active(),
                gen_extends(m0, self@),
                frame(m0, self@),
                emit_pops(m2, total as int) == emit_pops(self@, k as int),
            decreases k,
        {
            let ghost m3 = self@;
            self.emit_code(Opcode::POP);
            proof {
                lemma_gen_extends_trans(m0, m3, self@);
            }
            k = k - 1;
        }
        Ok(())
    }

    /// Emits the store of `x op= y` and `x++`: the value lies on top of the
    /// stack, above what preparing the target pushed.
    fn emit_op_store(&mut self, left: LeftHandSide, op: Opcode)
        requires
            old(self).active(),
            left matches LeftHandSide::Primitive(idx) ==> loadable(old(self)@, idx),
        ensures
            final(self).active(),
            frame(old(self)@, final(self)@),
            gen_extends(old(self)@, final(self)@),
            final(self)@ == emit_op_store(old(self)@, left, op),
    {
        match left {
            LeftHandSide::Primitive(_) => {
                self.emit_store(left, -1, Some(op));
            },
            LeftHandSide::IndexSelExpr(_) => {
                // the stack holds, bottom to top: target, index, value
                self.emit_store(LeftHandSide::IndexSelExpr(-3), -1, Some(op));
            },
            LeftHandSide::Deref(_) => {
                // the stack holds, bottom to top: target, value
                self.emit_store(LeftHandSide::Deref(-2), -1, Some(op));
            },
        }
        let ghost m1 = self@;
        self.emit_code(Opcode::POP);
        proof {
            lemma_gen_extends_trans(old(self)@, m1, self@);
        }
    }

    /// Lowers `x op= y`: the value, then the store that applies the operator.
    pub fn gen_op_assign(&mut self, left: LeftHandSide, op: Opcode, right: &Expr) -> (r: Result<
        (),
        GenError,
    >)
        requires
            old(self).active(),
            left matches LeftHandSide::Primitive(idx) ==> loadable(old(self)@, idx),
        ensures
            match gen_expr_then(old(self)@, *right) {
                Ok(m) => r is Ok && final(self)@ == emit_op_store(m, left, op),
                Err((m, e)) => r == Err::<(), GenError>(e) && final(self)@ == m,
            },
            final(self).active(),
            frame(old(self)@, final(self)@),
            r is Ok ==> gen_extends(old(self)@, final(self)@),
        decreases right, 2nat,
    {
        self.visit_expr(right)?;
        let ghost m1 = self@;
        proof {
            if let LeftHandSide::Primitive(idx) = left {
                lemma_loadable(old(self)@, m1, idx);
            }
        }
        self.emit_op_store(left, op);
        proof {
            lemma_gen_extends_trans(old(self)@, m1, self@);
        }
        Ok(())
    }

    /// Lowers the target of an assignment.
    pub(crate) fn gen_lhs(
        &mut self,
        expr: &Expr,
        is_def: bool,
    ) -> (r: Result<LeftHandSide, GenError>)
        requires
            old(self).active(),
        ensures
            refines(r, final(self)@, gen_lhs(old(self)@, *expr, is_def)),
            final(self).active(),
            frame(old(self)@, final(self)@),
            r is Ok ==> gen_extends(old(self)@, final(self)@),
            r is Ok ==> (r->Ok_0 matches LeftHandSide::Primitive(idx) ==> loadable(
                final(self)@,
                idx,
            )),
        decreases expr, 2nat,
    {
        reveal_with_fuel(gen_lhs, 1);
        reveal_with_fuel(gen_expr, 1);
        let ghost m0 = self@;
        match expr {
            Expr::Ident(ident) => {
                let idx = self.add_local_or_resolve_ident(ident, is_def)?;
                Ok(LeftHandSide::Primitive(idx))
            },
            Expr::Index(x, i) => {
                self.visit_expr(x)?;
                let ghost m1 = self@;
                self.visit_expr(i)?;
                proof {
                    lemma_gen_extends_trans(m0, m1, self@);
                }
                // the true index will be calculated later
                Ok(LeftHandSide::IndexSelExpr(0))
            },
            Expr::Selector(x, sel) => {
                self.visit_expr(x)?;
                let ghost m1 = self@;
                self.gen_push_ident_str(sel)?;
                proof {
                    lemma_gen_extends_trans(m0, m1, self@);
                }
                // the true index will be calculated later
                Ok(LeftHandSide::IndexSelExpr(0))
            },
            Expr::Star(_, x) => {
                self.visit_expr(x)?;
                // the true index will be calculated later
                Ok(LeftHandSide::Deref(0))
            },
            _ => Err(GenError { pos: expr.pos(), kind: ErrorKind::NotImplemented }),
        }
    }

    /// Lowers the targets of an assignment, in order.
    fn gen_lhs_list(&mut self, lhs: &Vec<Expr>, is_def: bool) -> (r: Result<
        Vec<LeftHandSide>,
        GenError,
    >)
        requires
            old(self).active(),
        ensures
            match gen_lhs_list(old(self)@, *lhs, 0, is_def, Seq::empty()) {
                Ok((m, targets)) => r is Ok && r->Ok_0@ == targets && final(self)@ == m,
                Err((m, e)) => r == Err::<Vec<LeftHandSide>, GenError>(e) && final(self)@ == m,
            },
            final(self).active(),
            frame(old(self)@, final(self)@),
            r is Ok ==> gen_extends(old(self)@, final(self)@),
            r is Ok ==> targets_ok(final(self)@, r->Ok_0@),
        decreases lhs, lhs.len(),
    {
        reveal_with_fuel(gen_lhs_list, 1);
        let ghost m0 = self@;
        let mut out: Vec<LeftHandSide> = Vec::new();
        let mut i: usize = 0;
        proof {
            lemma_gen_extends_refl(m0);
        }
        while i < lhs.len()
            invariant
                i <= lhs.len(),
                self.active(),
                m0 == old(self)@,
                gen_extends(m0, self@),
                frame(m0, self@),
                targets_ok(self@, out@),
                gen_lhs_list(m0, *lhs, 0, is_def, Seq::empty()) == gen_lhs_list(
                    self@,
                    *lhs,
                    i as int,
                    is_def,
                    out@,
                ),
            decreases lhs.len() - i,
        {
            reveal_with_fuel(gen_lhs_list, 1);
            reveal_with_fuel(gen_lhs, 1);
            let ghost m1 = self@;
            let ghost before = out@;
            let t = self.gen_lhs(&lhs[i], is_def)?;
            out.push(t);
            proof {
                lemma_gen_extends_trans(m0, m1, self@);
                lemma_targets_ok(m1, self@, before);
            }
            i = i + 1;
        }
        Ok(out)
    }

    /// Lowers a target of a range clause; one that is left out is the blank sink.
    pub(crate) fn gen_lhs_opt(&mut self, expr: &Option<Expr>, is_def: bool) -> (r: Result<
        LeftHandSide,
        GenError,
    >)
        requires
            old(self).active(),
        ensures
            refines(r, final(self)@, gen_lhs_opt(old(self)@, *expr, is_def)),
            final(self).active(),
            frame(old(self)@, final(self)@),
            r is Ok ==> gen_extends(old(self)@, final(self)@),
            r is Ok ==> (r->Ok_0 matches LeftHandSide::Primitive(idx) ==> loadable(
                final(self)@,
                idx,
            )),
        decreases expr, 3nat,
    {
        reveal_with_fuel(gen_lhs_opt, 1);
        reveal_with_fuel(gen_lhs, 1);
        match expr {
            Some(x) => self.gen_lhs(x, is_def),
            None => {
                proof {
                    lemma_gen_extends_refl(self@);
                }
                Ok(LeftHandSide::Primitive(EntIndex::Blank))
            },
        }
    }

    /// Lowers the right-hand side for `n` targets: as many values as
    /// targets; no value, then the zero value of the declared type for each
    /// target; or one call that returns a value for each target.
    pub(crate) fn gen_rhs_values(
        &mut self,
        n: usize,
        values: &Vec<Expr>,
        typ: Option<&Expr>,
        pos: usize,
    ) -> (r:
        Result<(), GenError>)
        requires
            old(self).active(),
        ensures
            refines(
                r,
                final(self)@,
                gen_rhs_values(old(self)@, n as int, *values, opt_expr(typ), pos),
            ),
            values_mismatch(n as int, *values, opt_expr(typ)) ==> final(self)@ == old(self)@ && r
                == Err::<(), GenError>(
                GenError { pos, kind: ErrorKind::AssignMismatch(n, values.len()) },
            ),
            final(self).active(),
            frame(old(self)@, final(self)@),
            r is Ok ==> gen_extends(old(self)@, final(self)@),
        decreases values, values.len() + 1,
    {
        reveal_with_fuel(gen_rhs_values, 1);
        reveal_with_fuel(gen_expr, 1);
        let ghost m0 = self@;
        if values.len() == n {
            // define or assign with values
            self.visit_exprs(values)
        } else if values.len() == 0 {
            // define without values
            let t = match typ {
                Some(t) => t,
                None => {
                    return Err(GenError { pos, kind: ErrorKind::AssignMismatch(n, 0) });
                },
            };
            let zero = self.get_type_default(t)?;
            let ghost m1 = self@;
            let mut k: usize = n;
            while k > 0
                invariant
                    k <= n,
                    self.active(),
                    m0 == old(self)@,
                    gen_extends(m0, self@),
                    frame(m0, self@),
                    load_defaults(m1, pos, zero, n as int) == load_defaults(
                        self@,
                        pos,
                        zero,
                        k as int,
                    ),
                    values.len() == 0,
                    values.len() != n,
                    typ == Some(t),
                    type_default_is(m0, *t, m1, zero),
                decreases k,
            {
                reveal_with_fuel(gen_rhs_values, 1);
                let ghost m2 = self@;
                self.load_const(pos, zero)?;
                proof {
                    lemma_gen_extends_trans(m0, m2, self@);
                }
                k = k - 1;
            }
            Ok(())
        } else if values.len() == 1 && is_call(&values[0]) {
            // define or assign with function call on the right
            self.visit_expr(&values[0])
        } else {
            Err(GenError { pos, kind: ErrorKind::AssignMismatch(n, values.len()) })
        }
    }

    /// Lowers an assignment to the targets, or their definition: the values,
    /// then the stores.
    pub(crate) fn gen_assign_def_var(
        &mut self,
        lhs: &Vec<LeftHandSide>,
        values: &Vec<Expr>,
        typ: Option<&Expr>,
        pos: usize,
    ) -> (r: Result<(), GenError>)
        requires
            old(self).active(),
            targets_ok(old(self)@, lhs@),
        ensures
            refines(
                r,
                final(self)@,
                gen_assign_def_var(old(self)@, lhs@, *values, opt_expr(typ), pos),
            ),
            values_mismatch(lhs.len() as int, *values, opt_expr(typ)) ==> final(self)@ == old(
                self,
            )@ && r == Err::<(), GenError>(
                GenError { pos, kind: ErrorKind::AssignMismatch(lhs.len(), values.len()) },
            ),
            final(self).active(),
            frame(old(self)@, final(self)@),
            r is Ok ==> gen_extends(old(self)@, final(self)@),
        decreases values, values.len() + 2,
    {
        reveal_with_fuel(gen_assign_def_var, 1);
        reveal_with_fuel(gen_rhs_values, 1);
        let ghost m0 = self@;
        // handle the right hand side
        self.gen_rhs_values(lhs.len(), values, typ, pos)?;
        let ghost m1 = self@;
        proof {
            lemma_targets_ok(m0, m1, lhs@);
        }
        // now the values should be on stack, generate code to set them to the lhs
        self.gen_stores(lhs, pos)?;
        proof {
            lemma_gen_extends_trans(m0, m1, self@);
        }
        Ok(())
    }

    /// Lowers an assignment, a definition, `x op= y`, `x++` and `x--`.
    pub fn gen_assign(&mut self, stmt: &Stmt) -> (r: Result<(), GenError>)
        requires
            old(self).active(),
        ensures
            refines(r, final(self)@, gen_assign(old(self)@, *stmt)),
            final(self).active(),
            frame(old(self)@, final(self)@),
            r is Ok ==> gen_extends(old(self)@, final(self)@),
        decreases stmt, 0nat,
    {
        reveal_with_fuel(gen_assign, 1);
        reveal_with_fuel(gen_lhs_list, 1);
        reveal_with_fuel(gen_expr, 1);
        reveal_with_fuel(gen_assign_def_var, 1);
        reveal_with_fuel(gen_lhs, 1);
        let ghost m0 = self@;
        match stmt {
            Stmt::Assign(lhs_exprs, token, rhs_exprs) => {
                let is_def = *token == AssignTok::Define;
                let pos: usize = if lhs_exprs.len() > 0 {
                    lhs_exprs[0].pos()
                } else {
                    0
                };
                let lhs = self.gen_lhs_list(lhs_exprs, is_def)?;
                let ghost m1 = self@;
                match assign_op(*token) {
                    Some(code) => {
                        if lhs_exprs.len() == 1 && rhs_exprs.len() == 1 {
                            self.gen_op_assign(lhs[0], code, &rhs_exprs[0])?;
                            proof {
                                lemma_gen_extends_trans(m0, m1, self@);
                            }
                            Ok(())
                        } else {
                            Err(
                                GenError {
                                    pos,
                                    kind: ErrorKind::AssignMismatch(
                                        lhs_exprs.len(),
                                        rhs_exprs.len(),
                                    ),
                                },
                            )
                        }
                    },
                    None => {
                        self.gen_assign_def_var(&lhs, rhs_exprs, None, pos)?;
                        proof {
                            lemma_gen_extends_trans(m0, m1, self@);
                        }
                        Ok(())
                    },
                }
            },
            Stmt::IncDec(expr, inc) => {
                let target = self.gen_lhs(expr, false)?;
                let ghost m1 = self@;
                self.emit_inst(Opcode::PUSH_IMM, 1);
                let ghost m2 = self@;
                proof {
                    if let LeftHandSide::Primitive(idx) = target {
                        lemma_loadable(m1, m2, idx);
                    }
                }
                self.emit_op_store(
                    target,
                    if *inc {
                        Opcode::ADD
                    } else {
                        Opcode::SUB
                    },
                );
                proof {
                    lemma_gen_extends_trans(m0, m1, m2);
                    lemma_gen_extends_trans(m0, m2, self@);
                }
                Ok(())
            },
            _ => {
                proof {
                    lemma_gen_extends_refl(m0);
                }
                Ok(())
            },
        }
    }
}

} // verus!
