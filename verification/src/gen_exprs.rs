//! Expressions: each kind is lowered to the code that computes its value.

use vstd::prelude::*;
use crate::ast::{BasicLit, BinaryOp, Expr, Field, FuncType, Ident, Stmt, UnaryOp};
use crate::codegen::{CodeGen, opt_fields};
use crate::model::{
    frame, gen_extends, GenView, lemma_cur_extends, lemma_gen_extends_trans, refines,
};
use crate::objects::lemma_objects_extends_trans;
use crate::opcode::{CodeWord, Opcode};
use crate::rules::{
    binary_opcode, gen_array_type, gen_basic_lit, gen_binary, gen_bound, gen_call,
    gen_composite_lit, gen_expr, gen_exprs, gen_func_def, gen_func_lit, gen_ident, gen_index,
    gen_selector, gen_slice, gen_star, gen_stmts, gen_unary, short_circuit_jump,
    short_circuit_shape, unary_opcode,
};
use crate::value::{ErrorKind, FunctionKey, GenError, Value};

verus! {

/// The opcode of a binary operator.
pub fn binary_op(op: BinaryOp) -> (r: Opcode)
    ensures
        r == binary_opcode(op),
        r.spec_operands() == 0,
{
    match op {
        BinaryOp::Add => Opcode::ADD,
        BinaryOp::Sub => Opcode::SUB,
        BinaryOp::Mul => Opcode::MUL,
        BinaryOp::Quo => Opcode::QUO,
        BinaryOp::Rem => Opcode::REM,
        BinaryOp::And => Opcode::AND,
        BinaryOp::Or => Opcode::OR,
        BinaryOp::Xor => Opcode::XOR,
        BinaryOp::Shl => Opcode::SHL,
        BinaryOp::Shr => Opcode::SHR,
        BinaryOp::AndNot => Opcode::AND_NOT,
        BinaryOp::LAnd => Opcode::PUSH_FALSE,
        BinaryOp::LOr => Opcode::PUSH_TRUE,
        BinaryOp::Not => Opcode::NOT,
        BinaryOp::Eql => Opcode::EQL,
        BinaryOp::Lss => Opcode::LSS,
        BinaryOp::Gtr => Opcode::GTR,
        BinaryOp::Neq => Opcode::NEQ,
        BinaryOp::Leq => Opcode::LEQ,
        BinaryOp::Geq => Opcode::GEQ,
    }
}

/// The opcode of a unary operator that is lowered.
pub fn unary_op(op: UnaryOp) -> (r: Option<Opcode>)
    ensures
        r == unary_opcode(op),
        r matches Some(code) ==> code.spec_operands() == 0,
{
    match op {
        UnaryOp::And => Some(Opcode::REF),
        UnaryOp::Add => Some(Opcode::UNARY_ADD),
        UnaryOp::Sub => Some(Opcode::UNARY_SUB),
        UnaryOp::Xor => Some(Opcode::UNARY_XOR),
        UnaryOp::Not => None,
        UnaryOp::Arrow => None,
    }
}

/// The jump that `&&` or `||` makes when the left operand decides the result.
pub fn short_circuit_op(op: BinaryOp) -> (r: Option<Opcode>)
    ensures
        r == short_circuit_jump(op),
        r matches Some(code) ==> code.spec_operands() == 1 && code.spec_is_jump(),
{
    match op {
        BinaryOp::LAnd => Some(Opcode::JUMP_IF_NOT),
        BinaryOp::LOr => Some(Opcode::JUMP_IF),
        _ => None,
    }
}

impl CodeGen {
    /// Lowers an expression.
    pub fn visit_expr(&mut self, expr: &Expr) -> (r: Result<(), GenError>)
        requires
            old(self).active(),
        ensures
            refines(r, final(self)@, gen_expr(old(self)@, *expr)),
            final(self).active(),
            frame(old(self)@, final(self)@),
            r is Ok ==> gen_extends(old(self)@, final(self)@),
        decreases expr, 1nat,
    {
        reveal_with_fuel(gen_expr, 1);
        reveal_with_fuel(gen_func_lit, 1);
        reveal_with_fuel(gen_selector, 1);
        reveal_with_fuel(gen_index, 1);
        reveal_with_fuel(gen_slice, 1);
        reveal_with_fuel(gen_call, 1);
        reveal_with_fuel(gen_star, 1);
        reveal_with_fuel(gen_unary, 1);
        reveal_with_fuel(gen_binary, 1);
        match expr {
            Expr::Ident(ident) => self.visit_expr_ident(ident),
            Expr::BasicLit(lit) => self.visit_expr_basic_lit(lit),
            Expr::FuncLit(_, _, _) => self.visit_expr_func_lit(expr),
            Expr::CompositeLit(_, _, _) => self.visit_expr_composit_lit(expr),
            Expr::Paren(_, x) => self.visit_expr(x),
            Expr::Selector(_, _) => self.visit_expr_selector(expr),
            Expr::Index(_, _) => self.visit_expr_index(expr),
            Expr::Slice(_, _, _, _) => self.visit_expr_slice(expr),
            Expr::Call(_, _, _) => self.visit_expr_call(expr),
            Expr::Star(_, _) => self.visit_expr_star(expr),
            Expr::Unary(_, _, _) => self.visit_expr_unary(expr),
            Expr::Binary(_, _, _) => self.visit_expr_binary(expr),
            Expr::Array(_, _, _) => self.visit_expr_array_type(expr),
            _ => Err(GenError { pos: expr.pos(), kind: ErrorKind::NotImplemented }),
        }
    }

    /// Lowers an identifier: a load from its address.
    pub fn visit_expr_ident(&mut self, ident: &Ident) -> (r: Result<(), GenError>)
        requires
            old(self).active(),
        ensures
            refines(r, final(self)@, gen_ident(old(self)@, *ident)),
            final(self).active(),
            frame(old(self)@, final(self)@),
            r is Ok ==> gen_extends(old(self)@, final(self)@),
    {
        reveal(gen_ident);
        let ghost m0 = self@;
        let index = self.resolve_ident(ident)?;
        let ghost m1 = self@;
        self.emit_load(index);
        proof {
            lemma_gen_extends_trans(m0, m1, self@);
        }
        Ok(())
    }

    /// Lowers a basic literal: a load of its value.
    pub fn visit_expr_basic_lit(&mut self, blit: &BasicLit) -> (r: Result<(), GenError>)
        requires
            old(self).active(),
        ensures
            refines(r, final(self)@, gen_basic_lit(old(self)@, *blit)),
            final(self).active(),
            frame(old(self)@, final(self)@),
            r is Ok ==> gen_extends(old(self)@, final(self)@),
    {
        reveal(gen_basic_lit);
        let ghost m0 = self@;
        let val = self.get_const_value(None, blit)?;
        let ghost m1 = self@;
        self.load_const(blit.pos, val)?;
        proof {
            lemma_gen_extends_trans(m0, m1, self@);
        }
        Ok(())
    }

    /// Lowers a function literal: the function is added as a constant, and
    /// a closure is made of it.
    pub fn visit_expr_func_lit(&mut self, expr: &Expr) -> (r: Result<(), GenError>)
        requires
            old(self).active(),
        ensures
            refines(r, final(self)@, gen_func_lit(old(self)@, *expr)),
            final(self).active(),
            frame(old(self)@, final(self)@),
            r is Ok ==> gen_extends(old(self)@, final(self)@),
        decreases expr, 0nat,
    {
        reveal_with_fuel(gen_func_lit, 1);
        reveal_with_fuel(gen_func_def, 1);
        let ghost m0 = self@;
        match expr {
            Expr::FuncLit(pos, ft, body) => {
                let fkey = self.gen_func_def(None, ft, body, *pos)?;
                let ghost m1 = self@;
                self.load_const(*pos, Value::Function(fkey))?;
                let ghost m2 = self@;
                self.emit_code(Opcode::NEW);
                proof {
                    lemma_gen_extends_trans(m0, m1, m2);
                    lemma_gen_extends_trans(m0, m2, self@);
                }
                Ok(())
            },
            _ => Err(GenError { pos: expr.pos(), kind: ErrorKind::NotImplemented }),
        }
    }

    /// Lowers a composite literal: a load of the slice or map object that
    /// holds its elements.
    pub fn visit_expr_composit_lit(&mut self, expr: &Expr) -> (r: Result<(), GenError>)
        requires
            old(self).active(),
        ensures
            refines(r, final(self)@, gen_composite_lit(old(self)@, *expr)),
            final(self).active(),
            frame(old(self)@, final(self)@),
            r is Ok ==> gen_extends(old(self)@, final(self)@),
    {
        reveal(gen_composite_lit);
        let ghost m0 = self@;
        match expr {
            Expr::CompositeLit(pos, typ, _) => match typ {
                Some(t) => {
                    let val = self.get_comp_value(t, expr)?;
                    let ghost m1 = self@;
                    self.load_const(*pos, val)?;
                    proof {
                        lemma_gen_extends_trans(m0, m1, self@);
                    }
                    Ok(())
                },
                None => Err(GenError { pos: *pos, kind: ErrorKind::NotImplemented }),
            },
            _ => Err(GenError { pos: expr.pos(), kind: ErrorKind::NotImplemented }),
        }
    }

    /// Lowers a selector `x.sel`: the operand, the name as a string
    /// constant, and `LOAD_FIELD`.
    pub fn visit_expr_selector(&mut self, expr: &Expr) -> (r: Result<(), GenError>)
        requires
            old(self).active(),
        ensures
            refines(r, final(self)@, gen_selector(old(self)@, *expr)),
            final(self).active(),
            frame(old(self)@, final(self)@),
            r is Ok ==> gen_extends(old(self)@, final(self)@),
        decreases expr, 0nat,
    {
        reveal_with_fuel(gen_selector, 1);
        reveal_with_fuel(gen_expr, 1);
        let ghost m0 = self@;
        match expr {
            Expr::Selector(x, sel) => {
                self.visit_expr(x)?;
                let ghost m1 = self@;
                self.gen_push_ident_str(sel)?;
                let ghost m2 = self@;
                self.emit_code(Opcode::LOAD_FIELD);
                proof {
                    lemma_gen_extends_trans(m0, m1, m2);
                    lemma_gen_extends_trans(m0, m2, self@);
                }
                Ok(())
            },
            _ => Err(GenError { pos: expr.pos(), kind: ErrorKind::NotImplemented }),
        }
    }

    /// Lowers an index expression `x[i]`: the operand, the index, and
    /// `LOAD_FIELD`.
    pub fn visit_expr_index(&mut self, expr: &Expr) -> (r: Result<(), GenError>)
        requires
            old(self).active(),
        ensures
            refines(r, final(self)@, gen_index(old(self)@, *expr)),
            final(self).active(),
            frame(old(self)@, final(self)@),
            r is Ok ==> gen_extends(old(self)@, final(self)@),
        decreases expr, 0nat,
    {
        reveal_with_fuel(gen_index, 1);
        reveal_with_fuel(gen_expr, 1);
        let ghost m0 = self@;
        match expr {
            Expr::Index(x, i) => {
                self.visit_expr(x)?;
                let ghost m1 = self@;
                self.visit_expr(i)?;
                let ghost m2 = self@;
                self.emit_code(Opcode::LOAD_FIELD);
                proof {
                    lemma_gen_extends_trans(m0, m1, m2);
                    lemma_gen_extends_trans(m0, m2, self@);
                }
                Ok(())
            },
            _ => Err(GenError { pos: expr.pos(), kind: ErrorKind::NotImplemented }),
        }
    }

    /// Lowers `*x`: the operand and `DEREF`.
    pub fn visit_expr_star(&mut self, expr: &Expr) -> (r: Result<(), GenError>)
        requires
            old(self).active(),
        ensures
            refines(r, final(self)@, gen_star(old(self)@, *expr)),
            final(self).active(),
            frame(old(self)@, final(self)@),
            r is Ok ==> gen_extends(old(self)@, final(self)@),
        decreases expr, 0nat,
    {
        reveal_with_fuel(gen_star, 1);
        reveal_with_fuel(gen_expr, 1);
        let ghost m0 = self@;
        match expr {
            Expr::Star(_, x) => {
                self.visit_expr(x)?;
                let ghost m1 = self@;
                self.emit_code(Opcode::DEREF);
                proof {
                    lemma_gen_extends_trans(m0, m1, self@);
                }
                Ok(())
            },
            _ => Err(GenError { pos: expr.pos(), kind: ErrorKind::NotImplemented }),
        }
    }

    /// Lowers a unary expression: the operand and the operator's opcode.
    pub fn visit_expr_unary(&mut self, expr: &Expr) -> (r: Result<(), GenError>)
        requires
            old(self).active(),
        ensures
            refines(r, final(self)@, gen_unary(old(self)@, *expr)),
            final(self).active(),
            frame(old(self)@, final(self)@),
            r is Ok ==> gen_extends(old(self)@, final(self)@),
        decreases expr, 0nat,
    {
        reveal_with_fuel(gen_unary, 1);
        reveal_with_fuel(gen_expr, 1);
        let ghost m0 = self@;
        match expr {
            Expr::Unary(pos, op, x) => {
                self.visit_expr(x)?;
                let ghost m1 = self@;
                match unary_op(*op) {
                    Some(code) => {
                        self.emit_code(code);
                        proof {
                            lemma_gen_extends_trans(m0, m1, self@);
                        }
                        Ok(())
                    },
                    None => Err(GenError { pos: *pos, kind: ErrorKind::NotImplemented }),
                }
            },
            _ => Err(GenError { pos: expr.pos(), kind: ErrorKind::NotImplemented }),
        }
    }

    /// Lowers a type that stands as a value: a load of the type.
    pub fn visit_expr_array_type(&mut self, expr: &Expr) -> (r: Result<(), GenError>)
        requires
            old(self).active(),
        ensures
            refines(r, final(self)@, gen_array_type(old(self)@, *expr)),
            final(self).active(),
            frame(old(self)@, final(self)@),
            r is Ok ==> gen_extends(old(self)@, final(self)@),
    {
        reveal(gen_array_type);
        let ghost m0 = self@;
        let t = self.get_or_gen_type(expr)?;
        let ghost m1 = self@;
        self.load_const(expr.pos(), Value::Type(t))?;
        proof {
            lemma_gen_extends_trans(m0, m1, self@);
        }
        Ok(())
    }

    /// Lowers expressions in order.
    pub fn visit_exprs(&mut self, exprs: &Vec<Expr>) -> (r: Result<(), GenError>)
        requires
            old(self).active(),
        ensures
            refines(r, final(self)@, gen_exprs(old(self)@, *exprs, 0)),
            final(self).active(),
            frame(old(self)@, final(self)@),
            r is Ok ==> gen_extends(old(self)@, final(self)@),
        decreases exprs, exprs.len(),
    {
        reveal_with_fuel(gen_exprs, 1);
        let ghost m0 = self@;
        let mut i: usize = 0;
        proof {
            crate::model::lemma_gen_extends_refl(m0);
        }
        while i < exprs.len()
            invariant
                i <= exprs.len(),
                self.active(),
                m0 == old(self)@,
                gen_extends(m0, self@),
                frame(m0, self@),
                gen_exprs(m0, *exprs, 0) == gen_exprs(self@, *exprs, i as int),
            decreases exprs.len() - i,
        {
            reveal_with_fuel(gen_exprs, 1);
            reveal_with_fuel(gen_expr, 1);
            let ghost m1 = self@;
            self.visit_expr(&exprs[i])?;
            proof {
                lemma_gen_extends_trans(m0, m1, self@);
            }
            i = i + 1;
        }
        Ok(())
    }

    /// Lowers an operand of a slice expression that may be left out.
    fn gen_bound(&mut self, bound: &Option<Box<Expr>>) -> (r: Result<(), GenError>)
        requires
            old(self).active(),
        ensures
            refines(r, final(self)@, gen_bound(old(self)@, *bound)),
            final(self).active(),
            frame(old(self)@, final(self)@),
            r is Ok ==> gen_extends(old(self)@, final(self)@),
        decreases bound, 2nat,
    {
        reveal_with_fuel(gen_bound, 1);
        reveal_with_fuel(gen_expr, 1);
        match bound {
            Some(x) => self.visit_expr(x),
            None => {
                self.emit_code(Opcode::PUSH_NIL);
                Ok(())
            },
        }
    }

    /// Lowers a slice expression `x[low:high]` or `x[low:high:max]`.
    pub fn visit_expr_slice(&mut self, expr: &Expr) -> (r: Result<(), GenError>)
        requires
            old(self).active(),
        ensures
            refines(r, final(self)@, gen_slice(old(self)@, *expr)),
            final(self).active(),
            frame(old(self)@, final(self)@),
            r is Ok ==> gen_extends(old(self)@, final(self)@),
        decreases expr, 0nat,
    {
        reveal_with_fuel(gen_slice, 1);
        reveal_with_fuel(gen_expr, 1);
        reveal_with_fuel(gen_bound, 1);
        let ghost m0 = self@;
        match expr {
            Expr::Slice(x, low, high, max) => {
                self.visit_expr(x)?;
                let ghost m1 = self@;
                self.gen_bound(low)?;
                let ghost m2 = self@;
                self.gen_bound(high)?;
                let ghost m3 = self@;
                proof {
                    lemma_gen_extends_trans(m0, m1, m2);
                    lemma_gen_extends_trans(m0, m2, m3);
                }
                match max {
                    None => {
                        self.emit_code(Opcode::SLICE);
                        proof {
                            lemma_gen_extends_trans(m0, m3, self@);
                        }
                    },
                    Some(y) => {
                        self.visit_expr(y)?;
                        let ghost m4 = self@;
                        self.emit_code(Opcode::SLICE_FULL);
                        proof {
                            lemma_gen_extends_trans(m0, m3, m4);
                            lemma_gen_extends_trans(m0, m4, self@);
                        }
                    },
                }
                Ok(())
            },
            _ => Err(GenError { pos: expr.pos(), kind: ErrorKind::NotImplemented }),
        }
    }

    /// Lowers a call. A built-in function becomes its own opcode after the
    /// arguments. Any other callee is lowered first, then the arguments
    /// between `PRE_CALL` and `CALL`.
    pub fn visit_expr_call(&mut self, expr: &Expr) -> (r: Result<(), GenError>)
        requires
            old(self).active(),
        ensures
            refines(r, final(self)@, gen_call(old(self)@, *expr)),
            final(self).active(),
            frame(old(self)@, final(self)@),
            r is Ok ==> gen_extends(old(self)@, final(self)@),
        decreases expr, 0nat,
    {
        reveal_with_fuel(gen_call, 1);
        reveal_with_fuel(gen_exprs, 1);
        reveal_with_fuel(gen_expr, 1);
        let ghost m0 = self@;
        let (func, params, ellipsis) = match expr {
            Expr::Call(f, args, ellipsis) => (f, args, *ellipsis),
            _ => {
                return Err(GenError { pos: expr.pos(), kind: ErrorKind::NotImplemented });
            },
        };
        // check if this is a built in function first
        if let Expr::Ident(ident) = &**func {
            if ident.entity.is_none() {
                return match self.built_in_func_index(&ident.name) {
                    Some(i) => {
                        self.visit_exprs(params)?;
                        let ghost m1 = self@;
                        let (opcode, params_count, variadic) = self.built_in(i);
                        if !variadic {
                            self.emit_code(opcode);
                        } else {
                            // do not pack params if there is ellipsis
                            let count: i128 = if ellipsis {
                                0
                            } else {
                                params_count as i128 - 1 - params.len() as i128
                            };
                            if count < -32768 || count > 32767 {
                                return Err(
                                    GenError { pos: ident.pos, kind: ErrorKind::Overflow },
                                );
                            }
                            self.emit_inst(opcode, count as i16);
                        }
                        proof {
                            lemma_gen_extends_trans(m0, m1, self@);
                        }
                        Ok(())
                    },
                    None => Err(GenError { pos: ident.pos, kind: ErrorKind::Undefined }),
                };
            }
        }
        // any other function
        self.visit_expr(func)?;
        let ghost m1 = self@;
        self.emit_code(Opcode::PRE_CALL);
        let ghost m2 = self@;
        self.visit_exprs(params)?;
        let ghost m3 = self@;
        // do not pack params if there is ellipsis
        self.emit_inst(
            Opcode::CALL,
            if ellipsis {
                1
            } else {
                0
            },
        );
        proof {
            lemma_gen_extends_trans(m0, m1, m2);
            lemma_gen_extends_trans(m0, m2, m3);
            lemma_gen_extends_trans(m0, m3, self@);
        }
        Ok(())
    }

    /// Lowers a binary expression. `&&` and `||` jump over the right operand
    /// when the left one decides the result: the jump after the left operand
    /// aims at the last word, which pushes that result.
    pub fn visit_expr_binary(&mut self, expr: &Expr) -> (r: Result<(), GenError>)
        requires
            old(self).active(),
        ensures
            refines(r, final(self)@, gen_binary(old(self)@, *expr)),
            final(self).active(),
            frame(old(self)@, final(self)@),
            r is Ok ==> gen_extends(old(self)@, final(self)@),
            r is Ok ==> (*expr matches Expr::Binary(a, op, b) ==> short_circuit_jump(op) is Some
                ==> short_circuit_shape(old(self)@, final(self)@, *a, op, *b)),
        decreases expr, 0nat,
    {
        reveal_with_fuel(gen_binary, 1);
        reveal_with_fuel(gen_expr, 1);
        let ghost m0 = self@;
        let (left, op, right) = match expr {
            Expr::Binary(a, op, b) => (a, *op, b),
            _ => {
                return Err(GenError { pos: expr.pos(), kind: ErrorKind::NotImplemented });
            },
        };
        self.visit_expr(left)?;
        let ghost m1 = self@;
        let code = binary_op(op);
        // handles short circuit
        match short_circuit_op(op) {
            Some(jump) => {
                let pos = left.pos();
                let at: usize = self.here();
                self.emit_inst(jump, 0);  // place holder
                let ghost m2 = self@;
                self.visit_expr(right)?;
                let ghost m3 = self@;
                let skip: usize = self.here();
                self.emit_inst(Opcode::JUMP, 0);
                let ghost m4 = self@;
                self.emit_code(code);
                let ghost m5 = self@;
                let end: usize = self.here();
                proof {
                    lemma_gen_extends_trans(m0, m1, m2);
                    lemma_gen_extends_trans(m0, m2, m3);
                    lemma_gen_extends_trans(m0, m3, m4);
                    lemma_gen_extends_trans(m0, m4, m5);
                    lemma_cur_extends(m0, m1);
                    lemma_cur_extends(m2, m3);
                }
                self.patch(pos, skip, end, Ghost(m0))?;
                let ghost m6 = self@;
                self.patch(pos, at, end - 1, Ghost(m0))?;
                proof {
                    let c = self@.cur().code;
                    assert(gen_expr(m0, **left) == Ok::<(GenView, ()), crate::model::Failure>((m1, ())));
                    assert(gen_expr(m2, **right) == Ok::<(GenView, ()), crate::model::Failure>((m3, ())));
                    assert(m3.cur().code[at as int] == m2.cur().code[at as int]);
                    assert(c[at as int] == CodeWord::Code(jump));
                    assert(c[skip as int] == CodeWord::Code(Opcode::JUMP));
                    assert(c[end - 1] == CodeWord::Code(code));
                    assert(c[at + 1] == CodeWord::Data((end - 1 - (at + 2)) as i16));
                    assert(c[skip + 1] == CodeWord::Data((end - (skip + 2)) as i16));
                    assert(short_circuit_shape(m0, self@, **left, op, **right));
                }
                Ok(())
            },
            None => {
                self.visit_expr(right)?;
                let ghost m2 = self@;
                self.emit_code(code);
                proof {
                    lemma_gen_extends_trans(m0, m1, m2);
                    lemma_gen_extends_trans(m0, m2, self@);
                }
                Ok(())
            },
        }
    }

    /// Compiles a function: its type, a new function object with the locals
    /// of the results and parameters, the body, and a `RETURN` after it.
    /// Where the body fails, the function is completed all the same, so that
    /// the functions under construction are those before the call.
    pub fn gen_func_def(
        &mut self,
        recv: Option<&Vec<Field>>,
        typ: &FuncType,
        body: &Vec<Stmt>,
        pos: usize,
    ) -> (r: Result<FunctionKey, GenError>)
        requires
            old(self).active(),
        ensures
            refines(r, final(self)@, gen_func_def(old(self)@, opt_fields(recv), *typ, *body, pos)),
            final(self).active(),
            frame(old(self)@, final(self)@),
            r is Ok ==> gen_extends(old(self)@, final(self)@),
            r is Ok ==> r->Ok_0 < final(self)@.objs.functions.len(),
        decreases body, body.len() + 1,
    {
        reveal_with_fuel(gen_func_def, 1);
        let ghost m0 = self@;
        let recv_types = match recv {
            Some(fields) => self.field_types(fields, Vec::new(), false)?,
            None => {
                proof {
                    crate::model::lemma_gen_extends_refl(m0);
                }
                Vec::new()
            },
        };
        let ghost m1 = self@;
        let ftype = self.closure_type(recv_types, typ)?;
        let ghost m2 = self@;
        let variadic = self.is_variadic(ftype);
        let fkey = self.begin_function(ftype, variadic, recv, typ, pos)?;
        let ghost m3 = self@;
        // process function body
        let lowered = self.visit_stmt_block(body);
        let ghost m4 = self@;
        // the function is completed whether its body was lowered or not;
        // the `RETURN` will not be executed if it's redundant
        self.end_function();
        proof {
            assert(self@.func_stack =~= m0.func_stack);
            if lowered is Ok {
                lemma_gen_extends_trans(m0, m1, m2);
                crate::model::lemma_gen_extends_elim(m0, m2);
                crate::model::lemma_gen_extends_elim(m3, m4);
                lemma_objects_extends_trans(m0.objs, m2.objs, m3.objs);
                lemma_objects_extends_trans(m0.objs, m3.objs, m4.objs);
                lemma_objects_extends_trans(m0.objs, m4.objs, self@.objs);
                crate::model::lemma_gen_extends_intro(m0, self@);
            }
        }
        match lowered {
            Ok(()) => Ok(fkey),
            Err(e) => Err(e),
        }
    }
}

} // verus!
