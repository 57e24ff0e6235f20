//! Constants: the values of basic and composite literals.

use vstd::prelude::*;
use crate::ast::{BasicLit, Expr, LitKind};
use crate::codegen::CodeGen;
use crate::literal::{convert_float, parse_char, parse_int, parse_string};
use crate::model::{
    frame, gen_extends, lemma_gen_extends_trans, refines,
};
use crate::rules::{
    basic_literal_value, char_value, comp_value, const_value, float_value, int_value, literal_value,
    map_elements, map_inserts, slice_elements, string_value, truncated_value, typed_const,
    untyped_const,
};
use crate::value::{ErrorKind, GenError, TypeError, Value};

verus! {

/// The expression that an optional reference refers to.
pub open spec fn opt_expr(e: Option<&Expr>) -> Option<Expr> {
    match e {
        Some(x) => Some(*x),
        None => None,
    }
}

/// The integer that an integer literal denotes.
fn int_value_of(lit: &BasicLit) -> (r: Result<Value, GenError>)
    ensures
        forall|m: crate::model::GenView| refines(r, m, #[trigger] int_value(m, *lit)),
{
    match parse_int(lit.text.as_str()) {
        Ok(v) => Ok(Value::Int(v)),
        Err(t) => Err(GenError { pos: lit.pos, kind: ErrorKind::Type(t) }),
    }
}

/// The code of the character that a character literal denotes.
fn char_value_of(lit: &BasicLit) -> (r: Result<Value, GenError>)
    ensures
        forall|m: crate::model::GenView| refines(r, m, #[trigger] char_value(m, *lit)),
{
    match parse_char(lit.text.as_str()) {
        Ok(v) => Ok(Value::Int(v)),
        Err(t) => Err(GenError { pos: lit.pos, kind: ErrorKind::Type(t) }),
    }
}

/// The double that a numeric literal denotes.
fn float_value_of(lit: &BasicLit) -> (r: Result<Value, GenError>)
    ensures
        forall|m: crate::model::GenView| refines(r, m, #[trigger] float_value(m, *lit)),
{
    match lit.float_bits {
        Some(bits) => Ok(Value::Float64(bits)),
        None => Err(GenError { pos: lit.pos, kind: ErrorKind::Type(TypeError::InvalidLiteral) }),
    }
}

/// The integer that a float literal denotes, where it denotes one.
fn truncated_value_of(lit: &BasicLit) -> (r: Result<Value, GenError>)
    ensures
        forall|m: crate::model::GenView| refines(r, m, #[trigger] truncated_value(m, *lit)),
{
    match lit.float_bits {
        Some(bits) => match convert_float(bits) {
            Ok(v) => Ok(Value::Int(v)),
            Err(t) => Err(GenError { pos: lit.pos, kind: ErrorKind::Type(t) }),
        },
        None => Err(GenError { pos: lit.pos, kind: ErrorKind::Type(TypeError::InvalidLiteral) }),
    }
}

impl CodeGen {
    /// The string object of a string literal.
    fn string_value_of(&mut self, lit: &BasicLit) -> (r: Result<Value, GenError>)
        requires
            old(self).active(),
        ensures
            refines(r, final(self)@, string_value(old(self)@, *lit)),
            final(self).active(),
            frame(old(self)@, final(self)@),
            r is Ok ==> gen_extends(old(self)@, final(self)@),
    {
        reveal(crate::rules::string_value);
        match parse_string(lit.text.as_str()) {
            Ok(s) => Ok(self.new_str(s)),
            Err(t) => Err(GenError { pos: lit.pos, kind: ErrorKind::Type(t) }),
        }
    }

    /// The value of a basic literal, of the declared type where one is given.
    /// This is a small part of the evaluation of constants: a literal and
    /// the zero value of its type decide.
    pub fn get_const_value(&mut self, typ: Option<&Expr>, blit: &BasicLit) -> (r: Result<
        Value,
        GenError,
    >)
        requires
            old(self).active(),
        ensures
            refines(r, final(self)@, const_value(old(self)@, opt_expr(typ), *blit)),
            final(self).active(),
            frame(old(self)@, final(self)@),
            r is Ok ==> gen_extends(old(self)@, final(self)@),
    {
        reveal(crate::rules::const_value);
        reveal(crate::rules::typed_const);
        reveal(crate::rules::untyped_const);
        proof {
            crate::model::lemma_gen_extends_refl(self@);
        }
        match typ {
            None => match blit.kind {
                LitKind::Int => int_value_of(blit),
                LitKind::Float => float_value_of(blit),
                LitKind::Imag => Err(GenError { pos: blit.pos, kind: ErrorKind::NotImplemented }),
                LitKind::Char => char_value_of(blit),
                LitKind::Str => self.string_value_of(blit),
            },
            Some(t) => {
                let zero = self.get_type_default(t)?;
                let ghost m1 = self@;
                let r = match (zero, blit.kind) {
                    (Value::Int(_), LitKind::Float) => truncated_value_of(blit),
                    (Value::Int(_), LitKind::Int) => int_value_of(blit),
                    (Value::Int(_), LitKind::Char) => char_value_of(blit),
                    (Value::Float64(_), LitKind::Float) => float_value_of(blit),
                    (Value::Float64(_), LitKind::Int) => float_value_of(blit),
                    (Value::Float64(_), LitKind::Char) => float_value_of(blit),
                    (Value::Str(_), LitKind::Str) => self.string_value_of(blit),
                    _ => Err(
                        GenError { pos: blit.pos, kind: ErrorKind::Type(TypeError::InvalidLiteral) },
                    ),
                };
                proof {
                    if r is Ok {
                        if self@ == m1 {
                        } else {
                            lemma_gen_extends_trans(old(self)@, m1, self@);
                        }
                    }
                }
                r
            },
        }
    }

    /// The value of an expression that must be a basic literal.
    pub fn value_from_basic_literal(&mut self, typ: Option<&Expr>, expr: &Expr) -> (r: Result<
        Value,
        GenError,
    >)
        requires
            old(self).active(),
        ensures
            refines(r, final(self)@, basic_literal_value(old(self)@, opt_expr(typ), *expr)),
            final(self).active(),
            frame(old(self)@, final(self)@),
            r is Ok ==> gen_extends(old(self)@, final(self)@),
    {
        reveal(crate::rules::basic_literal_value);
        match expr {
            Expr::BasicLit(lit) => self.get_const_value(typ, lit),
            _ => Err(
                GenError { pos: expr.pos(), kind: ErrorKind::Type(TypeError::ComplexConstant) },
            ),
        }
    }

    /// The value of a literal of a type: of a composite literal where the
    /// type is an array, map or struct type, else of a basic literal.
    pub fn value_from_literal(&mut self, typ: &Expr, expr: &Expr) -> (r: Result<Value, GenError>)
        requires
            old(self).active(),
        ensures
            refines(r, final(self)@, literal_value(old(self)@, *typ, *expr)),
            final(self).active(),
            frame(old(self)@, final(self)@),
            r is Ok ==> gen_extends(old(self)@, final(self)@),
        decreases expr, 2nat,
    {
        reveal_with_fuel(literal_value, 1);
        reveal_with_fuel(comp_value, 1);
        match typ {
            Expr::Array(_, _, _) | Expr::MapType(_, _, _) | Expr::Struct(_, _) => {
                self.value_from_comp_literal(typ, expr)
            },
            _ => self.value_from_basic_literal(Some(typ), expr),
        }
    }

    /// The value of an expression that must be a composite literal.
    pub fn value_from_comp_literal(&mut self, typ: &Expr, expr: &Expr) -> (r: Result<
        Value,
        GenError,
    >)
        requires
            old(self).active(),
        ensures
            refines(r, final(self)@, comp_value(old(self)@, *typ, *expr)),
            final(self).active(),
            frame(old(self)@, final(self)@),
            r is Ok ==> gen_extends(old(self)@, final(self)@),
        decreases expr, 1nat,
    {
        reveal_with_fuel(comp_value, 1);
        match expr {
            Expr::CompositeLit(_, _, _) => self.get_comp_value(typ, expr),
            _ => Err(
                GenError { pos: expr.pos(), kind: ErrorKind::Type(TypeError::ComplexConstant) },
            ),
        }
    }

    /// The value of the composite literal `literal` of the type `typ`: a
    /// slice object or a map object that holds the elements.
    pub fn get_comp_value(&mut self, typ: &Expr, literal: &Expr) -> (r: Result<Value, GenError>)
        requires
            old(self).active(),
        ensures
            refines(r, final(self)@, comp_value(old(self)@, *typ, *literal)),
            final(self).active(),
            frame(old(self)@, final(self)@),
            r is Ok ==> gen_extends(old(self)@, final(self)@),
        decreases literal, 0nat,
    {
        reveal_with_fuel(comp_value, 1);
        reveal_with_fuel(slice_elements, 1);
        reveal_with_fuel(map_elements, 1);
        let ghost m0 = self@;
        let elts = match literal {
            Expr::CompositeLit(_, _, elts) => elts,
            _ => {
                return Err(
                    GenError {
                        pos: literal.pos(),
                        kind: ErrorKind::Type(TypeError::ComplexConstant),
                    },
                );
            },
        };
        match typ {
            Expr::Array(pos, len, elt) => {
                if len.is_some() {
                    return Err(GenError { pos: *pos, kind: ErrorKind::NotImplemented });
                }
                let mut vals: Vec<Value> = Vec::new();
                let mut i: usize = 0;
                proof {
                    crate::model::lemma_gen_extends_refl(m0);
                }
                while i < elts.len()
                    invariant
                        i <= elts.len(),
                        self.active(),
                        m0 == old(self)@,
                        literal matches Expr::CompositeLit(_, _, es) && es == elts,
                        typ matches Expr::Array(_, l, t) && t == elt && l is None,
                        gen_extends(m0, self@),
                        frame(m0, self@),
                        slice_elements(m0, **elt, *elts, 0, Seq::empty()) == slice_elements(
                            self@,
                            **elt,
                            *elts,
                            i as int,
                            vals@,
                        ),
                    decreases elts.len() - i,
                {
                    reveal_with_fuel(comp_value, 1);
                    reveal_with_fuel(slice_elements, 1);
                    reveal_with_fuel(literal_value, 1);
                    let ghost m1 = self@;
                    let v = self.value_from_literal(elt, &elts[i])?;
                    vals.push(v);
                    proof {
                        lemma_gen_extends_trans(m0, m1, self@);
                    }
                    i = i + 1;
                }
                let ghost m2 = self@;
                let r = self.new_slice(vals);
                proof {
                    lemma_gen_extends_trans(m0, m2, self@);
                }
                Ok(r)
            },
            Expr::MapType(_, k, v) => {
                let mut entries: Vec<(Value, Value)> = Vec::new();
                let mut i: usize = 0;
                proof {
                    crate::model::lemma_gen_extends_refl(m0);
                }
                while i < elts.len()
                    invariant
                        i <= elts.len(),
                        self.active(),
                        m0 == old(self)@,
                        literal matches Expr::CompositeLit(_, _, es) && es == elts,
                        typ matches Expr::MapType(_, kt, vt) && kt == k && vt == v,
                        gen_extends(m0, self@),
                        frame(m0, self@),
                        map_elements(m0, **k, **v, *elts, 0, Seq::empty()) == map_elements(
                            self@,
                            **k,
                            **v,
                            *elts,
                            i as int,
                            entries@,
                        ),
                    decreases elts.len() - i,
                {
                    reveal_with_fuel(comp_value, 1);
                    reveal_with_fuel(map_elements, 1);
                    reveal_with_fuel(literal_value, 1);
                    let ghost m1 = self@;
                    match &elts[i] {
                        Expr::KeyValue(key, val) => {
                            let kv = self.value_from_literal(k, key)?;
                            let ghost m2 = self@;
                            let vv = self.value_from_literal(v, val)?;
                            entries.push((kv, vv));
                            proof {
                                lemma_gen_extends_trans(m0, m1, m2);
                                lemma_gen_extends_trans(m0, m2, self@);
                            }
                        },
                        _ => {
                            return Err(
                                GenError {
                                    pos: elts[i].pos(),
                                    kind: ErrorKind::Type(TypeError::InvalidLiteral),
                                },
                            );
                        },
                    }
                    i = i + 1;
                }
                let ghost m3 = self@;
                let zero = self.get_type_default(v)?;
                let ghost m4 = self@;
                let map = self.new_map(zero);
                let ghost m5 = self@;
                proof {
                    lemma_gen_extends_trans(m0, m3, m4);
                    lemma_gen_extends_trans(m0, m4, m5);
                }
                let mut j: usize = 0;
                while j < entries.len()
                    invariant
                        j <= entries.len(),
                        self.active(),
                        gen_extends(m0, self@),
                        frame(m0, self@),
                        map < self@.objs.maps.len(),
                        map_inserts(m5, map, entries@, 0) == map_inserts(
                            self@,
                            map,
                            entries@,
                            j as int,
                        ),
                    decreases entries.len() - j,
                {
                    let ghost m6 = self@;
                    self.map_insert(map, entries[j].0, entries[j].1);
                    proof {
                        lemma_gen_extends_trans(m0, m6, self@);
                    }
                    j = j + 1;
                }
                Ok(Value::MapVal(map))
            },
            _ => Err(GenError { pos: typ.pos(), kind: ErrorKind::NotImplemented }),
        }
    }
}

} // verus!
