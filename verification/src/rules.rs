//! The lowering rules: what generation does to the state, as mathematical
//! functions of the state and the syntax tree. A rule gives the state after
//! the step and its value, or the error with the state that the step left
//! when it failed: what was emitted before the failure stays, a function
//! whose body failed is completed, and so is the constructor of a package
//! of which a declaration failed.

use vstd::prelude::*;
use crate::ast::{
    AssignTok, BasicLit, BinaryOp, Decl, Expr, expr_pos, Field, File, ForStmt, FuncType, Ident,
    IfStmt, LitKind, RangeStmt, Spec, Stmt, UnaryOp, ValueSpec,
};
use crate::func::{FunctionView, jump_target, load_words, store_words};
use crate::literal::{char_literal, float_to_int, int_literal, string_literal};
use crate::model::{built_in_func_from, built_in_funcs, close_function, fail, GenView, Res};
use crate::objects::{basic_type_of, TYPE_DEFAULT_CLOSURE, TypeDataView};
use crate::opcode::{CodeWord, Opcode};
use crate::value::{
    assoc_position, EntIndex, ErrorKind, FunctionKey, LeftHandSide, TypeError, TypeKey, Value,
};

verus! {

/// The type that a value is, where it is one of the table of types.
pub open spec fn type_of_value(m: GenView, pos: usize, v: Value) -> Res<TypeKey> {
    match v {
        Value::Type(t) => if t < m.objs.types.len() {
            Ok((m, t))
        } else {
            fail(m, pos, ErrorKind::Type(TypeError::NotAType))
        },
        _ => fail(m, pos, ErrorKind::Type(TypeError::NotAType)),
    }
}

/// The state after a type is added to the table of types, and its key.
pub open spec fn add_type(m: GenView, data: TypeDataView) -> Res<TypeKey> {
    Ok((m.with_objs(m.objs.new_type(data, Value::Nil).0), m.objs.new_type(data, Value::Nil).1))
}

/// The type that an identifier names: a basic type, or the type that a
/// constant or a member of the package holds.
#[verifier::opaque]
pub open spec fn named_type(m: GenView, id: Ident) -> Res<TypeKey> {
    match basic_type_of(id.name@) {
        Some(t) => Ok((m, t)),
        None => match m.resolve_ident(id) {
            Ok((m1, EntIndex::Const(i))) => type_of_value(m1, id.pos, m1.cur().consts[i as int]),
            Ok((m1, EntIndex::PackageMember(i))) => type_of_value(
                m1,
                id.pos,
                m1.pkg().members[i as int],
            ),
            Ok((m1, _)) => fail(m1, id.pos, ErrorKind::Type(TypeError::NotAType)),
            Err(e) => Err(e),
        },
    }
}

/// Adds the names of a struct's field to the members of the struct: each
/// name gets a member with the field's type.
pub open spec fn struct_names(
    pos: usize,
    idents: Seq<Ident>,
    j: int,
    typ: TypeKey,
    acc: (Seq<Value>, Seq<(Seq<char>, i16)>),
) -> Result<(Seq<Value>, Seq<(Seq<char>, i16)>), crate::value::GenError>
    decreases idents.len() - j,
{
    if 0 <= j < idents.len() {
        if acc.0.len() >= i16::MAX {
            Err(crate::value::GenError { pos, kind: ErrorKind::Overflow })
        } else {
            struct_names(
                pos,
                idents,
                j + 1,
                typ,
                (acc.0.push(Value::Type(typ)), acc.1.push((idents[j].name@, acc.0.len() as i16))),
            )
        }
    } else {
        Ok(acc)
    }
}

/// The type that a type expression denotes. A type that is not named is
/// added to the table of types.
#[verifier::opaque]
pub open spec fn gen_type(m: GenView, e: Expr) -> Res<TypeKey>
    decreases e, 0nat,
{
    match e {
        Expr::Ident(id) => named_type(m, id),
        Expr::Array(pos, len, elt) => if len is Some {
            fail(m, pos, ErrorKind::NotImplemented)
        } else {
            match gen_type(m, *elt) {
                Ok((m1, t)) => add_type(m1, TypeDataView::Slice(t)),
                Err(x) => Err(x),
            }
        },
        Expr::MapType(_, k, v) => match gen_type(m, *k) {
            Ok((m1, kt)) => match gen_type(m1, *v) {
                Ok((m2, vt)) => add_type(m2, TypeDataView::MapOf(kt, vt)),
                Err(x) => Err(x),
            },
            Err(x) => Err(x),
        },
        Expr::Struct(pos, fields) => match struct_members(
            m,
            pos,
            fields,
            0,
            (Seq::empty(), Seq::empty()),
        ) {
            Ok((m1, acc)) => add_type(m1, TypeDataView::Struct(acc.0, acc.1)),
            Err(x) => Err(x),
        },
        Expr::Interface(_, methods) => match field_types(m, methods, 0, Seq::empty(), false) {
            Ok((m1, ts)) => add_type(m1, TypeDataView::Interface(ts)),
            Err(x) => Err(x),
        },
        Expr::Func(_, ft) => closure_type(m, Seq::empty(), ft),
        Expr::Star(_, x) => match gen_type(m, *x) {
            Ok((m1, t)) => add_type(m1, TypeDataView::Boxed(t)),
            Err(x) => Err(x),
        },
        Expr::Ellipsis(pos, _) => fail(m, pos, ErrorKind::Type(TypeError::MisplacedVariadic)),
        Expr::Chan(pos, _) => fail(m, pos, ErrorKind::NotImplemented),
        _ => fail(m, expr_pos(e), ErrorKind::Type(TypeError::NotAType)),
    }
}

/// The type of the last parameter of a function, which alone may be
/// variadic: `...T`.
#[verifier::opaque]
pub open spec fn last_param_type(m: GenView, e: Expr) -> Res<TypeKey>
    decreases e, 1nat,
{
    match e {
        Expr::Ellipsis(pos, elt) => match elt {
            Some(x) => match gen_type(m, *x) {
                Ok((m1, t)) => add_type(m1, TypeDataView::Variadic(t)),
                Err(x) => Err(x),
            },
            None => fail(m, pos, ErrorKind::Type(TypeError::MisplacedVariadic)),
        },
        _ => gen_type(m, e),
    }
}

/// The types of the fields from `i` on, one for each field, after `acc`.
#[verifier::opaque]
pub open spec fn field_types(
    m: GenView,
    fields: Vec<Field>,
    i: int,
    acc: Seq<TypeKey>,
    variadic_last: bool,
) -> Res<Seq<TypeKey>>
    decreases fields, fields.len() - i,
{
    if 0 <= i < fields.len() {
        let r = if variadic_last && i == fields.len() - 1 {
            last_param_type(m, fields[i].typ)
        } else {
            gen_type(m, fields[i].typ)
        };
        match r {
            Ok((m1, t)) => field_types(m1, fields, i + 1, acc.push(t), variadic_last),
            Err(x) => Err(x),
        }
    } else {
        Ok((m, acc))
    }
}

/// The members of a struct from field `i` on, after `acc`: one member for
/// each name of each field, in order.
#[verifier::opaque]
pub open spec fn struct_members(
    m: GenView,
    pos: usize,
    fields: Vec<Field>,
    i: int,
    acc: (Seq<Value>, Seq<(Seq<char>, i16)>),
) -> Res<(Seq<Value>, Seq<(Seq<char>, i16)>)>
    decreases fields, fields.len() - i,
{
    if 0 <= i < fields.len() {
        match gen_type(m, fields[i].typ) {
            Ok((m1, t)) => match struct_names(pos, fields[i].names@, 0, t, acc) {
                Ok(acc1) => struct_members(m1, pos, fields, i + 1, acc1),
                Err(x) => Err((m1, x)),
            },
            Err(x) => Err(x),
        }
    } else {
        Ok((m, acc))
    }
}

/// The type of a function: the types of its parameters, after those of a
/// receiver in `recv`, and of its results.
#[verifier::opaque]
pub open spec fn closure_type(m: GenView, recv: Seq<TypeKey>, ft: FuncType) -> Res<TypeKey>
    decreases ft, 0nat,
{
    match field_types(m, ft.params, 0, recv, true) {
        Ok((m1, params)) => match field_types(m1, ft.results, 0, Seq::empty(), false) {
            Ok((m2, results)) => add_type(m2, TypeDataView::Closure(params, results)),
            Err(x) => Err(x),
        },
        Err(x) => Err(x),
    }
}

/// The zero value of the type that a type expression denotes.
#[verifier::opaque]
pub open spec fn type_default(m: GenView, e: Expr) -> Res<Value> {
    match gen_type(m, e) {
        Ok((m1, t)) => Ok((m1, m1.objs.types[t as int].zero)),
        Err(x) => Err(x),
    }
}

/// The string object of a string literal.
#[verifier::opaque]
pub open spec fn string_value(m: GenView, lit: BasicLit) -> Res<Value> {
    match string_literal(lit.text@) {
        Ok(s) => Ok(m.new_str(s)),
        Err(t) => fail(m, lit.pos, ErrorKind::Type(t)),
    }
}

/// The double that a numeric literal denotes.
pub open spec fn float_value(m: GenView, lit: BasicLit) -> Res<Value> {
    match lit.float_bits {
        Some(bits) => Ok((m, Value::Float64(bits))),
        None => fail(m, lit.pos, ErrorKind::Type(TypeError::InvalidLiteral)),
    }
}

/// The integer that an integer literal denotes.
pub open spec fn int_value(m: GenView, lit: BasicLit) -> Res<Value> {
    match int_literal(lit.text@) {
        Ok(v) => Ok((m, Value::Int(v))),
        Err(t) => fail(m, lit.pos, ErrorKind::Type(t)),
    }
}

/// The code of the character that a character literal denotes.
pub open spec fn char_value(m: GenView, lit: BasicLit) -> Res<Value> {
    match char_literal(lit.text@) {
        Ok(v) => Ok((m, Value::Int(v))),
        Err(t) => fail(m, lit.pos, ErrorKind::Type(t)),
    }
}

/// The integer that a float literal denotes, where it denotes one.
pub open spec fn truncated_value(m: GenView, lit: BasicLit) -> Res<Value> {
    match lit.float_bits {
        Some(bits) => match float_to_int(bits) {
            Ok(v) => Ok((m, Value::Int(v))),
            Err(t) => fail(m, lit.pos, ErrorKind::Type(t)),
        },
        None => fail(m, lit.pos, ErrorKind::Type(TypeError::InvalidLiteral)),
    }
}

/// The value of a basic literal of no declared type.
#[verifier::opaque]
pub open spec fn untyped_const(m: GenView, lit: BasicLit) -> Res<Value> {
    match lit.kind {
        LitKind::Int => int_value(m, lit),
        LitKind::Float => float_value(m, lit),
        LitKind::Imag => fail(m, lit.pos, ErrorKind::NotImplemented),
        LitKind::Char => char_value(m, lit),
        LitKind::Str => string_value(m, lit),
    }
}

/// The value of a basic literal of a type whose zero value is `zero`.
#[verifier::opaque]
pub open spec fn typed_const(m: GenView, zero: Value, lit: BasicLit) -> Res<Value> {
    match (zero, lit.kind) {
        (Value::Int(_), LitKind::Float) => truncated_value(m, lit),
        (Value::Int(_), LitKind::Int) => int_value(m, lit),
        (Value::Int(_), LitKind::Char) => char_value(m, lit),
        (Value::Float64(_), LitKind::Float) => float_value(m, lit),
        (Value::Float64(_), LitKind::Int) => float_value(m, lit),
        (Value::Float64(_), LitKind::Char) => float_value(m, lit),
        (Value::Str(_), LitKind::Str) => string_value(m, lit),
        _ => fail(m, lit.pos, ErrorKind::Type(TypeError::InvalidLiteral)),
    }
}

/// The value of a basic literal, of the declared type where one is given.
#[verifier::opaque]
pub open spec fn const_value(m: GenView, typ: Option<Expr>, lit: BasicLit) -> Res<Value> {
    match typ {
        None => untyped_const(m, lit),
        Some(t) => match type_default(m, t) {
            Ok((m1, zero)) => typed_const(m1, zero, lit),
            Err(x) => Err(x),
        },
    }
}

/// The value of an expression that must be a basic literal.
#[verifier::opaque]
pub open spec fn basic_literal_value(m: GenView, typ: Option<Expr>, e: Expr) -> Res<Value> {
    match e {
        Expr::BasicLit(lit) => const_value(m, typ, lit),
        _ => fail(m, expr_pos(e), ErrorKind::Type(TypeError::ComplexConstant)),
    }
}

/// The value of a literal of a type: of a composite literal where the type
/// is an array, map or struct type, else of a basic literal.
#[verifier::opaque]
pub open spec fn literal_value(m: GenView, typ: Expr, e: Expr) -> Res<Value>
    decreases e, 1nat,
{
    match typ {
        Expr::Array(_, _, _) | Expr::MapType(_, _, _) | Expr::Struct(_, _) => match e {
            Expr::CompositeLit(_, _, elts) => comp_value(m, typ, e),
            _ => fail(m, expr_pos(e), ErrorKind::Type(TypeError::ComplexConstant)),
        },
        _ => basic_literal_value(m, Some(typ), e),
    }
}

/// The values of the elements of a slice literal from `i` on, after `acc`.
#[verifier::opaque]
pub open spec fn slice_elements(
    m: GenView,
    elt_typ: Expr,
    elts: Vec<Expr>,
    i: int,
    acc: Seq<Value>,
) -> Res<
    Seq<Value>,
>
    decreases elts, elts.len() - i,
{
    if 0 <= i < elts.len() {
        match literal_value(m, elt_typ, elts[i]) {
            Ok((m1, v)) => slice_elements(m1, elt_typ, elts, i + 1, acc.push(v)),
            Err(x) => Err(x),
        }
    } else {
        Ok((m, acc))
    }
}

/// The keys and values of the elements of a map literal from `i` on, after `acc`.
#[verifier::opaque]
pub open spec fn map_elements(
    m: GenView,
    key_typ: Expr,
    val_typ: Expr,
    elts: Vec<Expr>,
    i: int,
    acc: Seq<(Value, Value)>,
) -> Res<Seq<(Value, Value)>>
    decreases elts, elts.len() - i,
{
    if 0 <= i < elts.len() {
        match elts[i] {
            Expr::KeyValue(k, v) => match literal_value(m, key_typ, *k) {
                Ok((m1, kv)) => match literal_value(m1, val_typ, *v) {
                    Ok((m2, vv)) => map_elements(
                        m2,
                        key_typ,
                        val_typ,
                        elts,
                        i + 1,
                        acc.push((kv, vv)),
                    ),
                    Err(x) => Err(x),
                },
                Err(x) => Err(x),
            },
            _ => fail(m, expr_pos(elts[i]), ErrorKind::Type(TypeError::InvalidLiteral)),
        }
    } else {
        Ok((m, acc))
    }
}

/// The tables after the entries from `i` on are set in a map object.
pub open spec fn map_inserts(
    m: GenView,
    map: usize,
    entries: Seq<(Value, Value)>,
    i: int,
) -> GenView
    decreases entries.len() - i,
{
    if 0 <= i < entries.len() {
        map_inserts(
            m.with_objs(m.objs.map_insert(map, entries[i].0, entries[i].1)),
            map,
            entries,
            i + 1,
        )
    } else {
        m
    }
}

/// The value of the composite literal `e` of the type `typ`: a slice object
/// or a map object that holds the elements.
#[verifier::opaque]
pub open spec fn comp_value(m: GenView, typ: Expr, e: Expr) -> Res<Value>
    decreases e, 0nat,
{
    match e {
        Expr::CompositeLit(_, _, elts) => match typ {
            Expr::Array(pos, len, elt) => if len is Some {
                fail(m, pos, ErrorKind::NotImplemented)
            } else {
                match slice_elements(m, *elt, elts, 0, Seq::empty()) {
                    Ok((m1, vals)) => Ok(
                        (m1.with_objs(m1.objs.new_slice(vals).0), m1.objs.new_slice(vals).1),
                    ),
                    Err(x) => Err(x),
                }
            },
            Expr::MapType(_, k, v) => match map_elements(m, *k, *v, elts, 0, Seq::empty()) {
                Ok((m1, entries)) => match type_default(m1, *v) {
                    Ok((m2, zero)) => Ok(
                        (
                            map_inserts(
                                m2.with_objs(m2.objs.new_map(zero).0),
                                m2.objs.maps.len() as usize,
                                entries,
                                0,
                            ),
                            m2.objs.new_map(zero).1,
                        ),
                    ),
                    Err(x) => Err(x),
                },
                Err(x) => Err(x),
            },
            _ => fail(m, expr_pos(typ), ErrorKind::NotImplemented),
        },
        _ => fail(m, expr_pos(e), ErrorKind::Type(TypeError::ComplexConstant)),
    }
}

/// The opcode of a binary operator. Of `&&` and `||` it is the opcode that
/// pushes the result which the left operand alone decides.
pub open spec fn binary_opcode(op: BinaryOp) -> Opcode {
    match op {
        BinaryOp::Add => Opcode::ADD,
        BinaryOp::Sub => Opcode::SUB,
        BinaryOp::Mul => Opcode::MUL,
        BinaryOp::Quo => Opcode::QUO,
        BinaryOp::Rem => Opcode::REM,
        BinaryOp::And => Opcode::AND,
        BinaryOp::Or => Opcode::OR,
        BinaryOp::Xor => Opcode::XOR,
        BinaryOp::Shl => Opcode::SHL,
        BinaryOp::Shr => Opcode::SHR,
        BinaryOp::AndNot => Opcode::AND_NOT,
        BinaryOp::LAnd => Opcode::PUSH_FALSE,
        BinaryOp::LOr => Opcode::PUSH_TRUE,
        BinaryOp::Not => Opcode::NOT,
        BinaryOp::Eql => Opcode::EQL,
        BinaryOp::Lss => Opcode::LSS,
        BinaryOp::Gtr => Opcode::GTR,
        BinaryOp::Neq => Opcode::NEQ,
        BinaryOp::Leq => Opcode::LEQ,
        BinaryOp::Geq => Opcode::GEQ,
    }
}

/// The opcode of a unary operator that is lowered.
pub open spec fn unary_opcode(op: UnaryOp) -> Option<Opcode> {
    match op {
        UnaryOp::And => Some(Opcode::REF),
        UnaryOp::Add => Some(Opcode::UNARY_ADD),
        UnaryOp::Sub => Some(Opcode::UNARY_SUB),
        UnaryOp::Xor => Some(Opcode::UNARY_XOR),
        UnaryOp::Not => None,
        UnaryOp::Arrow => None,
    }
}

/// The operator that an assignment applies, if any.
pub open spec fn assign_opcode(tok: AssignTok) -> Option<Opcode> {
    match tok {
        AssignTok::Assign => None,
        AssignTok::Define => None,
        AssignTok::AddAssign => Some(Opcode::ADD),
        AssignTok::SubAssign => Some(Opcode::SUB),
        AssignTok::MulAssign => Some(Opcode::MUL),
        AssignTok::QuoAssign => Some(Opcode::QUO),
        AssignTok::RemAssign => Some(Opcode::REM),
        AssignTok::AndAssign => Some(Opcode::AND),
        AssignTok::OrAssign => Some(Opcode::OR),
        AssignTok::XorAssign => Some(Opcode::XOR),
        AssignTok::ShlAssign => Some(Opcode::SHL),
        AssignTok::ShrAssign => Some(Opcode::SHR),
        AssignTok::AndNotAssign => Some(Opcode::AND_NOT),
    }
}

/// The jump that `&&` or `||` makes when the left operand decides the result.
pub open spec fn short_circuit_jump(op: BinaryOp) -> Option<Opcode> {
    match op {
        BinaryOp::LAnd => Some(Opcode::JUMP_IF_NOT),
        BinaryOp::LOr => Some(Opcode::JUMP_IF),
        _ => None,
    }
}

/// The data word of a variadic built-in function: 0 where the caller spreads
/// the last argument, else the declared parameters but one less the arguments.
pub open spec fn pack_count(params_count: int, args: int, ellipsis: bool) -> int {
    if ellipsis {
        0
    } else {
        params_count - 1 - args
    }
}

/// Lowers an identifier: a load from its address.
#[verifier::opaque]
pub open spec fn gen_ident(m: GenView, id: Ident) -> Res<()> {
    match m.resolve_ident(id) {
        Ok((m1, idx)) => Ok((m1.emit(load_words(idx)), ())),
        Err(x) => Err(x),
    }
}

/// Lowers a basic literal: a load of its value.
#[verifier::opaque]
pub open spec fn gen_basic_lit(m: GenView, lit: BasicLit) -> Res<()> {
    match const_value(m, None, lit) {
        Ok((m1, v)) => m1.load_const(lit.pos, v),
        Err(x) => Err(x),
    }
}

/// Lowers a function literal: the function is compiled and loaded as a
/// constant, and `NEW` makes a closure of it.
#[verifier::opaque]
pub open spec fn gen_func_lit(m: GenView, e: Expr) -> Res<()>
    decreases e, 0nat,
{
    match e {
        Expr::FuncLit(pos, ft, body) => match gen_func_def(m, None, ft, body, pos) {
            Ok((m1, fkey)) => match m1.load_const(pos, Value::Function(fkey)) {
                Ok((m2, _)) => Ok((m2.emit_code(Opcode::NEW), ())),
                Err(x) => Err(x),
            },
            Err(x) => Err(x),
        },
        _ => fail(m, expr_pos(e), ErrorKind::NotImplemented),
    }
}

/// Lowers a composite literal: a load of the slice or map object that
/// holds its elements.
#[verifier::opaque]
pub open spec fn gen_composite_lit(m: GenView, e: Expr) -> Res<()> {
    match e {
        Expr::CompositeLit(pos, typ, _) => match typ {
            Some(t) => match comp_value(m, *t, e) {
                Ok((m1, v)) => m1.load_const(pos, v),
                Err(x) => Err(x),
            },
            None => fail(m, pos, ErrorKind::NotImplemented),
        },
        _ => fail(m, expr_pos(e), ErrorKind::NotImplemented),
    }
}

/// Lowers a selector `x.sel`: the operand, the name as a string constant,
/// and `LOAD_FIELD`.
#[verifier::opaque]
pub open spec fn gen_selector(m: GenView, e: Expr) -> Res<()>
    decreases e, 0nat,
{
    match e {
        Expr::Selector(x, sel) => match gen_expr(m, *x) {
            Ok((m1, _)) => match m1.push_ident_str(sel) {
                Ok((m2, _)) => Ok((m2.emit_code(Opcode::LOAD_FIELD), ())),
                Err(x) => Err(x),
            },
            Err(x) => Err(x),
        },
        _ => fail(m, expr_pos(e), ErrorKind::NotImplemented),
    }
}

/// Lowers an index expression `x[i]`: the operand, the index, and `LOAD_FIELD`.
#[verifier::opaque]
pub open spec fn gen_index(m: GenView, e: Expr) -> Res<()>
    decreases e, 0nat,
{
    match e {
        Expr::Index(x, i) => match gen_expr(m, *x) {
            Ok((m1, _)) => match gen_expr(m1, *i) {
                Ok((m2, _)) => Ok((m2.emit_code(Opcode::LOAD_FIELD), ())),
                Err(x) => Err(x),
            },
            Err(x) => Err(x),
        },
        _ => fail(m, expr_pos(e), ErrorKind::NotImplemented),
    }
}

/// Lowers `*x`: the operand and `DEREF`.
#[verifier::opaque]
pub open spec fn gen_star(m: GenView, e: Expr) -> Res<()>
    decreases e, 0nat,
{
    match e {
        Expr::Star(_, x) => match gen_expr(m, *x) {
            Ok((m1, _)) => Ok((m1.emit_code(Opcode::DEREF), ())),
            Err(x) => Err(x),
        },
        _ => fail(m, expr_pos(e), ErrorKind::NotImplemented),
    }
}

/// Lowers a unary expression: the operand and the operator's opcode.
#[verifier::opaque]
pub open spec fn gen_unary(m: GenView, e: Expr) -> Res<()>
    decreases e, 0nat,
{
    match e {
        Expr::Unary(pos, op, x) => match gen_expr(m, *x) {
            Ok((m1, _)) => match unary_opcode(op) {
                Some(code) => Ok((m1.emit_code(code), ())),
                None => fail(m1, pos, ErrorKind::NotImplemented),
            },
            Err(x) => Err(x),
        },
        _ => fail(m, expr_pos(e), ErrorKind::NotImplemented),
    }
}

/// Lowers a type that stands as a value: a load of the type.
#[verifier::opaque]
pub open spec fn gen_array_type(m: GenView, e: Expr) -> Res<()> {
    match gen_type(m, e) {
        Ok((m1, t)) => m1.load_const(expr_pos(e), Value::Type(t)),
        Err(x) => Err(x),
    }
}

/// Lowers an expression to the code that computes its value.
#[verifier::opaque]
pub open spec fn gen_expr(m: GenView, e: Expr) -> Res<()>
    decreases e, 1nat,
{
    match e {
        Expr::Ident(id) => gen_ident(m, id),
        Expr::BasicLit(lit) => gen_basic_lit(m, lit),
        Expr::FuncLit(_, _, _) => gen_func_lit(m, e),
        Expr::CompositeLit(_, _, _) => gen_composite_lit(m, e),
        Expr::Paren(_, x) => gen_expr(m, *x),
        Expr::Selector(_, _) => gen_selector(m, e),
        Expr::Index(_, _) => gen_index(m, e),
        Expr::Slice(_, _, _, _) => gen_slice(m, e),
        Expr::Call(_, _, _) => gen_call(m, e),
        Expr::Star(_, _) => gen_star(m, e),
        Expr::Unary(_, _, _) => gen_unary(m, e),
        Expr::Binary(_, _, _) => gen_binary(m, e),
        Expr::Array(_, _, _) => gen_array_type(m, e),
        _ => fail(m, expr_pos(e), ErrorKind::NotImplemented),
    }
}

/// Lowers the expressions from `i` on, in order.
#[verifier::opaque]
pub open spec fn gen_exprs(m: GenView, es: Vec<Expr>, i: int) -> Res<()>
    decreases es, es.len() - i,
{
    if 0 <= i < es.len() {
        match gen_expr(m, es[i]) {
            Ok((m1, _)) => gen_exprs(m1, es, i + 1),
            Err(x) => Err(x),
        }
    } else {
        Ok((m, ()))
    }
}

/// Lowers an operand of a slice expression that may be left out: `nil`
/// stands for one that is.
#[verifier::opaque]
pub open spec fn gen_bound(m: GenView, b: Option<Box<Expr>>) -> Res<()>
    decreases b, 2nat,
{
    match b {
        Some(x) => gen_expr(m, *x),
        None => Ok((m.emit_code(Opcode::PUSH_NIL), ())),
    }
}

/// Lowers a slice expression `x[low:high]` or `x[low:high:max]`.
#[verifier::opaque]
pub open spec fn gen_slice(m: GenView, e: Expr) -> Res<()>
    decreases e, 0nat,
{
    match e {
        Expr::Slice(x, low, high, max) => match gen_expr(m, *x) {
            Ok((m1, _)) => match gen_bound(m1, low) {
                Ok((m2, _)) => match gen_bound(m2, high) {
                    Ok((m3, _)) => match max {
                        None => Ok((m3.emit_code(Opcode::SLICE), ())),
                        Some(y) => match gen_expr(m3, *y) {
                            Ok((m4, _)) => Ok((m4.emit_code(Opcode::SLICE_FULL), ())),
                            Err(x) => Err(x),
                        },
                    },
                    Err(x) => Err(x),
                },
                Err(x) => Err(x),
            },
            Err(x) => Err(x),
        },
        _ => fail(m, expr_pos(e), ErrorKind::NotImplemented),
    }
}

/// Whether a call names a built-in function or nothing at all: the callee is
/// an identifier that the parser resolved to no entity.
pub open spec fn is_unbound_callee(f: Expr) -> bool {
    f matches Expr::Ident(id) && id.entity is None
}

/// Lowers a call. A built-in function becomes its own opcode after the
/// arguments. Any other callee is lowered first, then the arguments between
/// `PRE_CALL` and `CALL`.
#[verifier::opaque]
pub open spec fn gen_call(m: GenView, e: Expr) -> Res<()>
    decreases e, 0nat,
{
    match e {
        Expr::Call(f, args, ellipsis) => if is_unbound_callee(*f) {
            let id = f->Ident_0;
            match built_in_func_from(id.name@, 0) {
                Some(i) => match gen_exprs(m, args, 0) {
                    Ok((m1, _)) => {
                        let bf = built_in_funcs()[i];
                        let count = pack_count(bf.params_count, args.len() as int, ellipsis);
                        if !bf.variadic {
                            Ok((m1.emit_code(bf.opcode), ()))
                        } else if i16::MIN <= count <= i16::MAX {
                            Ok((m1.emit_inst(bf.opcode, count as i16), ()))
                        } else {
                            fail(m1, id.pos, ErrorKind::Overflow)
                        }
                    },
                    Err(x) => Err(x),
                },
                None => fail(m, id.pos, ErrorKind::Undefined),
            }
        } else {
            match gen_expr(m, *f) {
                Ok((m1, _)) => match gen_exprs(m1.emit_code(Opcode::PRE_CALL), args, 0) {
                    Ok((m2, _)) => Ok(
                        (
                            m2.emit_inst(
                                Opcode::CALL,
                                if ellipsis {
                                    1i16
                                } else {
                                    0i16
                                },
                            ),
                            (),
                        ),
                    ),
                    Err(x) => Err(x),
                },
                Err(x) => Err(x),
            }
        },
        _ => fail(m, expr_pos(e), ErrorKind::NotImplemented),
    }
}

/// The tail of `&&` and `||`, after both operands: a jump over one word,
/// then the word that pushes the result which the left operand alone
/// decides, at which the jump at `at` is made to aim.
pub open spec fn short_circuit_tail(m: GenView, pos: usize, at: int, push: Opcode) -> Res<()> {
    let skip = m.here();
    let m1 = m.emit_inst(Opcode::JUMP, 0).emit_code(push);
    match m1.patch(pos, skip, m1.here()) {
        Ok((m2, _)) => m2.patch(pos, at, m2.here() - 1),
        Err(x) => Err(x),
    }
}

/// The state after an expression is lowered, where it can be lowered.
pub open spec fn after_expr(m: GenView, e: Expr) -> GenView {
    gen_expr(m, e)->Ok_0.0
}

/// The layout of the code of `a && b` and `a || b`, lowered from the state
/// `before` to the state `after`. The jump that follows the left operand
/// aims at the last word, which pushes the result that the left operand
/// alone decides. All words of the right operand lie between that jump and
/// a second jump, which leads from the right operand over the last word.
pub open spec fn short_circuit_shape(
    before: GenView,
    after: GenView,
    a: Expr,
    op: BinaryOp,
    b: Expr,
) -> bool {
    let jump = short_circuit_jump(op)->Some_0;
    let left = after_expr(before, a);
    let right = after_expr(left.emit_inst(jump, 0), b);
    let code = after.cur().code;
    let at = left.here();
    let end = code.len() as int;
    &&& gen_expr(before, a) is Ok
    &&& gen_expr(left.emit_inst(jump, 0), b) is Ok
    &&& before.here() <= at
    &&& at + 2 <= right.here()
    &&& right.here() + 3 == end
    &&& code[at] == CodeWord::Code(jump)
    &&& jump_target(code, at) == end - 1
    &&& code[end - 1] == CodeWord::Code(binary_opcode(op))
    &&& code[right.here()] == CodeWord::Code(Opcode::JUMP)
    &&& jump_target(code, right.here()) == end
}

/// The layout of the code of a range loop, lowered from the state `before`
/// to the state `after`. The seed of the cursor follows the operand, and
/// `RANGE` follows the seed; `RANGE` jumps to the end of the loop when the
/// operand is exhausted; and the loop ends with a jump back to `RANGE`.
pub open spec fn range_shape(before: GenView, after: GenView, rs: RangeStmt) -> bool {
    let key = gen_lhs_opt(before, rs.key, rs.define)->Ok_0.0;
    let val = gen_lhs_opt(key, rs.val, rs.define)->Ok_0.0;
    let head = after_expr(val, rs.expr).here() + 2;
    let code = after.cur().code;
    let end = code.len() as int;
    &&& before.here() + 2 <= head
    &&& head + 4 <= end
    &&& code[head - 2] == CodeWord::Code(Opcode::PUSH_IMM)
    &&& code[head - 1] == CodeWord::Data(-1i16)
    &&& code[head] == CodeWord::Code(Opcode::RANGE)
    &&& jump_target(code, head) == end
    &&& code[end - 2] == CodeWord::Code(Opcode::JUMP)
    &&& jump_target(code, end - 2) == head
}

/// Lowers a binary expression. `&&` and `||` jump over the right operand
/// when the left one decides the result.
#[verifier::opaque]
pub open spec fn gen_binary(m: GenView, e: Expr) -> Res<()>
    decreases e, 0nat,
{
    match e {
        Expr::Binary(a, op, b) => match gen_expr(m, *a) {
            Ok((m1, _)) => match short_circuit_jump(op) {
                Some(jump) => match gen_expr(m1.emit_inst(jump, 0), *b) {
                    Ok((m2, _)) => short_circuit_tail(
                        m2,
                        expr_pos(*a),
                        m1.here(),
                        binary_opcode(op),
                    ),
                    Err(x) => Err(x),
                },
                None => match gen_expr(m1, *b) {
                    Ok((m2, _)) => Ok((m2.emit_code(binary_opcode(op)), ())),
                    Err(x) => Err(x),
                },
            },
            Err(x) => Err(x),
        },
        _ => fail(m, expr_pos(e), ErrorKind::NotImplemented),
    }
}

/// Allocates the local slots of the names from `j` on. Where no slot is
/// left, the failure holds the function with the slots that were allocated.
pub open spec fn add_names(f: FunctionView, names: Seq<Ident>, j: int) -> Result<
    FunctionView,
    FunctionView,
>
    decreases names.len() - j,
{
    if 0 <= j < names.len() {
        match f.add_local(names[j].entity) {
            Some((f1, _)) => add_names(f1, names, j + 1),
            None => Err(f),
        }
    } else {
        Ok(f)
    }
}

/// Allocates the local slots of the fields from `i` on: one for each name,
/// and one for a field without names. Where no slot is left, the failure
/// holds the function with the slots that were allocated.
pub open spec fn add_params(f: FunctionView, fields: Seq<Field>, i: int) -> Result<
    FunctionView,
    FunctionView,
>
    decreases fields.len() - i,
{
    if 0 <= i < fields.len() {
        let r = if fields[i].names.len() == 0 {
            match f.add_local(None) {
                Some((f1, _)) => Ok(f1),
                None => Err(f),
            }
        } else {
            add_names(f, fields[i].names@, 0)
        };
        match r {
            Ok(f1) => add_params(f1, fields, i + 1),
            Err(f1) => Err(f1),
        }
    } else {
        Ok(f)
    }
}

/// The fields of a receiver, none where there is no receiver.
pub open spec fn recv_fields(recv: Option<Vec<Field>>) -> Seq<Field> {
    match recv {
        Some(fields) => fields@,
        None => Seq::empty(),
    }
}

/// Whether the type is a function type whose last parameter is variadic.
pub open spec fn is_variadic(m: GenView, t: TypeKey) -> bool {
    m.objs.types[t as int].data matches TypeDataView::Closure(params, _) && params.len() > 0
        && params.last() < m.objs.types.len()
        && m.objs.types[params.last() as int].data is Variadic
}

/// The function with its locals allocated: the results first, then the
/// receiver, then the parameters. Where no slot is left, the failure holds
/// the function with the slots that were allocated.
#[verifier::opaque]
pub open spec fn bind_params(f: FunctionView, recv: Option<Vec<Field>>, ft: FuncType) -> Result<
    FunctionView,
    FunctionView,
> {
    match add_params(f, ft.results@, 0) {
        Ok(f1) => match add_params(f1, recv_fields(recv), 0) {
            Ok(f2) => match add_params(f2, ft.params@, 0) {
                Ok(f3) => Ok(
                    FunctionView {
                        ret_count: (f1.local_alloc - f.local_alloc) as nat,
                        param_count: (f3.local_alloc - f1.local_alloc) as nat,
                        ..f3
                    },
                ),
                Err(g) => Err(g),
            },
            Err(g) => Err(g),
        },
        Err(g) => Err(g),
    }
}

/// Compiles a function: its type, a new function object with the locals of
/// the results and parameters, the body, and a `RETURN` after it. Where the
/// body fails, the function is completed all the same.
#[verifier::opaque]
pub open spec fn gen_func_def(
    m: GenView,
    recv: Option<Vec<Field>>,
    ft: FuncType,
    body: Vec<Stmt>,
    pos: usize,
) -> Res<FunctionKey>
    decreases body, body.len() + 1,
{
    let pre = match recv {
        Some(fields) => field_types(m, fields, 0, Seq::empty(), false),
        None => Ok((m, Seq::empty())),
    };
    match pre {
        Ok((m1, recv_types)) => match closure_type(m1, recv_types, ft) {
            Ok((m2, t)) => {
                let made = m2.objs.new_function(m2.current_pkg, t, is_variadic(m2, t), false);
                let fkey = made.1;
                match bind_params(made.0.functions[fkey as int], recv, ft) {
                    Ok(f) => {
                        let m3 = GenView {
                            objs: made.0.with_function(fkey, f),
                            func_stack: m2.func_stack.push(fkey),
                            ..m2
                        };
                        match gen_stmts(m3, body, 0) {
                            Ok((m4, _)) => Ok((close_function(m4, seq![CodeWord::Code(Opcode::RETURN)]), fkey)),
                            Err((m4, x)) => Err(
                                (close_function(m4, seq![CodeWord::Code(Opcode::RETURN)]), x),
                            ),
                        }
                    },
                    Err(f) => fail(
                        m2.with_objs(made.0.with_function(fkey, f)),
                        pos,
                        ErrorKind::Overflow,
                    ),
                }
            },
            Err(x) => Err(x),
        },
        Err(x) => Err(x),
    }
}

/// Lowers the target of an assignment. For an index, a selector and a
/// pointer target the code that is emitted pushes what the store needs; the
/// offset of the target is set when the stores are emitted.
#[verifier::opaque]
pub open spec fn gen_lhs(m: GenView, e: Expr, is_def: bool) -> Res<LeftHandSide>
    decreases e, 2nat,
{
    match e {
        Expr::Ident(id) => match m.add_local_or_resolve_ident(id, is_def) {
            Ok((m1, idx)) => Ok((m1, LeftHandSide::Primitive(idx))),
            Err(x) => Err(x),
        },
        Expr::Index(x, i) => match gen_expr(m, *x) {
            Ok((m1, _)) => match gen_expr(m1, *i) {
                Ok((m2, _)) => Ok((m2, LeftHandSide::IndexSelExpr(0))),
                Err(x) => Err(x),
            },
            Err(x) => Err(x),
        },
        Expr::Selector(x, sel) => match gen_expr(m, *x) {
            Ok((m1, _)) => match m1.push_ident_str(sel) {
                Ok((m2, _)) => Ok((m2, LeftHandSide::IndexSelExpr(0))),
                Err(x) => Err(x),
            },
            Err(x) => Err(x),
        },
        Expr::Star(_, x) => match gen_expr(m, *x) {
            Ok((m1, _)) => Ok((m1, LeftHandSide::Deref(0))),
            Err(x) => Err(x),
        },
        _ => fail(m, expr_pos(e), ErrorKind::NotImplemented),
    }
}

/// Lowers the targets from `i` on, after `acc`.
#[verifier::opaque]
pub open spec fn gen_lhs_list(
    m: GenView,
    lhs: Vec<Expr>,
    i: int,
    is_def: bool,
    acc: Seq<LeftHandSide>,
) -> Res<
    Seq<LeftHandSide>,
>
    decreases lhs, lhs.len() - i,
{
    if 0 <= i < lhs.len() {
        match gen_lhs(m, lhs[i], is_def) {
            Ok((m1, t)) => gen_lhs_list(m1, lhs, i + 1, is_def, acc.push(t)),
            Err(x) => Err(x),
        }
    } else {
        Ok((m, acc))
    }
}

/// Lowers a target of a range clause; one that is left out is the blank sink.
#[verifier::opaque]
pub open spec fn gen_lhs_opt(m: GenView, e: Option<Expr>, is_def: bool) -> Res<LeftHandSide>
    decreases e, 3nat,
{
    match e {
        Some(x) => gen_lhs(m, x, is_def),
        None => Ok((m, LeftHandSide::Primitive(EntIndex::Blank))),
    }
}

/// How many stack words preparing the targets pushed.
pub open spec fn prep_total(lhs: Seq<LeftHandSide>) -> int
    decreases lhs.len(),
{
    if lhs.len() == 0 {
        0
    } else {
        prep_total(lhs.drop_last()) + lhs.last().spec_prep_words()
    }
}

/// Emits the stores to the targets from `i` on. The values lie on top of the
/// stack, in the order of the targets; `cur` is the offset of what was
/// pushed for target `i`.
pub open spec fn emit_stores(m: GenView, lhs: Seq<LeftHandSide>, i: int, cur: int) -> GenView
    decreases lhs.len() - i,
{
    if 0 <= i < lhs.len() {
        let val = (i - lhs.len()) as i16;
        match lhs[i] {
            LeftHandSide::Primitive(_) => emit_stores(
                m.emit(store_words(lhs[i], val, None)),
                lhs,
                i + 1,
                cur,
            ),
            LeftHandSide::IndexSelExpr(_) => emit_stores(
                m.emit(store_words(LeftHandSide::IndexSelExpr(cur as i16), val, None)),
                lhs,
                i + 1,
                cur + 2,
            ),
            LeftHandSide::Deref(_) => emit_stores(
                m.emit(store_words(LeftHandSide::Deref(cur as i16), val, None)),
                lhs,
                i + 1,
                cur + 1,
            ),
        }
    } else {
        m
    }
}

/// Emits `n` times `POP`.
pub open spec fn emit_pops(m: GenView, n: int) -> GenView
    decreases n,
{
    if n <= 0 {
        m
    } else {
        emit_pops(m.emit_code(Opcode::POP), n - 1)
    }
}

/// Stores the values on top of the stack to the targets, and pops the
/// values and what preparing the targets pushed.
#[verifier::opaque]
pub open spec fn gen_stores(m: GenView, lhs: Seq<LeftHandSide>, pos: usize) -> Res<()> {
    let total = prep_total(lhs) + lhs.len();
    if total > i16::MAX {
        fail(m, pos, ErrorKind::Overflow)
    } else {
        Ok((emit_pops(emit_stores(m, lhs, 0, -total), total), ()))
    }
}

/// Loads a constant `n` times.
pub open spec fn load_defaults(m: GenView, pos: usize, v: Value, n: int) -> Res<()>
    decreases n,
{
    if n <= 0 {
        Ok((m, ()))
    } else {
        match m.load_const(pos, v) {
            Ok((m1, _)) => load_defaults(m1, pos, v, n - 1),
            Err(x) => Err(x),
        }
    }
}

/// No rule matches the values to `n` targets: they are not as many, there
/// is no declared type to stand for missing values, and they are not one
/// call.
pub open spec fn values_mismatch(n: int, values: Vec<Expr>, typ: Option<Expr>) -> bool {
    &&& values.len() != n
    &&& if values.len() == 0 {
        typ is None
    } else {
        !(values.len() == 1 && values[0] is Call)
    }
}

/// Lowers the right-hand side for `n` targets: as many values as targets;
/// no value, then the zero value of the declared type for each target; or
/// one call that returns a value for each target.
#[verifier::opaque]
pub open spec fn gen_rhs_values(
    m: GenView,
    n: int,
    values: Vec<Expr>,
    typ: Option<Expr>,
    pos: usize,
) -> Res<
    (),
>
    decreases values, values.len() + 1,
{
    if values.len() == n {
        gen_exprs(m, values, 0)
    } else if values.len() == 0 {
        match typ {
            Some(t) => match type_default(m, t) {
                Ok((m1, zero)) => load_defaults(m1, pos, zero, n),
                Err(x) => Err(x),
            },
            None => fail(m, pos, ErrorKind::AssignMismatch(n as usize, 0)),
        }
    } else if values.len() == 1 && values[0] is Call {
        gen_expr(m, values[0])
    } else {
        fail(m, pos, ErrorKind::AssignMismatch(n as usize, values.len() as usize))
    }
}

/// Lowers an assignment to the targets, or their definition: the values,
/// then the stores.
#[verifier::opaque]
pub open spec fn gen_assign_def_var(
    m: GenView,
    lhs: Seq<LeftHandSide>,
    values: Vec<Expr>,
    typ: Option<Expr>,
    pos: usize,
) -> Res<()>
    decreases values, values.len() + 2,
{
    match gen_rhs_values(m, lhs.len() as int, values, typ, pos) {
        Ok((m1, _)) => gen_stores(m1, lhs, pos),
        Err(x) => Err(x),
    }
}

/// Emits the store of `x op= y` and `x++`: the value lies on top of the
/// stack, above what preparing the target pushed.
pub open spec fn emit_op_store(m: GenView, left: LeftHandSide, op: Opcode) -> GenView {
    let target = match left {
        LeftHandSide::Primitive(_) => left,
        LeftHandSide::IndexSelExpr(_) => LeftHandSide::IndexSelExpr(-3i16),
        LeftHandSide::Deref(_) => LeftHandSide::Deref(-2i16),
    };
    m.emit(store_words(target, -1i16, Some(op))).emit_code(Opcode::POP)
}

/// The position that an assignment is reported at: that of its first target.
pub open spec fn assign_pos(lhs: Vec<Expr>) -> usize {
    if lhs.len() > 0 {
        expr_pos(lhs[0])
    } else {
        0
    }
}

/// Lowers an assignment, a definition, `x op= y`, `x++` and `x--`. Of any
/// other statement nothing is lowered.
#[verifier::opaque]
pub open spec fn gen_assign(m: GenView, s: Stmt) -> Res<()>
    decreases s, 0nat,
{
    match s {
        Stmt::Assign(lhs, tok, rhs) => match gen_lhs_list(
            m,
            lhs,
            0,
            tok == AssignTok::Define,
            Seq::empty(),
        ) {
            Ok((m1, targets)) => match assign_opcode(tok) {
                Some(op) => if lhs.len() == 1 && rhs.len() == 1 {
                    match gen_expr(m1, rhs[0]) {
                        Ok((m2, _)) => Ok((emit_op_store(m2, targets[0], op), ())),
                        Err(x) => Err(x),
                    }
                } else {
                    fail(
                        m1, assign_pos(lhs),
                        ErrorKind::AssignMismatch(lhs.len() as usize, rhs.len() as usize),
                    )
                },
                None => gen_assign_def_var(m1, targets, rhs, None, assign_pos(lhs)),
            },
            Err(x) => Err(x),
        },
        Stmt::IncDec(e, inc) => match gen_lhs(m, e, false) {
            Ok((m1, target)) => Ok(
                (
                    emit_op_store(
                        m1.emit_inst(Opcode::PUSH_IMM, 1),
                        target,
                        if inc {
                            Opcode::ADD
                        } else {
                            Opcode::SUB
                        },
                    ),
                    (),
                ),
            ),
            Err(x) => Err(x),
        },
        _ => Ok((m, ())),
    }
}

/// Lowers the results of a `return` from `i` on: result `i` is lowered,
/// stored to the local slot `i` and popped. Whether the function declares
/// that many results is not asked; the one failure of the store is that the
/// function has no local slot `i` at all.
#[verifier::opaque]
pub open spec fn gen_results(m: GenView, results: Vec<Expr>, i: int) -> Res<()>
    decreases results, results.len() - i,
{
    if 0 <= i < results.len() {
        match gen_expr(m, results[i]) {
            Ok((m1, _)) => if i < m1.cur().local_alloc {
                gen_results(
                    m1.emit(
                        store_words(
                            LeftHandSide::Primitive(EntIndex::LocalVar(i as i16)),
                            -1i16,
                            None,
                        ),
                    ).emit_code(Opcode::POP),
                    results,
                    i + 1,
                )
            } else {
                fail(m1, expr_pos(results[i]), ErrorKind::Type(TypeError::NoResultSlot))
            },
            Err(x) => Err(x),
        }
    } else {
        Ok((m, ()))
    }
}

/// Lowers `return`: the results, then `RETURN`.
#[verifier::opaque]
pub open spec fn gen_return(m: GenView, results: Vec<Expr>) -> Res<()>
    decreases results, results.len() + 1,
{
    match gen_results(m, results, 0) {
        Ok((m1, _)) => Ok((m1.emit_code(Opcode::RETURN), ())),
        Err(x) => Err(x),
    }
}

/// Lowers a statement that may be left out.
#[verifier::opaque]
pub open spec fn gen_opt_stmt(m: GenView, s: Option<Box<Stmt>>) -> Res<()>
    decreases s, 2nat,
{
    match s {
        Some(x) => gen_stmt(m, *x),
        None => Ok((m, ())),
    }
}

/// Lowers `if`: the condition, a jump over the body where it fails, the
/// body, and where there is an `else`, a jump over it after the body. Of any
/// other statement nothing is lowered.
#[verifier::opaque]
pub open spec fn gen_if(m: GenView, s: Stmt) -> Res<()>
    decreases s, 0nat,
{
    match s {
        Stmt::If(ifs) => match gen_opt_stmt(m, ifs.init) {
            Ok((m0, _)) => match gen_expr(m0, ifs.cond) {
                Ok((m1, _)) => match gen_stmts(m1.emit_inst(Opcode::JUMP_IF_NOT, 0), ifs.body, 0) {
                    Ok((m2, _)) => match ifs.els {
                        Some(els) => {
                            let m3 = m2.emit_inst(Opcode::JUMP, 0);
                            match m3.patch(ifs.pos, m1.here(), m3.here()) {
                                Ok((m4, _)) => match gen_stmt(m4, *els) {
                                    Ok((m5, _)) => m5.patch(ifs.pos, m2.here(), m5.here()),
                                    Err(x) => Err(x),
                                },
                                Err(x) => Err(x),
                            }
                        },
                        None => m2.patch(ifs.pos, m1.here(), m2.here()),
                    },
                    Err(x) => Err(x),
                },
                Err(x) => Err(x),
            },
            Err(x) => Err(x),
        },
        _ => Ok((m, ())),
    }
}

/// Lowers `for`: the condition with a jump out where it fails, the body,
/// the post statement, and a jump back to the condition. Of any other
/// statement nothing is lowered.
#[verifier::opaque]
pub open spec fn gen_for(m: GenView, s: Stmt) -> Res<()>
    decreases s, 0nat,
{
    match s {
        Stmt::For(fs) => match gen_opt_stmt(m, fs.init) {
            Ok((m0, _)) => {
                let cond = match fs.cond {
                    Some(c) => match gen_expr(m0, c) {
                        Ok((m1, _)) => Ok((m1.emit_inst(Opcode::JUMP_IF_NOT, 0), Some(m1.here()))),
                        Err(x) => Err(x),
                    },
                    None => Ok((m0, None)),
                };
                match cond {
                    Ok((m2, out)) => match gen_stmts(m2, fs.body, 0) {
                        Ok((m3, _)) => match gen_opt_stmt(m3, fs.post) {
                            Ok((m4, _)) => match m4.emit_jump(fs.pos, Opcode::JUMP, m0.here()) {
                                Ok((m5, _)) => match out {
                                    Some(at) => m5.patch(fs.pos, at, m5.here()),
                                    None => Ok((m5, ())),
                                },
                                Err(x) => Err(x),
                            },
                            Err(x) => Err(x),
                        },
                        Err(x) => Err(x),
                    },
                    Err(x) => Err(x),
                }
            },
            Err(x) => Err(x),
        },
        _ => Ok((m, ())),
    }
}

/// The state after a statement that may be left out is lowered, where it
/// can be lowered.
pub open spec fn after_opt_stmt(m: GenView, s: Option<Box<Stmt>>) -> GenView {
    gen_opt_stmt(m, s)->Ok_0.0
}

/// The state after the statements are lowered, where they can be lowered.
pub open spec fn after_stmts(m: GenView, ss: Vec<Stmt>) -> GenView {
    gen_stmts(m, ss, 0)->Ok_0.0
}

/// The layout of the code of `if`, lowered from the state `before` to the
/// state `after`. The conditional jump is the instruction after the
/// condition, and the body follows it. Without an `else` the body is the
/// end of the code, and the conditional jump aims there. With an `else` a
/// jump follows the body and aims at the end; the conditional jump aims at
/// the word after that jump, the first one of the `else`.
pub open spec fn if_shape(before: GenView, after: GenView, ifs: IfStmt) -> bool {
    let cond = after_expr(after_opt_stmt(before, ifs.init), ifs.cond);
    let body = after_stmts(cond.emit_inst(Opcode::JUMP_IF_NOT, 0), ifs.body);
    let code = after.cur().code;
    let end = code.len() as int;
    let at = cond.here();
    let mid = body.here();
    &&& before.here() <= at
    &&& at + 2 <= mid
    &&& code[at] == CodeWord::Code(Opcode::JUMP_IF_NOT)
    &&& if ifs.els is Some {
        &&& mid + 2 <= end
        &&& code[mid] == CodeWord::Code(Opcode::JUMP)
        &&& jump_target(code, at) == mid + 2
        &&& jump_target(code, mid) == end
    } else {
        &&& mid == end
        &&& jump_target(code, at) == end
    }
}

/// The layout of the code of `for`, lowered from the state `before` to the
/// state `after`. The loop begins after the init statement, and its last
/// instruction is a jump back to where it begins. Where there is a
/// condition, the conditional jump is the instruction after it and aims at
/// the end of the loop.
pub open spec fn for_shape(before: GenView, after: GenView, fs: ForStmt) -> bool {
    let start = after_opt_stmt(before, fs.init);
    let code = after.cur().code;
    let end = code.len() as int;
    let top = start.here();
    &&& before.here() <= top
    &&& top + 2 <= end
    &&& code[end - 2] == CodeWord::Code(Opcode::JUMP)
    &&& jump_target(code, end - 2) == top
    &&& match fs.cond {
        Some(c) => {
            let at = after_expr(start, c).here();
            &&& top <= at
            &&& at + 4 <= end
            &&& code[at] == CodeWord::Code(Opcode::JUMP_IF_NOT)
            &&& jump_target(code, at) == end
        },
        None => true,
    }
}

/// Lowers `for key, val := range expr`: the targets, the operand, the seed
/// of the cursor, then the loop: `RANGE`, which pushes the next key and
/// value or jumps out, the stores to the targets, the body, and a jump back
/// to `RANGE`. Of any other statement nothing is lowered.
#[verifier::opaque]
pub open spec fn gen_range(m: GenView, s: Stmt) -> Res<()>
    decreases s, 0nat,
{
    match s {
        Stmt::Range(rs) => match gen_lhs_opt(m, rs.key, rs.define) {
            Ok((m1, key)) => match gen_lhs_opt(m1, rs.val, rs.define) {
                Ok((m2, val)) => match gen_expr(m2, rs.expr) {
                    Ok((m3, _)) => {
                        let m4 = m3.emit_inst(Opcode::PUSH_IMM, -1i16);
                        match gen_stores(m4.emit_inst(Opcode::RANGE, 0), seq![key, val], rs.pos) {
                            Ok((m5, _)) => match gen_stmts(m5, rs.body, 0) {
                                Ok((m6, _)) => match m6.emit_jump(rs.pos, Opcode::JUMP, m4.here()) {
                                    Ok((m7, _)) => m7.patch(rs.pos, m4.here(), m7.here()),
                                    Err(x) => Err(x),
                                },
                                Err(x) => Err(x),
                            },
                            Err(x) => Err(x),
                        }
                    },
                    Err(x) => Err(x),
                },
                Err(x) => Err(x),
            },
            Err(x) => Err(x),
        },
        _ => Ok((m, ())),
    }
}

/// Lowers a statement.
#[verifier::opaque]
pub open spec fn gen_stmt(m: GenView, s: Stmt) -> Res<()>
    decreases s, 1nat,
{
    match s {
        Stmt::Decl(d) => gen_decl(m, d),
        Stmt::Empty => Ok((m, ())),
        Stmt::Expr(e) => gen_expr(m, e),
        Stmt::IncDec(_, _) => gen_assign(m, s),
        Stmt::Assign(_, _, _) => gen_assign(m, s),
        Stmt::Return(_, results) => gen_return(m, results),
        Stmt::Block(ss) => gen_stmts(m, ss, 0),
        Stmt::If(_) => gen_if(m, s),
        Stmt::For(_) => gen_for(m, s),
        Stmt::Range(_) => gen_range(m, s),
        Stmt::Bad(pos) => fail(m, pos, ErrorKind::NotImplemented),
        Stmt::Labeled(pos) => fail(m, pos, ErrorKind::NotImplemented),
        Stmt::Send(pos) => fail(m, pos, ErrorKind::NotImplemented),
        Stmt::Go(pos) => fail(m, pos, ErrorKind::NotImplemented),
        Stmt::Defer(pos) => fail(m, pos, ErrorKind::NotImplemented),
        Stmt::Branch(pos) => fail(m, pos, ErrorKind::NotImplemented),
        Stmt::Case(pos) => fail(m, pos, ErrorKind::NotImplemented),
        Stmt::Switch(pos) => fail(m, pos, ErrorKind::NotImplemented),
        Stmt::TypeSwitch(pos) => fail(m, pos, ErrorKind::NotImplemented),
        Stmt::Comm(pos) => fail(m, pos, ErrorKind::NotImplemented),
        Stmt::Select(pos) => fail(m, pos, ErrorKind::NotImplemented),
    }
}

/// Lowers the statements from `i` on, in order.
#[verifier::opaque]
pub open spec fn gen_stmts(m: GenView, ss: Vec<Stmt>, i: int) -> Res<()>
    decreases ss, ss.len() - i,
{
    if 0 <= i < ss.len() {
        match gen_stmt(m, ss[i]) {
            Ok((m1, _)) => gen_stmts(m1, ss, i + 1),
            Err(x) => Err(x),
        }
    } else {
        Ok((m, ()))
    }
}

/// Defines the names from `i` on as variables, after `acc`.
pub open spec fn def_names(m: GenView, names: Seq<Ident>, i: int, acc: Seq<LeftHandSide>) -> Res<
    Seq<LeftHandSide>,
>
    decreases names.len() - i,
{
    if 0 <= i < names.len() {
        match m.add_local_or_resolve_ident(names[i], true) {
            Ok((m1, idx)) => def_names(m1, names, i + 1, acc.push(LeftHandSide::Primitive(idx))),
            Err(x) => Err(x),
        }
    } else {
        Ok((m, acc))
    }
}

/// Defines the constants from `i` on: each value must be a basic literal.
pub open spec fn def_consts(m: GenView, vs: ValueSpec, i: int) -> Res<()>
    decreases vs.names.len() - i,
{
    if 0 <= i < vs.names.len() && i < vs.values.len() {
        match basic_literal_value(m, vs.typ, vs.values[i]) {
            Ok((m1, v)) => match m1.add_const_def(vs.names[i].pos, vs.names[i].entity, v) {
                Ok((m2, _)) => def_consts(m2, vs, i + 1),
                Err(x) => Err(x),
            },
            Err(x) => Err(x),
        }
    } else {
        Ok((m, ()))
    }
}

/// Defines constants: as many values as names, each a basic literal.
#[verifier::opaque]
pub open spec fn gen_def_const(m: GenView, vs: ValueSpec) -> Res<()> {
    if vs.names.len() != vs.values.len() {
        fail(
            m, names_pos(vs.names),
            ErrorKind::AssignMismatch(vs.names.len() as usize, vs.values.len() as usize),
        )
    } else {
        def_consts(m, vs, 0)
    }
}

/// The position that a declaration of names is reported at: that of the
/// first name.
pub open spec fn names_pos(names: Vec<Ident>) -> usize {
    if names.len() > 0 {
        names[0].pos
    } else {
        0
    }
}

/// Lowers one item of a general declaration.
#[verifier::opaque]
pub open spec fn gen_spec(m: GenView, spec: Spec) -> Res<()>
    decreases spec, 0nat,
{
    match spec {
        Spec::Import(pos) => fail(m, pos, ErrorKind::NotImplemented),
        Spec::Type(name, typ) => match gen_type(m, typ) {
            Ok((m1, t)) => match m1.add_const_def(name.pos, name.entity, Value::Type(t)) {
                Ok((m2, _)) => Ok((m2, ())),
                Err(x) => Err(x),
            },
            Err(x) => Err(x),
        },
        Spec::Var(vs) => match def_names(m, vs.names@, 0, Seq::empty()) {
            Ok((m1, targets)) => gen_assign_def_var(
                m1,
                targets,
                vs.values,
                vs.typ,
                names_pos(vs.names),
            ),
            Err(x) => Err(x),
        },
        Spec::Const(vs) => gen_def_const(m, vs),
    }
}

/// Lowers the items of a general declaration from `i` on.
#[verifier::opaque]
pub open spec fn gen_specs(m: GenView, specs: Vec<Spec>, i: int) -> Res<()>
    decreases specs, specs.len() - i,
{
    if 0 <= i < specs.len() {
        match gen_spec(m, specs[i]) {
            Ok((m1, _)) => gen_specs(m1, specs, i + 1),
            Err(x) => Err(x),
        }
    } else {
        Ok((m, ()))
    }
}

/// The struct type that a method is attached to: the receiver's type, or
/// what it points to.
pub open spec fn method_owner(m: GenView, t: TypeKey) -> TypeKey {
    match m.objs.types[t as int].data {
        TypeDataView::Boxed(b) => b,
        _ => t,
    }
}

/// Attaches a function to the receiver's struct type as the member `name`.
#[verifier::opaque]
pub open spec fn attach_method(
    m: GenView,
    pos: usize,
    t: TypeKey,
    name: Seq<char>,
    fkey: FunctionKey,
) -> Res<
    (),
> {
    let owner = method_owner(m, t);
    if owner >= m.objs.types.len() {
        fail(m, pos, ErrorKind::Type(TypeError::NotAStruct))
    } else {
        match m.objs.add_struct_member(owner, name, Value::Function(fkey)) {
            Some(o) => Ok((m.with_objs(o), ())),
            None => fail(m, pos, ErrorKind::Type(TypeError::NotAStruct)),
        }
    }
}

/// Makes a function a member of the package, and the package's `main`
/// where that is its name.
#[verifier::opaque]
pub open spec fn add_func_member(m: GenView, name: Ident, fkey: FunctionKey) -> Res<()> {
    let pk = m.current_pkg->Some_0;
    match m.pkg().add_member(name.entity, Value::Function(fkey)) {
        Some((p, index)) => Ok(
            (
                m.with_objs(
                    m.objs.with_package(
                        pk,
                        if name.name@ == "main"@ {
                            crate::package::PackageView { main_func: Some(index), ..p }
                        } else {
                            p
                        },
                    ),
                ),
                (),
            ),
        ),
        None => fail(m, name.pos, ErrorKind::Overflow),
    }
}

/// Lowers a declaration.
#[verifier::opaque]
pub open spec fn gen_decl(m: GenView, d: Decl) -> Res<()>
    decreases d, 0nat,
{
    match d {
        Decl::Bad(pos) => fail(m, pos, ErrorKind::NotImplemented),
        Decl::Gen(specs) => gen_specs(m, specs, 0),
        Decl::Func(fd) => match fd.body {
            None => fail(m, fd.pos, ErrorKind::NotImplemented),
            Some(body) => match fd.recv {
                Some(fields) => if fields.len() == 0 {
                    fail(m, fd.pos, ErrorKind::Type(TypeError::NotAStruct))
                } else {
                    match gen_func_def(m, fd.recv, fd.typ, body, fd.pos) {
                        Ok((m1, fkey)) => match gen_type(m1, fields[0].typ) {
                            Ok((m2, t)) => attach_method(m2, fd.pos, t, fd.name.name@, fkey),
                            Err(x) => Err(x),
                        },
                        Err(x) => Err(x),
                    }
                },
                None => match gen_func_def(m, None, fd.typ, body, fd.pos) {
                    Ok((m1, fkey)) => add_func_member(m1, fd.name, fkey),
                    Err(x) => Err(x),
                },
            },
        },
    }
}

/// Lowers the declarations from `i` on.
#[verifier::opaque]
pub open spec fn gen_decls(m: GenView, decls: Vec<Decl>, i: int) -> Res<()>
    decreases decls, decls.len() - i,
{
    if 0 <= i < decls.len() {
        match gen_decl(m, decls[i]) {
            Ok((m1, _)) => gen_decls(m1, decls, i + 1),
            Err(x) => Err(x),
        }
    } else {
        Ok((m, ()))
    }
}

/// The index of each package by its name, after a package is entered: the
/// last package of a name has the name.
pub open spec fn set_package_index(
    indices: Seq<(Seq<char>, i16)>,
    name: Seq<char>,
    index: i16,
) -> Seq<
    (Seq<char>, i16),
> {
    match assoc_position(indices, name) {
        Some(i) => indices.update(i, (name, index)),
        None => indices.push((name, index)),
    }
}

/// The state when generation of a package begins: the package is new, its
/// first member is its constructor, and the constructor is the function
/// that code is emitted into.
#[verifier::opaque]
pub open spec fn open_package(m: GenView, name: Seq<char>) -> GenView {
    let (o1, pk) = m.objs.new_package(name);
    let (o2, fkey) = o1.new_function(Some(pk), TYPE_DEFAULT_CLOSURE, false, true);
    let p = o2.packages[pk as int].add_member(None, Value::Function(fkey))->Some_0.0;
    GenView {
        objs: o2.with_package(pk, p),
        package_indices: set_package_index(m.package_indices, name, m.package_keys.len() as i16),
        package_keys: m.package_keys.push(pk),
        current_pkg: Some(pk),
        func_stack: m.func_stack.push(fkey),
    }
}

/// Generates a package from a file: the declarations are lowered into the
/// package's constructor, which ends by initialising the package. Where a
/// declaration fails, the constructor is completed all the same.
#[verifier::opaque]
pub open spec fn gen_file(m: GenView, f: File) -> Res<()> {
    if m.package_keys.len() >= i16::MAX {
        fail(m, f.name.pos, ErrorKind::Overflow)
    } else {
        let m1 = open_package(m, f.name.name@);
        let last = seq![
            CodeWord::Code(Opcode::RETURN_INIT_PKG),
            CodeWord::Data(m.package_keys.len() as i16),
        ];
        match gen_decls(m1, f.decls, 0) {
            Ok((m2, _)) => Ok((close_function(m2, last), ())),
            Err((m2, x)) => Err((close_function(m2, last), x)),
        }
    }
}

/// The code of the entry function: it imports package 0, loads its `main`
/// and calls it.
pub open spec fn entry_code() -> Seq<CodeWord> {
    seq![
        CodeWord::Code(Opcode::IMPORT),
        CodeWord::Data(0),
        CodeWord::Code(Opcode::PUSH_IMM),
        CodeWord::Data(-1i16),
        CodeWord::Code(Opcode::LOAD_FIELD),
        CodeWord::Code(Opcode::PRE_CALL),
        CodeWord::Code(Opcode::CALL),
        CodeWord::Data(0),
        CodeWord::Code(Opcode::RETURN),
    ]
}

/// The state after the entry function is added, and its key.
#[verifier::opaque]
pub open spec fn gen_entry(m: GenView) -> (GenView, FunctionKey) {
    let (o1, fkey) = m.objs.new_function(None, TYPE_DEFAULT_CLOSURE, false, false);
    (m.with_objs(o1.with_function(fkey, o1.functions[fkey as int].emit(entry_code()))), fkey)
}

} // verus!
