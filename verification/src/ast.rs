//! The syntax tree that the generator reads.

use vstd::prelude::*;
use crate::value::EntityKey;

verus! {

/// An identifier: where it stands, its name, and the entity that the parser
/// resolved it to. Built-in names and the blank identifier have no entity.
pub struct Ident {
    pub pos: usize,
    pub name: String,
    pub entity: Option<EntityKey>,
}

/// The kinds of basic literal.
#[derive(Clone, Copy, Debug, PartialEq, Eq, Structural)]
pub enum LitKind {
    Int,
    Float,
    Imag,
    Char,
    Str,
}

/// A basic literal: its text as written, quotes included. For an integer, a
/// float and a character literal `float_bits` holds the bits of the IEEE 754
/// double nearest to its value, where it has one.
pub struct BasicLit {
    pub pos: usize,
    pub kind: LitKind,
    pub text: String,
    pub float_bits: Option<u64>,
}

/// The unary operators.
#[derive(Clone, Copy, Debug, PartialEq, Eq, Structural)]
pub enum UnaryOp {
    /// `&`
    And,
    /// `+`
    Add,
    /// `-`
    Sub,
    /// `^`
    Xor,
    /// `!`
    Not,
    /// `<-`
    Arrow,
}

/// The binary operators.
#[derive(Clone, Copy, Debug, PartialEq, Eq, Structural)]
pub enum BinaryOp {
    Add,
    Sub,
    Mul,
    Quo,
    Rem,
    And,
    Or,
    Xor,
    Shl,
    Shr,
    AndNot,
    /// `&&`
    LAnd,
    /// `||`
    LOr,
    Not,
    Eql,
    Lss,
    Gtr,
    Neq,
    Leq,
    Geq,
}

/// The tokens of assignment.
#[derive(Clone, Copy, Debug, PartialEq, Eq, Structural)]
pub enum AssignTok {
    /// `=`
    Assign,
    /// `:=`
    Define,
    AddAssign,
    SubAssign,
    MulAssign,
    QuoAssign,
    RemAssign,
    AndAssign,
    OrAssign,
    XorAssign,
    ShlAssign,
    ShrAssign,
    AndNotAssign,
}

/// A group of names with one type: of a parameter list, a result list, a
/// struct or an interface. A field without names is anonymous.
pub struct Field {
    pub names: Vec<Ident>,
    pub typ: Expr,
}

/// The signature of a function.
pub struct FuncType {
    pub params: Vec<Field>,
    pub results: Vec<Field>,
}

/// An expression, or a type written as one. Where a variant begins with a
/// `usize`, that is its position; the position of the others is that of their
/// first operand.
pub enum Expr {
    Bad(usize),
    Ident(Ident),
    /// `...T`
    Ellipsis(usize, Option<Box<Expr>>),
    BasicLit(BasicLit),
    FuncLit(usize, FuncType, Vec<Stmt>),
    /// The type, where it is written, and the elements.
    CompositeLit(usize, Option<Box<Expr>>, Vec<Expr>),
    Paren(usize, Box<Expr>),
    Selector(Box<Expr>, Ident),
    Index(Box<Expr>, Box<Expr>),
    /// The operand, then low, high and max.
    Slice(Box<Expr>, Option<Box<Expr>>, Option<Box<Expr>>, Option<Box<Expr>>),
    TypeAssert(Box<Expr>),
    /// The callee, the arguments, and whether the last argument is spread with `...`.
    Call(Box<Expr>, Vec<Expr>, bool),
    Star(usize, Box<Expr>),
    Unary(usize, UnaryOp, Box<Expr>),
    Binary(Box<Expr>, BinaryOp, Box<Expr>),
    KeyValue(Box<Expr>, Box<Expr>),
    /// The length, where one is written, and the element type.
    Array(usize, Option<Box<Expr>>, Box<Expr>),
    Struct(usize, Vec<Field>),
    Func(usize, FuncType),
    Interface(usize, Vec<Field>),
    MapType(usize, Box<Expr>, Box<Expr>),
    Chan(usize, Box<Expr>),
}

/// `names typ = values`, of a `var` or a `const` declaration.
pub struct ValueSpec {
    pub names: Vec<Ident>,
    pub typ: Option<Expr>,
    pub values: Vec<Expr>,
}

/// One item of a general declaration.
pub enum Spec {
    Import(usize),
    Type(Ident, Expr),
    Var(ValueSpec),
    Const(ValueSpec),
}

/// A function or method declaration.
pub struct FuncDecl {
    pub pos: usize,
    /// The receiver of a method.
    pub recv: Option<Vec<Field>>,
    pub name: Ident,
    pub typ: FuncType,
    pub body: Option<Vec<Stmt>>,
}

pub enum Decl {
    Bad(usize),
    Gen(Vec<Spec>),
    Func(FuncDecl),
}

pub struct IfStmt {
    pub pos: usize,
    pub init: Option<Box<Stmt>>,
    pub cond: Expr,
    pub body: Vec<Stmt>,
    pub els: Option<Box<Stmt>>,
}

pub struct ForStmt {
    pub pos: usize,
    pub init: Option<Box<Stmt>>,
    pub cond: Option<Expr>,
    pub post: Option<Box<Stmt>>,
    pub body: Vec<Stmt>,
}

/// `for key, val := range expr { body }`; `define` tells `:=` from `=`.
pub struct RangeStmt {
    pub pos: usize,
    pub key: Option<Expr>,
    pub val: Option<Expr>,
    pub define: bool,
    pub expr: Expr,
    pub body: Vec<Stmt>,
}

/// A statement. The statements that the generator does not lower hold their
/// position only.
pub enum Stmt {
    Bad(usize),
    Decl(Decl),
    Empty,
    Labeled(usize),
    Expr(Expr),
    Send(usize),
    /// The operand, and whether it is incremented (`++`) or decremented (`--`).
    IncDec(Expr, bool),
    Assign(Vec<Expr>, AssignTok, Vec<Expr>),
    Go(usize),
    Defer(usize),
    Return(usize, Vec<Expr>),
    Branch(usize),
    Block(Vec<Stmt>),
    If(IfStmt),
    Case(usize),
    Switch(usize),
    TypeSwitch(usize),
    Comm(usize),
    Select(usize),
    For(ForStmt),
    Range(RangeStmt),
}

/// A source file: the package's name and the top-level declarations.
pub struct File {
    pub name: Ident,
    pub decls: Vec<Decl>,
}

/// The position of an expression.
pub open spec fn expr_pos(e: Expr) -> usize
    decreases e,
{
    match e {
        Expr::Bad(p) => p,
        Expr::Ident(id) => id.pos,
        Expr::Ellipsis(p, _) => p,
        Expr::BasicLit(lit) => lit.pos,
        Expr::FuncLit(p, _, _) => p,
        Expr::CompositeLit(p, _, _) => p,
        Expr::Paren(p, _) => p,
        Expr::Selector(x, _) => expr_pos(*x),
        Expr::Index(x, _) => expr_pos(*x),
        Expr::Slice(x, _, _, _) => expr_pos(*x),
        Expr::TypeAssert(x) => expr_pos(*x),
        Expr::Call(f, _, _) => expr_pos(*f),
        Expr::Star(p, _) => p,
        Expr::Unary(p, _, _) => p,
        Expr::Binary(a, _, _) => expr_pos(*a),
        Expr::KeyValue(k, _) => expr_pos(*k),
        Expr::Array(p, _, _) => p,
        Expr::Struct(p, _) => p,
        Expr::Func(p, _) => p,
        Expr::Interface(p, _) => p,
        Expr::MapType(p, _, _) => p,
        Expr::Chan(p, _) => p,
    }
}

impl Expr {
    /// The position of the expression.
    pub fn pos(&self) -> (p: usize)
        ensures
            p == expr_pos(*self),
        decreases self,
    {
        match self {
            Expr::Bad(p) => *p,
            Expr::Ident(id) => id.pos,
            Expr::Ellipsis(p, _) => *p,
            Expr::BasicLit(lit) => lit.pos,
            Expr::FuncLit(p, _, _) => *p,
            Expr::CompositeLit(p, _, _) => *p,
            Expr::Paren(p, _) => *p,
            Expr::Selector(x, _) => x.pos(),
            Expr::Index(x, _) => x.pos(),
            Expr::Slice(x, _, _, _) => x.pos(),
            Expr::TypeAssert(x) => x.pos(),
            Expr::Call(f, _, _) => f.pos(),
            Expr::Star(p, _) => *p,
            Expr::Unary(p, _, _) => *p,
            Expr::Binary(a, _, _) => a.pos(),
            Expr::KeyValue(k, _) => k.pos(),
            Expr::Array(p, _, _) => *p,
            Expr::Struct(p, _) => *p,
            Expr::Func(p, _) => *p,
            Expr::Interface(p, _) => *p,
            Expr::MapType(p, _, _) => *p,
            Expr::Chan(p, _) => *p,
        }
    }
}

impl Ident {
    /// Whether this is the blank identifier `_`.
    pub open spec fn spec_is_blank(&self) -> bool {
        self.name@ == "_"@
    }

    #[verifier::when_used_as_spec(spec_is_blank)]
    pub fn is_blank(&self) -> (b: bool)
        ensures
            b == self.spec_is_blank(),
    {
        let t = "_".to_owned();
        self.name == t
    }
}

} // verus!
