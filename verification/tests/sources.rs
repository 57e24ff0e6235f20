use std::collections::HashMap;

use goscript_parser::ast as past;
use goscript_parser::ast::Node;
use goscript_parser::errors::ErrorList;
use goscript_parser::objects::{FieldKey, FuncTypeKey, IdentKey, Objects as AstObjects};
use goscript_parser::token::Token;
use goscript_parser::{FileSet, Parser};
use goscript_vm::objects::key_to_u64;

use gos_codegen::ast::{
    AssignTok, BasicLit, BinaryOp, Decl, Expr, Field, File, ForStmt, FuncDecl, FuncType, Ident,
    IfStmt, LitKind, RangeStmt, Spec, Stmt, UnaryOp, ValueSpec,
};
use gos_codegen::bytecode::ByteCode;
use gos_codegen::codegen::CodeGen;
use gos_codegen::opcode::{CodeWord, Opcode};
use gos_codegen::opcode::CodeWord::{Code, Data};
use gos_codegen::value::{ErrorKind, GenError, Value};

/// Converts a tree, and remembers the names and literals by their positions.
struct Converter<'a> {
    objs: &'a AstObjects,
    names: HashMap<usize, String>,
    literals: HashMap<usize, String>,
}

fn float_bits(text: &str) -> Option<u64> {
    text.parse::<f64>().ok().map(f64::to_bits)
}

fn char_bits(text: &str) -> Option<u64> {
    text.chars().nth(1).map(|c| (c as u32 as f64).to_bits())
}

impl<'a> Converter<'a> {
    fn new(objs: &'a AstObjects) -> Converter<'a> {
        Converter { objs, names: HashMap::new(), literals: HashMap::new() }
    }

    /// The name of the identifier at a position.
    fn name_at(&self, pos: usize) -> String {
        self.names.get(&pos).cloned().unwrap_or_default()
    }

    /// The text of the literal at a position.
    fn literal_at(&self, pos: usize) -> String {
        self.literals.get(&pos).cloned().unwrap_or_default()
    }

    fn file(&mut self, f: &past::File) -> File {
        File { name: self.ident(f.name), decls: f.decls.iter().map(|d| self.decl(d)).collect() }
    }

    fn ident(&mut self, key: IdentKey) -> Ident {
        let id = &self.objs.idents[key];
        self.names.insert(id.pos, id.name.clone());
        Ident { pos: id.pos, name: id.name.clone(), entity: id.entity_key().map(key_to_u64) }
    }

    fn field(&mut self, key: FieldKey) -> Field {
        let field = &self.objs.fields[key];
        Field {
            names: field.names.iter().map(|n| self.ident(*n)).collect(),
            typ: self.expr(&field.typ),
        }
    }

    fn fields(&mut self, list: &past::FieldList) -> Vec<Field> {
        list.list.iter().map(|f| self.field(*f)).collect()
    }

    fn func_type(&mut self, key: FuncTypeKey) -> FuncType {
        let ft = &self.objs.ftypes[key];
        FuncType {
            params: self.fields(&ft.params),
            results: match &ft.results {
                Some(r) => self.fields(r),
                None => Vec::new(),
            },
        }
    }

    fn basic_lit(&mut self, lit: &past::BasicLit) -> Expr {
        let text = lit.token.get_literal().to_string();
        self.literals.insert(lit.pos, text.clone());
        let (kind, bits) = match &lit.token {
            Token::INT(_) => (LitKind::Int, float_bits(&text)),
            Token::FLOAT(_) => (LitKind::Float, float_bits(&text)),
            Token::IMAG(_) => (LitKind::Imag, None),
            Token::CHAR(_) => (LitKind::Char, char_bits(&text)),
            Token::STRING(_) => (LitKind::Str, None),
            _ => return Expr::Bad(lit.pos),
        };
        Expr::BasicLit(BasicLit { pos: lit.pos, kind, text, float_bits: bits })
    }

    fn boxed(&mut self, e: &past::Expr) -> Box<Expr> {
        Box::new(self.expr(e))
    }

    fn opt(&mut self, e: &Option<past::Expr>) -> Option<Box<Expr>> {
        e.as_ref().map(|x| self.boxed(x))
    }

    fn exprs(&mut self, es: &[past::Expr]) -> Vec<Expr> {
        es.iter().map(|e| self.expr(e)).collect()
    }

    fn expr(&mut self, e: &past::Expr) -> Expr {
        let pos = e.pos(self.objs);
        match e {
            past::Expr::Bad(_) => Expr::Bad(pos),
            past::Expr::Ident(key) => Expr::Ident(self.ident(*key)),
            past::Expr::Ellipsis(x) => Expr::Ellipsis(pos, self.opt(&x.elt)),
            past::Expr::BasicLit(lit) => self.basic_lit(lit),
            past::Expr::FuncLit(lit) => {
                Expr::FuncLit(pos, self.func_type(lit.typ), self.stmts(&lit.body.list))
            }
            past::Expr::CompositeLit(lit) => {
                Expr::CompositeLit(pos, self.opt(&lit.typ), self.exprs(&lit.elts))
            }
            past::Expr::Paren(x) => Expr::Paren(pos, self.boxed(&x.expr)),
            past::Expr::Selector(x) => Expr::Selector(self.boxed(&x.expr), self.ident(x.sel)),
            past::Expr::Index(x) => Expr::Index(self.boxed(&x.expr), self.boxed(&x.index)),
            past::Expr::Slice(x) => Expr::Slice(
                self.boxed(&x.expr),
                self.opt(&x.low),
                self.opt(&x.high),
                self.opt(&x.max),
            ),
            past::Expr::TypeAssert(x) => Expr::TypeAssert(self.boxed(&x.expr)),
            past::Expr::Call(x) => {
                Expr::Call(self.boxed(&x.func), self.exprs(&x.args), x.ellipsis.is_some())
            }
            past::Expr::Star(x) => Expr::Star(pos, self.boxed(&x.expr)),
            past::Expr::Unary(x) => match unary_op(&x.op) {
                Some(op) => Expr::Unary(pos, op, self.boxed(&x.expr)),
                None => Expr::Bad(pos),
            },
            past::Expr::Binary(x) => match binary_op(&x.op) {
                Some(op) => Expr::Binary(self.boxed(&x.expr_a), op, self.boxed(&x.expr_b)),
                None => Expr::Bad(pos),
            },
            past::Expr::KeyValue(x) => Expr::KeyValue(self.boxed(&x.key), self.boxed(&x.val)),
            past::Expr::Array(x) => Expr::Array(pos, self.opt(&x.len), self.boxed(&x.elt)),
            past::Expr::Struct(x) => Expr::Struct(pos, self.fields(&x.fields)),
            past::Expr::Func(key) => Expr::Func(pos, self.func_type(*key)),
            past::Expr::Interface(x) => Expr::Interface(pos, self.fields(&x.methods)),
            past::Expr::Map(x) => Expr::MapType(pos, self.boxed(&x.key), self.boxed(&x.val)),
            past::Expr::Chan(x) => Expr::Chan(pos, self.boxed(&x.val)),
        }
    }

    fn stmts(&mut self, list: &[past::Stmt]) -> Vec<Stmt> {
        list.iter().map(|s| self.stmt(s)).collect()
    }

    fn opt_stmt(&mut self, s: &Option<past::Stmt>) -> Option<Box<Stmt>> {
        s.as_ref().map(|x| Box::new(self.stmt(x)))
    }

    fn stmt(&mut self, s: &past::Stmt) -> Stmt {
        let pos = s.pos(self.objs);
        match s {
            past::Stmt::Bad(_) => Stmt::Bad(pos),
            past::Stmt::Decl(d) => Stmt::Decl(self.decl(d)),
            past::Stmt::Empty(_) => Stmt::Empty,
            past::Stmt::Labeled(_) => Stmt::Labeled(pos),
            past::Stmt::Expr(e) => Stmt::Expr(self.expr(e)),
            past::Stmt::Send(_) => Stmt::Send(pos),
            past::Stmt::IncDec(x) => match x.token {
                Token::INC => Stmt::IncDec(self.expr(&x.expr), true),
                Token::DEC => Stmt::IncDec(self.expr(&x.expr), false),
                _ => Stmt::Bad(pos),
            },
            past::Stmt::Assign(key) => {
                let x = &self.objs.a_stmts[*key];
                match assign_tok(&x.token) {
                    Some(tok) => Stmt::Assign(self.exprs(&x.lhs), tok, self.exprs(&x.rhs)),
                    None => Stmt::Bad(pos),
                }
            }
            past::Stmt::Go(_) => Stmt::Go(pos),
            past::Stmt::Defer(_) => Stmt::Defer(pos),
            past::Stmt::Return(x) => Stmt::Return(pos, self.exprs(&x.results)),
            past::Stmt::Branch(_) => Stmt::Branch(pos),
            past::Stmt::Block(x) => Stmt::Block(self.stmts(&x.list)),
            past::Stmt::If(x) => Stmt::If(IfStmt {
                pos,
                init: self.opt_stmt(&x.init),
                cond: self.expr(&x.cond),
                body: self.stmts(&x.body.list),
                els: self.opt_stmt(&x.els),
            }),
            past::Stmt::Case(_) => Stmt::Case(pos),
            past::Stmt::Switch(_) => Stmt::Switch(pos),
            past::Stmt::TypeSwitch(_) => Stmt::TypeSwitch(pos),
            past::Stmt::Comm(_) => Stmt::Comm(pos),
            past::Stmt::Select(_) => Stmt::Select(pos),
            past::Stmt::For(x) => Stmt::For(ForStmt {
                pos,
                init: self.opt_stmt(&x.init),
                cond: x.cond.as_ref().map(|c| self.expr(c)),
                post: self.opt_stmt(&x.post),
                body: self.stmts(&x.body.list),
            }),
            past::Stmt::Range(x) => Stmt::Range(RangeStmt {
                pos,
                key: x.key.as_ref().map(|k| self.expr(k)),
                val: x.val.as_ref().map(|v| self.expr(v)),
                define: x.token == Token::DEFINE,
                expr: self.expr(&x.expr),
                body: self.stmts(&x.body.list),
            }),
        }
    }

    fn value_spec(&mut self, vs: &past::ValueSpec) -> ValueSpec {
        ValueSpec {
            names: vs.names.iter().map(|n| self.ident(*n)).collect(),
            typ: vs.typ.as_ref().map(|t| self.expr(t)),
            values: self.exprs(&vs.values),
        }
    }

    fn decl(&mut self, d: &past::Decl) -> Decl {
        let pos = d.pos(self.objs);
        match d {
            past::Decl::Bad(_) => Decl::Bad(pos),
            past::Decl::Gen(gdecl) => Decl::Gen(
                gdecl
                    .specs
                    .iter()
                    .map(|key| match &self.objs.specs[*key] {
                        past::Spec::Import(_) => Spec::Import(pos),
                        past::Spec::Type(ts) => Spec::Type(self.ident(ts.name), self.expr(&ts.typ)),
                        past::Spec::Value(vs) => {
                            if gdecl.token == Token::VAR {
                                Spec::Var(self.value_spec(vs))
                            } else {
                                Spec::Const(self.value_spec(vs))
                            }
                        }
                    })
                    .collect(),
            ),
            past::Decl::Func(key) => {
                let fdecl = &self.objs.fdecls[*key];
                Decl::Func(FuncDecl {
                    pos,
                    recv: fdecl.recv.as_ref().map(|r| self.fields(r)),
                    name: self.ident(fdecl.name),
                    typ: self.func_type(fdecl.typ),
                    body: fdecl.body.as_ref().map(|b| self.stmts(&b.list)),
                })
            }
        }
    }
}

fn unary_op(t: &Token) -> Option<UnaryOp> {
    Some(match t {
        Token::AND => UnaryOp::And,
        Token::ADD => UnaryOp::Add,
        Token::SUB => UnaryOp::Sub,
        Token::XOR => UnaryOp::Xor,
        Token::NOT => UnaryOp::Not,
        Token::ARROW => UnaryOp::Arrow,
        _ => return None,
    })
}

fn binary_op(t: &Token) -> Option<BinaryOp> {
    Some(match t {
        Token::ADD => BinaryOp::Add,
        Token::SUB => BinaryOp::Sub,
        Token::MUL => BinaryOp::Mul,
        Token::QUO => BinaryOp::Quo,
        Token::REM => BinaryOp::Rem,
        Token::AND => BinaryOp::And,
        Token::OR => BinaryOp::Or,
        Token::XOR => BinaryOp::Xor,
        Token::SHL => BinaryOp::Shl,
        Token::SHR => BinaryOp::Shr,
        Token::AND_NOT => BinaryOp::AndNot,
        Token::LAND => BinaryOp::LAnd,
        Token::LOR => BinaryOp::LOr,
        Token::NOT => BinaryOp::Not,
        Token::EQL => BinaryOp::Eql,
        Token::LSS => BinaryOp::Lss,
        Token::GTR => BinaryOp::Gtr,
        Token::NEQ => BinaryOp::Neq,
        Token::LEQ => BinaryOp::Leq,
        Token::GEQ => BinaryOp::Geq,
        _ => return None,
    })
}

fn assign_tok(t: &Token) -> Option<AssignTok> {
    Some(match t {
        Token::ASSIGN => AssignTok::Assign,
        Token::DEFINE => AssignTok::Define,
        Token::ADD_ASSIGN => AssignTok::AddAssign,
        Token::SUB_ASSIGN => AssignTok::SubAssign,
        Token::MUL_ASSIGN => AssignTok::MulAssign,
        Token::QUO_ASSIGN => AssignTok::QuoAssign,
        Token::REM_ASSIGN => AssignTok::RemAssign,
        Token::AND_ASSIGN => AssignTok::AndAssign,
        Token::OR_ASSIGN => AssignTok::OrAssign,
        Token::XOR_ASSIGN => AssignTok::XorAssign,
        Token::SHL_ASSIGN => AssignTok::ShlAssign,
        Token::SHR_ASSIGN => AssignTok::ShrAssign,
        Token::AND_NOT_ASSIGN => AssignTok::AndNotAssign,
        _ => return None,
    })
}

fn parse(src: &str) -> File {
    let mut astobjs = AstObjects::new();
    let mut fset = FileSet::new();
    let el = ErrorList::new();
    let afile = {
        let pfile = fset.add_file("test.gos".to_string(), None, src.chars().count());
        Parser::new(&mut astobjs, pfile, &el, src, false).parse_file()
    };
    assert_eq!(el.len(), 0, "the source does not parse");
    Converter::new(&astobjs).file(&afile.unwrap())
}

fn compiled(src: &str) -> ByteCode {
    match CodeGen::compile(&parse(src)) {
        Ok(bc) => bc,
        Err(e) => panic!("rejected: {:?}", e),
    }
}

fn rejected(src: &str) -> GenError {
    match CodeGen::compile(&parse(src)) {
        Ok(_) => panic!("compiled"),
        Err(e) => e,
    }
}

fn load(tag: i16, index: i16) -> Vec<CodeWord> {
    vec![Code(Opcode::LOAD), Data(tag), Data(index)]
}

fn store(tag: i16, target: i16, val: i16, op: i16) -> Vec<CodeWord> {
    vec![Code(Opcode::STORE), Data(tag), Data(target), Data(val), Data(op)]
}

fn words(parts: Vec<Vec<CodeWord>>) -> Vec<CodeWord> {
    parts.into_iter().flatten().collect()
}

const LOCAL: i16 = 0;
const MEMBER: i16 = 2;
const CONST: i16 = 3;
const BLANK: i16 = 5;

#[test]
fn source_main_with_assertion() {
    let bc = compiled("package p; func main() { assert(1 + 2 == 3) }");
    let pkg = &bc.objects.packages()[0];
    assert_eq!(pkg.name(), "p");
    assert_eq!(pkg.main_func(), Some(1));
    assert_eq!(pkg.members(), &vec![Value::Function(0), Value::Function(1)]);
    assert_eq!(
        bc.objects.functions()[1].code(),
        &words(vec![
            load(CONST, 0),
            load(CONST, 1),
            vec![Code(Opcode::ADD)],
            load(CONST, 2),
            vec![Code(Opcode::EQL), Code(Opcode::ASSERT), Code(Opcode::RETURN)],
        ])
    );
    assert_eq!(
        bc.objects.functions()[1].consts(),
        &vec![Value::Int(1), Value::Int(2), Value::Int(3)]
    );
    assert_eq!(bc.entry, 2);
}

#[test]
fn source_loop_adds_to_package_variable() {
    let bc = compiled("package p; var x = 0; func main() { for i := 0; i < 3; i++ { x += i } }");
    let pkg = &bc.objects.packages()[0];
    assert_eq!(pkg.members(), &vec![Value::Function(0), Value::Nil, Value::Function(1)]);
    assert_eq!(pkg.vars(), &vec![(1i16, 0i16)]);
    assert_eq!(pkg.main_func(), Some(2));
    assert_eq!(
        bc.objects.functions()[0].code(),
        &words(vec![
            load(CONST, 0),
            store(LOCAL, 0, -1, -1),
            vec![Code(Opcode::POP), Code(Opcode::RETURN_INIT_PKG), Data(0)],
        ])
    );
    let add = Opcode::ADD.index();
    assert_eq!(
        bc.objects.functions()[1].code(),
        &words(vec![
            load(CONST, 0),
            store(LOCAL, 0, -1, -1),
            vec![Code(Opcode::POP)],
            load(LOCAL, 0),
            load(CONST, 1),
            vec![Code(Opcode::LSS), Code(Opcode::JUMP_IF_NOT), Data(19)],
            load(LOCAL, 0),
            store(MEMBER, 1, -1, add),
            vec![Code(Opcode::POP)],
            vec![Code(Opcode::PUSH_IMM), Data(1)],
            store(LOCAL, 0, -1, add),
            vec![Code(Opcode::POP)],
            vec![Code(Opcode::JUMP), Data(-28), Code(Opcode::RETURN)],
        ])
    );
}

#[test]
fn source_range_over_slice_literal() {
    let bc = compiled(
        "package p; func main() { xs := []int{1,2,3}; s := 0; for _,v := range xs { s += v }; assert(s == 6) }",
    );
    assert_eq!(bc.objects.slices(), &vec![vec![Value::Int(1), Value::Int(2), Value::Int(3)]]);
    let add = Opcode::ADD.index();
    assert_eq!(
        bc.objects.functions()[1].code(),
        &words(vec![
            load(CONST, 0),
            store(LOCAL, 0, -1, -1),
            vec![Code(Opcode::POP)],
            load(CONST, 1),
            store(LOCAL, 1, -1, -1),
            vec![Code(Opcode::POP)],
            load(LOCAL, 0),
            vec![Code(Opcode::PUSH_IMM), Data(-1), Code(Opcode::RANGE), Data(23)],
            store(BLANK, 0, -2, -1),
            store(LOCAL, 2, -1, -1),
            vec![Code(Opcode::POP), Code(Opcode::POP)],
            load(LOCAL, 2),
            store(LOCAL, 1, -1, add),
            vec![Code(Opcode::POP)],
            vec![Code(Opcode::JUMP), Data(-25)],
            load(LOCAL, 1),
            load(CONST, 2),
            vec![Code(Opcode::EQL), Code(Opcode::ASSERT), Code(Opcode::RETURN)],
        ])
    );
}

#[test]
fn source_map_literal_and_index() {
    let bc = compiled(
        "package p; func main() { m := map[string]int{\"a\":1,\"b\":2}; assert(m[\"a\"]+m[\"b\"] == 3) }",
    );
    assert_eq!(
        bc.objects.maps()[0].entries(),
        &vec![(Value::Str(1), Value::Int(1)), (Value::Str(2), Value::Int(2))]
    );
    assert_eq!(bc.objects.maps()[0].default_val(), Value::Int(0));
    assert_eq!(bc.objects.strings()[1..], ["a", "b", "a", "b"]);
    assert_eq!(
        bc.objects.functions()[1].code(),
        &words(vec![
            load(CONST, 0),
            store(LOCAL, 0, -1, -1),
            vec![Code(Opcode::POP)],
            load(LOCAL, 0),
            load(CONST, 1),
            vec![Code(Opcode::LOAD_FIELD)],
            load(LOCAL, 0),
            load(CONST, 2),
            vec![Code(Opcode::LOAD_FIELD), Code(Opcode::ADD)],
            load(CONST, 3),
            vec![Code(Opcode::EQL), Code(Opcode::ASSERT), Code(Opcode::RETURN)],
        ])
    );
}

#[test]
fn source_assignment_copies_the_value() {
    let bc = compiled("package p; func main() { x := 1; y := x; y = 2; assert(x == 1) }");
    assert_eq!(
        bc.objects.functions()[1].code(),
        &words(vec![
            load(CONST, 0),
            store(LOCAL, 0, -1, -1),
            vec![Code(Opcode::POP)],
            load(LOCAL, 0),
            store(LOCAL, 1, -1, -1),
            vec![Code(Opcode::POP)],
            load(CONST, 1),
            store(LOCAL, 1, -1, -1),
            vec![Code(Opcode::POP)],
            load(LOCAL, 0),
            load(CONST, 0),
            vec![Code(Opcode::EQL), Code(Opcode::ASSERT), Code(Opcode::RETURN)],
        ])
    );
}

#[test]
fn source_two_names_one_value_is_rejected() {
    let e = rejected("package p; var a, b = 1");
    assert_eq!(e.kind, ErrorKind::AssignMismatch(2, 1));
}

#[test]
fn source_closure_captures_and_short_circuits() {
    let bc = compiled(
        "package p; func main() { a := true; f := func() bool { return a && false || a }; f() }",
    );
    let literal = &bc.objects.functions()[2];
    assert_eq!(literal.ret_count(), 1);
    assert_eq!(literal.upvalues().len(), 1);
    assert_eq!(
        literal.code(),
        &words(vec![
            // a && false
            load(1, 0),
            vec![Code(Opcode::JUMP_IF_NOT), Data(3), Code(Opcode::PUSH_FALSE)],
            vec![Code(Opcode::JUMP), Data(1), Code(Opcode::PUSH_FALSE)],
            // || a
            vec![Code(Opcode::JUMP_IF), Data(5)],
            load(1, 0),
            vec![Code(Opcode::JUMP), Data(1), Code(Opcode::PUSH_TRUE)],
            // return
            store(LOCAL, 0, -1, -1),
            vec![Code(Opcode::POP), Code(Opcode::RETURN), Code(Opcode::RETURN)],
        ])
    );
    assert_eq!(
        bc.objects.functions()[1].code(),
        &words(vec![
            vec![Code(Opcode::PUSH_TRUE)],
            store(LOCAL, 0, -1, -1),
            vec![Code(Opcode::POP)],
            load(CONST, 0),
            vec![Code(Opcode::NEW)],
            store(LOCAL, 1, -1, -1),
            vec![Code(Opcode::POP)],
            load(LOCAL, 1),
            vec![Code(Opcode::PRE_CALL), Code(Opcode::CALL), Data(0), Code(Opcode::RETURN)],
        ])
    );
}

#[test]
fn source_negation_is_not_lowered() {
    let e = rejected("package p; func main() { a := !true }");
    assert_eq!(e.kind, ErrorKind::NotImplemented);
    let f = rejected("package p; import \"fmt\"");
    assert_eq!(f.kind, ErrorKind::NotImplemented);
    let g = rejected("package p; func main() { undefined_name() }");
    assert_eq!(g.kind, ErrorKind::Undefined);
}
