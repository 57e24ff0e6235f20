use gos_codegen::ast::{
    AssignTok, BasicLit, BinaryOp, Decl, Expr, Field, File, ForStmt, FuncDecl, FuncType, Ident,
    IfStmt, LitKind, RangeStmt, Spec, Stmt, UnaryOp, ValueSpec,
};
use gos_codegen::bytecode::ByteCode;
use gos_codegen::codegen::CodeGen;
use gos_codegen::objects::{TYPE_DEFAULT_CLOSURE, TYPE_INT, TYPE_STRING, TypeData};
use gos_codegen::opcode::{CodeWord, Opcode};
use gos_codegen::opcode::CodeWord::{Code, Data};
use gos_codegen::value::{EntIndex, ErrorKind, GenError, TypeError, UpValue, Value};

const LOCAL: i16 = 0;
const UPVALUE: i16 = 1;
const MEMBER: i16 = 2;
const CONST: i16 = 3;
const BLANK: i16 = 5;
const INDEX_SEL: i16 = 6;
const DEREF: i16 = 7;

fn ident(name: &str, entity: u64) -> Ident {
    Ident { pos: 0, name: name.to_string(), entity: Some(entity) }
}

fn unbound(name: &str, pos: usize) -> Ident {
    Ident { pos, name: name.to_string(), entity: None }
}

fn name(name: &str, entity: u64) -> Expr {
    Expr::Ident(ident(name, entity))
}

fn num(text: &str) -> Expr {
    Expr::BasicLit(BasicLit {
        pos: 0,
        kind: LitKind::Int,
        text: text.to_string(),
        float_bits: text.parse::<f64>().ok().map(f64::to_bits),
    })
}

fn string(text: &str) -> Expr {
    Expr::BasicLit(BasicLit {
        pos: 0,
        kind: LitKind::Str,
        text: text.to_string(),
        float_bits: None,
    })
}

fn binary(a: Expr, op: BinaryOp, b: Expr) -> Expr {
    Expr::Binary(Box::new(a), op, Box::new(b))
}

fn call(f: Expr, args: Vec<Expr>) -> Expr {
    Expr::Call(Box::new(f), args, false)
}

fn assert_call(e: Expr) -> Stmt {
    Stmt::Expr(call(Expr::Ident(unbound("assert", 0)), vec![e]))
}

fn basic(name: &str) -> Expr {
    Expr::Ident(unbound(name, 0))
}

fn func(name: &str, entity: u64, body: Vec<Stmt>) -> Decl {
    Decl::Func(FuncDecl {
        pos: 0,
        recv: None,
        name: ident(name, entity),
        typ: FuncType { params: vec![], results: vec![] },
        body: Some(body),
    })
}

fn file(decls: Vec<Decl>) -> File {
    File { name: unbound("p", 0), decls }
}

fn compiled(f: &File) -> ByteCode {
    match CodeGen::compile(f) {
        Ok(bc) => bc,
        Err(e) => panic!("rejected: {:?}", e),
    }
}

fn rejected(f: &File) -> GenError {
    match CodeGen::compile(f) {
        Ok(_) => panic!("compiled"),
        Err(e) => e,
    }
}

fn code(bc: &ByteCode, function: usize) -> Vec<CodeWord> {
    bc.objects.functions()[function].code().clone()
}

fn load(tag: i16, index: i16) -> Vec<CodeWord> {
    vec![Code(Opcode::LOAD), Data(tag), Data(index)]
}

fn store(tag: i16, target: i16, val: i16, op: i16) -> Vec<CodeWord> {
    vec![Code(Opcode::STORE), Data(tag), Data(target), Data(val), Data(op)]
}

fn words(parts: Vec<Vec<CodeWord>>) -> Vec<CodeWord> {
    parts.into_iter().flatten().collect()
}

fn entry_code() -> Vec<CodeWord> {
    vec![
        Code(Opcode::IMPORT),
        Data(0),
        Code(Opcode::PUSH_IMM),
        Data(-1),
        Code(Opcode::LOAD_FIELD),
        Code(Opcode::PRE_CALL),
        Code(Opcode::CALL),
        Data(0),
        Code(Opcode::RETURN),
    ]
}

/// Every jump of every function aims at an opcode inside the function.
fn jumps_closed(bc: &ByteCode) -> bool {
    bc.objects.functions().iter().all(|f| {
        let c = f.code();
        (0..c.len()).all(|at| match c[at] {
            Code(op) if op.is_jump() => match c.get(at + 1) {
                Some(Data(d)) => {
                    let target = at as i64 + 2 + *d as i64;
                    target >= 0
                        && (target as usize) < c.len()
                        && matches!(c[target as usize], Code(_))
                },
                _ => false,
            },
            _ => true,
        })
    })
}

/// Every load and store names a slot that the function or its package has.
fn accesses_in_range(bc: &ByteCode) -> bool {
    bc.objects.functions().iter().all(|f| {
        let c = f.code();
        let members = match f.package() {
            Some(p) => bc.objects.packages()[p].members().len(),
            None => 0,
        };
        (0..c.len()).all(|at| match c[at] {
            Code(Opcode::LOAD) | Code(Opcode::STORE) => match (c.get(at + 1), c.get(at + 2)) {
                (Some(Data(tag)), Some(Data(index))) => {
                    let limit = match *tag {
                        LOCAL => f.local_alloc(),
                        UPVALUE => f.upvalues().len(),
                        MEMBER => members,
                        CONST => f.consts().len(),
                        _ => usize::MAX,
                    };
                    *tag > CONST || (*index >= 0 && (*index as usize) < limit)
                },
                _ => false,
            },
            _ => true,
        })
    })
}

// package p; func main() { assert(1 + 2 == 3) }
#[test]
fn main_with_assertion() {
    let f = file(vec![func(
        "main",
        1,
        vec![assert_call(binary(binary(num("1"), BinaryOp::Add, num("2")), BinaryOp::Eql, num("3")))],
    )]);
    let bc = compiled(&f);
    assert_eq!(bc.packages, vec![0]);
    assert_eq!(bc.package_indices, vec![("p".to_string(), 0)]);
    assert_eq!(bc.entry, 2);
    let pkg = &bc.objects.packages()[0];
    assert_eq!(pkg.main_func(), Some(1));
    assert_eq!(pkg.members(), &vec![Value::Function(0), Value::Function(1)]);
    assert_eq!(pkg.member_indices(), &vec![(1u64, 1i16)]);
    assert_eq!(code(&bc, 0), vec![Code(Opcode::RETURN_INIT_PKG), Data(0)]);
    assert_eq!(
        code(&bc, 1),
        words(vec![
            load(CONST, 0),
            load(CONST, 1),
            vec![Code(Opcode::ADD)],
            load(CONST, 2),
            vec![Code(Opcode::EQL), Code(Opcode::ASSERT), Code(Opcode::RETURN)],
        ])
    );
    assert_eq!(
        bc.objects.functions()[1].consts(),
        &vec![Value::Int(1), Value::Int(2), Value::Int(3)]
    );
    assert_eq!(code(&bc, 2), entry_code());
    assert!(bc.objects.functions()[0].is_ctor());
    assert_eq!(bc.objects.functions()[1].package(), Some(0));
    assert_eq!(bc.objects.functions()[2].package(), None);
    assert!(jumps_closed(&bc));
    assert!(accesses_in_range(&bc));
}

// package p; var x = 0; func main() { for i := 0; i < 3; i++ { x += i } }
#[test]
fn loop_adds_to_package_variable() {
    let x = 1;
    let i = 3;
    let f = file(vec![
        Decl::Gen(vec![Spec::Var(ValueSpec {
            names: vec![ident("x", x)],
            typ: None,
            values: vec![num("0")],
        })]),
        func(
            "main",
            2,
            vec![Stmt::For(ForStmt {
                pos: 7,
                init: Some(Box::new(Stmt::Assign(
                    vec![name("i", i)],
                    AssignTok::Define,
                    vec![num("0")],
                ))),
                cond: Some(binary(name("i", i), BinaryOp::Lss, num("3"))),
                post: Some(Box::new(Stmt::IncDec(name("i", i), true))),
                body: vec![Stmt::Assign(
                    vec![name("x", x)],
                    AssignTok::AddAssign,
                    vec![name("i", i)],
                )],
            })],
        ),
    ]);
    let bc = compiled(&f);
    let pkg = &bc.objects.packages()[0];
    // the constructor, the variable, the function
    assert_eq!(pkg.members(), &vec![Value::Function(0), Value::Nil, Value::Function(1)]);
    assert_eq!(pkg.vars(), &vec![(1i16, 0i16)]);
    assert_eq!(pkg.main_func(), Some(2));
    // the constructor: x = 0, then the package is initialised
    assert_eq!(
        code(&bc, 0),
        words(vec![
            load(CONST, 0),
            store(LOCAL, 0, -1, -1),
            vec![Code(Opcode::POP), Code(Opcode::RETURN_INIT_PKG), Data(0)],
        ])
    );
    let add = Opcode::ADD.index();
    assert_eq!(
        code(&bc, 1),
        words(vec![
            // i := 0
            load(CONST, 0),
            store(LOCAL, 0, -1, -1),
            vec![Code(Opcode::POP)],
            // i < 3, at word 9
            load(LOCAL, 0),
            load(CONST, 1),
            vec![Code(Opcode::LSS), Code(Opcode::JUMP_IF_NOT), Data(19)],
            // x += i
            load(LOCAL, 0),
            store(MEMBER, 1, -1, add),
            vec![Code(Opcode::POP)],
            // i++
            vec![Code(Opcode::PUSH_IMM), Data(1)],
            store(LOCAL, 0, -1, add),
            vec![Code(Opcode::POP)],
            // back to the condition, then the end
            vec![Code(Opcode::JUMP), Data(-28), Code(Opcode::RETURN)],
        ])
    );
    assert!(jumps_closed(&bc));
    assert!(accesses_in_range(&bc));
}

// package p; func main() { xs := []int{1,2,3}; s := 0; for _, v := range xs { s += v }; assert(s == 6) }
#[test]
fn range_over_slice_literal() {
    let (xs, s, v) = (1, 2, 3);
    let slice_type = Expr::Array(0, None, Box::new(basic("int")));
    let f = file(vec![func(
        "main",
        9,
        vec![
            Stmt::Assign(
                vec![name("xs", xs)],
                AssignTok::Define,
                vec![Expr::CompositeLit(
                    0,
                    Some(Box::new(slice_type)),
                    vec![num("1"), num("2"), num("3")],
                )],
            ),
            Stmt::Assign(vec![name("s", s)], AssignTok::Define, vec![num("0")]),
            Stmt::Range(RangeStmt {
                pos: 0,
                key: Some(Expr::Ident(unbound("_", 0))),
                val: Some(name("v", v)),
                define: true,
                expr: name("xs", xs),
                body: vec![Stmt::Assign(
                    vec![name("s", s)],
                    AssignTok::AddAssign,
                    vec![name("v", v)],
                )],
            }),
            assert_call(binary(name("s", s), BinaryOp::Eql, num("6"))),
        ],
    )]);
    let bc = compiled(&f);
    assert_eq!(bc.objects.slices(), &vec![vec![Value::Int(1), Value::Int(2), Value::Int(3)]]);
    assert_eq!(
        bc.objects.functions()[1].consts(),
        &vec![Value::Slice(0), Value::Int(0), Value::Int(6)]
    );
    let add = Opcode::ADD.index();
    assert_eq!(
        code(&bc, 1),
        words(vec![
            // xs := []int{1, 2, 3}
            load(CONST, 0),
            store(LOCAL, 0, -1, -1),
            vec![Code(Opcode::POP)],
            // s := 0
            load(CONST, 1),
            store(LOCAL, 1, -1, -1),
            vec![Code(Opcode::POP)],
            // range xs: the operand, the seed, RANGE at word 23
            load(LOCAL, 0),
            vec![Code(Opcode::PUSH_IMM), Data(-1), Code(Opcode::RANGE), Data(23)],
            // _, v = the key and the value that RANGE pushed
            store(BLANK, 0, -2, -1),
            store(LOCAL, 2, -1, -1),
            vec![Code(Opcode::POP), Code(Opcode::POP)],
            // s += v
            load(LOCAL, 2),
            store(LOCAL, 1, -1, add),
            vec![Code(Opcode::POP)],
            vec![Code(Opcode::JUMP), Data(-25)],
            // assert(s == 6)
            load(LOCAL, 1),
            load(CONST, 2),
            vec![Code(Opcode::EQL), Code(Opcode::ASSERT), Code(Opcode::RETURN)],
        ])
    );
    assert!(jumps_closed(&bc));
    assert!(accesses_in_range(&bc));
}

// package p; func main() { m := map[string]int{"a":1,"b":2}; assert(m["a"]+m["b"] == 3) }
#[test]
fn map_literal_and_index() {
    let m = 1;
    let map_type = || Expr::MapType(0, Box::new(basic("string")), Box::new(basic("int")));
    let kv = |k: &str, v: &str| Expr::KeyValue(Box::new(string(k)), Box::new(num(v)));
    let index = |k: &str| Expr::Index(Box::new(name("m", 1)), Box::new(string(k)));
    let f = file(vec![func(
        "main",
        9,
        vec![
            Stmt::Assign(
                vec![name("m", m)],
                AssignTok::Define,
                vec![Expr::CompositeLit(
                    0,
                    Some(Box::new(map_type())),
                    vec![kv("\"a\"", "1"), kv("\"b\"", "2")],
                )],
            ),
            assert_call(binary(
                binary(index("\"a\""), BinaryOp::Add, index("\"b\"")),
                BinaryOp::Eql,
                num("3"),
            )),
        ],
    )]);
    let bc = compiled(&f);
    // the empty string, the keys of the literal, the keys of the two index expressions
    assert_eq!(
        bc.objects.strings(),
        &vec!["".to_string(), "a".to_string(), "b".to_string(), "a".to_string(), "b".to_string()]
    );
    assert_eq!(bc.objects.maps().len(), 1);
    assert_eq!(bc.objects.maps()[0].default_val(), Value::Int(0));
    assert_eq!(
        bc.objects.maps()[0].entries(),
        &vec![(Value::Str(1), Value::Int(1)), (Value::Str(2), Value::Int(2))]
    );
    assert_eq!(
        bc.objects.functions()[1].consts(),
        &vec![Value::MapVal(0), Value::Str(3), Value::Str(4), Value::Int(3)]
    );
    assert_eq!(
        code(&bc, 1),
        words(vec![
            load(CONST, 0),
            store(LOCAL, 0, -1, -1),
            vec![Code(Opcode::POP)],
            load(LOCAL, 0),
            load(CONST, 1),
            vec![Code(Opcode::LOAD_FIELD)],
            load(LOCAL, 0),
            load(CONST, 2),
            vec![Code(Opcode::LOAD_FIELD), Code(Opcode::ADD)],
            load(CONST, 3),
            vec![Code(Opcode::EQL), Code(Opcode::ASSERT), Code(Opcode::RETURN)],
        ])
    );
}

// package p; func main() { x := 1; y := x; y = 2; assert(x == 1) }
#[test]
fn assignment_copies_the_value() {
    let (x, y) = (1, 2);
    let f = file(vec![func(
        "main",
        9,
        vec![
            Stmt::Assign(vec![name("x", x)], AssignTok::Define, vec![num("1")]),
            Stmt::Assign(vec![name("y", y)], AssignTok::Define, vec![name("x", x)]),
            Stmt::Assign(vec![name("y", y)], AssignTok::Assign, vec![num("2")]),
            assert_call(binary(name("x", x), BinaryOp::Eql, num("1"))),
        ],
    )]);
    let bc = compiled(&f);
    assert_eq!(bc.objects.functions()[1].consts(), &vec![Value::Int(1), Value::Int(2)]);
    assert_eq!(
        bc.objects.functions()[1].entities(),
        &vec![(1u64, EntIndex::LocalVar(0)), (2u64, EntIndex::LocalVar(1))]
    );
    assert_eq!(
        code(&bc, 1),
        words(vec![
            load(CONST, 0),
            store(LOCAL, 0, -1, -1),
            vec![Code(Opcode::POP)],
            load(LOCAL, 0),
            store(LOCAL, 1, -1, -1),
            vec![Code(Opcode::POP)],
            load(CONST, 1),
            store(LOCAL, 1, -1, -1),
            vec![Code(Opcode::POP)],
            load(LOCAL, 0),
            load(CONST, 0),
            vec![Code(Opcode::EQL), Code(Opcode::ASSERT), Code(Opcode::RETURN)],
        ])
    );
}

// package p; var a, b = 1
#[test]
fn two_names_one_value_is_rejected() {
    let f = file(vec![Decl::Gen(vec![Spec::Var(ValueSpec {
        names: vec![Ident { pos: 15, name: "a".to_string(), entity: Some(1) }, ident("b", 2)],
        typ: None,
        values: vec![num("1")],
    })])]);
    assert_eq!(rejected(&f), GenError { pos: 15, kind: ErrorKind::AssignMismatch(2, 1) });
}

#[test]
fn short_circuit_jumps_over_the_right_operand() {
    let (a, b) = (1, 2);
    let decl = |n: &str, e: u64| Stmt::Assign(vec![name(n, e)], AssignTok::Define, vec![basic("true")]);
    let f = file(vec![func(
        "main",
        9,
        vec![
            decl("a", a),
            decl("b", b),
            Stmt::Expr(binary(name("a", a), BinaryOp::LAnd, name("b", b))),
            Stmt::Expr(binary(name("a", a), BinaryOp::LOr, name("b", b))),
        ],
    )]);
    let bc = compiled(&f);
    let define = |slot: i16| {
        words(vec![vec![Code(Opcode::PUSH_TRUE)], store(LOCAL, slot, -1, -1), vec![Code(Opcode::POP)]])
    };
    assert_eq!(
        code(&bc, 1),
        words(vec![
            define(0),
            define(1),
            // a && b: the jump at word 17 aims at PUSH_FALSE at word 24
            load(LOCAL, 0),
            vec![Code(Opcode::JUMP_IF_NOT), Data(5)],
            load(LOCAL, 1),
            vec![Code(Opcode::JUMP), Data(1), Code(Opcode::PUSH_FALSE)],
            // a || b
            load(LOCAL, 0),
            vec![Code(Opcode::JUMP_IF), Data(5)],
            load(LOCAL, 1),
            vec![Code(Opcode::JUMP), Data(1), Code(Opcode::PUSH_TRUE)],
            vec![Code(Opcode::RETURN)],
        ])
    );
    assert!(jumps_closed(&bc));
    assert!(accesses_in_range(&bc));
}

#[test]
fn if_with_else() {
    let x = 1;
    let f = file(vec![func(
        "main",
        9,
        vec![
            Stmt::Assign(vec![name("x", x)], AssignTok::Define, vec![num("1")]),
            Stmt::If(IfStmt {
                pos: 0,
                init: None,
                cond: basic("true"),
                body: vec![Stmt::IncDec(name("x", x), true)],
                els: Some(Box::new(Stmt::Block(vec![Stmt::IncDec(name("x", x), false)]))),
            }),
        ],
    )]);
    let bc = compiled(&f);
    assert_eq!(
        code(&bc, 1),
        words(vec![
            load(CONST, 0),
            store(LOCAL, 0, -1, -1),
            vec![Code(Opcode::POP)],
            vec![Code(Opcode::PUSH_TRUE), Code(Opcode::JUMP_IF_NOT), Data(10)],
            vec![Code(Opcode::PUSH_IMM), Data(1)],
            store(LOCAL, 0, -1, Opcode::ADD.index()),
            vec![Code(Opcode::POP)],
            vec![Code(Opcode::JUMP), Data(8)],
            vec![Code(Opcode::PUSH_IMM), Data(1)],
            store(LOCAL, 0, -1, Opcode::SUB.index()),
            vec![Code(Opcode::POP)],
            vec![Code(Opcode::RETURN)],
        ])
    );
    assert!(jumps_closed(&bc));
    assert!(accesses_in_range(&bc));
}

#[test]
fn if_without_else_jumps_to_the_end() {
    let f = file(vec![func(
        "main",
        9,
        vec![Stmt::If(IfStmt {
            pos: 0,
            init: None,
            cond: basic("false"),
            body: vec![],
            els: None,
        })],
    )]);
    let bc = compiled(&f);
    assert_eq!(
        code(&bc, 1),
        vec![Code(Opcode::PUSH_FALSE), Code(Opcode::JUMP_IF_NOT), Data(0), Code(Opcode::RETURN)]
    );
    assert!(jumps_closed(&bc));
    assert!(accesses_in_range(&bc));
}

#[test]
fn endless_loop_jumps_to_itself() {
    let f = file(vec![func(
        "main",
        9,
        vec![Stmt::For(ForStmt { pos: 0, init: None, cond: None, post: None, body: vec![] })],
    )]);
    let bc = compiled(&f);
    assert_eq!(code(&bc, 1), vec![Code(Opcode::JUMP), Data(-2), Code(Opcode::RETURN)]);
    assert!(jumps_closed(&bc));
    assert!(accesses_in_range(&bc));
}

#[test]
fn jump_offset_overflow_is_an_error() {
    // each statement is three words, so the body is longer than a data word can say
    let body: Vec<Stmt> = (0..11000).map(|_| Stmt::Expr(basic("nil"))).collect();
    let many: Vec<Stmt> = body
        .into_iter()
        .map(|_| Stmt::Expr(Expr::Selector(Box::new(basic("nil")), unbound("f", 0))))
        .collect();
    let f = file(vec![func(
        "main",
        9,
        vec![Stmt::If(IfStmt { pos: 42, init: None, cond: basic("true"), body: many, els: None })],
    )]);
    assert_eq!(rejected(&f), GenError { pos: 42, kind: ErrorKind::Overflow });
}

#[test]
fn closure_captures_the_enclosing_local() {
    let x = 1;
    let inner = Expr::FuncLit(
        0,
        FuncType { params: vec![], results: vec![] },
        vec![Stmt::Expr(name("x", x)), Stmt::Expr(name("x", x))],
    );
    let f = file(vec![func(
        "main",
        9,
        vec![
            Stmt::Assign(vec![name("x", x)], AssignTok::Define, vec![num("1")]),
            Stmt::Expr(inner),
        ],
    )]);
    let bc = compiled(&f);
    // the constructor, main, the literal, the entry
    assert_eq!(bc.objects.functions().len(), 4);
    assert_eq!(
        bc.objects.functions()[2].upvalues(),
        &vec![(1u64, UpValue::Open(1, EntIndex::LocalVar(0)))]
    );
    assert_eq!(
        code(&bc, 2),
        words(vec![load(UPVALUE, 0), load(UPVALUE, 0), vec![Code(Opcode::RETURN)]])
    );
    assert_eq!(
        code(&bc, 1),
        words(vec![
            load(CONST, 0),
            store(LOCAL, 0, -1, -1),
            vec![Code(Opcode::POP)],
            load(CONST, 1),
            vec![Code(Opcode::NEW), Code(Opcode::RETURN)],
        ])
    );
    assert_eq!(bc.objects.functions()[1].consts(), &vec![Value::Int(1), Value::Function(2)]);
}

#[test]
fn package_variable_is_no_upvalue() {
    let x = 1;
    let f = file(vec![
        Decl::Gen(vec![Spec::Var(ValueSpec {
            names: vec![ident("x", x)],
            typ: Some(basic("int")),
            values: vec![],
        })]),
        func("main", 9, vec![Stmt::Expr(name("x", x))]),
    ]);
    let bc = compiled(&f);
    assert_eq!(code(&bc, 1), words(vec![load(MEMBER, 1), vec![Code(Opcode::RETURN)]]));
    // var x int: the zero value of int is loaded
    assert_eq!(bc.objects.functions()[0].consts(), &vec![Value::Int(0)]);
}

#[test]
fn undefined_name_is_reported_at_its_position() {
    let f = file(vec![func("main", 9, vec![Stmt::Expr(Expr::Ident(unbound("y", 33)))])]);
    assert_eq!(rejected(&f), GenError { pos: 33, kind: ErrorKind::Undefined });
    let g = file(vec![func(
        "main",
        9,
        vec![Stmt::Expr(call(Expr::Ident(unbound("print", 21)), vec![]))],
    )]);
    assert_eq!(rejected(&g), GenError { pos: 21, kind: ErrorKind::Undefined });
}

#[test]
fn statements_that_are_not_lowered_are_rejected() {
    for (stmt, pos) in vec![
        (Stmt::Go(1), 1),
        (Stmt::Defer(2), 2),
        (Stmt::Switch(3), 3),
        (Stmt::Select(4), 4),
        (Stmt::Labeled(5), 5),
        (Stmt::Branch(6), 6),
        (Stmt::Send(7), 7),
        (Stmt::TypeSwitch(8), 8),
        (Stmt::Expr(Expr::TypeAssert(Box::new(Expr::Ident(unbound("nil", 9))))), 9),
        (Stmt::Expr(Expr::Chan(10, Box::new(basic("int")))), 10),
        (Stmt::Expr(Expr::Unary(11, UnaryOp::Not, Box::new(basic("true")))), 11),
    ] {
        let f = file(vec![func("main", 9, vec![stmt])]);
        assert_eq!(rejected(&f), GenError { pos, kind: ErrorKind::NotImplemented });
    }
    let imports = file(vec![Decl::Gen(vec![Spec::Import(12)])]);
    assert_eq!(rejected(&imports), GenError { pos: 12, kind: ErrorKind::NotImplemented });
}

#[test]
fn built_in_functions_become_opcodes() {
    let xs = 1;
    let slice_type = || Expr::Array(0, None, Box::new(basic("int")));
    let builtin = |n: &str, args: Vec<Expr>, spread: bool| {
        Stmt::Expr(Expr::Call(Box::new(Expr::Ident(unbound(n, 0))), args, spread))
    };
    let f = file(vec![func(
        "main",
        9,
        vec![
            Stmt::Assign(
                vec![name("xs", xs)],
                AssignTok::Define,
                vec![call(Expr::Ident(unbound("make", 0)), vec![slice_type(), num("2")])],
            ),
            builtin("len", vec![name("xs", xs)], false),
            builtin("append", vec![name("xs", xs), num("1"), num("2")], false),
            builtin("append", vec![name("xs", xs), name("xs", xs)], true),
        ],
    )]);
    let bc = compiled(&f);
    assert_eq!(
        code(&bc, 1),
        words(vec![
            // make([]int, 2): two parameters are declared, so the pack count is 2 - 1 - 2
            load(CONST, 0),
            load(CONST, 1),
            vec![Code(Opcode::MAKE), Data(-1)],
            store(LOCAL, 0, -1, -1),
            vec![Code(Opcode::POP)],
            load(LOCAL, 0),
            vec![Code(Opcode::LEN)],
            load(LOCAL, 0),
            load(CONST, 2),
            load(CONST, 1),
            vec![Code(Opcode::APPEND), Data(-2)],
            load(LOCAL, 0),
            load(LOCAL, 0),
            vec![Code(Opcode::APPEND), Data(0)],
            vec![Code(Opcode::RETURN)],
        ])
    );
    match bc.objects.types()[5].data() {
        TypeData::Closure(params, results) => {
            assert!(params.is_empty());
            assert!(results.is_empty());
        },
        _ => panic!("the type of main"),
    }
    match bc.objects.types()[6].data() {
        TypeData::Slice(elem) => assert_eq!(*elem, TYPE_INT),
        _ => panic!("the slice type"),
    }
    assert_eq!(bc.objects.functions()[1].typ(), 5);
    assert_eq!(bc.objects.functions()[0].typ(), TYPE_DEFAULT_CLOSURE);
    assert_eq!(
        bc.objects.functions()[1].consts(),
        &vec![Value::Type(6), Value::Int(2), Value::Int(1)]
    );
}

#[test]
fn function_call_with_arguments_and_results() {
    let (add, a, b, r) = (1, 2, 3, 4);
    let int_field = |n: &str, e: u64| Field { names: vec![ident(n, e)], typ: basic("int") };
    let f = file(vec![
        Decl::Func(FuncDecl {
            pos: 0,
            recv: None,
            name: ident("add", add),
            typ: FuncType {
                params: vec![int_field("a", a), int_field("b", b)],
                results: vec![Field { names: vec![], typ: basic("int") }],
            },
            body: Some(vec![Stmt::Return(
                0,
                vec![binary(name("a", a), BinaryOp::Add, name("b", b))],
            )]),
        }),
        func(
            "main",
            9,
            vec![Stmt::Assign(
                vec![name("r", r)],
                AssignTok::Define,
                vec![call(name("add", add), vec![num("1"), num("2")])],
            )],
        ),
    ]);
    let bc = compiled(&f);
    let adder = &bc.objects.functions()[1];
    assert_eq!(adder.ret_count(), 1);
    assert_eq!(adder.param_count(), 2);
    assert_eq!(adder.local_alloc(), 3);
    assert!(!adder.variadic());
    // the result has slot 0, the parameters follow
    assert_eq!(
        adder.entities(),
        &vec![(2u64, EntIndex::LocalVar(1)), (3u64, EntIndex::LocalVar(2))]
    );
    assert_eq!(
        code(&bc, 1),
        words(vec![
            load(LOCAL, 1),
            load(LOCAL, 2),
            vec![Code(Opcode::ADD)],
            store(LOCAL, 0, -1, -1),
            vec![Code(Opcode::POP), Code(Opcode::RETURN), Code(Opcode::RETURN)],
        ])
    );
    assert_eq!(
        code(&bc, 2),
        words(vec![
            load(MEMBER, 1),
            vec![Code(Opcode::PRE_CALL)],
            load(CONST, 0),
            load(CONST, 1),
            vec![Code(Opcode::CALL), Data(0)],
            store(LOCAL, 0, -1, -1),
            vec![Code(Opcode::POP), Code(Opcode::RETURN)],
        ])
    );
    match bc.objects.types()[5].data() {
        TypeData::Closure(params, results) => {
            assert_eq!(params, &vec![TYPE_INT, TYPE_INT]);
            assert_eq!(results, &vec![TYPE_INT]);
        },
        _ => panic!("the type of add"),
    }
}

#[test]
fn every_result_with_a_slot_is_stored() {
    // func f(a int) { return 1, 2 }: no result is declared, two are returned
    let result = |text: &str, pos: usize| {
        Expr::BasicLit(BasicLit { pos, kind: LitKind::Int, text: text.to_string(), float_bits: None })
    };
    let decl = |results: Vec<Expr>| {
        file(vec![Decl::Func(FuncDecl {
            pos: 0,
            recv: None,
            name: ident("f", 1),
            typ: FuncType {
                params: vec![Field { names: vec![ident("a", 2)], typ: basic("int") }],
                results: vec![],
            },
            body: Some(vec![Stmt::Return(0, results)]),
        })])
    };
    let bc = compiled(&decl(vec![result("1", 0)]));
    assert_eq!(bc.objects.functions()[1].ret_count(), 0);
    assert_eq!(
        code(&bc, 1),
        words(vec![
            load(CONST, 0),
            store(LOCAL, 0, -1, -1),
            vec![Code(Opcode::POP), Code(Opcode::RETURN), Code(Opcode::RETURN)],
        ])
    );
    assert!(accesses_in_range(&bc));
    // the function has one local slot: the second result has none
    assert_eq!(
        rejected(&decl(vec![result("1", 70), result("2", 77)])),
        GenError { pos: 77, kind: ErrorKind::Type(TypeError::NoResultSlot) }
    );
}

#[test]
fn a_result_without_any_slot_is_rejected() {
    let f = file(vec![func(
        "main",
        9,
        vec![Stmt::Return(0, vec![Expr::BasicLit(BasicLit {
            pos: 77,
            kind: LitKind::Int,
            text: "1".to_string(),
            float_bits: None,
        })])],
    )]);
    assert_eq!(rejected(&f), GenError { pos: 77, kind: ErrorKind::Type(TypeError::NoResultSlot) });
}

#[test]
fn stores_to_index_selector_and_pointer_targets() {
    let (m, p) = (1, 2);
    let f = file(vec![
        Decl::Gen(vec![Spec::Var(ValueSpec {
            names: vec![ident("m", m), ident("p", p)],
            typ: Some(basic("int")),
            values: vec![],
        })]),
        func(
            "main",
            9,
            vec![
                // m[1], *p, m.f = 2, 3, 4
                Stmt::Assign(
                    vec![
                        Expr::Index(Box::new(name("m", m)), Box::new(num("1"))),
                        Expr::Star(0, Box::new(name("p", p))),
                        Expr::Selector(Box::new(name("m", m)), unbound("f", 0)),
                    ],
                    AssignTok::Assign,
                    vec![num("2"), num("3"), num("4")],
                ),
                // m[1] += 5
                Stmt::Assign(
                    vec![Expr::Index(Box::new(name("m", m)), Box::new(num("1")))],
                    AssignTok::AddAssign,
                    vec![num("5")],
                ),
                // *p--
                Stmt::IncDec(Expr::Star(0, Box::new(name("p", p))), false),
            ],
        ),
    ]);
    let bc = compiled(&f);
    assert_eq!(
        bc.objects.functions()[1].consts(),
        &vec![
            Value::Int(1),
            Value::Str(1),
            Value::Int(2),
            Value::Int(3),
            Value::Int(4),
            Value::Int(5)
        ]
    );
    assert_eq!(
        code(&bc, 1),
        words(vec![
            // what the targets need: m, 1; p; m, "f": five words
            load(MEMBER, 1),
            load(CONST, 0),
            load(MEMBER, 2),
            load(MEMBER, 1),
            load(CONST, 1),
            // the values
            load(CONST, 2),
            load(CONST, 3),
            load(CONST, 4),
            // the stores: eight words lie on the stack
            store(INDEX_SEL, -8, -3, -1),
            store(DEREF, -6, -2, -1),
            store(INDEX_SEL, -5, -1, -1),
            vec![Code(Opcode::POP); 8],
            // m[1] += 5
            load(MEMBER, 1),
            load(CONST, 0),
            load(CONST, 5),
            store(INDEX_SEL, -3, -1, Opcode::ADD.index()),
            vec![Code(Opcode::POP)],
            // *p--
            load(MEMBER, 2),
            vec![Code(Opcode::PUSH_IMM), Data(1)],
            store(DEREF, -2, -1, Opcode::SUB.index()),
            vec![Code(Opcode::POP), Code(Opcode::RETURN)],
        ])
    );
    assert_eq!(bc.objects.strings()[1], "f");
    let _ = TYPE_STRING;
}

#[test]
fn slice_selector_and_unary_expressions() {
    let (xs, p) = (1, 2);
    let f = file(vec![
        Decl::Gen(vec![Spec::Var(ValueSpec {
            names: vec![ident("xs", xs), ident("p", p)],
            typ: Some(basic("int")),
            values: vec![],
        })]),
        func(
            "main",
            9,
            vec![
                // xs[1:]
                Stmt::Expr(Expr::Slice(
                    Box::new(name("xs", xs)),
                    Some(Box::new(num("1"))),
                    None,
                    None,
                )),
                // xs[:1:2]
                Stmt::Expr(Expr::Slice(
                    Box::new(name("xs", xs)),
                    None,
                    Some(Box::new(num("1"))),
                    Some(Box::new(num("2"))),
                )),
                // (*p).f
                Stmt::Expr(Expr::Selector(
                    Box::new(Expr::Paren(0, Box::new(Expr::Star(0, Box::new(name("p", p)))))),
                    unbound("f", 0),
                )),
                // -^+&xs
                Stmt::Expr(Expr::Unary(
                    0,
                    UnaryOp::Sub,
                    Box::new(Expr::Unary(
                        0,
                        UnaryOp::Xor,
                        Box::new(Expr::Unary(
                            0,
                            UnaryOp::Add,
                            Box::new(Expr::Unary(0, UnaryOp::And, Box::new(name("xs", xs)))),
                        )),
                    )),
                )),
                // xs &^ 1 >> 2
                Stmt::Expr(binary(
                    name("xs", xs),
                    BinaryOp::AndNot,
                    binary(num("1"), BinaryOp::Shr, num("2")),
                )),
            ],
        ),
    ]);
    let bc = compiled(&f);
    assert_eq!(
        code(&bc, 1),
        words(vec![
            load(MEMBER, 1),
            load(CONST, 0),
            vec![Code(Opcode::PUSH_NIL), Code(Opcode::SLICE)],
            load(MEMBER, 1),
            vec![Code(Opcode::PUSH_NIL)],
            load(CONST, 0),
            load(CONST, 1),
            vec![Code(Opcode::SLICE_FULL)],
            load(MEMBER, 2),
            vec![Code(Opcode::DEREF)],
            load(CONST, 2),
            vec![Code(Opcode::LOAD_FIELD)],
            load(MEMBER, 1),
            vec![
                Code(Opcode::REF),
                Code(Opcode::UNARY_ADD),
                Code(Opcode::UNARY_XOR),
                Code(Opcode::UNARY_SUB),
            ],
            load(MEMBER, 1),
            load(CONST, 0),
            load(CONST, 1),
            vec![Code(Opcode::SHR), Code(Opcode::AND_NOT), Code(Opcode::RETURN)],
        ])
    );
    assert_eq!(
        bc.objects.functions()[1].consts(),
        &vec![Value::Int(1), Value::Int(2), Value::Str(1)]
    );
    assert!(accesses_in_range(&bc));
}

#[test]
fn a_variadic_function_and_a_spread_call() {
    let (sum, xs) = (1, 2);
    let f = file(vec![
        Decl::Func(FuncDecl {
            pos: 0,
            recv: None,
            name: ident("sum", sum),
            typ: FuncType {
                params: vec![Field {
                    names: vec![ident("xs", xs)],
                    typ: Expr::Ellipsis(0, Some(Box::new(basic("int")))),
                }],
                results: vec![],
            },
            body: Some(vec![]),
        }),
        func(
            "main",
            9,
            vec![Stmt::Expr(Expr::Call(
                Box::new(name("sum", sum)),
                vec![Expr::Ident(unbound("nil", 0))],
                true,
            ))],
        ),
    ]);
    let bc = compiled(&f);
    assert!(bc.objects.functions()[1].variadic());
    assert!(!bc.objects.functions()[2].variadic());
    assert_eq!(
        code(&bc, 2),
        words(vec![
            load(MEMBER, 1),
            vec![
                Code(Opcode::PRE_CALL),
                Code(Opcode::PUSH_NIL),
                Code(Opcode::CALL),
                Data(1),
                Code(Opcode::RETURN)
            ],
        ])
    );
}
