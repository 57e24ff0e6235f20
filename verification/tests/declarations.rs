use gos_codegen::ast::{
    AssignTok, BasicLit, Decl, Expr, Field, File, FuncDecl, FuncType, Ident, LitKind, Spec, Stmt,
    ValueSpec,
};
use gos_codegen::bytecode::ByteCode;
use gos_codegen::codegen::CodeGen;
use gos_codegen::objects::{TYPE_FLOAT64, TYPE_INT, TYPE_STRING, TypeData};
use gos_codegen::opcode::{CodeWord, Opcode};
use gos_codegen::opcode::CodeWord::{Code, Data};
use gos_codegen::value::{EntIndex, ErrorKind, GenError, TypeError, Value};

fn ident(name: &str, entity: u64) -> Ident {
    Ident { pos: 0, name: name.to_string(), entity: Some(entity) }
}

fn unbound(name: &str) -> Ident {
    Ident { pos: 0, name: name.to_string(), entity: None }
}

fn basic(name: &str) -> Expr {
    Expr::Ident(unbound(name))
}

fn lit(kind: LitKind, text: &str, pos: usize) -> Expr {
    let float_bits = match kind {
        LitKind::Int | LitKind::Float => text.parse::<f64>().ok().map(f64::to_bits),
        LitKind::Char => text.chars().nth(1).map(|c| (c as u32 as f64).to_bits()),
        _ => None,
    };
    Expr::BasicLit(BasicLit { pos, kind, text: text.to_string(), float_bits })
}

fn constant(name: &str, entity: u64, typ: Option<Expr>, value: Expr) -> Decl {
    Decl::Gen(vec![Spec::Const(ValueSpec {
        names: vec![ident(name, entity)],
        typ,
        values: vec![value],
    })])
}

fn func(name: &str, entity: u64, typ: FuncType, body: Vec<Stmt>) -> Decl {
    Decl::Func(FuncDecl { pos: 0, recv: None, name: ident(name, entity), typ, body: Some(body) })
}

fn no_params() -> FuncType {
    FuncType { params: vec![], results: vec![] }
}

fn file(decls: Vec<Decl>) -> File {
    File { name: unbound("p"), decls }
}

fn compiled(f: &File) -> ByteCode {
    match CodeGen::compile(f) {
        Ok(bc) => bc,
        Err(e) => panic!("rejected: {:?}", e),
    }
}

fn rejected(f: &File) -> GenError {
    match CodeGen::compile(f) {
        Ok(_) => panic!("compiled"),
        Err(e) => e,
    }
}

fn type_error(pos: usize, t: TypeError) -> GenError {
    GenError { pos, kind: ErrorKind::Type(t) }
}

fn load(tag: i16, index: i16) -> Vec<CodeWord> {
    vec![Code(Opcode::LOAD), Data(tag), Data(index)]
}

#[test]
fn constants_of_no_declared_type() {
    let f = file(vec![
        constant("a", 1, None, lit(LitKind::Int, "10", 0)),
        constant("b", 2, None, lit(LitKind::Float, "2.5", 0)),
        constant("c", 3, None, lit(LitKind::Char, "'x'", 0)),
        constant("d", 4, None, lit(LitKind::Str, "\"hi\"", 0)),
    ]);
    let bc = compiled(&f);
    let ctor = &bc.objects.functions()[0];
    let values =
        vec![Value::Int(10), Value::Float64(2.5f64.to_bits()), Value::Int(120), Value::Str(1)];
    assert_eq!(ctor.consts(), &values);
    assert_eq!(
        ctor.entities(),
        &vec![
            (1u64, EntIndex::Const(0)),
            (2, EntIndex::Const(1)),
            (3, EntIndex::Const(2)),
            (4, EntIndex::Const(3))
        ]
    );
    // at package scope a constant is a member of the package too
    let mut members = vec![Value::Function(0)];
    members.extend(values);
    assert_eq!(bc.objects.packages()[0].members(), &members);
    assert_eq!(bc.objects.strings()[1], "hi");
    assert_eq!(ctor.code(), &vec![Code(Opcode::RETURN_INIT_PKG), Data(0)]);
}

#[test]
fn constants_of_a_declared_type() {
    let f = file(vec![
        constant("a", 1, Some(basic("int")), lit(LitKind::Float, "3.0", 0)),
        constant("b", 2, Some(basic("int")), lit(LitKind::Char, "'A'", 0)),
        constant("c", 3, Some(basic("float64")), lit(LitKind::Int, "4", 0)),
        constant("d", 4, Some(basic("float64")), lit(LitKind::Char, "'A'", 0)),
        constant("e", 5, Some(basic("float64")), lit(LitKind::Float, "1e3", 0)),
        constant("f", 6, Some(basic("string")), lit(LitKind::Str, "\"s\"", 0)),
        constant("g", 7, Some(basic("int")), lit(LitKind::Int, "12", 0)),
    ]);
    let bc = compiled(&f);
    assert_eq!(
        bc.objects.functions()[0].consts(),
        &vec![
            Value::Int(3),
            Value::Int(65),
            Value::Float64(4f64.to_bits()),
            Value::Float64(65f64.to_bits()),
            Value::Float64(1000f64.to_bits()),
            Value::Str(1),
            Value::Int(12),
        ]
    );
    assert_eq!(bc.objects.strings()[1], "s");
}

#[test]
fn constants_that_do_not_suit_their_type() {
    let cases = vec![
        (basic("int"), lit(LitKind::Float, "1.5", 3), TypeError::Truncated),
        (basic("int"), lit(LitKind::Float, "1e30", 4), TypeError::OverflowsInt),
        (basic("int"), lit(LitKind::Int, "99999999999999999999", 5), TypeError::OverflowsInt),
        (basic("int"), lit(LitKind::Str, "\"1\"", 6), TypeError::InvalidLiteral),
        (basic("string"), lit(LitKind::Int, "1", 7), TypeError::InvalidLiteral),
        (basic("bool"), lit(LitKind::Int, "1", 8), TypeError::InvalidLiteral),
        (basic("float64"), lit(LitKind::Str, "\"1\"", 9), TypeError::InvalidLiteral),
        (basic("int"), lit(LitKind::Int, "0x1f", 10), TypeError::InvalidLiteral),
    ];
    for (typ, value, error) in cases {
        let pos = match &value {
            Expr::BasicLit(l) => l.pos,
            _ => 0,
        };
        let f = file(vec![constant("c", 1, Some(typ), value)]);
        assert_eq!(rejected(&f), type_error(pos, error));
    }
}

#[test]
fn a_constant_must_be_a_basic_literal() {
    let value = Expr::Binary(
        Box::new(lit(LitKind::Int, "1", 21)),
        gos_codegen::ast::BinaryOp::Add,
        Box::new(lit(LitKind::Int, "2", 25)),
    );
    let f = file(vec![constant("c", 1, None, value)]);
    assert_eq!(rejected(&f), type_error(21, TypeError::ComplexConstant));
    let imag = file(vec![constant("c", 1, None, lit(LitKind::Imag, "2i", 30))]);
    assert_eq!(rejected(&imag), GenError { pos: 30, kind: ErrorKind::NotImplemented });
}

#[test]
fn names_and_values_of_constants_must_match() {
    let f = file(vec![Decl::Gen(vec![Spec::Const(ValueSpec {
        names: vec![Ident { pos: 6, name: "a".to_string(), entity: Some(1) }],
        typ: None,
        values: vec![lit(LitKind::Int, "1", 0), lit(LitKind::Int, "2", 0)],
    })])]);
    assert_eq!(rejected(&f), GenError { pos: 6, kind: ErrorKind::AssignMismatch(1, 2) });
}

#[test]
fn a_variable_without_type_and_value_is_rejected() {
    let f = file(vec![Decl::Gen(vec![Spec::Var(ValueSpec {
        names: vec![Ident { pos: 4, name: "a".to_string(), entity: Some(1) }],
        typ: None,
        values: vec![],
    })])]);
    assert_eq!(rejected(&f), GenError { pos: 4, kind: ErrorKind::AssignMismatch(1, 0) });
}

#[test]
fn one_call_gives_the_values_of_several_variables() {
    let (pair, a, b) = (1, 2, 3);
    let result = || Field { names: vec![], typ: basic("int") };
    let f = file(vec![
        func(
            "pair",
            pair,
            FuncType { params: vec![], results: vec![result(), result()] },
            vec![Stmt::Return(
                0,
                vec![lit(LitKind::Int, "1", 0), lit(LitKind::Int, "2", 0)],
            )],
        ),
        func(
            "main",
            9,
            no_params(),
            vec![Stmt::Assign(
                vec![Expr::Ident(ident("a", a)), Expr::Ident(ident("b", b))],
                AssignTok::Define,
                vec![Expr::Call(Box::new(Expr::Ident(ident("pair", pair))), vec![], false)],
            )],
        ),
    ]);
    let bc = compiled(&f);
    let store = |slot: i16, val: i16| {
        vec![Code(Opcode::STORE), Data(0), Data(slot), Data(val), Data(-1)]
    };
    let mut main = load(2, 1);
    main.extend(vec![Code(Opcode::PRE_CALL), Code(Opcode::CALL), Data(0)]);
    main.extend(store(0, -2));
    main.extend(store(1, -1));
    main.extend(vec![Code(Opcode::POP), Code(Opcode::POP), Code(Opcode::RETURN)]);
    assert_eq!(bc.objects.functions()[2].code(), &main);
    let mut pair_code = load(3, 0);
    pair_code.extend(store(0, -1));
    pair_code.push(Code(Opcode::POP));
    pair_code.extend(load(3, 1));
    pair_code.extend(store(1, -1));
    pair_code.extend(vec![Code(Opcode::POP), Code(Opcode::RETURN), Code(Opcode::RETURN)]);
    assert_eq!(bc.objects.functions()[1].code(), &pair_code);
    assert_eq!(bc.objects.functions()[1].ret_count(), 2);
    assert_eq!(bc.objects.functions()[1].param_count(), 0);
}

#[test]
fn types_are_made_of_types() {
    let field = |names: Vec<&str>, typ: Expr| Field {
        names: names.into_iter().map(|n| unbound(n)).collect(),
        typ,
    };
    let point = Expr::Struct(
        0,
        vec![field(vec!["x", "y"], basic("int")), field(vec!["name"], basic("string"))],
    );
    let pointer = Expr::Star(0, Box::new(Expr::Ident(ident("Point", 1))));
    let map = Expr::MapType(0, Box::new(basic("string")), Box::new(Expr::Array(0, None, Box::new(basic("float64")))));
    let iface = Expr::Interface(0, vec![field(vec!["Get"], Expr::Func(0, no_params()))]);
    let variadic = Expr::Func(
        0,
        FuncType {
            params: vec![
                field(vec!["a"], basic("int")),
                field(vec!["rest"], Expr::Ellipsis(0, Some(Box::new(basic("int"))))),
            ],
            results: vec![],
        },
    );
    let types = vec![("Point", 1, point), ("Ptr", 2, pointer), ("M", 3, map), ("I", 4, iface), ("F", 5, variadic)];
    let f = file(
        types
            .into_iter()
            .map(|(n, e, t)| Decl::Gen(vec![Spec::Type(ident(n, e), t)]))
            .collect(),
    );
    let bc = compiled(&f);
    let types = bc.objects.types();
    // the struct
    match types[5].data() {
        TypeData::Struct(members, names) => {
            assert_eq!(
                members,
                &vec![Value::Type(TYPE_INT), Value::Type(TYPE_INT), Value::Type(TYPE_STRING)]
            );
            assert_eq!(
                names,
                &vec![("x".to_string(), 0), ("y".to_string(), 1), ("name".to_string(), 2)]
            );
        },
        _ => panic!("the struct"),
    }
    assert!(matches!(types[6].data(), TypeData::Boxed(5)));
    assert!(matches!(types[7].data(), TypeData::Slice(TYPE_FLOAT64)));
    assert!(matches!(types[8].data(), TypeData::MapOf(TYPE_STRING, 7)));
    match types[9].data() {
        TypeData::Closure(params, results) => assert!(params.is_empty() && results.is_empty()),
        _ => panic!("the method"),
    }
    match types[10].data() {
        TypeData::Interface(methods) => assert_eq!(methods, &vec![9]),
        _ => panic!("the interface"),
    }
    assert!(matches!(types[11].data(), TypeData::Variadic(TYPE_INT)));
    match types[12].data() {
        TypeData::Closure(params, results) => {
            assert_eq!(params, &vec![TYPE_INT, 11]);
            assert!(results.is_empty());
        },
        _ => panic!("the function type"),
    }
    assert_eq!(types.len(), 13);
    assert_eq!(types[5].zero_val(), Value::Nil);
    // the types are constants of the constructor and members of the package
    let named =
        vec![Value::Type(5), Value::Type(6), Value::Type(8), Value::Type(10), Value::Type(12)];
    assert_eq!(bc.objects.functions()[0].consts(), &named);
    assert_eq!(bc.objects.packages()[0].members()[1..], named[..]);
}

#[test]
fn misplaced_types_are_rejected() {
    let not_last = Expr::Func(
        0,
        FuncType {
            params: vec![
                Field { names: vec![], typ: Expr::Ellipsis(17, Some(Box::new(basic("int")))) },
                Field { names: vec![], typ: basic("int") },
            ],
            results: vec![],
        },
    );
    let cases = vec![
        (not_last, type_error(17, TypeError::MisplacedVariadic)),
        (Expr::Ellipsis(18, None), type_error(18, TypeError::MisplacedVariadic)),
        (
            Expr::Array(19, Some(Box::new(lit(LitKind::Int, "3", 0))), Box::new(basic("int"))),
            GenError { pos: 19, kind: ErrorKind::NotImplemented },
        ),
        (Expr::Chan(20, Box::new(basic("int"))), GenError { pos: 20, kind: ErrorKind::NotImplemented }),
        (lit(LitKind::Int, "1", 21), type_error(21, TypeError::NotAType)),
        (
            Expr::Ident(Ident { pos: 22, name: "T".to_string(), entity: None }),
            GenError { pos: 22, kind: ErrorKind::Undefined },
        ),
    ];
    for (typ, error) in cases {
        let f = file(vec![Decl::Gen(vec![Spec::Type(ident("T", 1), typ)])]);
        assert_eq!(rejected(&f), error);
    }
    // a name that is bound to a value is no type
    let f = file(vec![
        constant("c", 1, None, lit(LitKind::Int, "1", 0)),
        Decl::Gen(vec![Spec::Type(
            ident("T", 2),
            Expr::Ident(Ident { pos: 23, name: "c".to_string(), entity: Some(1) }),
        )]),
    ]);
    assert_eq!(rejected(&f), type_error(23, TypeError::NotAType));
}

#[test]
fn a_method_is_attached_to_the_struct_of_its_receiver() {
    let point = 1;
    let recv = |typ: Expr| Some(vec![Field { names: vec![ident("p", 2)], typ }]);
    let method = |name: &str, entity: u64, recv: Option<Vec<Field>>| {
        Decl::Func(FuncDecl {
            pos: 31,
            recv,
            name: ident(name, entity),
            typ: no_params(),
            body: Some(vec![Stmt::Expr(Expr::Ident(ident("p", 2)))]),
        })
    };
    let f = file(vec![
        Decl::Gen(vec![Spec::Type(
            ident("Point", point),
            Expr::Struct(0, vec![Field { names: vec![unbound("x")], typ: basic("int") }]),
        )]),
        method("Get", 3, recv(Expr::Ident(ident("Point", point)))),
        method(
            "Set",
            4,
            recv(Expr::Star(0, Box::new(Expr::Ident(ident("Point", point))))),
        ),
    ]);
    let bc = compiled(&f);
    match bc.objects.types()[5].data() {
        TypeData::Struct(members, names) => {
            assert_eq!(
                members,
                &vec![Value::Type(TYPE_INT), Value::Function(1), Value::Function(2)]
            );
            assert_eq!(
                names,
                &vec![("x".to_string(), 0), ("Get".to_string(), 1), ("Set".to_string(), 2)]
            );
        },
        _ => panic!("the struct"),
    }
    // the receiver is the first parameter
    let get = &bc.objects.functions()[1];
    assert_eq!(get.param_count(), 1);
    assert_eq!(get.entities(), &vec![(2u64, EntIndex::LocalVar(0))]);
    let mut code = load(0, 0);
    code.push(Code(Opcode::RETURN));
    assert_eq!(get.code(), &code);
    match bc.objects.types()[6].data() {
        TypeData::Closure(params, _) => assert_eq!(params, &vec![5]),
        _ => panic!("the type of the method"),
    }
    // methods are no members of the package
    assert_eq!(bc.objects.packages()[0].members(), &vec![Value::Function(0), Value::Type(5)]);
    // a receiver that is no struct
    let g = file(vec![method("Get", 3, recv(basic("int")))]);
    assert_eq!(rejected(&g), type_error(31, TypeError::NotAStruct));
    let h = file(vec![method("Get", 3, Some(vec![]))]);
    assert_eq!(rejected(&h), type_error(31, TypeError::NotAStruct));
}

#[test]
fn a_function_without_body_is_rejected() {
    let f = file(vec![Decl::Func(FuncDecl {
        pos: 40,
        recv: None,
        name: ident("f", 1),
        typ: no_params(),
        body: None,
    })]);
    assert_eq!(rejected(&f), GenError { pos: 40, kind: ErrorKind::NotImplemented });
    assert_eq!(
        rejected(&file(vec![Decl::Bad(41)])),
        GenError { pos: 41, kind: ErrorKind::NotImplemented }
    );
}

#[test]
fn every_package_begins_with_its_constructor() {
    let mut g = CodeGen::new();
    let first = File { name: unbound("a"), decls: vec![func("main", 1, no_params(), vec![])] };
    let second = File { name: unbound("b"), decls: vec![] };
    let third = File { name: unbound("a"), decls: vec![] };
    assert_eq!(g.gen(&first), Ok(()));
    assert_eq!(g.gen(&second), Ok(()));
    assert_eq!(g.gen(&third), Ok(()));
    assert_eq!(g.package_count(), 3);
    assert_eq!(g.current_pkg(), Some(2));
    let bc = g.into_byte_code();
    assert_eq!(bc.packages, vec![0, 1, 2]);
    // the last package of a name has the name
    assert_eq!(bc.package_indices, vec![("a".to_string(), 2), ("b".to_string(), 1)]);
    for (index, key) in bc.packages.iter().enumerate() {
        let pkg = &bc.objects.packages()[*key];
        let ctor = match pkg.members()[0] {
            Value::Function(k) => &bc.objects.functions()[k],
            _ => panic!("the first member"),
        };
        assert!(ctor.is_ctor());
        assert_eq!(ctor.package(), Some(*key));
        let code = ctor.code();
        assert_eq!(
            code[code.len() - 2..],
            [Code(Opcode::RETURN_INIT_PKG), Data(index as i16)]
        );
    }
    assert_eq!(bc.objects.packages()[0].main_func(), Some(1));
    assert_eq!(bc.objects.packages()[1].main_func(), None);
    // the constructors, main, and the entry
    assert_eq!(bc.objects.functions().len(), 5);
    assert_eq!(bc.entry, 4);
}

#[test]
fn a_rejected_file_gives_no_artifact() {
    let f = file(vec![
        func("main", 1, no_params(), vec![]),
        Decl::Gen(vec![Spec::Import(50)]),
    ]);
    assert!(CodeGen::compile(&f).is_err());
    assert_eq!(rejected(&f), GenError { pos: 50, kind: ErrorKind::NotImplemented });
}

#[test]
fn a_package_is_generated_step_by_step() {
    let mut g = CodeGen::new();
    let index = g.begin_package(&"q".to_string());
    assert_eq!(index, 0);
    assert_eq!(g.current_pkg(), Some(0));
    let x = Expr::Ident(ident("x", 1));
    assert_eq!(
        g.visit_stmt(&Stmt::Assign(vec![x], AssignTok::Define, vec![lit(LitKind::Int, "5", 0)])),
        Ok(())
    );
    assert_eq!(g.visit_expr(&Expr::Ident(ident("x", 1))), Ok(()));
    assert_eq!(g.get_or_gen_type(&basic("string")), Ok(TYPE_STRING));
    g.end_package(index);
    let bc = g.into_byte_code();
    let mut code = load(3, 0);
    code.extend(vec![Code(Opcode::STORE), Data(0), Data(0), Data(-1), Data(-1), Code(Opcode::POP)]);
    code.extend(load(0, 0));
    code.extend(vec![Code(Opcode::RETURN_INIT_PKG), Data(0)]);
    assert_eq!(bc.objects.functions()[0].code(), &code);
    assert_eq!(bc.objects.packages()[0].members(), &vec![Value::Function(0), Value::Nil]);
    // a name that is bound nowhere
    let mut h = CodeGen::new();
    h.begin_package(&"q".to_string());
    assert_eq!(
        h.visit_expr(&Expr::Ident(Ident { pos: 3, name: "y".to_string(), entity: Some(2) })),
        Err(GenError { pos: 3, kind: ErrorKind::Undefined })
    );
    // nothing is emitted for it, and nothing is bound
    assert!(h.objects().functions()[0].code().is_empty());
    assert!(h.objects().functions()[0].entities().is_empty());
    assert!(h.objects().functions()[0].upvalues().is_empty());
    assert_eq!(h.objects().packages()[0].members(), &vec![Value::Function(0)]);
}

#[test]
fn a_rejected_package_leaves_the_generator_in_order() {
    let mut g = CodeGen::new();
    let undefined = Expr::Ident(Ident { pos: 7, name: "y".to_string(), entity: Some(9) });
    let bad = File {
        name: unbound("a"),
        decls: vec![func("main", 1, no_params(), vec![Stmt::Expr(undefined)])],
    };
    assert_eq!(g.gen(&bad), Err(GenError { pos: 7, kind: ErrorKind::Undefined }));
    assert_eq!(g.package_count(), 1);
    {
        let functions = g.objects().functions();
        assert_eq!(functions.len(), 2);
        // the constructor is completed, and so is the function that failed
        assert_eq!(functions[0].code(), &vec![Code(Opcode::RETURN_INIT_PKG), Data(0)]);
        assert_eq!(functions[1].code(), &vec![Code(Opcode::RETURN)]);
    }
    // the next package is generated as if nothing had happened
    let good = File { name: unbound("b"), decls: vec![func("main", 1, no_params(), vec![])] };
    assert_eq!(g.gen(&good), Ok(()));
    assert_eq!(g.package_count(), 2);
    let functions = g.objects().functions();
    assert_eq!(functions.len(), 4);
    assert!(functions[2].is_ctor());
    assert_eq!(functions[2].package(), Some(1));
    let ctor = functions[2].code();
    assert_eq!(ctor[ctor.len() - 2..], [Code(Opcode::RETURN_INIT_PKG), Data(1)]);
    assert_eq!(functions[3].code(), &vec![Code(Opcode::RETURN)]);
}

#[test]
fn a_function_that_fails_is_taken_from_under_construction() {
    let mut g = CodeGen::new();
    let index = g.begin_package(&"q".to_string());
    let undefined = Expr::Ident(Ident { pos: 12, name: "y".to_string(), entity: Some(9) });
    let body = vec![Stmt::Expr(undefined)];
    assert_eq!(
        g.gen_func_def(None, &no_params(), &body, 0),
        Err(GenError { pos: 12, kind: ErrorKind::Undefined })
    );
    // what follows is emitted into the constructor again
    let x = Expr::Ident(ident("x", 1));
    assert_eq!(
        g.visit_stmt(&Stmt::Assign(vec![x], AssignTok::Define, vec![lit(LitKind::Int, "5", 0)])),
        Ok(())
    );
    g.end_package(index);
    let functions = g.objects().functions();
    assert_eq!(functions.len(), 2);
    assert_eq!(functions[1].code(), &vec![Code(Opcode::RETURN)]);
    let mut code = load(3, 0);
    code.extend(vec![Code(Opcode::STORE), Data(0), Data(0), Data(-1), Data(-1), Code(Opcode::POP)]);
    code.extend(vec![Code(Opcode::RETURN_INIT_PKG), Data(0)]);
    assert_eq!(functions[0].code(), &code);
}

#[test]
fn constants_that_do_not_match_their_names_change_nothing() {
    let mut g = CodeGen::new();
    g.begin_package(&"q".to_string());
    let names = || {
        vec![
            Ident { pos: 6, name: "a".to_string(), entity: Some(1) },
            Ident { pos: 9, name: "b".to_string(), entity: Some(2) },
        ]
    };
    let short = ValueSpec { names: names(), typ: None, values: vec![lit(LitKind::Int, "1", 0)] };
    assert_eq!(
        g.gen_def_const(&short),
        Err(GenError { pos: 6, kind: ErrorKind::AssignMismatch(2, 1) })
    );
    assert!(g.objects().functions()[0].consts().is_empty());
    assert!(g.objects().functions()[0].entities().is_empty());
    let none = ValueSpec { names: vec![], typ: None, values: vec![lit(LitKind::Int, "1", 0)] };
    assert_eq!(
        g.gen_def_const(&none),
        Err(GenError { pos: 0, kind: ErrorKind::AssignMismatch(0, 1) })
    );
    let both = ValueSpec {
        names: names(),
        typ: None,
        values: vec![lit(LitKind::Int, "1", 0), lit(LitKind::Int, "2", 0)],
    };
    assert_eq!(g.gen_def_const(&both), Ok(()));
    let ctor = &g.objects().functions()[0];
    assert_eq!(ctor.consts(), &vec![Value::Int(1), Value::Int(2)]);
    assert_eq!(ctor.entities(), &vec![(1, EntIndex::Const(0)), (2, EntIndex::Const(1))]);
    assert!(ctor.code().is_empty());
}

#[test]
fn values_that_match_no_rule_change_nothing() {
    let mut g = CodeGen::new();
    g.begin_package(&"q".to_string());
    let a = Expr::Ident(Ident { pos: 15, name: "a".to_string(), entity: Some(1) });
    let b = Expr::Ident(ident("b", 2));
    let define = Stmt::Assign(vec![a, b], AssignTok::Define, vec![lit(LitKind::Int, "1", 0)]);
    assert_eq!(
        g.visit_stmt(&define),
        Err(GenError { pos: 15, kind: ErrorKind::AssignMismatch(2, 1) })
    );
    // the names are bound, and nothing is emitted
    assert!(g.objects().functions()[0].code().is_empty());
    assert!(g.objects().functions()[0].consts().is_empty());
}

#[test]
fn a_function_with_more_parameters_than_slots_is_rejected() {
    let mut g = CodeGen::new();
    let index = g.begin_package(&"q".to_string());
    let params: Vec<Field> =
        (0..32768).map(|_| Field { names: vec![], typ: basic("int") }).collect();
    let typ = FuncType { params, results: vec![] };
    assert_eq!(
        g.gen_func_def(None, &typ, &vec![], 5),
        Err(GenError { pos: 5, kind: ErrorKind::Overflow })
    );
    {
        // the function holds the slots that there were, and no code
        let functions = g.objects().functions();
        assert_eq!(functions.len(), 2);
        assert_eq!(functions[1].local_alloc(), 32767);
        assert!(functions[1].code().is_empty());
    }
    // it is not under construction: what follows goes to the constructor
    assert_eq!(g.visit_expr(&lit(LitKind::Int, "5", 0)), Ok(()));
    g.end_package(index);
    let functions = g.objects().functions();
    let mut code = load(3, 0);
    code.extend(vec![Code(Opcode::RETURN_INIT_PKG), Data(0)]);
    assert_eq!(functions[0].code(), &code);
    assert!(functions[1].code().is_empty());
}
