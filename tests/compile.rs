use benda::ast::{CmpOp, Constant, Expr, MatchCase, Operator, Pattern, Stmt};
use benda::compile::{compile_body, compile_expr, compile_module, Parser};
use benda::ir::{Adt, BinOp, CompileError, Construct, Ctor, Field, Statement, Term};
use benda::numeric::Number;
use benda::program::Program;

fn s(x: &str) -> String {
    x.to_string()
}

fn name(x: &str) -> Expr {
    Expr::Name(s(x))
}

fn lit(n: u32) -> Expr {
    Expr::Constant(Constant::Int(vec![n]))
}

fn assign(t: &str, v: Expr) -> Stmt {
    Stmt::Assign { targets: vec![name(t)], value: v }
}

fn ret(e: Expr) -> Stmt {
    Stmt::Return { value: Some(e) }
}

fn binop(l: Expr, op: Operator, r: Expr) -> Expr {
    Expr::BinOp { left: Box::new(l), op, right: Box::new(r) }
}

fn call(f: Expr, args: Vec<Expr>) -> Expr {
    Expr::Call { func: Box::new(f), args }
}

fn def(n: &str, params: &[&str], body: Vec<Stmt>) -> Stmt {
    Stmt::FunctionDef { name: s(n), params: params.iter().map(|p| s(p)).collect(), body }
}

fn dataclass(n: &str, fields: &[(&str, &str)]) -> Stmt {
    Stmt::ClassDef {
        name: s(n),
        decorators: vec![name("dataclass")],
        body: fields
            .iter()
            .map(|(f, t)| Stmt::AnnAssign { target: name(f), annotation: name(t) })
            .collect(),
    }
}

fn case(p: &str, body: Vec<Stmt>) -> MatchCase {
    MatchCase { pattern: Pattern::Capture(s(p)), body }
}

fn is_var(t: &Term, n: &str) -> bool {
    matches!(t, Term::Variable(v) if v == n)
}

fn is_u24(t: &Term, n: u32) -> bool {
    matches!(t, Term::Number(Number::U24(v)) if *v == n)
}

fn pair_program() -> Program {
    compile_module(&vec![dataclass("Pair", &[("v", "int")])]).unwrap()
}

#[test]
fn entry_point_calls_function_with_arguments() {
    let module = vec![def("f", &["a", "b"], vec![ret(binop(name("a"), Operator::Add, name("b")))])];
    let parser = Parser::new(module);
    let args = vec![Term::Number(Number::from_u32(2)), Term::Number(Number::from_u32(3))];
    let p = parser.parse(&s("f"), args).unwrap();
    let defs = p.definitions();
    assert_eq!(defs.len(), 2);
    assert_eq!(defs[0].name, "f");
    assert_eq!(defs[0].params, vec![s("a"), s("b")]);
    match &defs[0].body {
        Statement::Return(Term::BinaryOp { op, lhs, rhs }) => {
            assert_eq!(*op, BinOp::Add);
            assert!(is_var(lhs, "a") && is_var(rhs, "b"));
        }
        other => panic!("unexpected body {:?}", other),
    }
    assert_eq!(defs[1].name, "main");
    assert!(defs[1].params.is_empty());
    match &defs[1].body {
        Statement::Return(Term::Call { callee, args }) => {
            assert!(is_var(callee, "f"));
            assert_eq!(args.len(), 2);
            assert!(is_u24(&args[0], 2) && is_u24(&args[1], 3));
        }
        other => panic!("unexpected body {:?}", other),
    }
    assert_eq!(p.entry_point().as_deref(), Some("main"));
}

#[test]
fn constructor_call_builds_first_constructor() {
    let module = vec![
        dataclass("Pair", &[("v", "int")]),
        def("g", &[], vec![assign("p", call(name("Pair"), vec![lit(7)])), ret(name("p"))]),
    ];
    let p = compile_module(&module).unwrap();
    let defs = p.definitions();
    assert_eq!(defs.len(), 1);
    match &defs[0].body {
        Statement::Assign { name: n, value: Term::Constructor { name: c, args }, next } => {
            assert_eq!(n, "p");
            assert_eq!(c, "Pair/int");
            assert_eq!(args.len(), 1);
            assert!(is_u24(&args[0], 7));
            assert!(matches!(&**next, Statement::Return(t) if is_var(t, "p")));
        }
        other => panic!("unexpected body {:?}", other),
    }
}

#[test]
fn unsupported_statement_fails_without_program() {
    let module = vec![def("f", &[], vec![Stmt::Other, ret(lit(1))])];
    let r = compile_module(&module);
    assert!(matches!(r, Err(CompileError::UnsupportedConstruct(Construct::Statement))));
}

#[test]
fn marker_without_match_is_malformed_switch() {
    let body = vec![assign("t", call(name("branch"), vec![])), ret(name("t"))];
    let p = Program::new();
    let r = compile_body(&p, &body);
    assert!(matches!(r, Err(CompileError::MalformedSwitch(n)) if n == "t"));
}

#[test]
fn match_on_another_name_is_malformed_switch() {
    let body = vec![
        assign("t", call(name("branch"), vec![])),
        Stmt::Match { subject: name("u"), cases: vec![case("A", vec![ret(lit(1))])] },
    ];
    let r = compile_body(&Program::new(), &body);
    assert!(matches!(r, Err(CompileError::MalformedSwitch(n)) if n == "t"));
}

#[test]
fn literal_wraps_modulo_2_pow_24() {
    let p = Program::new();
    let body = vec![assign("x", lit(16777216 + 5)), ret(name("x"))];
    match compile_body(&p, &body).unwrap() {
        Statement::Assign { name: n, value, next } => {
            assert_eq!(n, "x");
            assert!(is_u24(&value, 5));
            assert!(matches!(*next, Statement::Return(ref t) if is_var(t, "x")));
        }
        other => panic!("unexpected body {:?}", other),
    }
    // 2^32 * 1 + 9: only the lowest digit matters modulo 2^24.
    let big = Expr::Constant(Constant::Int(vec![9, 1]));
    assert!(is_u24(&compile_expr(&p, &big).unwrap(), 9));
    let max = Expr::Constant(Constant::Int(vec![u32::MAX]));
    assert!(is_u24(&compile_expr(&p, &max).unwrap(), 16777215));
}

#[test]
fn operators_keep_operand_order() {
    let p = Program::new();
    let table = [
        (Operator::Add, BinOp::Add),
        (Operator::Sub, BinOp::Sub),
        (Operator::Mult, BinOp::Mul),
        (Operator::Div, BinOp::Div),
        (Operator::FloorDiv, BinOp::Div),
        (Operator::Pow, BinOp::Pow),
        (Operator::LShift, BinOp::Shl),
        (Operator::RShift, BinOp::Shr),
        (Operator::BitOr, BinOp::Or),
        (Operator::BitXor, BinOp::Xor),
        (Operator::BitAnd, BinOp::And),
    ];
    for (op, want) in table {
        let body = vec![ret(binop(name("a"), op, name("b")))];
        match compile_body(&p, &body).unwrap() {
            Statement::Return(Term::BinaryOp { op, lhs, rhs }) => {
                assert_eq!(op, want);
                assert!(is_var(&lhs, "a") && is_var(&rhs, "b"));
            }
            other => panic!("unexpected body {:?}", other),
        }
    }
    for op in [Operator::Mod, Operator::MatMult] {
        let body = vec![ret(binop(name("a"), op, name("b")))];
        assert!(matches!(
            compile_body(&p, &body),
            Err(CompileError::UnsupportedConstruct(Construct::Operator))
        ));
    }
}

#[test]
fn comparisons_keep_operand_order() {
    let p = Program::new();
    let table = [
        (CmpOp::Eq, BinOp::Eq),
        (CmpOp::NotEq, BinOp::Neq),
        (CmpOp::Lt, BinOp::Lt),
        (CmpOp::Gt, BinOp::Gt),
    ];
    for (op, want) in table {
        let e = Expr::Compare { left: Box::new(name("a")), ops: vec![op], comparators: vec![name("b")] };
        match compile_expr(&p, &e).unwrap() {
            Term::BinaryOp { op, lhs, rhs } => {
                assert_eq!(op, want);
                assert!(is_var(&lhs, "a") && is_var(&rhs, "b"));
            }
            other => panic!("unexpected term {:?}", other),
        }
    }
    for op in [CmpOp::LtE, CmpOp::GtE, CmpOp::Is, CmpOp::In] {
        let e = Expr::Compare { left: Box::new(name("a")), ops: vec![op], comparators: vec![name("b")] };
        assert!(matches!(
            compile_expr(&p, &e),
            Err(CompileError::UnsupportedConstruct(Construct::Comparison))
        ));
    }
    let chained = Expr::Compare {
        left: Box::new(name("a")),
        ops: vec![CmpOp::Lt, CmpOp::Lt],
        comparators: vec![name("b"), name("c")],
    };
    assert!(matches!(
        compile_expr(&p, &chained),
        Err(CompileError::UnsupportedConstruct(Construct::Comparison))
    ));
}

#[test]
fn data_class_becomes_adt() {
    let p = pair_program();
    let adts = p.adts();
    assert_eq!(adts.len(), 1);
    assert_eq!(adts[0].name, "Pair");
    assert_eq!(adts[0].ctors.len(), 1);
    assert_eq!(adts[0].ctors[0].name, "Pair/int");
    assert_eq!(adts[0].ctors[0].fields.len(), 1);
    assert_eq!(adts[0].ctors[0].fields[0].name, "v");
    assert!(!adts[0].ctors[0].fields[0].recursive);
    match compile_expr(&p, &call(name("Pair"), vec![lit(5)])).unwrap() {
        Term::Constructor { name: c, args } => {
            assert_eq!(c, "Pair/int");
            assert_eq!(args.len(), 1);
            assert!(is_u24(&args[0], 5));
        }
        other => panic!("unexpected term {:?}", other),
    }
}

#[test]
fn every_member_becomes_a_constructor() {
    let p = compile_module(&vec![dataclass("Tree", &[("leaf", "int"), ("node", "Tree")])]).unwrap();
    let ctors = &p.adts()[0].ctors;
    assert_eq!(ctors.len(), 2);
    assert_eq!(ctors[0].name, "Tree/int");
    assert!(!ctors[0].fields[0].recursive);
    assert_eq!(ctors[1].name, "Tree/Tree");
    assert_eq!(ctors[1].fields[0].name, "node");
    assert!(ctors[1].fields[0].recursive);
}

#[test]
fn undecorated_class_is_skipped() {
    let module = vec![Stmt::ClassDef {
        name: s("Plain"),
        decorators: vec![],
        body: vec![Stmt::AnnAssign { target: name("v"), annotation: name("int") }],
    }];
    let p = compile_module(&module).unwrap();
    assert!(p.adts().is_empty());
}

#[test]
fn plain_call_stays_a_call() {
    let p = pair_program();
    match compile_expr(&p, &call(name("g"), vec![lit(1), name("y")])).unwrap() {
        Term::Call { callee, args } => {
            assert!(is_var(&callee, "g"));
            assert_eq!(args.len(), 2);
            assert!(is_u24(&args[0], 1) && is_var(&args[1], "y"));
        }
        other => panic!("unexpected term {:?}", other),
    }
}

#[test]
fn string_naming_a_type_is_a_variable() {
    let p = pair_program();
    let e = Expr::Constant(Constant::Str(s("Pair")));
    assert!(is_var(&compile_expr(&p, &e).unwrap(), "Pair"));
    let other = Expr::Constant(Constant::Str(s("nope")));
    assert!(matches!(
        compile_expr(&p, &other),
        Err(CompileError::UnsupportedConstruct(Construct::Constant))
    ));
    assert!(matches!(
        compile_expr(&p, &Expr::Constant(Constant::Other)),
        Err(CompileError::UnsupportedConstruct(Construct::Constant))
    ));
}

#[test]
fn float_literal_keeps_its_bits() {
    let p = Program::new();
    let bits = 1.5f32.to_bits();
    let t = compile_expr(&p, &Expr::Constant(Constant::Float(bits))).unwrap();
    assert!(matches!(t, Term::Number(Number::F24(b)) if b == bits));
}

#[test]
fn switch_idiom_becomes_branch() {
    let body = vec![
        assign("t", call(name("branch"), vec![])),
        Stmt::Match {
            subject: name("t"),
            cases: vec![case("A", vec![ret(lit(1))]), case("B", vec![ret(lit(2))])],
        },
    ];
    match compile_body(&Program::new(), &body).unwrap() {
        Statement::Branch { scrutinee, binding, arms, next } => {
            assert!(is_var(&scrutinee, "t"));
            assert_eq!(binding, "t");
            assert!(next.is_none());
            assert_eq!(arms.len(), 2);
            assert!(matches!(&arms[0].pattern, Some(t) if is_var(t, "A")));
            assert!(matches!(&arms[0].body, Statement::Return(t) if is_u24(t, 1)));
            assert!(matches!(&arms[1].pattern, Some(t) if is_var(t, "B")));
            assert!(matches!(&arms[1].body, Statement::Return(t) if is_u24(t, 2)));
        }
        other => panic!("unexpected body {:?}", other),
    }
}

#[test]
fn switch_through_module_attribute_has_continuation() {
    let marker = Expr::Attribute { value: Box::new(name("benda")), attr: s("branch") };
    let body = vec![
        assign("t", call(marker, vec![])),
        Stmt::Match {
            subject: name("t"),
            cases: vec![MatchCase { pattern: Pattern::Wildcard, body: vec![ret(lit(0))] }],
        },
        ret(name("t")),
    ];
    match compile_body(&Program::new(), &body).unwrap() {
        Statement::Branch { arms, next, .. } => {
            assert_eq!(arms.len(), 1);
            assert!(arms[0].pattern.is_none());
            assert!(matches!(next.as_deref(), Some(Statement::Return(t)) if is_var(t, "t")));
        }
        other => panic!("unexpected body {:?}", other),
    }
}

#[test]
fn bare_match_is_unsupported() {
    let body = vec![Stmt::Match { subject: name("t"), cases: vec![case("A", vec![ret(lit(1))])] }];
    assert!(matches!(
        compile_body(&Program::new(), &body),
        Err(CompileError::UnsupportedConstruct(Construct::BareMatch))
    ));
}

#[test]
fn continuation_follows_source_order() {
    let body = vec![
        assign("a", lit(1)),
        assign("b", lit(2)),
        ret(binop(name("a"), Operator::Add, name("b"))),
    ];
    match compile_body(&Program::new(), &body).unwrap() {
        Statement::Assign { name: a, value: va, next } => {
            assert_eq!(a, "a");
            assert!(is_u24(&va, 1));
            match *next {
                Statement::Assign { name: b, value: vb, next } => {
                    assert_eq!(b, "b");
                    assert!(is_u24(&vb, 2));
                    match *next {
                        Statement::Return(Term::BinaryOp { op, lhs, rhs }) => {
                            assert_eq!(op, BinOp::Add);
                            assert!(is_var(&lhs, "a") && is_var(&rhs, "b"));
                        }
                        other => panic!("unexpected statement {:?}", other),
                    }
                }
                other => panic!("unexpected statement {:?}", other),
            }
        }
        other => panic!("unexpected statement {:?}", other),
    }
}

#[test]
fn body_without_return_is_missing_return() {
    let body = vec![assign("x", lit(1))];
    assert!(matches!(compile_body(&Program::new(), &body), Err(CompileError::MissingReturn)));
    assert!(matches!(compile_body(&Program::new(), &vec![]), Err(CompileError::MissingReturn)));
}

#[test]
fn bare_return_and_bad_target_are_unsupported() {
    let p = Program::new();
    let bare = vec![Stmt::Return { value: None }];
    assert!(matches!(
        compile_body(&p, &bare),
        Err(CompileError::UnsupportedConstruct(Construct::BareReturn))
    ));
    let two = vec![
        Stmt::Assign { targets: vec![name("a"), name("b")], value: lit(1) },
        ret(name("a")),
    ];
    assert!(matches!(
        compile_body(&p, &two),
        Err(CompileError::UnsupportedConstruct(Construct::Target))
    ));
    assert!(matches!(
        compile_expr(&p, &Expr::Other),
        Err(CompileError::UnsupportedConstruct(Construct::Expression))
    ));
}

#[test]
fn repeated_type_name_is_duplicate() {
    let module = vec![dataclass("Pair", &[("v", "int")]), dataclass("Pair", &[("w", "float")])];
    assert!(matches!(
        compile_module(&module),
        Err(CompileError::DuplicateDefinition(n)) if n == "Pair"
    ));
}

#[test]
fn colliding_constructor_is_duplicate_and_not_merged() {
    let mut p = pair_program();
    let clash = Adt {
        name: s("Other"),
        ctors: vec![Ctor { name: s("Pair/int"), fields: vec![Field { name: s("x"), recursive: false }] }],
    };
    assert!(matches!(p.add_adt(clash), Err(CompileError::DuplicateDefinition(n)) if n == "Pair/int"));
    assert_eq!(p.adts().len(), 1);
    assert_eq!(p.adts()[0].name, "Pair");
    let twice = vec![dataclass("Twice", &[("a", "int"), ("b", "int")])];
    assert!(matches!(
        compile_module(&twice),
        Err(CompileError::DuplicateDefinition(n)) if n == "Twice/int"
    ));
}

#[test]
fn empty_data_class_is_refused() {
    let module = vec![dataclass("Empty", &[])];
    assert!(matches!(
        compile_module(&module),
        Err(CompileError::UnsupportedConstruct(Construct::EmptyType))
    ));
    let bad = vec![Stmt::ClassDef {
        name: s("Bad"),
        decorators: vec![name("dataclass")],
        body: vec![Stmt::Other],
    }];
    assert!(matches!(
        compile_module(&bad),
        Err(CompileError::UnsupportedConstruct(Construct::Field))
    ));
}

#[test]
fn repeated_function_is_duplicate() {
    let module = vec![def("f", &[], vec![ret(lit(1))]), def("f", &[], vec![ret(lit(2))])];
    assert!(matches!(
        compile_module(&module),
        Err(CompileError::DuplicateDefinition(n)) if n == "f"
    ));
}

#[test]
fn missing_entry_function_is_unresolved() {
    let parser = Parser::new(vec![def("f", &[], vec![ret(lit(1))])]);
    assert!(matches!(
        parser.parse(&s("g"), vec![]),
        Err(CompileError::UnresolvedEntryPoint(n)) if n == "g"
    ));
    let mut p = compile_module(&vec![def("f", &[], vec![ret(lit(1))])]).unwrap();
    assert!(p.set_entry_point(&s("f"), vec![]).is_ok());
    assert!(matches!(
        p.set_entry_point(&s("f"), vec![]),
        Err(CompileError::DuplicateDefinition(n)) if n == "main"
    ));
    assert_eq!(p.definitions().len(), 2);
}

#[test]
fn numeric_cases_become_arms() {
    let body = vec![
        assign("t", call(name("branch"), vec![])),
        Stmt::Match {
            subject: name("t"),
            cases: vec![
                MatchCase { pattern: Pattern::Value(lit(0)), body: vec![ret(lit(10))] },
                MatchCase { pattern: Pattern::Wildcard, body: vec![ret(lit(20))] },
            ],
        },
    ];
    match compile_body(&Program::new(), &body).unwrap() {
        Statement::Branch { scrutinee, binding, arms, next } => {
            assert!(is_var(&scrutinee, "t"));
            assert_eq!(binding, "t");
            assert!(next.is_none());
            assert_eq!(arms.len(), 2);
            assert!(matches!(&arms[0].pattern, Some(p) if is_u24(p, 0)));
            assert!(matches!(&arms[0].body, Statement::Return(t) if is_u24(t, 10)));
            assert!(arms[1].pattern.is_none());
            assert!(matches!(&arms[1].body, Statement::Return(t) if is_u24(t, 20)));
        }
        other => panic!("unexpected body {:?}", other),
    }
}

#[test]
fn unsupported_pattern_kind_is_refused() {
    let body = vec![
        assign("t", call(name("branch"), vec![])),
        Stmt::Match {
            subject: name("t"),
            cases: vec![MatchCase { pattern: Pattern::Other, body: vec![ret(lit(1))] }],
        },
    ];
    assert!(matches!(
        compile_body(&Program::new(), &body),
        Err(CompileError::UnsupportedConstruct(Construct::Pattern))
    ));
}

#[test]
fn repeated_empty_type_name_is_duplicate() {
    let module = vec![dataclass("Pair", &[("v", "int")]), dataclass("Pair", &[])];
    assert!(matches!(
        compile_module(&module),
        Err(CompileError::DuplicateDefinition(n)) if n == "Pair"
    ));
}

#[test]
fn constructor_map_names_the_owner() {
    let p = compile_module(&vec![
        dataclass("Pair", &[("v", "int")]),
        dataclass("Tree", &[("leaf", "int"), ("node", "Tree")]),
    ])
    .unwrap();
    assert_eq!(p.owner_of(&s("Pair/int")).as_deref(), Some("Pair"));
    assert_eq!(p.owner_of(&s("Tree/Tree")).as_deref(), Some("Tree"));
    assert_eq!(p.owner_of(&s("Tree/int")).as_deref(), Some("Tree"));
    assert!(p.owner_of(&s("Pair")).is_none());
    assert!(p.has_ctor(&s("Tree/int")));
    assert!(!p.has_ctor(&s("Pair/float")));
}
