use curlywas::ast::{
    same_type, BinOp, Block, Data, DataType, DataValues, Expr, Expression, Function, GlobalVar,
    Import, ImportType, LetType, Local, Locals, MemSize, MemoryLocation, Position, Script,
    Signature, Span, Type, UnaryOp, Visibility,
};
use curlywas::compile::compile;
use curlywas::diag::{Diagnostic, ErrorKind, Label};
use curlywas::script::{is_error_free, tc_script};
use curlywas::typecheck::{tc_const, tc_expression, Context, Intrinsics};

fn sp(start: usize, end: usize) -> Span {
    Span::new(start, end)
}

fn node(expr: Expr, start: usize, end: usize) -> Expression {
    expr.with_span(sp(start, end))
}

fn var(name: &str, start: usize, end: usize) -> Expression {
    node(Expr::Variable { name: name.to_string(), local_id: None }, start, end)
}

fn i32c(v: i32, start: usize, end: usize) -> Expression {
    node(Expr::I32Const(v), start, end)
}

fn i64c(v: i64, start: usize, end: usize) -> Expression {
    node(Expr::I64Const(v), start, end)
}

fn f32c(text: &str, start: usize, end: usize) -> Expression {
    node(Expr::F32Const(text.to_string()), start, end)
}

fn f64c(text: &str, start: usize, end: usize) -> Expression {
    node(Expr::F64Const(text.to_string()), start, end)
}

fn bin(op: BinOp, left: Expression, right: Expression, start: usize, end: usize) -> Expression {
    node(Expr::BinOp { op, left: Box::new(left), right: Box::new(right) }, start, end)
}

fn let_(
    name: &str,
    type_: Option<Type>,
    value: Option<Expression>,
    let_type: LetType,
    start: usize,
    end: usize,
) -> Expression {
    node(
        Expr::Let {
            name: name.to_string(),
            type_,
            value: value.map(Box::new),
            let_type,
            local_id: None,
        },
        start,
        end,
    )
}

fn block(statements: Vec<Expression>, last: Option<Expression>, start: usize, end: usize) -> Expression {
    node(Expr::Block(Block { statements, final_expression: last.map(Box::new) }), start, end)
}

fn function(name: &str, params: Vec<(&str, Type)>, type_: Option<Type>, body: Expression) -> Function {
    Function {
        span: sp(0, 10),
        export: false,
        start: false,
        name: name.to_string(),
        params: params.into_iter().map(|(n, t)| (n.to_string(), t)).collect(),
        type_,
        body,
        locals: Locals::new(),
    }
}

fn script(functions: Vec<Function>) -> Script {
    Script { imports: Vec::new(), global_vars: Vec::new(), functions, data: Vec::new() }
}

fn label(start: usize, end: usize, message: &str, primary: bool) -> Label {
    Label { span: sp(start, end), message: message.to_string(), primary }
}

fn simple(kind: ErrorKind, message: &str, start: usize, end: usize) -> Diagnostic {
    Diagnostic {
        kind,
        message: message.to_string(),
        span: sp(start, end),
        labels: vec![label(start, end, message, true)],
    }
}

fn mismatch(expected: &str, s1: (usize, usize), found: &str, s2: (usize, usize)) -> Diagnostic {
    Diagnostic {
        kind: ErrorKind::TypeMismatch,
        message: "Type mismatch".to_string(),
        span: sp(s2.0, s2.1),
        labels: vec![
            label(s1.0, s1.1, &format!("Expected type \"{}\"...", expected), false),
            label(s2.0, s2.1, &format!("...but found type {}", found), true),
        ],
    }
}

fn duplicate(kind: ErrorKind, message: &str, s: (usize, usize), previous: (usize, usize)) -> Diagnostic {
    Diagnostic {
        kind,
        message: message.to_string(),
        span: sp(s.0, s.1),
        labels: vec![
            label(s.0, s.1, message, true),
            label(previous.0, previous.1, "Previous definition was here", false),
        ],
    }
}

/// Checks an expression as the body of a function `f(p: i32, q: f64) -> i64`
/// in a script with a mutable global `g: i32` and a constant global `k: f32`.
fn check_in_function(e: Expression) -> Result<Expression, Diagnostic> {
    check_with(e, &Intrinsics::new())
}

fn check_with(e: Expression, intrinsics: &Intrinsics) -> Result<Expression, Diagnostic> {
    let mut s = Script {
        imports: vec![
            Import {
                span: sp(100, 110),
                import: "env.g".to_string(),
                type_: ImportType::Variable {
                    name: "g".to_string(),
                    type_: Type::I32,
                    mutable: true,
                },
            },
            Import {
                span: sp(110, 120),
                import: "env.k".to_string(),
                type_: ImportType::Variable {
                    name: "k".to_string(),
                    type_: Type::F32,
                    mutable: false,
                },
            },
            Import {
                span: sp(120, 130),
                import: "env.sin".to_string(),
                type_: ImportType::Function {
                    name: "sin".to_string(),
                    params: vec![Type::F32],
                    result: Some(Type::F32),
                },
            },
        ],
        global_vars: Vec::new(),
        functions: vec![
            Function {
                span: sp(200, 300),
                export: false,
                start: false,
                name: "f".to_string(),
                params: vec![("p".to_string(), Type::I32), ("q".to_string(), Type::F64)],
                type_: Some(Type::I64),
                body: block(vec![e], Some(i64c(0, 298, 299)), 210, 300),
                locals: Locals::new(),
            },
            function("nothing", Vec::new(), None, block(Vec::new(), None, 5, 10)),
        ],
        data: Vec::new(),
    };
    match tc_script(&mut s, intrinsics) {
        Ok(()) => {
            let f = s.functions.remove(0);
            match f.body.expr {
                Expr::Block(mut b) => Ok(b.statements.remove(0)),
                other => panic!("no block: {:?}", other),
            }
        }
        Err(mut diagnostics) => {
            assert_eq!(diagnostics.len(), 1);
            Err(diagnostics.remove(0))
        }
    }
}

fn type_of(e: Expression) -> Option<Type> {
    check_in_function(e).unwrap().type_
}

fn error_of(e: Expression) -> Diagnostic {
    check_in_function(e).unwrap_err()
}

#[test]
fn add_function_type_checks() {
    let mut s = compile("fn add(a: i32, b: i32) -> i32 { a + b }", &Intrinsics::new()).unwrap();
    assert_eq!(s.functions.len(), 1);
    let f = s.functions.remove(0);
    assert_eq!(f.body.type_, Some(Type::I32));
    assert_eq!(f.body.type_, f.type_);
    assert_eq!(f.locals.params, 2);
    assert_eq!(
        f.locals.locals,
        vec![
            Local { span: sp(0, 39), name: "a".to_string(), type_: Type::I32, index: Some(0) },
            Local { span: sp(0, 39), name: "b".to_string(), type_: Type::I32, index: Some(1) },
        ]
    );
    match f.body.expr {
        Expr::Block(b) => {
            let sum = b.final_expression.unwrap();
            assert_eq!(sum.type_, Some(Type::I32));
            match sum.expr {
                Expr::BinOp { op, left, right } => {
                    assert_eq!(op, BinOp::Add);
                    assert_eq!(left.type_, Some(Type::I32));
                    assert_eq!(
                        left.expr,
                        Expr::Variable { name: "a".to_string(), local_id: Some(0) }
                    );
                    assert_eq!(
                        right.expr,
                        Expr::Variable { name: "b".to_string(), local_id: Some(1) }
                    );
                }
                other => panic!("no sum: {:?}", other),
            }
        }
        other => panic!("no block: {:?}", other),
    }
}

#[test]
fn float_body_in_integer_function_is_a_type_mismatch() {
    let diagnostics = compile("fn bad() -> i32 { 1.0 }", &Intrinsics::new()).unwrap_err();
    assert_eq!(diagnostics, vec![mismatch("I32", (0, 23), "F32", (16, 23))]);
    assert_eq!(diagnostics[0].kind, ErrorKind::TypeMismatch);
}

#[test]
fn duplicate_globals_name_the_first_declaration() {
    let global = |value: i32, start: usize, end: usize| GlobalVar {
        span: sp(start, end),
        name: "g".to_string(),
        value: i32c(value, end - 2, end - 1),
        type_: Some(Type::I32),
        mutable: false,
    };
    let mut s = Script {
        imports: Vec::new(),
        global_vars: vec![global(1, 0, 18), global(2, 19, 37)],
        functions: Vec::new(),
        data: Vec::new(),
    };
    let diagnostics = tc_script(&mut s, &Intrinsics::new()).unwrap_err();
    assert_eq!(
        diagnostics,
        vec![duplicate(
            ErrorKind::DuplicateDefinition,
            "Global already defined",
            (19, 37),
            (0, 18)
        )]
    );
    assert_eq!(diagnostics[0].labels[1].span, sp(0, 18));
    assert_eq!(diagnostics[0].labels[1].message, "Previous definition was here");
}

#[test]
fn branch_to_a_label_that_is_not_open_is_unresolved() {
    let diagnostics =
        compile("fn f(a: i32) { loop inner { a; }; branch_if a: inner }", &Intrinsics::new())
            .unwrap_err();
    assert_eq!(diagnostics, vec![simple(ErrorKind::UnresolvedLabel, "Label not found", 34, 52)]);
    let diagnostics = compile("fn f(a: i32) { branch_if a: nowhere }", &Intrinsics::new()).unwrap_err();
    assert_eq!(diagnostics[0].kind, ErrorKind::UnresolvedLabel);
    assert!(compile("fn f(a: i32) { loop l { branch_if a: l } }", &Intrinsics::new()).is_ok());
    assert!(compile(
        "fn f(a: i32) { loop outer { loop inner { branch_if a: outer } } }",
        &Intrinsics::new()
    )
    .is_ok());
}

#[test]
fn stored_locals_are_packed_by_type() {
    let s = compile(
        "fn f(p: f64) { let a: i32 = 1; let b: f32 = 2.0; let c: i32 = 3; }",
        &Intrinsics::new(),
    )
    .unwrap();
    let locals = &s.functions[0].locals;
    assert_eq!(locals.params, 1);
    let slot = |name: &str| locals.locals.iter().find(|l| l.name == name).unwrap().index;
    assert_eq!(slot("p"), Some(0));
    assert_eq!(slot("a"), Some(1));
    assert_eq!(slot("c"), Some(2));
    assert_eq!(slot("b"), Some(3));
}

#[test]
fn slots_follow_the_order_of_the_types() {
    let body = block(
        vec![
            let_("w", Some(Type::F64), None, LetType::Normal, 1, 2),
            let_("x", Some(Type::F32), None, LetType::Normal, 3, 4),
            let_("i", Some(Type::I64), None, LetType::Inline, 5, 6),
            let_("y", Some(Type::I64), None, LetType::Normal, 7, 8),
            let_("z", Some(Type::I32), None, LetType::Normal, 9, 10),
            let_("v", Some(Type::F64), None, LetType::Normal, 11, 12),
            let_("u", Some(Type::I32), None, LetType::Normal, 13, 14),
        ],
        None,
        0,
        20,
    );
    let mut s = script(vec![function("f", vec![("a", Type::F32), ("b", Type::I32)], None, body)]);
    assert_eq!(tc_script(&mut s, &Intrinsics::new()), Ok(()));
    let locals = &s.functions[0].locals;
    let slots: Vec<(String, Option<usize>)> =
        locals.locals.iter().map(|l| (l.name.clone(), l.index)).collect();
    assert_eq!(
        slots,
        vec![
            ("a".to_string(), Some(0)),
            ("b".to_string(), Some(1)),
            ("w".to_string(), Some(6)),
            ("x".to_string(), Some(5)),
            ("i".to_string(), None),
            ("y".to_string(), Some(4)),
            ("z".to_string(), Some(2)),
            ("v".to_string(), Some(7)),
            ("u".to_string(), Some(3)),
        ]
    );
}

#[test]
fn slots_of_locals_given_out_directly() {
    let local = |type_: Type, index: Option<usize>| Local {
        span: sp(0, 1),
        name: "l".to_string(),
        type_,
        index,
    };
    let mut locals = Locals {
        params: 1,
        locals: vec![
            local(Type::F64, Some(0)),
            local(Type::F64, Some(0)),
            local(Type::I32, None),
            local(Type::I32, Some(0)),
            local(Type::I64, Some(0)),
            local(Type::I32, Some(0)),
        ],
    };
    locals.assign_slots();
    let slots: Vec<Option<usize>> = locals.locals.iter().map(|l| l.index).collect();
    assert_eq!(slots, vec![Some(0), Some(4), None, Some(1), Some(3), Some(2)]);
    let mut empty = Locals::new();
    empty.assign_slots();
    assert_eq!(empty, Locals::new());
}

#[test]
fn inline_let_takes_no_slot_and_cannot_be_written() {
    let s = compile("fn f() { let defer x = 1; let y = x; }", &Intrinsics::new()).unwrap();
    let locals = &s.functions[0].locals.locals;
    assert_eq!(locals[0].name, "x");
    assert_eq!(locals[0].index, None);
    assert_eq!(locals[1].name, "y");
    assert_eq!(locals[1].index, Some(0));

    let diagnostics = compile("fn f() { let defer x = 1; x := 2; }", &Intrinsics::new()).unwrap_err();
    assert_eq!(
        diagnostics,
        vec![simple(
            ErrorKind::ImmutableAssignment,
            "Trying to assign to immutable variable",
            26,
            32
        )]
    );

    let assign = block(
        vec![
            let_("x", Some(Type::I32), None, LetType::Inline, 1, 2),
            node(
                Expr::Assign {
                    name: "x".to_string(),
                    value: Box::new(i32c(2, 5, 6)),
                    local_id: None,
                },
                3,
                6,
            ),
        ],
        None,
        0,
        10,
    );
    assert_eq!(
        error_of(assign),
        simple(ErrorKind::ImmutableAssignment, "Trying to assign to immutable variable", 3, 6)
    );
}

fn call(name: &str, params: Vec<Expression>, start: usize, end: usize) -> Expression {
    node(Expr::FuncCall { name: name.to_string(), params }, start, end)
}

fn intrinsics() -> Intrinsics {
    let mut i = Intrinsics::new();
    i.add(
        "min".to_string(),
        vec![
            Signature { params: vec![Type::F32, Type::F32], result: Some(Type::F32) },
            Signature { params: vec![Type::F64, Type::F64], result: Some(Type::F64) },
        ],
    );
    i.add("nop".to_string(), vec![Signature { params: Vec::new(), result: None }]);
    i
}

#[test]
fn call_without_matching_overload_lists_every_candidate() {
    let e = call("min", vec![i32c(1, 4, 5), i32c(2, 7, 8)], 0, 9);
    assert_eq!(
        check_with(e, &intrinsics()).unwrap_err(),
        Diagnostic {
            kind: ErrorKind::NoMatchingOverload,
            message: "No matching function found".to_string(),
            span: sp(0, 9),
            labels: vec![
                label(0, 9, "Found min(f32, f32) -> f32", false),
                label(0, 9, "Found min(f64, f64) -> f64", false),
            ],
        }
    );
    let e = call("nop", vec![i32c(1, 4, 5)], 0, 6);
    assert_eq!(
        check_with(e, &intrinsics()).unwrap_err().labels,
        vec![label(0, 6, "Found nop()", false)]
    );
    let e = call("sin", vec![f64c("1.0", 4, 7)], 0, 8);
    assert_eq!(
        check_with(e, &intrinsics()).unwrap_err().labels,
        vec![label(0, 8, "Found sin(f32) -> f32", false)]
    );
    let e = call("f", Vec::new(), 0, 3);
    assert_eq!(
        check_with(e, &intrinsics()).unwrap_err().labels,
        vec![label(0, 3, "Found f(i32, f64) -> i64", false)]
    );
}

#[test]
fn calls_resolve_functions_imports_and_built_ins() {
    let i = intrinsics();
    let typed = |e: Expression| check_with(e, &i).unwrap().type_;
    assert_eq!(typed(call("min", vec![f32c("1.0", 0, 1), f32c("2.0", 0, 1)], 0, 9)), Some(Type::F32));
    assert_eq!(typed(call("min", vec![f64c("1.0", 0, 1), f64c("2.0", 0, 1)], 0, 9)), Some(Type::F64));
    assert_eq!(typed(call("nop", Vec::new(), 0, 5)), None);
    assert_eq!(typed(call("sin", vec![f32c("1.0", 0, 1)], 0, 9)), Some(Type::F32));
    assert_eq!(typed(call("f", vec![i32c(1, 0, 1), f64c("2.0", 0, 1)], 0, 9)), Some(Type::I64));
    assert_eq!(typed(call("nothing", Vec::new(), 0, 9)), None);
}

#[test]
fn forward_and_mutual_calls() {
    let less = || bin(BinOp::Sub, var("n", 0, 1), i32c(1, 4, 5), 0, 5);
    let mut s = script(vec![
        function(
            "even",
            vec![("n", Type::I32)],
            Some(Type::I32),
            block(Vec::new(), Some(call("odd", vec![less()], 0, 10)), 0, 12),
        ),
        function(
            "odd",
            vec![("n", Type::I32)],
            Some(Type::I32),
            block(Vec::new(), Some(call("even", vec![less()], 0, 10)), 0, 12),
        ),
    ]);
    assert_eq!(tc_script(&mut s, &Intrinsics::new()), Ok(()));
    assert_eq!(s.functions[0].body.type_, Some(Type::I32));
}

#[test]
fn unknown_function_and_argument_without_value() {
    assert_eq!(
        error_of(call("missing", Vec::new(), 3, 12)),
        simple(ErrorKind::UnknownIdentifier, "Unknown function missing", 3, 12)
    );
    let e = call("sin", vec![call("nothing", Vec::new(), 4, 13)], 0, 14);
    assert_eq!(
        error_of(e),
        simple(
            ErrorKind::ExpectedValue,
            "Expected value but found expression of type void",
            4,
            13
        )
    );
}

#[test]
fn checking_twice_needs_independent_trees() {
    let build = || {
        script(vec![function(
            "f",
            vec![("a", Type::I32)],
            Some(Type::I32),
            block(
                vec![let_("x", None, Some(var("a", 1, 2)), LetType::Normal, 0, 2)],
                Some(var("x", 3, 4)),
                0,
                5,
            ),
        )])
    };
    let mut first = build();
    let mut second = build();
    assert_eq!(first, second);
    assert_eq!(tc_script(&mut first, &Intrinsics::new()), Ok(()));
    assert_ne!(first, second);
    assert_eq!(tc_script(&mut second, &Intrinsics::new()), Ok(()));
    assert_eq!(first, second);
}

#[test]
fn constants_have_their_types() {
    assert_eq!(type_of(i32c(1, 0, 1)), Some(Type::I32));
    assert_eq!(type_of(i64c(1, 0, 1)), Some(Type::I64));
    assert_eq!(type_of(f32c("1.0", 0, 1)), Some(Type::F32));
    assert_eq!(type_of(f64c("1.0", 0, 1)), Some(Type::F64));
}

#[test]
fn variables_resolve_to_locals_then_globals() {
    let p = check_in_function(var("p", 0, 1)).unwrap();
    assert_eq!(p.type_, Some(Type::I32));
    assert_eq!(p.expr, Expr::Variable { name: "p".to_string(), local_id: Some(0) });
    let q = check_in_function(var("q", 0, 1)).unwrap();
    assert_eq!(q.type_, Some(Type::F64));
    assert_eq!(q.expr, Expr::Variable { name: "q".to_string(), local_id: Some(1) });
    let g = check_in_function(var("g", 0, 1)).unwrap();
    assert_eq!(g.type_, Some(Type::I32));
    assert_eq!(g.expr, Expr::Variable { name: "g".to_string(), local_id: None });
    assert_eq!(
        error_of(var("nope", 7, 11)),
        simple(ErrorKind::UnknownIdentifier, "Unknown variable", 7, 11)
    );
}

#[test]
fn inner_scope_shadows_and_ends() {
    let inner = block(
        vec![let_("p", Some(Type::F32), None, LetType::Normal, 1, 2)],
        Some(var("p", 3, 4)),
        0,
        5,
    );
    let e = node(Expr::First { value: Box::new(inner), drop: Box::new(var("p", 6, 7)) }, 0, 7);
    let checked = check_in_function(e).unwrap();
    assert_eq!(checked.type_, Some(Type::F32));
    match checked.expr {
        Expr::First { value, drop } => {
            assert_eq!(value.type_, Some(Type::F32));
            assert_eq!(drop.type_, Some(Type::I32));
            assert_eq!(drop.expr, Expr::Variable { name: "p".to_string(), local_id: Some(0) });
        }
        other => panic!("no first: {:?}", other),
    }
    let e = block(
        vec![block(vec![let_("t", Some(Type::I32), None, LetType::Normal, 1, 2)], None, 0, 3)],
        Some(var("t", 4, 5)),
        0,
        6,
    );
    assert_eq!(error_of(e), simple(ErrorKind::UnknownIdentifier, "Unknown variable", 4, 5));
}

#[test]
fn let_infers_checks_and_needs_a_type() {
    let e = check_in_function(let_("x", None, Some(f32c("1.0", 8, 11)), LetType::Normal, 0, 11)).unwrap();
    assert_eq!(e.type_, None);
    match e.expr {
        Expr::Let { type_, local_id, .. } => {
            assert_eq!(type_, Some(Type::F32));
            assert_eq!(local_id, Some(2));
        }
        other => panic!("no let: {:?}", other),
    }
    assert_eq!(
        error_of(let_("x", Some(Type::I32), Some(f32c("1.0", 13, 16)), LetType::Normal, 0, 16)),
        mismatch("I32", (0, 16), "F32", (13, 16))
    );
    assert_eq!(
        error_of(let_("x", None, None, LetType::Normal, 0, 5)),
        simple(ErrorKind::MissingTypeAnnotation, "Type missing", 0, 5)
    );
    assert_eq!(
        error_of(let_("x", None, Some(call("nothing", Vec::new(), 8, 17)), LetType::Normal, 0, 17)),
        simple(
            ErrorKind::ExpectedValue,
            "Expected value but found expression of type void",
            8,
            17
        )
    );
    assert_eq!(
        error_of(let_("x", Some(Type::I32), Some(call("nothing", Vec::new(), 8, 17)), LetType::Normal, 0, 17)),
        mismatch("I32", (0, 17), "void", (8, 17))
    );
}

#[test]
fn second_let_of_a_name_in_one_scope_is_a_duplicate() {
    let twice = |first: Expression, second: Expression| {
        let mut s = script(vec![function(
            "f",
            Vec::new(),
            None,
            block(vec![first, second], None, 0, 12),
        )]);
        tc_script(&mut s, &Intrinsics::new())
    };
    let again = duplicate(
        ErrorKind::DuplicateDefinition,
        "Variable already defined",
        (3, 4),
        (1, 2),
    );
    assert_eq!(
        twice(
            let_("x", Some(Type::I32), Some(i32c(1, 1, 2)), LetType::Normal, 1, 2),
            let_("x", Some(Type::I32), Some(i32c(2, 3, 4)), LetType::Normal, 3, 4),
        ),
        Err(vec![again.clone()])
    );
    assert_eq!(
        twice(
            let_("x", Some(Type::I32), None, LetType::Normal, 1, 2),
            let_("x", Some(Type::F32), None, LetType::Normal, 3, 4),
        ),
        Err(vec![again.clone()])
    );
    assert_eq!(
        twice(
            let_("x", Some(Type::I32), None, LetType::Inline, 1, 2),
            let_("x", None, Some(f64c("1.0", 3, 4)), LetType::Normal, 3, 4),
        ),
        Err(vec![again])
    );
    assert_eq!(
        twice(
            let_("x", Some(Type::I32), None, LetType::Normal, 1, 2),
            let_("y", Some(Type::I32), None, LetType::Normal, 3, 4),
        ),
        Ok(())
    );
    let source = "fn f() { let a = 1; let a = 2; }";
    assert_eq!(
        compile(source, &Intrinsics::new()).unwrap_err(),
        vec![duplicate(
            ErrorKind::DuplicateDefinition,
            "Variable already defined",
            (20, 29),
            (9, 18)
        )]
    );
}

#[test]
fn let_in_an_inner_scope_hides_the_outer_local() {
    let body = block(
        vec![
            let_("x", Some(Type::I32), None, LetType::Normal, 1, 2),
            block(
                vec![let_("x", Some(Type::F32), None, LetType::Inline, 5, 6)],
                Some(var("x", 7, 8)),
                4,
                9,
            ),
            var("x", 10, 11),
            let_("p", Some(Type::F64), None, LetType::Normal, 12, 13),
        ],
        None,
        0,
        14,
    );
    let mut s = script(vec![function("f", vec![("p", Type::I32)], None, body)]);
    assert_eq!(tc_script(&mut s, &Intrinsics::new()), Ok(()));
    let f = &s.functions[0];
    match &f.body.expr {
        Expr::Block(b) => {
            assert_eq!(b.statements[1].type_, Some(Type::F32));
            assert_eq!(b.statements[2].type_, Some(Type::I32));
            assert_eq!(
                b.statements[2].expr,
                Expr::Variable { name: "x".to_string(), local_id: Some(1) }
            );
        }
        other => panic!("no block: {:?}", other),
    }
    let slots: Vec<(String, Option<usize>)> =
        f.locals.locals.iter().map(|l| (l.name.clone(), l.index)).collect();
    assert_eq!(
        slots,
        vec![
            ("p".to_string(), Some(0)),
            ("x".to_string(), Some(1)),
            ("x".to_string(), None),
            ("p".to_string(), Some(2)),
        ]
    );
}

fn assign(name: &str, value: Expression, start: usize, end: usize) -> Expression {
    node(Expr::Assign { name: name.to_string(), value: Box::new(value), local_id: None }, start, end)
}

fn tee(name: &str, value: Expression, start: usize, end: usize) -> Expression {
    node(Expr::LocalTee { name: name.to_string(), value: Box::new(value), local_id: None }, start, end)
}

#[test]
fn assignment_rules() {
    let e = check_in_function(assign("p", i32c(1, 4, 5), 0, 5)).unwrap();
    assert_eq!(e.type_, None);
    match e.expr {
        Expr::Assign { local_id, .. } => assert_eq!(local_id, Some(0)),
        other => panic!("no assignment: {:?}", other),
    }
    assert_eq!(type_of(assign("g", i32c(1, 4, 5), 0, 5)), None);
    assert_eq!(
        error_of(assign("k", f32c("1.0", 4, 7), 0, 7)),
        simple(ErrorKind::ImmutableAssignment, "Trying to assign to immutable variable", 0, 7)
    );
    assert_eq!(
        error_of(assign("nope", i32c(1, 7, 8), 0, 8)),
        simple(ErrorKind::UnknownIdentifier, "Unknown variable", 0, 8)
    );
    assert_eq!(
        error_of(assign("p", f32c("1.0", 4, 7), 0, 7)),
        mismatch("I32", (200, 300), "F32", (4, 7))
    );
    assert_eq!(
        error_of(assign("g", i64c(1, 4, 5), 0, 5)),
        mismatch("I32", (100, 110), "I64", (4, 5))
    );
}

#[test]
fn tee_rules() {
    let e = check_in_function(tee("q", f64c("1.0", 5, 8), 0, 8)).unwrap();
    assert_eq!(e.type_, Some(Type::F64));
    match e.expr {
        Expr::LocalTee { local_id, .. } => assert_eq!(local_id, Some(1)),
        other => panic!("no tee: {:?}", other),
    }
    assert_eq!(
        error_of(tee("g", i32c(1, 5, 6), 0, 6)),
        simple(ErrorKind::UnknownIdentifier, "Unknown variable", 0, 6)
    );
    assert_eq!(
        error_of(tee("q", i32c(1, 5, 6), 0, 6)),
        mismatch("F64", (200, 300), "I32", (5, 6))
    );
}

fn unary(op: UnaryOp, value: Expression, start: usize, end: usize) -> Expression {
    node(Expr::UnaryOp { op, value: Box::new(value) }, start, end)
}

#[test]
fn unary_rules() {
    assert_eq!(type_of(unary(UnaryOp::Negate, f64c("1.0", 1, 4), 0, 4)), Some(Type::F64));
    assert_eq!(type_of(unary(UnaryOp::Negate, i32c(1, 1, 2), 0, 2)), Some(Type::I32));
    assert_eq!(type_of(unary(UnaryOp::Not, i32c(1, 1, 2), 0, 2)), Some(Type::I32));
    assert_eq!(type_of(unary(UnaryOp::Not, i64c(1, 1, 2), 0, 2)), Some(Type::I32));
    assert_eq!(
        error_of(unary(UnaryOp::Not, f32c("1.0", 1, 4), 0, 4)),
        mismatch("I32", (0, 4), "F32", (1, 4))
    );
    assert_eq!(
        error_of(unary(UnaryOp::Negate, call("nothing", Vec::new(), 1, 10), 0, 10)),
        simple(
            ErrorKind::ExpectedValue,
            "Expected value but found expression of type void",
            1,
            10
        )
    );
}

#[test]
fn binary_rules() {
    let of = |op: BinOp, l: Expression, r: Expression| check_in_function(bin(op, l, r, 0, 9));
    for op in [BinOp::Add, BinOp::Sub, BinOp::Mul, BinOp::Div] {
        assert_eq!(of(op, f32c("1.0", 0, 3), f32c("2.0", 6, 9)).unwrap().type_, Some(Type::F32));
        assert_eq!(of(op, i64c(1, 0, 3), i64c(2, 6, 9)).unwrap().type_, Some(Type::I64));
    }
    for op in [
        BinOp::Rem,
        BinOp::And,
        BinOp::Or,
        BinOp::Xor,
        BinOp::Shl,
        BinOp::ShrU,
        BinOp::ShrS,
        BinOp::DivU,
        BinOp::RemU,
    ] {
        assert_eq!(of(op, i32c(1, 0, 3), i32c(2, 6, 9)).unwrap().type_, Some(Type::I32));
        assert_eq!(of(op, i64c(1, 0, 3), i64c(2, 6, 9)).unwrap().type_, Some(Type::I64));
        assert_eq!(
            of(op, f64c("1.0", 0, 3), f64c("2.0", 6, 9)).unwrap_err(),
            mismatch("I32", (0, 3), "F64", (0, 3))
        );
    }
    for op in [BinOp::Eq, BinOp::Ne, BinOp::Lt, BinOp::Le, BinOp::Gt, BinOp::Ge] {
        assert_eq!(of(op, f64c("1.0", 0, 3), f64c("2.0", 6, 9)).unwrap().type_, Some(Type::I32));
        assert_eq!(of(op, i64c(1, 0, 3), i64c(2, 6, 9)).unwrap().type_, Some(Type::I32));
    }
    for op in [BinOp::LtU, BinOp::LeU, BinOp::GtU, BinOp::GeU] {
        assert_eq!(of(op, i64c(1, 0, 3), i64c(2, 6, 9)).unwrap().type_, Some(Type::I32));
        assert_eq!(
            of(op, f32c("1.0", 0, 3), f32c("2.0", 6, 9)).unwrap_err(),
            mismatch("I32", (0, 3), "F32", (0, 3))
        );
    }
    assert_eq!(
        of(BinOp::Add, i32c(1, 0, 3), i64c(2, 6, 9)).unwrap_err(),
        mismatch("I32", (0, 3), "I64", (6, 9))
    );
    assert_eq!(
        of(BinOp::Eq, call("nothing", Vec::new(), 0, 3), i64c(2, 6, 9)).unwrap_err(),
        simple(ErrorKind::ExpectedValue, "Expected value but found expression of type void", 0, 3)
    );
    assert_eq!(
        of(BinOp::Eq, i64c(2, 0, 3), call("nothing", Vec::new(), 6, 9)).unwrap_err(),
        mismatch("I64", (0, 3), "void", (6, 9))
    );
}

fn location(left: Expression, right: Expression) -> MemoryLocation {
    MemoryLocation {
        span: sp(left.span.start, right.span.end),
        size: MemSize::Word,
        left: Box::new(left),
        right: Box::new(right),
    }
}

#[test]
fn memory_rules() {
    let peek = |l: Expression, r: Expression| node(Expr::Peek(location(l, r)), 0, 9);
    let poke = |l: Expression, r: Expression, v: Expression| {
        node(Expr::Poke { mem_location: location(l, r), value: Box::new(v) }, 0, 9)
    };
    assert_eq!(type_of(peek(var("p", 0, 1), i32c(4, 2, 3))), Some(Type::I32));
    assert_eq!(type_of(poke(var("p", 0, 1), i32c(4, 2, 3), i32c(1, 6, 7))), None);
    assert_eq!(
        error_of(peek(var("q", 0, 1), i32c(4, 2, 3))),
        mismatch("I32", (0, 1), "F64", (0, 1))
    );
    assert_eq!(
        error_of(peek(var("p", 0, 1), i64c(4, 2, 3))),
        mismatch("I32", (2, 3), "I64", (2, 3))
    );
    assert_eq!(
        error_of(peek(var("p", 0, 1), var("p", 2, 3))),
        simple(ErrorKind::InvalidConstant, "Expected constant value", 2, 3)
    );
    assert_eq!(
        error_of(poke(var("p", 0, 1), i32c(4, 2, 3), i64c(1, 6, 7))),
        mismatch("I32", (0, 9), "I64", (6, 7))
    );
    assert_eq!(
        error_of(poke(var("p", 0, 1), i32c(4, 2, 3), f32c("1.0", 6, 9))),
        mismatch("I32", (0, 9), "F32", (6, 9))
    );
}

#[test]
fn loop_and_labelled_block_rules() {
    let loop_ = |body: Expression| {
        node(Expr::Loop { label: "l".to_string(), block: Box::new(body) }, 0, 20)
    };
    let labelled = |body: Expression| {
        node(Expr::LabelBlock { label: "l".to_string(), block: Box::new(body) }, 0, 20)
    };
    let branch = node(Expr::Branch("l".to_string()), 5, 6);
    assert_eq!(type_of(loop_(block(vec![], Some(f32c("1.0", 2, 5)), 1, 6))), Some(Type::F32));
    assert_eq!(type_of(loop_(block(vec![], None, 1, 6))), None);
    assert_eq!(type_of(labelled(block(vec![branch], None, 1, 6))), None);
    assert_eq!(
        error_of(labelled(block(vec![], Some(i32c(1, 2, 3)), 1, 6))),
        mismatch("void", (0, 20), "I32", (1, 6))
    );
    assert_eq!(
        error_of(node(Expr::Branch("l".to_string()), 5, 6)),
        simple(ErrorKind::UnresolvedLabel, "Label not found", 5, 6)
    );
    let after = node(
        Expr::First {
            value: Box::new(loop_(block(vec![], None, 1, 6))),
            drop: Box::new(node(Expr::Branch("l".to_string()), 25, 26)),
        },
        0,
        26,
    );
    assert_eq!(error_of(after), simple(ErrorKind::UnresolvedLabel, "Label not found", 25, 26));
    let conditional = |c: Expression| {
        loop_(node(Expr::BranchIf { condition: Box::new(c), label: "l".to_string() }, 3, 9))
    };
    assert_eq!(type_of(conditional(i32c(1, 4, 5))), None);
    assert_eq!(
        error_of(conditional(i64c(1, 4, 5))),
        mismatch("I32", (3, 9), "I64", (4, 5))
    );
}

#[test]
fn cast_select_if_and_return_rules() {
    let cast = |v: Expression, t: Type| node(Expr::Cast { value: Box::new(v), type_: t }, 0, 9);
    assert_eq!(type_of(cast(i32c(1, 0, 1), Type::F64)), Some(Type::F64));
    assert_eq!(
        error_of(cast(call("nothing", Vec::new(), 0, 5), Type::F64)),
        simple(ErrorKind::ExpectedValue, "Expected value but found expression of type void", 0, 9)
    );
    let select = |c: Expression, t: Expression, f: Expression| {
        node(
            Expr::Select { condition: Box::new(c), if_true: Box::new(t), if_false: Box::new(f) },
            0,
            9,
        )
    };
    assert_eq!(type_of(select(i32c(1, 0, 1), f32c("1.0", 2, 3), f32c("2.0", 4, 5))), Some(Type::F32));
    assert_eq!(
        error_of(select(i64c(1, 0, 1), f32c("1.0", 2, 3), f32c("2.0", 4, 5))),
        mismatch("I32", (0, 1), "I64", (0, 1))
    );
    assert_eq!(
        error_of(select(i32c(1, 0, 1), f32c("1.0", 2, 3), f64c("2.0", 4, 5))),
        mismatch("F32", (2, 3), "F64", (4, 5))
    );
    assert_eq!(
        error_of(select(i32c(1, 0, 1), call("nothing", Vec::new(), 2, 3), f64c("2.0", 4, 5))),
        simple(ErrorKind::ExpectedValue, "Expected value but found expression of type void", 2, 3)
    );
    let if_ = |c: Expression, t: Expression, f: Option<Expression>| {
        node(
            Expr::If { condition: Box::new(c), if_true: Box::new(t), if_false: f.map(Box::new) },
            0,
            9,
        )
    };
    assert_eq!(type_of(if_(i32c(1, 0, 1), f32c("1.0", 2, 3), Some(f32c("2.0", 4, 5)))), Some(Type::F32));
    assert_eq!(type_of(if_(i32c(1, 0, 1), f32c("1.0", 2, 3), None)), None);
    assert_eq!(type_of(if_(f64c("1.0", 0, 1), i32c(1, 2, 3), None)), None);
    assert_eq!(
        error_of(if_(i32c(1, 0, 1), f32c("1.0", 2, 3), Some(i32c(2, 4, 5)))),
        mismatch("F32", (2, 3), "I32", (4, 5))
    );
    let ret = |v: Option<Expression>| node(Expr::Return { value: v.map(Box::new) }, 0, 9);
    assert_eq!(type_of(ret(Some(i64c(1, 7, 8)))), None);
    assert_eq!(error_of(ret(Some(i32c(1, 7, 8)))), mismatch("I64", (0, 9), "I32", (7, 8)));
    assert_eq!(error_of(ret(None)), mismatch("I64", (0, 9), "void", (0, 9)));
    let mut s = script(vec![function(
        "f",
        Vec::new(),
        None,
        block(vec![ret(None)], None, 0, 10),
    )]);
    assert_eq!(tc_script(&mut s, &Intrinsics::new()), Ok(()));
    let mut s = script(vec![function(
        "f",
        Vec::new(),
        None,
        block(vec![ret(Some(i32c(1, 7, 8)))], None, 0, 10),
    )]);
    assert_eq!(
        tc_script(&mut s, &Intrinsics::new()),
        Err(vec![mismatch("void", (0, 9), "I32", (7, 8))])
    );
}

#[test]
fn block_type_is_that_of_its_last_expression() {
    assert_eq!(type_of(block(vec![i32c(1, 1, 2)], Some(f64c("1.0", 3, 4)), 0, 5)), Some(Type::F64));
    assert_eq!(type_of(block(vec![i32c(1, 1, 2)], None, 0, 5)), None);
    let b = Block { statements: Vec::new(), final_expression: None };
    assert_eq!(b.type_(), None);
    let mut typed = f32c("1.0", 0, 3);
    typed.type_ = Some(Type::F32);
    let b = Block { statements: Vec::new(), final_expression: Some(Box::new(typed)) };
    assert_eq!(b.type_(), Some(Type::F32));
}

#[test]
fn expressions_are_typed_on_their_own() {
    let intrinsics = Intrinsics::new();
    let mut ctx = Context::new(&intrinsics);
    ctx.push_scope();
    assert_eq!(ctx.declare(sp(0, 1), &"x".to_string(), Type::F32, true), Ok(0));
    assert_eq!(
        ctx.declare(sp(2, 3), &"x".to_string(), Type::F32, true),
        Err(duplicate(ErrorKind::DuplicateDefinition, "Variable already defined", (2, 3), (0, 1)))
    );
    assert_eq!(ctx.locals.locals.len(), 1);
    let mut e = bin(BinOp::Mul, var("x", 0, 1), f32c("2.0", 4, 7), 0, 7);
    assert_eq!(tc_expression(&mut ctx, &mut e), Ok(()));
    assert_eq!(e.type_, Some(Type::F32));
    assert_eq!(ctx.locals.locals.len(), 1);
    let mut e = var("y", 0, 1);
    assert_eq!(
        tc_expression(&mut ctx, &mut e),
        Err(simple(ErrorKind::UnknownIdentifier, "Unknown variable", 0, 1))
    );
    assert!(!ctx.has_label(&"l".to_string()));
    ctx.push_label("l".to_string());
    assert!(ctx.has_label(&"l".to_string()));
    ctx.pop_label();
    assert!(!ctx.has_label(&"l".to_string()));
}

#[test]
fn constants_are_typed_or_rejected() {
    let mut e = f64c("2.5", 0, 3);
    assert_eq!(tc_const(&mut e), Ok(()));
    assert_eq!(e.type_, Some(Type::F64));
    let mut e = var("x", 4, 5);
    assert_eq!(
        tc_const(&mut e),
        Err(simple(ErrorKind::InvalidConstant, "Expected constant value", 4, 5))
    );
    assert_eq!(e.type_, None);
}

fn global(name: &str, type_: Option<Type>, value: Expression, start: usize, end: usize) -> GlobalVar {
    GlobalVar { span: sp(start, end), name: name.to_string(), value, type_, mutable: true }
}

#[test]
fn globals_adopt_or_check_the_type_of_their_value() {
    let mut s = script(vec![function(
        "f",
        Vec::new(),
        Some(Type::F64),
        block(vec![assign("a", f64c("1.0", 4, 7), 0, 7)], Some(var("b", 8, 9)), 0, 10),
    )]);
    s.global_vars = vec![
        global("a", None, f64c("0.0", 10, 13), 0, 13),
        global("b", Some(Type::F64), f64c("0.0", 30, 33), 20, 33),
    ];
    assert_eq!(tc_script(&mut s, &Intrinsics::new()), Ok(()));
    assert_eq!(s.global_vars[0].type_, Some(Type::F64));
    assert_eq!(s.global_vars[0].value.type_, Some(Type::F64));
    assert_eq!(s.global_vars[1].type_, Some(Type::F64));

    let mut s = script(Vec::new());
    s.global_vars = vec![
        global("a", Some(Type::I32), f64c("0.0", 10, 13), 0, 13),
        global("b", Some(Type::I64), i32c(0, 30, 31), 20, 31),
        global("a", None, i32c(0, 50, 51), 40, 51),
    ];
    assert_eq!(
        tc_script(&mut s, &Intrinsics::new()),
        Err(vec![
            mismatch("I32", (0, 13), "F64", (10, 13)),
            mismatch("I64", (20, 31), "I32", (30, 31)),
            duplicate(ErrorKind::DuplicateDefinition, "Global already defined", (40, 51), (0, 13)),
        ])
    );
}

#[test]
fn global_that_is_no_constant_ends_the_check() {
    let mut s = script(Vec::new());
    s.global_vars = vec![
        global("a", Some(Type::I32), f64c("0.0", 10, 13), 0, 13),
        global("b", None, var("a", 30, 31), 20, 31),
        global("a", None, i32c(0, 50, 51), 40, 51),
    ];
    assert_eq!(
        tc_script(&mut s, &Intrinsics::new()),
        Err(vec![
            mismatch("I32", (0, 13), "F64", (10, 13)),
            simple(ErrorKind::InvalidConstant, "Expected constant value", 30, 31),
        ])
    );
}

fn import(type_: ImportType, start: usize, end: usize) -> Import {
    Import { span: sp(start, end), import: "env".to_string(), type_ }
}

#[test]
fn duplicate_imports_and_functions_are_all_reported() {
    let imported_variable = |name: &str| ImportType::Variable {
        name: name.to_string(),
        type_: Type::I32,
        mutable: false,
    };
    let imported_function = |name: &str| ImportType::Function {
        name: name.to_string(),
        params: Vec::new(),
        result: None,
    };
    let mut s = script(Vec::new());
    s.imports = vec![
        import(ImportType::Memory(1), 0, 5),
        import(imported_variable("v"), 10, 15),
        import(imported_function("v"), 20, 25),
        import(imported_variable("v"), 30, 35),
        import(imported_function("v"), 40, 45),
        import(ImportType::Memory(2), 50, 55),
    ];
    s.global_vars = vec![global("w", None, var("nope", 0, 1), 60, 65)];
    assert_eq!(
        tc_script(&mut s, &Intrinsics::new()),
        Err(vec![
            duplicate(ErrorKind::DuplicateDefinition, "Global already defined", (30, 35), (10, 15)),
            duplicate(ErrorKind::DuplicateDefinition, "Function already defined", (40, 45), (20, 25)),
        ])
    );

    let at = |name: &str, start: usize, end: usize| {
        let mut f = function(name, Vec::new(), None, block(vec![var("nope", 0, 1)], None, 0, 2));
        f.span = sp(start, end);
        f
    };
    let mut s = script(vec![at("a", 0, 5), at("b", 10, 15), at("a", 20, 25), at("v", 30, 35), at("b", 40, 45)]);
    s.imports = vec![import(imported_function("v"), 50, 55)];
    assert_eq!(
        tc_script(&mut s, &Intrinsics::new()),
        Err(vec![
            duplicate(ErrorKind::DuplicateDefinition, "Function already defined", (20, 25), (0, 5)),
            duplicate(ErrorKind::DuplicateDefinition, "Function already defined", (30, 35), (50, 55)),
            duplicate(ErrorKind::DuplicateDefinition, "Function already defined", (40, 45), (10, 15)),
        ])
    );
}

#[test]
fn start_function_rules() {
    let start = |name: &str, params: Vec<(&str, Type)>, type_: Option<Type>, at: usize| {
        let last = type_.map(|_| i32c(0, 1, 2));
        let mut f = function(name, params, type_, block(Vec::new(), last, 0, 3));
        f.start = true;
        f.span = sp(at, at + 5);
        f
    };
    let mut s = script(vec![start("a", Vec::new(), None, 0)]);
    assert_eq!(tc_script(&mut s, &Intrinsics::new()), Ok(()));
    let message = "Start function can't have params or a return value";
    let mut s = script(vec![
        start("a", vec![("x", Type::I32)], None, 0),
        start("b", Vec::new(), Some(Type::I32), 10),
        start("c", Vec::new(), None, 20),
    ]);
    assert_eq!(
        tc_script(&mut s, &Intrinsics::new()),
        Err(vec![
            simple(ErrorKind::InvalidStartFunction, message, 0, 5),
            simple(ErrorKind::InvalidStartFunction, message, 10, 15),
            duplicate(
                ErrorKind::InvalidStartFunction,
                "Start function already defined",
                (10, 15),
                (0, 5)
            ),
            duplicate(
                ErrorKind::InvalidStartFunction,
                "Start function already defined",
                (20, 25),
                (0, 5)
            ),
        ])
    );
}

#[test]
fn parameters_must_not_repeat_or_hide_globals() {
    let mut s = script(vec![function(
        "f",
        vec![("a", Type::I32), ("g", Type::I32), ("a", Type::F32)],
        None,
        block(vec![var("a", 3, 4)], None, 0, 5),
    )]);
    s.global_vars = vec![global("g", None, i32c(0, 30, 31), 20, 31)];
    assert_eq!(
        tc_script(&mut s, &Intrinsics::new()),
        Err(vec![
            duplicate(ErrorKind::DuplicateDefinition, "Variable already defined", (0, 10), (20, 31)),
            duplicate(ErrorKind::DuplicateDefinition, "Variable already defined", (0, 10), (0, 10)),
        ])
    );
}

#[test]
fn first_expression_error_ends_the_check() {
    let mut s = script(vec![
        function("a", Vec::new(), Some(Type::I32), block(Vec::new(), None, 0, 3)),
        function("b", Vec::new(), None, block(vec![var("x", 4, 5), var("y", 6, 7)], None, 0, 8)),
        function("c", Vec::new(), None, block(vec![var("z", 4, 5)], None, 0, 8)),
    ]);
    assert_eq!(
        tc_script(&mut s, &Intrinsics::new()),
        Err(vec![
            mismatch("I32", (0, 10), "void", (0, 3)),
            simple(ErrorKind::UnknownIdentifier, "Unknown variable", 4, 5),
        ])
    );
}

#[test]
fn data_segments() {
    let array = |type_: DataType, values: Vec<Expression>| DataValues::Array { type_, values };
    let mut s = script(Vec::new());
    s.data = vec![Data {
        offset: Box::new(i32c(16, 0, 2)),
        data: vec![
            array(DataType::I8, vec![i32c(1, 3, 4), i32c(2, 5, 6)]),
            array(DataType::I16, vec![i32c(1, 7, 8)]),
            array(DataType::I32, vec![i32c(1, 9, 10)]),
            array(DataType::I64, vec![i64c(1, 11, 12)]),
            array(DataType::F32, vec![f32c("1.0", 13, 14)]),
            array(DataType::F64, vec![f64c("1.0", 15, 16)]),
            DataValues::String("text".to_string()),
            DataValues::File { path: "data.bin".to_string() },
        ],
    }];
    assert_eq!(tc_script(&mut s, &Intrinsics::new()), Ok(()));
    assert_eq!(s.data[0].offset.type_, Some(Type::I32));
    match &s.data[0].data[3] {
        DataValues::Array { values, .. } => assert_eq!(values[0].type_, Some(Type::I64)),
        other => panic!("no array: {:?}", other),
    }

    let mut s = script(vec![function("f", Vec::new(), None, block(vec![var("x", 0, 1)], None, 0, 2))]);
    s.data = vec![
        Data {
            offset: Box::new(i64c(16, 0, 2)),
            data: vec![
                array(DataType::I8, vec![i32c(1, 3, 4), i64c(2, 5, 6)]),
                array(DataType::F64, vec![f32c("1.0", 7, 8)]),
            ],
        },
        Data {
            offset: Box::new(i32c(16, 20, 22)),
            data: vec![array(DataType::I64, vec![i64c(1, 23, 24), var("x", 25, 26), f32c("1.0", 27, 28)])],
        },
        Data { offset: Box::new(var("y", 30, 31)), data: Vec::new() },
    ];
    assert_eq!(
        tc_script(&mut s, &Intrinsics::new()),
        Err(vec![
            mismatch("I32", (0, 2), "I64", (0, 2)),
            mismatch("I32", (5, 6), "I64", (5, 6)),
            mismatch("F64", (7, 8), "F32", (7, 8)),
            simple(ErrorKind::InvalidConstant, "Expected constant value", 25, 26),
        ])
    );
    let mut s = script(Vec::new());
    s.data = vec![Data { offset: Box::new(var("y", 30, 31)), data: Vec::new() }];
    assert_eq!(
        tc_script(&mut s, &Intrinsics::new()),
        Err(vec![simple(ErrorKind::InvalidConstant, "Expected constant value", 30, 31)])
    );
}

#[test]
fn syntax_errors_become_diagnostics() {
    let diagnostics = compile("fn f() { a @ }", &Intrinsics::new()).unwrap_err();
    assert_eq!(
        diagnostics,
        vec![Diagnostic {
            kind: ErrorKind::UnexpectedToken,
            message: "Unexpected token in input, expected one of token".to_string(),
            span: sp(11, 12),
            labels: vec![label(11, 12, "Unexpected token @", true)],
        }]
    );
    let diagnostics = compile("fn f() { a + }", &Intrinsics::new()).unwrap_err();
    assert_eq!(
        diagnostics,
        vec![Diagnostic {
            kind: ErrorKind::UnexpectedToken,
            message: "Unexpected token in input, expected one of expression".to_string(),
            span: sp(13, 14),
            labels: vec![label(13, 14, "Unexpected token }", true)],
        }]
    );
    let diagnostics = compile("fn f() { a", &Intrinsics::new()).unwrap_err();
    assert_eq!(
        diagnostics,
        vec![Diagnostic {
            kind: ErrorKind::UnexpectedToken,
            message: "Unexpted end of input, expected one of }".to_string(),
            span: sp(10, 11),
            labels: vec![label(10, 11, "Unexpected token end of file", true)],
        }]
    );
    let diagnostics = compile("fn f() { (a + ", &Intrinsics::new()).unwrap_err();
    assert_eq!(
        diagnostics[1],
        Diagnostic {
            kind: ErrorKind::UnclosedDelimiter,
            message: "Unclosed delimiter (".to_string(),
            span: sp(14, 15),
            labels: vec![
                label(9, 10, "Unclosed delimiter (", false),
                label(14, 15, "Must be closed before this end of file", true),
            ],
        }
    );
    let diagnostics = compile("fn f() { 4000000000 }", &Intrinsics::new()).unwrap_err();
    assert_eq!(
        diagnostics,
        vec![simple(ErrorKind::InvalidLiteral, "Integer literal out of range", 9, 19)]
    );
}

#[test]
fn small_helpers() {
    assert_eq!(Span::new(3, 9).position(), Position(3));
    assert!(Type::I32 < Type::I64 && Type::I64 < Type::F32 && Type::F32 < Type::F64);
    assert!(Type::I32.is_int() && Type::I64.is_int());
    assert!(!Type::F32.is_int() && !Type::F64.is_int());
    assert!(same_type(None, None));
    assert!(same_type(Some(Type::F32), Some(Type::F32)));
    assert!(!same_type(Some(Type::F32), None));
    assert!(!same_type(Some(Type::F32), Some(Type::F64)));
    let mut f = function("f", Vec::new(), None, block(Vec::new(), None, 0, 2));
    assert_eq!(f.visibility(), Visibility::Local);
    f.export = true;
    assert_eq!(f.visibility(), Visibility::Export);
}

#[test]
fn error_placeholders_are_found() {
    let clean = bin(BinOp::Add, var("a", 0, 1), block(vec![i32c(1, 2, 3)], None, 2, 4), 0, 4);
    assert!(clean.is_error_free());
    let in_block = block(vec![i32c(1, 2, 3), node(Expr::Error, 4, 5)], Some(i32c(1, 6, 7)), 0, 8);
    assert!(!in_block.is_error_free());
    let in_call = call("f", vec![i32c(1, 2, 3), bin(BinOp::Add, node(Expr::Error, 4, 5), i32c(1, 6, 7), 4, 7)], 0, 8);
    assert!(!in_call.is_error_free());
    let last = block(Vec::new(), Some(node(Expr::Error, 4, 5)), 0, 8);
    assert!(!last.is_error_free());
    assert!(!node(Expr::Error, 0, 1).is_error_free());
    let good = script(vec![function("f", Vec::new(), None, block(Vec::new(), None, 0, 2))]);
    assert!(is_error_free(&good));
    let bad = script(vec![
        function("f", Vec::new(), None, block(Vec::new(), None, 0, 2)),
        function("g", Vec::new(), None, in_block),
    ]);
    assert!(!is_error_free(&bad));
}

#[test]
fn long_blocks_are_read_and_checked() {
    let mut source = String::from("fn f() -> i32 { let x = 0; ");
    for _ in 0..5000 {
        source.push_str("x := x + 1; ");
    }
    source.push_str("x }");
    let s = compile(&source, &Intrinsics::new()).unwrap();
    match &s.functions[0].body.expr {
        Expr::Block(b) => assert_eq!(b.statements.len(), 5001),
        other => panic!("no block: {:?}", other),
    }
    assert_eq!(s.functions[0].body.type_, Some(Type::I32));
    assert_eq!(s.functions[0].locals.locals.len(), 1);
}

#[test]
fn a_small_program_compiles() {
    let source = "
import \"env.memory\" memory(2);
import \"env.time\" global time: f32;

/* draws a pattern */
export fn tic(t: i32) {
    let i = 0;
    loop pixels {
        let defer x = i % 320; // column
        let y = i / 320;
        i?120 = (x ^ y) + t;
        branch_if (i := i + 1) < 64000: pixels
    }
}

fn speed() -> f32 { time * 2.0 }
";
    let s = compile(source, &Intrinsics::new()).unwrap();
    assert_eq!(s.imports.len(), 2);
    assert_eq!(s.functions.len(), 2);
    let tic = &s.functions[0];
    assert!(tic.export);
    assert_eq!(tic.body.type_, None);
    let slots: Vec<(String, Type, Option<usize>)> =
        tic.locals.locals.iter().map(|l| (l.name.clone(), l.type_, l.index)).collect();
    assert_eq!(
        slots,
        vec![
            ("t".to_string(), Type::I32, Some(0)),
            ("i".to_string(), Type::I32, Some(1)),
            ("x".to_string(), Type::I32, None),
            ("y".to_string(), Type::I32, Some(2)),
        ]
    );
    assert_eq!(s.functions[1].body.type_, Some(Type::F32));
    assert!(is_error_free(&s));
}

#[test]
fn failed_check_leaves_the_context_in_order() {
    let intrinsics = Intrinsics::new();
    let mut ctx = Context::new(&intrinsics);
    ctx.push_scope();
    assert_eq!(ctx.declare(sp(0, 1), &"x".to_string(), Type::I32, false), Ok(0));
    let inner = block(
        vec![
            let_("y", Some(Type::F32), None, LetType::Normal, 2, 3),
            assign("x", i32c(1, 6, 7), 4, 7),
        ],
        None,
        1,
        8,
    );
    let mut e = node(Expr::Loop { label: "l".to_string(), block: Box::new(inner) }, 0, 9);
    assert_eq!(
        tc_expression(&mut ctx, &mut e),
        Err(simple(
            ErrorKind::ImmutableAssignment,
            "Trying to assign to immutable variable",
            4,
            7
        ))
    );
    assert_eq!(ctx.local_vars.0.len(), 1);
    assert!(ctx.block_stack.is_empty());
    assert_eq!(ctx.locals.locals.len(), 2);
    assert_eq!(ctx.locals.locals[0].name, "x");
    assert_eq!(ctx.locals.locals[0].index, None);
    assert_eq!(ctx.local_vars.get(&"x".to_string()), Some(0));
    assert_eq!(ctx.local_vars.get(&"y".to_string()), None);
}

#[test]
fn a_failed_check_changes_annotations_only() {
    let build = || {
        let mut s = script(vec![
            function(
                "first",
                vec![("a", Type::I32)],
                Some(Type::I32),
                block(
                    vec![let_("x", None, Some(var("a", 1, 2)), LetType::Normal, 0, 2)],
                    Some(var("x", 3, 4)),
                    0,
                    5,
                ),
            ),
            function(
                "second",
                Vec::new(),
                None,
                block(
                    vec![
                        let_("y", None, Some(i32c(1, 1, 2)), LetType::Inline, 0, 2),
                        assign("y", bin(BinOp::Add, var("y", 5, 6), i32c(1, 7, 8), 5, 8), 3, 8),
                        var("never", 9, 10),
                    ],
                    None,
                    0,
                    11,
                ),
            ),
        ]);
        s.global_vars = vec![global("g", None, f32c("1.5", 3, 6), 0, 6)];
        s
    };
    let mut checked = build();
    assert_eq!(
        tc_script(&mut checked, &Intrinsics::new()),
        Err(vec![simple(
            ErrorKind::ImmutableAssignment,
            "Trying to assign to immutable variable",
            3,
            8
        )])
    );
    let fresh = build();
    assert_ne!(checked, fresh);
    // Take the annotations out again: what is left is the tree of before.
    checked.global_vars[0].type_ = None;
    checked.global_vars[0].value.type_ = None;
    checked.functions[0].locals = Locals::new();
    let first = &mut checked.functions[0].body;
    first.type_ = None;
    if let Expr::Block(b) = &mut first.expr {
        if let Expr::Let { type_, value, local_id, .. } = &mut b.statements[0].expr {
            *type_ = None;
            *local_id = None;
            let value = value.as_mut().unwrap();
            value.type_ = None;
            value.expr = Expr::Variable { name: "a".to_string(), local_id: None };
        }
        let last = b.final_expression.as_mut().unwrap();
        last.type_ = None;
        last.expr = Expr::Variable { name: "x".to_string(), local_id: None };
    }
    let second = &mut checked.functions[1].body;
    if let Expr::Block(b) = &mut second.expr {
        if let Expr::Let { type_, value, local_id, .. } = &mut b.statements[0].expr {
            *type_ = None;
            *local_id = None;
            value.as_mut().unwrap().type_ = None;
        }
        if let Expr::Assign { value, .. } = &mut b.statements[1].expr {
            value.type_ = None;
            if let Expr::BinOp { left, right, .. } = &mut value.expr {
                left.type_ = None;
                left.expr = Expr::Variable { name: "y".to_string(), local_id: None };
                right.type_ = None;
            }
        }
    }
    assert_eq!(checked, fresh);
}
