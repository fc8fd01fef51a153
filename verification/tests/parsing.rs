use curlywas::ast::{
    BinOp, Block, Expr, Expression, ImportType, LetType, Locals, MemSize, MemoryLocation, Span,
    Type,
};
use curlywas::lexer::lexer;
use curlywas::input::{same_text, Input};
use curlywas::parser::{expression, find_closing, parse, script_parser};
use curlywas::syntax::{Expected, SyntaxError, SyntaxErrorKind};

fn node(expr: Expr, start: usize, end: usize) -> Expression {
    Expression { type_: None, expr, span: Span::new(start, end) }
}

fn var(name: &str, start: usize, end: usize) -> Expression {
    node(Expr::Variable { name: name.to_string(), local_id: None }, start, end)
}

fn num(v: i32, start: usize, end: usize) -> Expression {
    node(Expr::I32Const(v), start, end)
}

fn bin(op: BinOp, left: Expression, right: Expression) -> Expression {
    let span = Span::new(left.span.start, right.span.end);
    Expression {
        type_: None,
        expr: Expr::BinOp { op, left: Box::new(left), right: Box::new(right) },
        span,
    }
}

fn unexpected(start: usize, end: usize, expected: Expected) -> SyntaxError {
    SyntaxError { span: Span::new(start, end), kind: SyntaxErrorKind::Unexpected(expected) }
}

fn parse_expression(source: &str) -> (Option<(Expression, usize)>, Vec<SyntaxError>) {
    let (tokens, lex_errors) = lexer(source);
    assert!(lex_errors.is_empty());
    let n = source.chars().count();
    let input = Input { tokens: &tokens, eoi: Span::new(n, n + 1) };
    let mut errors = Vec::new();
    let r = expression(&input, 0, &mut errors);
    (r, errors)
}

fn expression_of(source: &str) -> Expression {
    let (r, errors) = parse_expression(source);
    assert_eq!(errors, Vec::new());
    r.unwrap().0
}

#[test]
fn constants_and_variables() {
    assert_eq!(expression_of("42"), num(42, 0, 2));
    assert_eq!(expression_of("1.5"), node(Expr::F32Const("1.5".to_string()), 0, 3));
    assert_eq!(expression_of("abc"), var("abc", 0, 3));
}

#[test]
fn product_binds_tighter_than_sum() {
    assert_eq!(
        expression_of("1 + 2 * 3"),
        bin(BinOp::Add, num(1, 0, 1), bin(BinOp::Mul, num(2, 4, 5), num(3, 8, 9)))
    );
    assert_eq!(
        expression_of("1 * 2 + 3"),
        bin(BinOp::Add, bin(BinOp::Mul, num(1, 0, 1), num(2, 4, 5)), num(3, 8, 9))
    );
}

#[test]
fn layers_associate_to_the_left() {
    assert_eq!(
        expression_of("a - b - c"),
        bin(BinOp::Sub, bin(BinOp::Sub, var("a", 0, 1), var("b", 4, 5)), var("c", 8, 9))
    );
    assert_eq!(
        expression_of("a / b % c"),
        bin(BinOp::Rem, bin(BinOp::Div, var("a", 0, 1), var("b", 4, 5)), var("c", 8, 9))
    );
}

#[test]
fn comparison_binds_tighter_than_bitwise() {
    assert_eq!(
        expression_of("a & b == c | d"),
        bin(
            BinOp::Or,
            bin(BinOp::And, var("a", 0, 1), bin(BinOp::Eq, var("b", 4, 5), var("c", 9, 10))),
            var("d", 13, 14)
        )
    );
    assert_eq!(
        expression_of("a + 1 < b ^ c >= d"),
        bin(
            BinOp::Xor,
            bin(BinOp::Lt, bin(BinOp::Add, var("a", 0, 1), num(1, 4, 5)), var("b", 8, 9)),
            bin(BinOp::Ge, var("c", 12, 13), var("d", 17, 18))
        )
    );
    assert_eq!(expression_of("a <= b"), bin(BinOp::Le, var("a", 0, 1), var("b", 5, 6)));
    assert_eq!(expression_of("a > b"), bin(BinOp::Gt, var("a", 0, 1), var("b", 4, 5)));
}

#[test]
fn parentheses_group() {
    assert_eq!(
        expression_of("(1 + 2) * 3"),
        bin(BinOp::Mul, bin(BinOp::Add, num(1, 1, 2), num(2, 5, 6)), num(3, 10, 11))
    );
    assert_eq!(expression_of("((x))"), var("x", 2, 3));
}

#[test]
fn tee_takes_the_whole_expression() {
    assert_eq!(
        expression_of("x := 1 + 2"),
        node(
            Expr::LocalTee {
                name: "x".to_string(),
                value: Box::new(bin(BinOp::Add, num(1, 5, 6), num(2, 9, 10))),
                local_id: None,
            },
            0,
            10
        )
    );
}

#[test]
fn let_forms() {
    assert_eq!(
        expression_of("let x"),
        node(
            Expr::Let {
                name: "x".to_string(),
                type_: None,
                value: None,
                let_type: LetType::Normal,
                local_id: None,
            },
            0,
            5
        )
    );
    assert_eq!(
        expression_of("let x: f64"),
        node(
            Expr::Let {
                name: "x".to_string(),
                type_: Some(Type::F64),
                value: None,
                let_type: LetType::Normal,
                local_id: None,
            },
            0,
            10
        )
    );
    assert_eq!(
        expression_of("let defer y: i64 = 2"),
        node(
            Expr::Let {
                name: "y".to_string(),
                type_: Some(Type::I64),
                value: Some(Box::new(num(2, 19, 20))),
                let_type: LetType::Inline,
                local_id: None,
            },
            0,
            20
        )
    );
    assert_eq!(
        expression_of("let z = a"),
        node(
            Expr::Let {
                name: "z".to_string(),
                type_: None,
                value: Some(Box::new(var("a", 8, 9))),
                let_type: LetType::Normal,
                local_id: None,
            },
            0,
            9
        )
    );
}

#[test]
fn loop_with_block() {
    let body = node(
        Expr::Block(Block {
            statements: vec![var("a", 9, 10)],
            final_expression: Some(Box::new(var("b", 12, 13))),
        }),
        7,
        15,
    );
    assert_eq!(
        expression_of("loop l { a; b }"),
        node(Expr::Loop { label: "l".to_string(), block: Box::new(body) }, 0, 15)
    );
    let empty = node(Expr::Block(Block { statements: Vec::new(), final_expression: None }), 7, 9);
    assert_eq!(
        expression_of("loop l {}"),
        node(Expr::Loop { label: "l".to_string(), block: Box::new(empty) }, 0, 9)
    );
}

#[test]
fn branch_if_with_label() {
    assert_eq!(
        expression_of("branch_if a < 10: again"),
        node(
            Expr::BranchIf {
                condition: Box::new(bin(BinOp::Lt, var("a", 10, 11), num(10, 14, 16))),
                label: "again".to_string(),
            },
            0,
            23
        )
    );
}

fn poke(left: Expression, size: MemSize, right: Expression, value: Expression) -> Expression {
    let span = Span::new(left.span.start, value.span.end);
    let location = Span::new(left.span.start, right.span.end);
    Expression {
        type_: None,
        expr: Expr::Poke {
            mem_location: MemoryLocation {
                span: location,
                size,
                left: Box::new(left),
                right: Box::new(right),
            },
            value: Box::new(value),
        },
        span,
    }
}

#[test]
fn memory_writes() {
    assert_eq!(
        expression_of("p?0 = 1"),
        poke(var("p", 0, 1), MemSize::Byte, num(0, 2, 3), num(1, 6, 7))
    );
    assert_eq!(
        expression_of("p!4 = a + 1"),
        poke(
            var("p", 0, 1),
            MemSize::Word,
            num(4, 2, 3),
            bin(BinOp::Add, var("a", 6, 7), num(1, 10, 11))
        )
    );
    // The value is a whole expression, so a second write belongs to it.
    assert_eq!(
        expression_of("p?0 = q?1 = 2"),
        poke(
            var("p", 0, 1),
            MemSize::Byte,
            num(0, 2, 3),
            poke(var("q", 6, 7), MemSize::Byte, num(1, 8, 9), num(2, 12, 13))
        )
    );
}

#[test]
fn memory_write_binds_tighter_than_product() {
    assert_eq!(
        expression_of("2 * p?0 = 1"),
        bin(
            BinOp::Mul,
            num(2, 0, 1),
            poke(var("p", 4, 5), MemSize::Byte, num(0, 6, 7), num(1, 10, 11))
        )
    );
}

#[test]
fn expression_stops_before_what_does_not_belong_to_it() {
    let (r, errors) = parse_expression("a + b ; c");
    assert_eq!(errors, Vec::new());
    assert_eq!(r, Some((bin(BinOp::Add, var("a", 0, 1), var("b", 4, 5)), 3)));
}

#[test]
fn missing_operand_is_an_error() {
    let (r, errors) = parse_expression("1 +");
    assert_eq!(r, None);
    assert_eq!(errors, vec![unexpected(3, 4, Expected::Expression)]);
    let (r, errors) = parse_expression("1 + * 2");
    assert_eq!(r, None);
    assert_eq!(errors, vec![unexpected(4, 5, Expected::Expression)]);
    let (r, errors) = parse_expression("");
    assert_eq!(r, None);
    assert_eq!(errors, vec![unexpected(0, 1, Expected::Expression)]);
}

#[test]
fn incomplete_forms_are_errors() {
    assert_eq!(parse_expression("let 1").1, vec![unexpected(4, 5, Expected::Identifier)]);
    assert_eq!(parse_expression("let x: y").1, vec![unexpected(7, 8, Expected::Type)]);
    assert_eq!(parse_expression("let x = ;").1, vec![unexpected(8, 9, Expected::Expression)]);
    assert_eq!(parse_expression("loop { }").1, vec![unexpected(5, 6, Expected::Identifier)]);
    assert_eq!(parse_expression("loop l a").1, vec![unexpected(7, 8, Expected::Ctrl('{'))]);
    assert_eq!(parse_expression("loop l { a").1, vec![unexpected(10, 11, Expected::Ctrl('}'))]);
    assert_eq!(parse_expression("branch_if a l").1, vec![unexpected(12, 13, Expected::Ctrl(':'))]);
    assert_eq!(parse_expression("branch_if a: 1").1, vec![unexpected(13, 14, Expected::Identifier)]);
    assert_eq!(parse_expression("p?0 1").1, vec![unexpected(4, 5, Expected::Assign)]);
    assert_eq!(parse_expression("p? = 1").1, vec![unexpected(3, 4, Expected::Expression)]);
    assert_eq!(parse_expression("x := )").1, vec![unexpected(5, 6, Expected::Expression)]);
}

#[test]
fn unreadable_parenthesis_becomes_a_placeholder() {
    let (r, errors) = parse_expression("1 + (2 + ) * 3");
    assert_eq!(errors, vec![unexpected(9, 10, Expected::Expression)]);
    assert_eq!(
        r,
        Some((
            bin(BinOp::Add, num(1, 0, 1), bin(BinOp::Mul, node(Expr::Error, 4, 10), num(3, 13, 14))),
            8
        ))
    );
}

#[test]
fn placeholder_covers_nested_parentheses() {
    let (r, errors) = parse_expression("(a (b) { c ( } ) d) + 1");
    assert_eq!(errors, vec![unexpected(3, 4, Expected::Ctrl(')'))]);
    assert_eq!(r, Some((bin(BinOp::Add, node(Expr::Error, 0, 19), num(1, 22, 23)), 14)));
}

#[test]
fn several_parentheses_can_be_unreadable() {
    let (r, errors) = parse_expression("(1 +) + (let) + 2");
    assert_eq!(
        errors,
        vec![unexpected(4, 5, Expected::Expression), unexpected(12, 13, Expected::Identifier)]
    );
    assert_eq!(
        r,
        Some((
            bin(
                BinOp::Add,
                bin(BinOp::Add, node(Expr::Error, 0, 5), node(Expr::Error, 8, 13)),
                num(2, 16, 17)
            ),
            10
        ))
    );
}

#[test]
fn parenthesis_that_is_never_closed_fails() {
    let (r, errors) = parse_expression("(1 + ");
    assert_eq!(r, None);
    assert_eq!(
        errors,
        vec![
            unexpected(5, 6, Expected::Expression),
            SyntaxError {
                span: Span::new(5, 6),
                kind: SyntaxErrorKind::Unclosed { open: Span::new(0, 1) },
            },
        ]
    );
}

#[test]
fn brace_that_closes_too_much_ends_the_search_for_the_parenthesis() {
    let (r, errors) = parse_expression("(1 + } )");
    assert_eq!(r, None);
    assert_eq!(
        errors,
        vec![
            unexpected(5, 6, Expected::Expression),
            SyntaxError {
                span: Span::new(8, 9),
                kind: SyntaxErrorKind::Unclosed { open: Span::new(0, 1) },
            },
        ]
    );
}

#[test]
fn closing_parenthesis_is_found() {
    let (tokens, _) = lexer("( a ( b ) { } ) c )");
    let input = Input { tokens: &tokens, eoi: Span::new(19, 20) };
    assert_eq!(find_closing(&input, 1), Some(7));
    assert_eq!(find_closing(&input, 3), Some(4));
    assert_eq!(find_closing(&input, 8), Some(9));
    assert_eq!(find_closing(&input, 10), None);
}

#[test]
fn texts_are_compared_by_characters() {
    assert!(same_text("", ""));
    assert!(same_text("->", "->"));
    assert!(!same_text("-", "->"));
    assert!(!same_text("<=", ">="));
    assert!(same_text("\u{e4}b", "\u{e4}b"));
}

#[test]
fn function_with_parameters_and_result() {
    let script = parse("fn add(a: i32, b: i32) -> i32 { a + b }").unwrap();
    assert!(script.imports.is_empty());
    assert!(script.global_vars.is_empty());
    assert!(script.data.is_empty());
    assert_eq!(script.functions.len(), 1);
    let f = &script.functions[0];
    assert_eq!(f.span, Span::new(0, 39));
    assert!(!f.export);
    assert!(!f.start);
    assert_eq!(f.name, "add");
    assert_eq!(f.params, vec![("a".to_string(), Type::I32), ("b".to_string(), Type::I32)]);
    assert_eq!(f.type_, Some(Type::I32));
    assert_eq!(f.locals, Locals::new());
    assert_eq!(
        f.body,
        node(
            Expr::Block(Block {
                statements: Vec::new(),
                final_expression: Some(Box::new(bin(
                    BinOp::Add,
                    var("a", 32, 33),
                    var("b", 36, 37)
                ))),
            }),
            30,
            39
        )
    );
}

#[test]
fn exported_function_without_parameters_and_result() {
    let script = parse("export fn main() { let x = 1; x; }").unwrap();
    let f = &script.functions[0];
    assert!(f.export);
    assert_eq!(f.name, "main");
    assert!(f.params.is_empty());
    assert_eq!(f.type_, None);
    match &f.body.expr {
        Expr::Block(b) => {
            assert_eq!(b.statements.len(), 2);
            assert_eq!(b.final_expression, None);
            assert_eq!(b.type_(), None);
        }
        other => panic!("no block: {:?}", other),
    }
}

#[test]
fn imports_of_memory_and_globals() {
    let script = parse(
        "import \"env.memory\" memory(4);\nimport \"env.time\" global time: f32;\nimport \"env.x\" global mut x: i64;",
    )
    .unwrap();
    assert_eq!(script.imports.len(), 3);
    assert_eq!(script.imports[0].import, "env.memory");
    assert_eq!(script.imports[0].type_, ImportType::Memory(4));
    assert_eq!(script.imports[0].span, Span::new(0, 30));
    assert_eq!(
        script.imports[1].type_,
        ImportType::Variable { name: "time".to_string(), type_: Type::F32, mutable: false }
    );
    assert_eq!(
        script.imports[2].type_,
        ImportType::Variable { name: "x".to_string(), type_: Type::I64, mutable: true }
    );
}

#[test]
fn items_in_any_order() {
    let script = parse("fn a() {} import \"m\" memory(1); fn b() {}").unwrap();
    assert_eq!(script.imports.len(), 1);
    assert_eq!(script.functions.len(), 2);
    assert_eq!(script.functions[0].name, "a");
    assert_eq!(script.functions[1].name, "b");
}

#[test]
fn empty_source_is_an_empty_script() {
    let script = parse(" // nothing\n").unwrap();
    assert!(script.imports.is_empty());
    assert!(script.functions.is_empty());
}

#[test]
fn lexical_errors_come_before_the_grammar() {
    assert_eq!(
        parse("fn f( { @ # }"),
        Err(vec![
            SyntaxError { span: Span::new(8, 9), kind: SyntaxErrorKind::InvalidCharacter },
            SyntaxError { span: Span::new(10, 11), kind: SyntaxErrorKind::InvalidCharacter },
        ])
    );
}

#[test]
fn errors_of_items() {
    assert_eq!(parse("let x").unwrap_err(), vec![unexpected(0, 3, Expected::Item)]);
    assert_eq!(parse("export let").unwrap_err(), vec![unexpected(7, 10, Expected::Function)]);
    assert_eq!(parse("fn 1").unwrap_err(), vec![unexpected(3, 4, Expected::Identifier)]);
    assert_eq!(parse("fn f").unwrap_err(), vec![unexpected(4, 5, Expected::Ctrl('('))]);
    assert_eq!(parse("fn f(a)").unwrap_err(), vec![unexpected(6, 7, Expected::Ctrl(':'))]);
    assert_eq!(parse("fn f(a: u8)").unwrap_err(), vec![unexpected(8, 10, Expected::Type)]);
    assert_eq!(parse("fn f(a: i32,)").unwrap_err(), vec![unexpected(12, 13, Expected::Identifier)]);
    assert_eq!(parse("fn f(a: i32 b: i32)").unwrap_err(), vec![unexpected(12, 13, Expected::Ctrl(')'))]);
    assert_eq!(parse("fn f() -> {}").unwrap_err(), vec![unexpected(10, 11, Expected::Type)]);
    assert_eq!(parse("fn f() }").unwrap_err(), vec![unexpected(7, 8, Expected::Ctrl('{'))]);
    assert_eq!(parse("fn f() { a b }").unwrap_err(), vec![unexpected(11, 12, Expected::Ctrl('}'))]);
    assert_eq!(parse("fn f() { a ").unwrap_err(), vec![unexpected(11, 12, Expected::Ctrl('}'))]);
    assert_eq!(parse("import memory(1);").unwrap_err(), vec![unexpected(7, 13, Expected::String)]);
    assert_eq!(parse("import \"m\" fn").unwrap_err(), vec![unexpected(11, 13, Expected::ImportKind)]);
    assert_eq!(parse("import \"m\" memory 1").unwrap_err(), vec![unexpected(18, 19, Expected::Ctrl('('))]);
    assert_eq!(parse("import \"m\" memory(x)").unwrap_err(), vec![unexpected(18, 19, Expected::Integer)]);
    assert_eq!(parse("import \"m\" memory(1;").unwrap_err(), vec![unexpected(19, 20, Expected::Ctrl(')'))]);
    assert_eq!(parse("import \"m\" memory(1)").unwrap_err(), vec![unexpected(20, 21, Expected::Ctrl(';'))]);
    assert_eq!(parse("import \"m\" global mut: i32;").unwrap_err(), vec![unexpected(21, 22, Expected::Identifier)]);
    assert_eq!(parse("import \"m\" global g i32;").unwrap_err(), vec![unexpected(20, 23, Expected::Ctrl(':'))]);
    assert_eq!(parse("import \"m\" global g: 3;").unwrap_err(), vec![unexpected(21, 22, Expected::Type)]);
}

#[test]
fn a_script_with_a_placeholder_is_not_returned() {
    let source = "fn f() { (1 +) * 2 } fn g() { (let) }";
    assert_eq!(
        parse(source),
        Err(vec![unexpected(13, 14, Expected::Expression), unexpected(34, 35, Expected::Identifier)])
    );
    let (tokens, _) = lexer(source);
    let input = Input { tokens: &tokens, eoi: Span::new(37, 38) };
    let (script, errors) = script_parser(&input);
    assert_eq!(errors.len(), 2);
    let script = script.unwrap();
    assert_eq!(script.functions.len(), 2);
    match &script.functions[1].body.expr {
        Expr::Block(b) => {
            assert_eq!(b.final_expression, Some(Box::new(node(Expr::Error, 30, 35))));
        }
        other => panic!("no block: {:?}", other),
    }
}
