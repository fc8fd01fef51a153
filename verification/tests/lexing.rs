use curlywas::ast::Span;
use curlywas::lexer::{chars_of, decimal_text, lexer, Token};
use curlywas::syntax::{SyntaxError, SyntaxErrorKind};

fn tokens_of(source: &str) -> Vec<Token> {
    let (tokens, errors) = lexer(source);
    assert!(errors.is_empty(), "unexpected errors: {:?}", errors);
    tokens.into_iter().map(|(t, _)| t).collect()
}

fn ident(s: &str) -> Token {
    Token::Ident(s.to_string())
}

fn op(s: &str) -> Token {
    Token::Op(s.to_string())
}

#[test]
fn empty_source_has_no_tokens() {
    assert_eq!(lexer(""), (Vec::new(), Vec::new()));
    assert_eq!(lexer("  \n\t "), (Vec::new(), Vec::new()));
}

#[test]
fn keywords_are_folded() {
    assert_eq!(
        tokens_of("import export fn let memory global mut loop branch_if defer"),
        vec![
            Token::Import,
            Token::Export,
            Token::Fn,
            Token::Let,
            Token::Memory,
            Token::Global,
            Token::Mut,
            Token::Loop,
            Token::BranchIf,
            Token::Defer,
        ]
    );
}

#[test]
fn identifiers_that_only_start_like_keywords_stay_identifiers() {
    assert_eq!(
        tokens_of("imports fn_ _let loop1 Branch_if i32"),
        vec![
            ident("imports"),
            ident("fn_"),
            ident("_let"),
            ident("loop1"),
            ident("Branch_if"),
            ident("i32"),
        ]
    );
}

#[test]
fn integers_and_floats() {
    assert_eq!(
        tokens_of("0 7 42 2147483647 1.5 0.25 10.0"),
        vec![
            Token::Int(0),
            Token::Int(7),
            Token::Int(42),
            Token::Int(2147483647),
            Token::Float("1.5".to_string()),
            Token::Float("0.25".to_string()),
            Token::Float("10.0".to_string()),
        ]
    );
}

#[test]
fn leading_zero_ends_an_integer() {
    assert_eq!(tokens_of("007"), vec![Token::Int(0), Token::Int(0), Token::Int(7)]);
    assert_eq!(tokens_of("01.5"), vec![Token::Int(0), Token::Float("1.5".to_string())]);
}

#[test]
fn float_needs_digits_behind_the_point() {
    let (tokens, errors) = lexer("1.");
    assert_eq!(tokens, vec![(Token::Int(1), Span::new(0, 1))]);
    assert_eq!(
        errors,
        vec![SyntaxError { span: Span::new(1, 2), kind: SyntaxErrorKind::InvalidCharacter }]
    );
}

#[test]
fn integer_above_the_32_bit_range_is_reported() {
    let (tokens, errors) = lexer("x 2147483648 y");
    assert_eq!(
        tokens,
        vec![(ident("x"), Span::new(0, 1)), (ident("y"), Span::new(13, 14))]
    );
    assert_eq!(
        errors,
        vec![SyntaxError { span: Span::new(2, 12), kind: SyntaxErrorKind::IntegerTooLarge }]
    );
    let (tokens, errors) = lexer("99999999999999999999999999");
    assert!(tokens.is_empty());
    assert_eq!(
        errors,
        vec![SyntaxError { span: Span::new(0, 26), kind: SyntaxErrorKind::IntegerTooLarge }]
    );
}

#[test]
fn strings_have_no_escapes() {
    assert_eq!(
        tokens_of("\"env\" \"a\\\" \"\""),
        vec![
            Token::Str("env".to_string()),
            Token::Str("a\\".to_string()),
            Token::Str("".to_string()),
        ]
    );
}

#[test]
fn unterminated_string_is_an_invalid_character() {
    let (tokens, errors) = lexer("\"abc");
    assert_eq!(tokens, vec![(ident("abc"), Span::new(1, 4))]);
    assert_eq!(
        errors,
        vec![SyntaxError { span: Span::new(0, 1), kind: SyntaxErrorKind::InvalidCharacter }]
    );
}

#[test]
fn operators_are_maximal_runs() {
    assert_eq!(
        tokens_of("+ - * / % & ^ | < = > == <= >= -> a:=b +-"),
        vec![
            op("+"),
            op("-"),
            op("*"),
            op("/"),
            op("%"),
            op("&"),
            op("^"),
            op("|"),
            op("<"),
            op("="),
            op(">"),
            op("=="),
            op("<="),
            op(">="),
            op("->"),
            ident("a"),
            op(":="),
            ident("b"),
            op("+-"),
        ]
    );
}

#[test]
fn exclamation_mark_is_punctuation() {
    assert_eq!(tokens_of("a != b"), vec![ident("a"), Token::Ctrl('!'), op("="), ident("b")]);
}

#[test]
fn punctuation() {
    assert_eq!(
        tokens_of("(){};,:?!"),
        vec![
            Token::Ctrl('('),
            Token::Ctrl(')'),
            Token::Ctrl('{'),
            Token::Ctrl('}'),
            Token::Ctrl(';'),
            Token::Ctrl(','),
            Token::Ctrl(':'),
            Token::Ctrl('?'),
            Token::Ctrl('!'),
        ]
    );
}

#[test]
fn comments_are_skipped() {
    assert_eq!(tokens_of("a // b c\n d"), vec![ident("a"), ident("d")]);
    assert_eq!(tokens_of("a /* b\n c */ d"), vec![ident("a"), ident("d")]);
    assert_eq!(tokens_of("// only a comment"), Vec::<Token>::new());
    assert_eq!(tokens_of("/**/a/* */ /* x */b"), vec![ident("a"), ident("b")]);
    assert_eq!(tokens_of("a // x\r\n// y\rb"), vec![ident("a"), ident("b")]);
}

#[test]
fn comment_marker_inside_an_operator_run_is_part_of_the_operator() {
    assert_eq!(tokens_of("1 +// x\n"), vec![Token::Int(1), op("+//"), ident("x")]);
}

#[test]
fn block_comment_without_end_is_an_operator() {
    assert_eq!(tokens_of("a /* b"), vec![ident("a"), op("/*"), ident("b")]);
    assert_eq!(tokens_of("/*/"), vec![op("/*/")]);
}

#[test]
fn every_invalid_character_is_reported() {
    let (tokens, errors) = lexer("a @ b # $c");
    assert_eq!(
        tokens,
        vec![
            (ident("a"), Span::new(0, 1)),
            (ident("b"), Span::new(4, 5)),
            (ident("c"), Span::new(9, 10)),
        ]
    );
    assert_eq!(
        errors,
        vec![
            SyntaxError { span: Span::new(2, 3), kind: SyntaxErrorKind::InvalidCharacter },
            SyntaxError { span: Span::new(6, 7), kind: SyntaxErrorKind::InvalidCharacter },
            SyntaxError { span: Span::new(8, 9), kind: SyntaxErrorKind::InvalidCharacter },
        ]
    );
}

#[test]
fn spans_count_characters() {
    let (tokens, errors) = lexer("\u{e4}\u{2003}x \u{1F600}yz");
    assert_eq!(tokens, vec![(ident("x"), Span::new(2, 3)), (ident("yz"), Span::new(5, 7))]);
    assert_eq!(
        errors,
        vec![
            SyntaxError { span: Span::new(0, 1), kind: SyntaxErrorKind::InvalidCharacter },
            SyntaxError { span: Span::new(4, 5), kind: SyntaxErrorKind::InvalidCharacter },
        ]
    );
}

#[test]
fn unicode_whitespace_separates_tokens() {
    assert_eq!(tokens_of("a\u{a0}b\u{3000}c\u{2028}d\u{85}e"), vec![
        ident("a"),
        ident("b"),
        ident("c"),
        ident("d"),
        ident("e"),
    ]);
}

#[test]
fn tokens_of_a_function() {
    let (tokens, errors) = lexer("fn add(a: i32) -> i32 { a + 1 }");
    assert!(errors.is_empty());
    assert_eq!(
        tokens,
        vec![
            (Token::Fn, Span::new(0, 2)),
            (ident("add"), Span::new(3, 6)),
            (Token::Ctrl('('), Span::new(6, 7)),
            (ident("a"), Span::new(7, 8)),
            (Token::Ctrl(':'), Span::new(8, 9)),
            (ident("i32"), Span::new(10, 13)),
            (Token::Ctrl(')'), Span::new(13, 14)),
            (op("->"), Span::new(15, 17)),
            (ident("i32"), Span::new(18, 21)),
            (Token::Ctrl('{'), Span::new(22, 23)),
            (ident("a"), Span::new(24, 25)),
            (op("+"), Span::new(26, 27)),
            (Token::Int(1), Span::new(28, 29)),
            (Token::Ctrl('}'), Span::new(30, 31)),
        ]
    );
}

#[test]
fn characters_of_a_text() {
    assert_eq!(chars_of("a\u{e4}\u{1F600}"), vec!['a', '\u{e4}', '\u{1F600}']);
    assert_eq!(chars_of(""), Vec::<char>::new());
}

#[test]
fn token_text() {
    assert_eq!(Token::Import.to_text(), "import");
    assert_eq!(Token::BranchIf.to_text(), "branch_if");
    assert_eq!(ident("abc").to_text(), "abc");
    assert_eq!(Token::Str("env".to_string()).to_text(), "\"env\"");
    assert_eq!(Token::Int(0).to_text(), "0");
    assert_eq!(Token::Int(120).to_text(), "120");
    assert_eq!(Token::Int(2147483647).to_text(), "2147483647");
    assert_eq!(Token::Int(-5).to_text(), "-5");
    assert_eq!(Token::Int(i32::MIN).to_text(), "-2147483648");
    assert_eq!(Token::Float("1.50".to_string()).to_text(), "1.50");
    assert_eq!(op(":=").to_text(), ":=");
    assert_eq!(Token::Ctrl('{').to_text(), "{");
    assert_eq!(Token::Ctrl('x').to_text(), "x");
    assert_eq!(Token::Str("a\"b\n\\".to_string()).to_text(), "\"a\\\"b\\n\\\\\"");
}

#[test]
fn decimal_text_of_numbers() {
    assert_eq!(decimal_text(0), "0");
    assert_eq!(decimal_text(9), "9");
    assert_eq!(decimal_text(10), "10");
    assert_eq!(decimal_text(4294967295), "4294967295");
}
