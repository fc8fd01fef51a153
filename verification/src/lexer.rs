//! The lexer: from source text to tokens with their spans.
//!
//! Whitespace and comments separate tokens. A character that starts no
//! token is reported and skipped, so that one pass finds every lexical
//! error.

use crate::ast::Span;
use crate::syntax::{ctrl_name, ctrl_text, debug_text, quoted, SyntaxError, SyntaxErrorKind};
use vstd::prelude::*;

verus! {

/// A token. Keywords have tokens of their own.
#[derive(Clone, Debug, PartialEq, Eq, Hash)]
pub enum Token {
    Import,
    Export,
    Fn,
    Let,
    Memory,
    Global,
    Mut,
    Loop,
    BranchIf,
    Defer,
    Ident(String),
    /// A string literal, without its quotes.
    Str(String),
    Int(i32),
    /// A float literal, as written.
    Float(String),
    /// A run of operator characters, or `:=`.
    Op(String),
    Ctrl(char),
}

/// What a token stands for in contracts.
pub ghost enum TokenView {
    Import,
    Export,
    Fn,
    Let,
    Memory,
    Global,
    Mut,
    Loop,
    BranchIf,
    Defer,
    Ident(Seq<char>),
    Str(Seq<char>),
    Int(i32),
    Float(Seq<char>),
    Op(Seq<char>),
    Ctrl(char),
}

impl View for Token {
    type V = TokenView;

    open spec fn view(&self) -> TokenView {
        match self {
            Token::Import => TokenView::Import,
            Token::Export => TokenView::Export,
            Token::Fn => TokenView::Fn,
            Token::Let => TokenView::Let,
            Token::Memory => TokenView::Memory,
            Token::Global => TokenView::Global,
            Token::Mut => TokenView::Mut,
            Token::Loop => TokenView::Loop,
            Token::BranchIf => TokenView::BranchIf,
            Token::Defer => TokenView::Defer,
            Token::Ident(s) => TokenView::Ident(s@),
            Token::Str(s) => TokenView::Str(s@),
            Token::Int(v) => TokenView::Int(*v),
            Token::Float(s) => TokenView::Float(s@),
            Token::Op(s) => TokenView::Op(s@),
            Token::Ctrl(c) => TokenView::Ctrl(*c),
        }
    }
}

/// The views of tokens with their spans, element by element.
pub open spec fn token_views(s: Seq<(Token, Span)>) -> Seq<(TokenView, Span)> {
    Seq::new(s.len(), |i: int| (s[i].0@, s[i].1))
}

/// The characters with the Unicode property `White_Space`.
pub open spec fn is_whitespace(c: char) -> bool {
    let n = c as u32;
    (0x09 <= n <= 0x0D) || n == 0x20 || n == 0x85 || n == 0xA0 || n == 0x1680 || (0x2000 <= n
        <= 0x200A) || n == 0x2028 || n == 0x2029 || n == 0x202F || n == 0x205F || n == 0x3000
}

/// The characters that end a line comment.
pub open spec fn is_newline(c: char) -> bool {
    let n = c as u32;
    (0x0A <= n <= 0x0D) || n == 0x85 || n == 0x2028 || n == 0x2029
}

/// The decimal digits.
pub open spec fn is_digit(c: char) -> bool {
    '0' <= c <= '9'
}

/// The characters with which an identifier can start: ASCII letters and
/// the underscore.
pub open spec fn is_ident_start(c: char) -> bool {
    ('a' <= c <= 'z') || ('A' <= c <= 'Z') || c == '_'
}

/// The characters of which identifiers are made: ASCII letters, digits and
/// the underscore.
pub open spec fn is_ident_part(c: char) -> bool {
    is_ident_start(c) || is_digit(c)
}

/// The characters of which operators are made: `+ - * / % & ^ | < = >`.
pub open spec fn is_operator(c: char) -> bool {
    c == '+' || c == '-' || c == '*' || c == '/' || c == '%' || c == '&' || c == '^' || c == '|'
        || c == '<' || c == '=' || c == '>'
}

/// The punctuation characters: `( ) { } ; , : ? !`.
pub open spec fn is_ctrl(c: char) -> bool {
    c == '(' || c == ')' || c == '{' || c == '}' || c == ';' || c == ',' || c == ':' || c == '?'
        || c == '!'
}

/// A class of characters that a scan passes over.
#[derive(Clone, Copy, Debug, PartialEq, Eq, Structural)]
pub enum CharClass {
    Digit,
    IdentPart,
    Operator,
    /// Anything but a double quote.
    InString,
    /// Anything but a character that ends a line.
    InLine,
}

/// Whether a character is of a class.
pub open spec fn in_class(c: char, class: CharClass) -> bool {
    match class {
        CharClass::Digit => is_digit(c),
        CharClass::IdentPart => is_ident_part(c),
        CharClass::Operator => is_operator(c),
        CharClass::InString => c != '"',
        CharClass::InLine => !is_newline(c),
    }
}

/// The first position from `i` on whose character is not of the class; the
/// length of the text if there is none.
pub open spec fn scan(s: Seq<char>, i: int, class: CharClass) -> int
    decreases s.len() - i,
{
    if 0 <= i < s.len() && in_class(s[i], class) {
        scan(s, i + 1, class)
    } else {
        i
    }
}

/// The position behind the `*/` that ends a block comment whose inside
/// starts at `i`; `None` if the comment is not ended.
pub open spec fn block_comment_end(s: Seq<char>, i: int) -> Option<int>
    decreases s.len() - i,
{
    if i < 0 || i + 1 >= s.len() {
        None
    } else if s[i] == '*' && s[i + 1] == '/' {
        Some(i + 2)
    } else {
        block_comment_end(s, i + 1)
    }
}

/// The position behind the whitespace character or the comment at `i`;
/// `i` itself if neither stands there. A line comment runs up to the end
/// of its line or of the text. A block comment that is not ended is no
/// comment.
pub open spec fn skip_one(s: Seq<char>, i: int) -> int {
    if i < 0 || i >= s.len() {
        i
    } else if is_whitespace(s[i]) {
        i + 1
    } else if i + 1 < s.len() && s[i] == '/' && s[i + 1] == '/' {
        scan(s, i + 2, CharClass::InLine)
    } else if i + 1 < s.len() && s[i] == '/' && s[i + 1] == '*' {
        match block_comment_end(s, i + 2) {
            Some(j) => j,
            None => i,
        }
    } else {
        i
    }
}

/// The position behind all whitespace and comments from `i` on.
pub open spec fn skip_trivia(s: Seq<char>, i: int) -> int
    decreases s.len() - i,
{
    let j = skip_one(s, i);
    if i < j <= s.len() {
        skip_trivia(s, j)
    } else {
        i
    }
}

/// The number that a sequence of digits stands for.
pub open spec fn decimal_value(digits: Seq<char>) -> nat
    decreases digits.len(),
{
    if digits.len() == 0 {
        0
    } else {
        decimal_value(digits.drop_last()) * 10 + (digits.last() as u32 - '0' as u32) as nat
    }
}

/// The end of the integer literal at `i`: a single `0`, or a digit other
/// than `0` with all digits behind it.
pub open spec fn integer_end(s: Seq<char>, i: int) -> Option<int> {
    if i < 0 || i >= s.len() || !is_digit(s[i]) {
        None
    } else if s[i] == '0' {
        Some(i + 1)
    } else {
        Some(scan(s, i + 1, CharClass::Digit))
    }
}

/// The end of the float literal at `i`: an integer literal, a point, and
/// at least one digit.
pub open spec fn float_end(s: Seq<char>, i: int) -> Option<int> {
    match integer_end(s, i) {
        Some(j) => if j + 1 < s.len() && s[j] == '.' && is_digit(s[j + 1]) {
            Some(scan(s, j + 1, CharClass::Digit))
        } else {
            None
        },
        None => None,
    }
}

/// The keyword that an identifier is, if it is one.
pub open spec fn keyword(text: Seq<char>) -> Option<TokenView> {
    if text == "import"@ {
        Some(TokenView::Import)
    } else if text == "export"@ {
        Some(TokenView::Export)
    } else if text == "fn"@ {
        Some(TokenView::Fn)
    } else if text == "let"@ {
        Some(TokenView::Let)
    } else if text == "memory"@ {
        Some(TokenView::Memory)
    } else if text == "global"@ {
        Some(TokenView::Global)
    } else if text == "mut"@ {
        Some(TokenView::Mut)
    } else if text == "loop"@ {
        Some(TokenView::Loop)
    } else if text == "branch_if"@ {
        Some(TokenView::BranchIf)
    } else if text == "defer"@ {
        Some(TokenView::Defer)
    } else {
        None
    }
}

/// What stands at a position that is not the end of the text: a token, or
/// something that is reported and skipped. Either way `end` is where
/// lexing goes on.
pub ghost enum Lexeme {
    Token { token: TokenView, end: int },
    Invalid { kind: SyntaxErrorKind, end: int },
}

/// What stands at position `i`, which holds neither whitespace nor the
/// start of a comment. The forms are tried in this order: float, integer,
/// string, operator, punctuation, identifier or keyword.
pub open spec fn lexeme_at(s: Seq<char>, i: int) -> Lexeme {
    if float_end(s, i) is Some {
        let end = float_end(s, i).unwrap();
        Lexeme::Token { token: TokenView::Float(s.subrange(i, end)), end }
    } else if integer_end(s, i) is Some {
        let end = integer_end(s, i).unwrap();
        let value = decimal_value(s.subrange(i, end));
        if value <= i32::MAX {
            Lexeme::Token { token: TokenView::Int(value as i32), end }
        } else {
            Lexeme::Invalid { kind: SyntaxErrorKind::IntegerTooLarge, end }
        }
    } else if s[i] == '"' && scan(s, i + 1, CharClass::InString) < s.len() {
        let close = scan(s, i + 1, CharClass::InString);
        Lexeme::Token { token: TokenView::Str(s.subrange(i + 1, close)), end: close + 1 }
    } else if is_operator(s[i]) {
        let end = scan(s, i, CharClass::Operator);
        Lexeme::Token { token: TokenView::Op(s.subrange(i, end)), end }
    } else if i + 1 < s.len() && s[i] == ':' && s[i + 1] == '=' {
        Lexeme::Token { token: TokenView::Op(s.subrange(i, i + 2)), end: i + 2 }
    } else if is_ctrl(s[i]) {
        Lexeme::Token { token: TokenView::Ctrl(s[i]), end: i + 1 }
    } else if is_ident_start(s[i]) {
        let end = scan(s, i + 1, CharClass::IdentPart);
        let text = s.subrange(i, end);
        Lexeme::Token {
            token: match keyword(text) {
                Some(k) => k,
                None => TokenView::Ident(text),
            },
            end,
        }
    } else {
        Lexeme::Invalid { kind: SyntaxErrorKind::InvalidCharacter, end: i + 1 }
    }
}

/// Tokens and errors of a text.
#[verifier::ext_equal]
pub ghost struct Lexed {
    pub tokens: Seq<(TokenView, Span)>,
    pub errors: Seq<SyntaxError>,
}

/// What lexing from position `i` on adds to the tokens and errors found
/// before it.
pub open spec fn lex_from(s: Seq<char>, i: int, found: Lexed) -> Lexed
    decreases s.len() - i,
{
    let start = skip_trivia(s, i);
    if start < i || start >= s.len() {
        found
    } else {
        match lexeme_at(s, start) {
            Lexeme::Token { token, end } => if start < end <= s.len() {
                lex_from(
                    s,
                    end,
                    Lexed {
                        tokens: found.tokens.push(
                            (token, Span { start: start as usize, end: end as usize }),
                        ),
                        ..found
                    },
                )
            } else {
                found
            },
            Lexeme::Invalid { kind, end } => if start < end <= s.len() {
                lex_from(
                    s,
                    end,
                    Lexed {
                        errors: found.errors.push(
                            SyntaxError {
                                span: Span { start: start as usize, end: end as usize },
                                kind,
                            },
                        ),
                        ..found
                    },
                )
            } else {
                found
            },
        }
    }
}

/// The tokens of a text with their spans, and its lexical errors.
pub open spec fn lex(s: Seq<char>) -> Lexed {
    lex_from(s, 0, Lexed { tokens: Seq::empty(), errors: Seq::empty() })
}

fn char_is_whitespace(c: char) -> (r: bool)
    ensures
        r == is_whitespace(c),
{
    let n = c as u32;
    (0x09 <= n && n <= 0x0D) || n == 0x20 || n == 0x85 || n == 0xA0 || n == 0x1680 || (0x2000 <= n
        && n <= 0x200A) || n == 0x2028 || n == 0x2029 || n == 0x202F || n == 0x205F || n
        == 0x3000
}

fn char_is_newline(c: char) -> (r: bool)
    ensures
        r == is_newline(c),
{
    let n = c as u32;
    (0x0A <= n && n <= 0x0D) || n == 0x85 || n == 0x2028 || n == 0x2029
}

fn char_is_digit(c: char) -> (r: bool)
    ensures
        r == is_digit(c),
{
    '0' <= c && c <= '9'
}

fn char_is_ident_start(c: char) -> (r: bool)
    ensures
        r == is_ident_start(c),
{
    ('a' <= c && c <= 'z') || ('A' <= c && c <= 'Z') || c == '_'
}

fn char_is_operator(c: char) -> (r: bool)
    ensures
        r == is_operator(c),
{
    c == '+' || c == '-' || c == '*' || c == '/' || c == '%' || c == '&' || c == '^' || c == '|'
        || c == '<' || c == '=' || c == '>'
}

fn char_is_ctrl(c: char) -> (r: bool)
    ensures
        r == is_ctrl(c),
{
    c == '(' || c == ')' || c == '{' || c == '}' || c == ';' || c == ',' || c == ':' || c == '?'
        || c == '!'
}

fn char_in_class(c: char, class: CharClass) -> (r: bool)
    ensures
        r == in_class(c, class),
{
    match class {
        CharClass::Digit => char_is_digit(c),
        CharClass::IdentPart => char_is_ident_start(c) || char_is_digit(c),
        CharClass::Operator => char_is_operator(c),
        CharClass::InString => c != '"',
        CharClass::InLine => !char_is_newline(c),
    }
}

/// The characters of a text.
pub fn chars_of(source: &str) -> (r: Vec<char>)
    ensures
        r@ == source@,
{
    let mut r: Vec<char> = Vec::new();
    for c in it: source.chars()
        invariant
            it.seq() == source@,
            r@ == it.seq().take(it.index() as int),
    {
        r.push(c);
        assert(r@ =~= it.seq().take(it.index() + 1));
    }
    assert(r@ =~= source@);
    r
}

fn scan_class(s: &Vec<char>, i: usize, class: CharClass) -> (j: usize)
    requires
        i <= s@.len(),
    ensures
        j == scan(s@, i as int, class),
        i <= j <= s@.len(),
{
    let mut j = i;
    while j < s.len() && char_in_class(s[j], class)
        invariant
            i <= j <= s@.len(),
            scan(s@, i as int, class) == scan(s@, j as int, class),
        decreases s.len() - j,
    {
        j += 1;
    }
    j
}

fn find_block_comment_end(s: &Vec<char>, i: usize) -> (r: Option<usize>)
    requires
        i <= s@.len(),
    ensures
        match r {
            Some(j) => block_comment_end(s@, i as int) == Some(j as int) && i + 2 <= j <= s@.len(),
            None => block_comment_end(s@, i as int) is None,
        },
{
    let n = s.len();
    let mut j = i;
    while j < n && j + 1 < n
        invariant
            n == s@.len(),
            i <= j <= s@.len(),
            block_comment_end(s@, i as int) == block_comment_end(s@, j as int),
        decreases n - j,
    {
        if s[j] == '*' && s[j + 1] == '/' {
            return Some(j + 2);
        }
        j += 1;
    }
    None
}

fn skip_one_at(s: &Vec<char>, i: usize) -> (j: usize)
    requires
        i <= s@.len(),
    ensures
        j == skip_one(s@, i as int),
        i <= j <= s@.len(),
{
    let n = s.len();
    if i >= n {
        i
    } else if char_is_whitespace(s[i]) {
        i + 1
    } else if i + 1 < n && s[i] == '/' && s[i + 1] == '/' {
        scan_class(s, i + 2, CharClass::InLine)
    } else if i + 1 < n && s[i] == '/' && s[i + 1] == '*' {
        match find_block_comment_end(s, i + 2) {
            Some(j) => j,
            None => i,
        }
    } else {
        i
    }
}

fn skip_trivia_at(s: &Vec<char>, i: usize) -> (j: usize)
    requires
        i <= s@.len(),
    ensures
        j == skip_trivia(s@, i as int),
        i <= j <= s@.len(),
{
    let mut j = i;
    loop
        invariant
            i <= j <= s@.len(),
            skip_trivia(s@, i as int) == skip_trivia(s@, j as int),
        ensures
            i <= j <= s@.len(),
            j == skip_trivia(s@, i as int),
        decreases s@.len() - j,
    {
        let next = skip_one_at(s, j);
        if next > j {
            j = next;
        } else {
            break;
        }
    }
    j
}

/// The value of the digits from `i` to `end`, if it is at most the largest
/// 32-bit signed integer.
fn decimal_at(s: &Vec<char>, i: usize, end: usize) -> (r: Option<i32>)
    requires
        i <= end <= s@.len(),
        forall|k: int| i <= k < end ==> is_digit(s@[k]),
    ensures
        match r {
            Some(v) => v == decimal_value(s@.subrange(i as int, end as int)),
            None => decimal_value(s@.subrange(i as int, end as int)) > i32::MAX,
        },
{
    let mut value: u32 = 0;
    let mut overflow = false;
    let mut j = i;
    assert(s@.subrange(i as int, i as int) =~= Seq::empty());
    while j < end
        invariant
            i <= j <= end <= s@.len(),
            forall|k: int| i <= k < end ==> is_digit(s@[k]),
            !overflow ==> value == decimal_value(s@.subrange(i as int, j as int)) && value
                <= i32::MAX,
            overflow ==> decimal_value(s@.subrange(i as int, j as int)) > i32::MAX,
        decreases end - j,
    {
        let digit: u32 = s[j] as u32 - '0' as u32;
        proof {
            assert(s@.subrange(i as int, j + 1).drop_last() =~= s@.subrange(i as int, j as int));
            assert(s@.subrange(i as int, j + 1).last() == s@[j as int]);
        }
        if !overflow {
            if value > (0x7fff_ffffu32 - digit) / 10 {
                overflow = true;
            } else {
                value = value * 10 + digit;
            }
        }
        j += 1;
    }
    if overflow {
        None
    } else {
        Some(value as i32)
    }
}

/// Whether the characters from `i` to `end` spell `word`.
fn spells(s: &Vec<char>, i: usize, end: usize, word: &str) -> (r: bool)
    requires
        i <= end <= s@.len(),
    ensures
        r == (s@.subrange(i as int, end as int) == word@),
{
    let n = word.unicode_len();
    if end - i != n {
        return false;
    }
    let mut k: usize = 0;
    while k < n
        invariant
            i <= end <= s@.len(),
            n == word@.len(),
            end - i == n,
            k <= n,
            forall|m: int| 0 <= m < k ==> s@[i + m] == word@[m],
        decreases n - k,
    {
        if s[i + k] != word.get_char(k) {
            assert(s@.subrange(i as int, end as int)[k as int] != word@[k as int]);
            return false;
        }
        k += 1;
    }
    assert(s@.subrange(i as int, end as int) =~= word@);
    true
}

/// The text from `i` to `end`.
fn text_of(source: &str, i: usize, end: usize) -> (r: String)
    requires
        i <= end <= source@.len(),
    ensures
        r@ == source@.subrange(i as int, end as int),
{
    String::from_str(source.substring_char(i, end))
}

/// The keyword or identifier that the characters from `i` to `end` spell.
fn word_token(source: &str, s: &Vec<char>, i: usize, end: usize) -> (t: Token)
    requires
        s@ == source@,
        i <= end <= s@.len(),
    ensures
        t@ == (match keyword(s@.subrange(i as int, end as int)) {
            Some(k) => k,
            None => TokenView::Ident(s@.subrange(i as int, end as int)),
        }),
{
    if spells(s, i, end, "import") {
        Token::Import
    } else if spells(s, i, end, "export") {
        Token::Export
    } else if spells(s, i, end, "fn") {
        Token::Fn
    } else if spells(s, i, end, "let") {
        Token::Let
    } else if spells(s, i, end, "memory") {
        Token::Memory
    } else if spells(s, i, end, "global") {
        Token::Global
    } else if spells(s, i, end, "mut") {
        Token::Mut
    } else if spells(s, i, end, "loop") {
        Token::Loop
    } else if spells(s, i, end, "branch_if") {
        Token::BranchIf
    } else if spells(s, i, end, "defer") {
        Token::Defer
    } else {
        Token::Ident(text_of(source, i, end))
    }
}

/// A token with the position behind it, or the kind of an error with the
/// position at which lexing goes on.
pub enum Scanned {
    Token(Token, usize),
    Invalid(SyntaxErrorKind, usize),
}

impl Scanned {
    /// What was scanned, in contracts.
    pub open spec fn view(&self) -> Lexeme {
        match self {
            Scanned::Token(token, end) => Lexeme::Token { token: token@, end: *end as int },
            Scanned::Invalid(kind, end) => Lexeme::Invalid { kind: *kind, end: *end as int },
        }
    }
}

fn integer_end_at(s: &Vec<char>, i: usize) -> (r: Option<usize>)
    requires
        i < s@.len(),
    ensures
        match r {
            Some(j) => integer_end(s@, i as int) == Some(j as int) && i < j <= s@.len()
                && forall|k: int| i <= k < j ==> is_digit(s@[k]),
            None => integer_end(s@, i as int) is None,
        },
{
    assert(s@.len() == s.len());
    if !char_is_digit(s[i]) {
        None
    } else if s[i] == '0' {
        Some(i + 1)
    } else {
        let j = scan_class(s, i + 1, CharClass::Digit);
        proof {
            lemma_scanned(s@, i + 1, CharClass::Digit);
        }
        Some(j)
    }
}

/// Every character that a scan passes over is of the class.
pub proof fn lemma_scanned(s: Seq<char>, i: int, class: CharClass)
    requires
        0 <= i <= s.len(),
    ensures
        forall|k: int| i <= k < scan(s, i, class) ==> in_class(s[k], class),
    decreases s.len() - i,
{
    if i < s.len() && in_class(s[i], class) {
        lemma_scanned(s, i + 1, class);
    }
}

/// Reads what stands at position `i`, which holds neither whitespace nor
/// the start of a comment.
pub fn scan_token(source: &str, s: &Vec<char>, i: usize) -> (r: Scanned)
    requires
        s@ == source@,
        i < s@.len(),
    ensures
        r@ == lexeme_at(s@, i as int),
        match r {
            Scanned::Token(_, end) => i < end <= s@.len(),
            Scanned::Invalid(_, end) => i < end <= s@.len(),
        },
{
    let n = s.len();
    let c = s[i];
    match integer_end_at(s, i) {
        Some(j) => {
            if j < n && j + 1 < n && s[j] == '.' && char_is_digit(s[j + 1]) {
                let end = scan_class(s, j + 1, CharClass::Digit);
                return Scanned::Token(Token::Float(text_of(source, i, end)), end);
            }
            return match decimal_at(s, i, j) {
                Some(v) => Scanned::Token(Token::Int(v), j),
                None => Scanned::Invalid(SyntaxErrorKind::IntegerTooLarge, j),
            };
        },
        None => {},
    }
    if c == '"' {
        let close = scan_class(s, i + 1, CharClass::InString);
        if close < s.len() {
            return Scanned::Token(Token::Str(text_of(source, i + 1, close)), close + 1);
        }
    }
    if char_is_operator(c) {
        let end = scan_class(s, i + 1, CharClass::Operator);
        assert(scan(s@, i as int, CharClass::Operator) == end);
        Scanned::Token(Token::Op(text_of(source, i, end)), end)
    } else if i + 1 < n && c == ':' && s[i + 1] == '=' {
        Scanned::Token(Token::Op(text_of(source, i, i + 2)), i + 2)
    } else if char_is_ctrl(c) {
        Scanned::Token(Token::Ctrl(c), i + 1)
    } else if char_is_ident_start(c) {
        let end = scan_class(s, i + 1, CharClass::IdentPart);
        Scanned::Token(word_token(source, s, i, end), end)
    } else {
        Scanned::Invalid(SyntaxErrorKind::InvalidCharacter, i + 1)
    }
}

/// The spans lie within a text of the given length, none is empty, and
/// each ends before the next begins.
pub open spec fn spans_in_order(spans: Seq<Span>, length: nat) -> bool {
    &&& forall|k: int| 0 <= k < spans.len() ==> (#[trigger] spans[k]).start < spans[k].end <= length
    &&& forall|k: int, m: int|
        0 <= k < m < spans.len() ==> (#[trigger] spans[k]).end <= (#[trigger] spans[m]).start
}

/// The spans of tokens.
pub open spec fn token_spans(tokens: Seq<(Token, Span)>) -> Seq<Span> {
    Seq::new(tokens.len(), |i: int| tokens[i].1)
}

/// The spans of errors.
pub open spec fn error_spans(errors: Seq<SyntaxError>) -> Seq<Span> {
    Seq::new(errors.len(), |i: int| errors[i].span)
}

/// Splits a text into tokens. A character that starts no token, and an
/// integer literal that is too large, is reported and skipped. The tokens
/// stand in the order of the text, and so do the errors.
pub fn lexer(source: &str) -> (r: (Vec<(Token, Span)>, Vec<SyntaxError>))
    ensures
        token_views(r.0@) == lex(source@).tokens,
        r.1@ == lex(source@).errors,
        spans_in_order(token_spans(r.0@), source@.len()),
        spans_in_order(error_spans(r.1@), source@.len()),
{
    let s = chars_of(source);
    let mut tokens: Vec<(Token, Span)> = Vec::new();
    let mut errors: Vec<SyntaxError> = Vec::new();
    let mut i: usize = 0;
    assert(token_views(tokens@) =~= Seq::empty());
    loop
        invariant
            s@ == source@,
            i <= s@.len(),
            lex(source@) == lex_from(
                s@,
                i as int,
                Lexed { tokens: token_views(tokens@), errors: errors@ },
            ),
            spans_in_order(token_spans(tokens@), i as nat),
            spans_in_order(error_spans(errors@), i as nat),
        ensures
            token_views(tokens@) == lex(source@).tokens,
            errors@ == lex(source@).errors,
            spans_in_order(token_spans(tokens@), s@.len()),
            spans_in_order(error_spans(errors@), s@.len()),
        decreases s@.len() - i,
    {
        let start = skip_trivia_at(&s, i);
        if start >= s.len() {
            break;
        }
        let ghost before = token_views(tokens@);
        let ghost spans = token_spans(tokens@);
        let ghost faults = error_spans(errors@);
        match scan_token(source, &s, start) {
            Scanned::Token(token, end) => {
                tokens.push((token, Span { start, end }));
                proof {
                    assert(token_views(tokens@) =~= before.push(
                        (token@, Span { start, end }),
                    ));
                    assert(token_spans(tokens@) =~= spans.push(Span { start, end }));
                }
                i = end;
            },
            Scanned::Invalid(kind, end) => {
                errors.push(SyntaxError { span: Span { start, end }, kind });
                proof {
                    assert(error_spans(errors@) =~= faults.push(Span { start, end }));
                }
                i = end;
            },
        }
    }
    (tokens, errors)
}

/// The character of a digit.
pub open spec fn digit_char(d: nat) -> char {
    if d == 0 {
        '0'
    } else if d == 1 {
        '1'
    } else if d == 2 {
        '2'
    } else if d == 3 {
        '3'
    } else if d == 4 {
        '4'
    } else if d == 5 {
        '5'
    } else if d == 6 {
        '6'
    } else if d == 7 {
        '7'
    } else if d == 8 {
        '8'
    } else {
        '9'
    }
}

/// The digits of a number, without leading zeros.
pub open spec fn decimal_digits(n: nat) -> Seq<char>
    decreases n,
{
    if n < 10 {
        seq![digit_char(n)]
    } else {
        decimal_digits(n / 10).push(digit_char(n % 10))
    }
}

fn digit_text(d: u32) -> (r: &'static str)
    requires
        d < 10,
    ensures
        r@ == seq![digit_char(d as nat)],
{
    proof {
        reveal_strlit("0");
        reveal_strlit("1");
        reveal_strlit("2");
        reveal_strlit("3");
        reveal_strlit("4");
        reveal_strlit("5");
        reveal_strlit("6");
        reveal_strlit("7");
        reveal_strlit("8");
        reveal_strlit("9");
    }
    let r = if d == 0 {
        "0"
    } else if d == 1 {
        "1"
    } else if d == 2 {
        "2"
    } else if d == 3 {
        "3"
    } else if d == 4 {
        "4"
    } else if d == 5 {
        "5"
    } else if d == 6 {
        "6"
    } else if d == 7 {
        "7"
    } else if d == 8 {
        "8"
    } else {
        "9"
    };
    assert(r@ =~= seq![digit_char(d as nat)]);
    r
}

/// Writes a number in decimal digits.
pub fn decimal_text(n: u32) -> (r: String)
    ensures
        r@ == decimal_digits(n as nat),
    decreases n,
{
    if n < 10 {
        String::from_str(digit_text(n))
    } else {
        let mut r = decimal_text(n / 10);
        r.append(digit_text(n % 10));
        assert(r@ =~= decimal_digits(n as nat));
        r
    }
}

impl TokenView {
    /// The text that shows a token: a keyword, identifier, float,
    /// operator or punctuation character as written, a string as `{:?}`
    /// formats it, an integer in decimal digits.
    pub open spec fn text(self) -> Seq<char> {
        match self {
            TokenView::Import => "import"@,
            TokenView::Export => "export"@,
            TokenView::Fn => "fn"@,
            TokenView::Let => "let"@,
            TokenView::Memory => "memory"@,
            TokenView::Global => "global"@,
            TokenView::Mut => "mut"@,
            TokenView::Loop => "loop"@,
            TokenView::BranchIf => "branch_if"@,
            TokenView::Defer => "defer"@,
            TokenView::Ident(s) => s,
            TokenView::Str(s) => debug_text(s),
            TokenView::Int(v) => if v < 0 {
                "-"@ + decimal_digits((-v) as nat)
            } else {
                decimal_digits(v as nat)
            },
            TokenView::Float(s) => s,
            TokenView::Op(s) => s,
            TokenView::Ctrl(c) => ctrl_text(c),
        }
    }
}

impl Token {
    /// The text that shows the token in a message.
    pub fn to_text(&self) -> (r: String)
        ensures
            r@ == self@.text(),
    {
        match self {
            Token::Import => String::from_str("import"),
            Token::Export => String::from_str("export"),
            Token::Fn => String::from_str("fn"),
            Token::Let => String::from_str("let"),
            Token::Memory => String::from_str("memory"),
            Token::Global => String::from_str("global"),
            Token::Mut => String::from_str("mut"),
            Token::Loop => String::from_str("loop"),
            Token::BranchIf => String::from_str("branch_if"),
            Token::Defer => String::from_str("defer"),
            Token::Ident(s) => s.clone(),
            Token::Str(s) => quoted(s.as_str()),
            Token::Int(v) => {
                let v = *v;
                if v < 0 {
                    let magnitude: u32 = if v == i32::MIN {
                        0x8000_0000u32
                    } else {
                        (-v) as u32
                    };
                    let mut r = String::from_str("-");
                    r.append(decimal_text(magnitude).as_str());
                    r
                } else {
                    decimal_text(v as u32)
                }
            },
            Token::Float(s) => s.clone(),
            Token::Op(s) => s.clone(),
            Token::Ctrl(c) => ctrl_name(*c),
        }
    }
}

} // verus!
