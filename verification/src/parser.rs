//! The parser: from tokens to the syntax tree, by recursive descent along
//! the grammar.

use crate::ast::{
    expression_views, lemma_view_parts, BinOp, Block, Expr, Expression, ExpressionView, Function,
    Import, ImportType, LetType, Locals, MemSize, MemoryLocation, Script, Span, TopLevelItem,
    Type,
};
use crate::grammar::{
    access_width, binary, binary_operator, closing_parenthesis, named_type, operator_token, poke,
    read_atom, read_binary, read_binary_rest, read_block, read_block_rest, read_branch_if,
    read_expression, read_function, read_identifier, read_import, read_import_type, read_items,
    read_let, read_loop, read_memory, read_memory_rest, read_more_params, read_param,
    read_params, read_parenthesis, read_script, read_tee, read_type, recover_parenthesis,
    starts_expression, Parsed, Tokens,
};
use crate::input::{same_text, Input};
use crate::lexer::{lex, lexer, Token, TokenView};
use crate::syntax::{Expected, SyntaxError, SyntaxErrorKind};
use vstd::prelude::*;

verus! {

broadcast use crate::input::lemma_input_bounded;

/// Whether what was read is what the grammar says: the same value at the
/// same position, or a failure, and the same errors either way.
pub open spec fn reads<T, V>(
    r: Option<(T, usize)>,
    errors: Seq<SyntaxError>,
    expected: Parsed<V>,
    view: spec_fn(T) -> V,
) -> bool {
    &&& expected.errors == errors
    &&& match r {
        Some((value, pos)) => expected.value == Some(view(value)) && expected.pos == pos,
        None => expected.value is None,
    }
}

/// Whether an expression was read as the grammar says.
pub open spec fn reads_expression(
    r: Option<(Expression, usize)>,
    errors: Seq<SyntaxError>,
    expected: Parsed<ExpressionView>,
) -> bool {
    &&& expected.errors == errors
    &&& match r {
        Some((value, pos)) => expected.value == Some(value@) && expected.pos == pos,
        None => expected.value is None,
    }
}

/// What holds of every reader of expressions: the errors only grow, the
/// position moves on within the tokens, and an expression that was read
/// without a new error holds no error placeholder.
pub open spec fn advances(
    r: Option<(Expression, usize)>,
    from: usize,
    limit: int,
    before: Seq<SyntaxError>,
    after: Seq<SyntaxError>,
) -> bool {
    &&& before.len() <= after.len()
    &&& r is None ==> before.len() < after.len()
    &&& r matches Some((e, pos)) ==> from < pos <= limit && (before.len() == after.len()
        ==> e@.error_free())
}

/// The binary operator of a level that an operator's text names.
pub fn operator_named(text: &str, level: u8) -> (r: Option<BinOp>)
    ensures
        r == binary_operator(text@, level as int),
{
    if level == 1 {
        if same_text(text, "*") {
            Some(BinOp::Mul)
        } else if same_text(text, "/") {
            Some(BinOp::Div)
        } else if same_text(text, "%") {
            Some(BinOp::Rem)
        } else {
            None
        }
    } else if level == 2 {
        if same_text(text, "+") {
            Some(BinOp::Add)
        } else if same_text(text, "-") {
            Some(BinOp::Sub)
        } else {
            None
        }
    } else if level == 3 {
        if same_text(text, "==") {
            Some(BinOp::Eq)
        } else if same_text(text, "!=") {
            Some(BinOp::Ne)
        } else if same_text(text, "<") {
            Some(BinOp::Lt)
        } else if same_text(text, "<=") {
            Some(BinOp::Le)
        } else if same_text(text, ">") {
            Some(BinOp::Gt)
        } else if same_text(text, ">=") {
            Some(BinOp::Ge)
        } else {
            None
        }
    } else if level == 4 {
        if same_text(text, "&") {
            Some(BinOp::And)
        } else if same_text(text, "|") {
            Some(BinOp::Or)
        } else if same_text(text, "^") {
            Some(BinOp::Xor)
        } else {
            None
        }
    } else {
        None
    }
}

/// The type that an identifier names.
pub fn type_named(text: &str) -> (r: Option<Type>)
    ensures
        r == named_type(text@),
{
    if same_text(text, "i32") {
        Some(Type::I32)
    } else if same_text(text, "i64") {
        Some(Type::I64)
    } else if same_text(text, "f32") {
        Some(Type::F32)
    } else if same_text(text, "f64") {
        Some(Type::F64)
    } else {
        None
    }
}

/// Reads a type.
pub fn type_parser(input: &Input, pos: usize, errors: &mut Vec<SyntaxError>) -> (r: Option<
    (Type, usize),
>)
    ensures
        reads(r, final(errors)@, read_type(input@, pos as int, old(errors)@), |t: Type| t),
        r matches Some((_, next)) ==> next == pos + 1 && pos < input@.len(),
        r is Some ==> final(errors)@ == old(errors)@,
        r is None ==> final(errors)@.len() == old(errors)@.len() + 1,
{
    if pos < input.tokens.len() {
        match &input.tokens[pos].0 {
            Token::Ident(text) => match type_named(text.as_str()) {
                Some(type_) => {
                    return Some((type_, pos + 1));
                },
                None => {},
            },
            _ => {},
        }
    }
    input.unexpected(pos, Expected::Type, errors);
    None
}

/// Reads an identifier.
pub fn identifier(input: &Input, pos: usize, errors: &mut Vec<SyntaxError>) -> (r: Option<
    (String, usize),
>)
    ensures
        reads(
            r,
            final(errors)@,
            read_identifier(input@, pos as int, old(errors)@),
            |s: String| s@,
        ),
        r matches Some((_, next)) ==> next == pos + 1 && pos < input@.len(),
        r is Some ==> final(errors)@ == old(errors)@,
        r is None ==> final(errors)@.len() == old(errors)@.len() + 1,
{
    if pos < input.tokens.len() {
        match &input.tokens[pos].0 {
            Token::Ident(text) => {
                return Some((text.clone(), pos + 1));
            },
            _ => {},
        }
    }
    input.unexpected(pos, Expected::Identifier, errors);
    None
}

/// Finds the parenthesis that closes the one before `pos`.
pub fn find_closing(input: &Input, pos: usize) -> (r: Option<usize>)
    requires
        pos >= 1,
    ensures
        match r {
            Some(close) => closing_parenthesis(input@.toks, pos as int, 1, 0) == Some(
                close as int,
            ) && pos <= close < input.tokens@.len(),
            None => closing_parenthesis(input@.toks, pos as int, 1, 0) is None,
        },
{
    let mut depth: usize = 1;
    let mut braces: usize = 0;
    let mut i = pos;
    while i < input.tokens.len()
        invariant
            1 <= pos <= i,
            depth >= 1,
            depth <= 1 + (i - pos),
            braces <= i - pos,
            closing_parenthesis(input@.toks, pos as int, 1, 0) == closing_parenthesis(
                input@.toks,
                i as int,
                depth as int,
                braces as int,
            ),
        decreases input.tokens.len() - i,
    {
        match &input.tokens[i].0 {
            Token::Ctrl(c) => {
                if *c == '(' {
                    depth += 1;
                } else if *c == ')' {
                    if depth <= 1 {
                        return Some(i);
                    }
                    depth -= 1;
                } else if *c == '{' {
                    braces += 1;
                } else if *c == '}' {
                    if braces == 0 {
                        return None;
                    }
                    braces -= 1;
                }
            },
            _ => {},
        }
        i += 1;
    }
    None
}

/// Skips a parenthesis whose inside could not be read.
fn recover(input: &Input, pos: usize, errors: &mut Vec<SyntaxError>) -> (r: Option<
    (Expression, usize),
>)
    requires
        pos < input@.len(),
    ensures
        reads_expression(
            r,
            final(errors)@,
            recover_parenthesis(input@, pos as int, old(errors)@),
        ),
        old(errors)@.len() <= final(errors)@.len(),
        r is None ==> old(errors)@.len() < final(errors)@.len(),
        r matches Some((_, next)) ==> pos < next <= input@.len(),
{
    match find_closing(input, pos + 1) {
        Some(close) => Some((Expr::Error.with_span(input.covering(pos, close + 1)), close + 1)),
        None => {
            errors.push(
                SyntaxError {
                    span: input.eoi,
                    kind: SyntaxErrorKind::Unclosed { open: input.span(pos) },
                },
            );
            None
        },
    }
}

/// Reads an expression in parentheses.
fn parenthesis(input: &Input, pos: usize, errors: &mut Vec<SyntaxError>) -> (r: Option<
    (Expression, usize),
>)
    requires
        input@.is_ctrl(pos as int, '('),
    ensures
        reads_expression(r, final(errors)@, read_parenthesis(input@, pos as int, old(errors)@)),
        advances(r, pos, input@.len(), old(errors)@, final(errors)@),
    decreases input@.len() - pos, 5int,
{
    match expression(input, pos + 1, errors) {
        Some((inner, next)) => {
            if input.is_ctrl(next, ')') {
                Some((inner, next + 1))
            } else {
                input.unexpected(next, Expected::Ctrl(')'), errors);
                recover(input, pos, errors)
            }
        },
        None => recover(input, pos, errors),
    }
}

/// Reads a `let`.
fn let_parser(input: &Input, pos: usize, errors: &mut Vec<SyntaxError>) -> (r: Option<
    (Expression, usize),
>)
    requires
        input@.token(pos as int) == Some(TokenView::Let),
    ensures
        reads_expression(r, final(errors)@, read_let(input@, pos as int, old(errors)@)),
        advances(r, pos, input@.len(), old(errors)@, final(errors)@),
    decreases input@.len() - pos, 5int,
{
    let defer = pos + 1 < input.tokens.len() && match &input.tokens[pos + 1].0 {
        Token::Defer => true,
        _ => false,
    };
    let name_pos = if defer {
        pos + 2
    } else {
        pos + 1
    };
    let let_type = if defer {
        LetType::Inline
    } else {
        LetType::Normal
    };
    let (name, after_name) = match identifier(input, name_pos, errors) {
        Some(read) => read,
        None => {
            return None;
        },
    };
    let (type_, after_type) = if input.is_ctrl(after_name, ':') {
        match type_parser(input, after_name + 1, errors) {
            Some((type_, next)) => (Some(type_), next),
            None => {
                return None;
            },
        }
    } else {
        (None, after_name)
    };
    if input.is_op(after_type, "=") {
        match expression(input, after_type + 1, errors) {
            Some((value, next)) => Some(
                (
                    Expr::Let {
                        name,
                        type_,
                        value: Some(Box::new(value)),
                        let_type,
                        local_id: None,
                    }.with_span(input.covering(pos, next)),
                    next,
                ),
            ),
            None => None,
        }
    } else {
        Some(
            (
                Expr::Let { name, type_, value: None, let_type, local_id: None }.with_span(
                    input.covering(pos, after_type),
                ),
                after_type,
            ),
        )
    }
}

/// Reads a loop.
fn loop_parser(input: &Input, pos: usize, errors: &mut Vec<SyntaxError>) -> (r: Option<
    (Expression, usize),
>)
    requires
        input@.token(pos as int) == Some(TokenView::Loop),
    ensures
        reads_expression(r, final(errors)@, read_loop(input@, pos as int, old(errors)@)),
        advances(r, pos, input@.len(), old(errors)@, final(errors)@),
    decreases input@.len() - pos, 5int,
{
    let (label, _) = match identifier(input, pos + 1, errors) {
        Some(read) => read,
        None => {
            return None;
        },
    };
    if !input.is_ctrl(pos + 2, '{') {
        input.unexpected(pos + 2, Expected::Ctrl('{'), errors);
        return None;
    }
    let (block, next) = match block_parser(input, pos + 3, errors) {
        Some(read) => read,
        None => {
            return None;
        },
    };
    if !input.is_ctrl(next, '}') {
        input.unexpected(next, Expected::Ctrl('}'), errors);
        return None;
    }
    let ghost clean = block@.error_free();
    let body = Expr::Block(block).with_span(input.covering(pos + 2, next + 1));
    proof {
        lemma_view_parts(body);
        assert(clean ==> body@.error_free());
    }
    let node = Expr::Loop { label, block: Box::new(body) }.with_span(
        input.covering(pos, next + 1),
    );
    proof {
        assert(clean ==> node@.error_free());
    }
    Some((node, next + 1))
}

/// Reads a conditional branch.
fn branch_if_parser(input: &Input, pos: usize, errors: &mut Vec<SyntaxError>) -> (r: Option<
    (Expression, usize),
>)
    requires
        input@.token(pos as int) == Some(TokenView::BranchIf),
    ensures
        reads_expression(r, final(errors)@, read_branch_if(input@, pos as int, old(errors)@)),
        advances(r, pos, input@.len(), old(errors)@, final(errors)@),
    decreases input@.len() - pos, 5int,
{
    let (condition, next) = match expression(input, pos + 1, errors) {
        Some(read) => read,
        None => {
            return None;
        },
    };
    if !input.is_ctrl(next, ':') {
        input.unexpected(next, Expected::Ctrl(':'), errors);
        return None;
    }
    let (label, after) = match identifier(input, next + 1, errors) {
        Some(read) => read,
        None => {
            return None;
        },
    };
    Some(
        (
            Expr::BranchIf { condition: Box::new(condition), label }.with_span(
                input.covering(pos, after),
            ),
            after,
        ),
    )
}

/// Reads a tee.
fn tee_parser(input: &Input, pos: usize, name: String, errors: &mut Vec<SyntaxError>) -> (r:
    Option<(Expression, usize)>)
    requires
        input@.token(pos as int) is Some,
        input@.token(pos + 1) is Some,
    ensures
        reads_expression(r, final(errors)@, read_tee(input@, pos as int, name@, old(errors)@)),
        advances(r, pos, input@.len(), old(errors)@, final(errors)@),
    decreases input@.len() - pos, 5int,
{
    match expression(input, pos + 2, errors) {
        Some((value, next)) => Some(
            (
                Expr::LocalTee { name, value: Box::new(value), local_id: None }.with_span(
                    input.covering(pos, next),
                ),
                next,
            ),
        ),
        None => None,
    }
}

/// Reads an atom.
fn atom(input: &Input, pos: usize, errors: &mut Vec<SyntaxError>) -> (r: Option<
    (Expression, usize),
>)
    ensures
        reads_expression(r, final(errors)@, read_atom(input@, pos as int, old(errors)@)),
        advances(r, pos, input@.len(), old(errors)@, final(errors)@),
    decreases input@.len() - pos, 6int,
{
    if pos >= input.tokens.len() {
        input.unexpected(pos, Expected::Expression, errors);
        return None;
    }
    let span = input.tokens[pos].1;
    match &input.tokens[pos].0 {
        Token::Int(v) => Some((Expr::I32Const(*v).with_span(span), pos + 1)),
        Token::Float(text) => Some((Expr::F32Const(text.clone()).with_span(span), pos + 1)),
        Token::Ident(name) => {
            if input.is_op(pos + 1, ":=") {
                tee_parser(input, pos, name.clone(), errors)
            } else {
                Some((Expr::Variable { name: name.clone(), local_id: None }.with_span(span), pos + 1))
            }
        },
        Token::Loop => loop_parser(input, pos, errors),
        Token::BranchIf => branch_if_parser(input, pos, errors),
        Token::Let => let_parser(input, pos, errors),
        Token::Ctrl(c) => {
            if *c == '(' {
                parenthesis(input, pos, errors)
            } else {
                input.unexpected(pos, Expected::Expression, errors);
                None
            }
        },
        _ => {
            input.unexpected(pos, Expected::Expression, errors);
            None
        },
    }
}

/// The width that the token at `pos` gives a memory access.
fn width_at(input: &Input, pos: usize) -> (r: Option<MemSize>)
    ensures
        r == access_width(input@.token(pos as int)),
        r is Some ==> pos < input.tokens@.len(),
{
    if pos < input.tokens.len() {
        match &input.tokens[pos].0 {
            Token::Ctrl(c) => {
                if *c == '?' {
                    Some(MemSize::Byte)
                } else if *c == '!' {
                    Some(MemSize::Word)
                } else {
                    None
                }
            },
            _ => None,
        }
    } else {
        None
    }
}

/// Builds the memory write of `value` to the address `left` with the
/// offset `right`.
fn make_poke(left: Expression, size: MemSize, right: Expression, value: Expression) -> (r:
    Expression)
    ensures
        r@ == poke(left@, size, right@, value@),
{
    let span = Span { start: left.span.start, end: value.span.end };
    let location_span = Span { start: left.span.start, end: right.span.end };
    let r = Expr::Poke {
        mem_location: MemoryLocation {
            span: location_span,
            size,
            left: Box::new(left),
            right: Box::new(right),
        },
        value: Box::new(value),
    }.with_span(span);
    proof {
        lemma_view_parts(r);
    }
    r
}

/// Reads the memory writes that follow an expression.
fn memory_rest(input: &Input, pos: usize, left: Expression, errors: &mut Vec<SyntaxError>) -> (r:
    Option<(Expression, usize)>)
    requires
        pos <= input@.len(),
    ensures
        reads_expression(
            r,
            final(errors)@,
            read_memory_rest(input@, pos as int, left@, old(errors)@),
        ),
        old(errors)@.len() <= final(errors)@.len(),
        r is None ==> old(errors)@.len() < final(errors)@.len(),
        r matches Some((e, next)) ==> pos <= next <= input@.len() && (left@.error_free()
            && old(errors)@.len() == final(errors)@.len() ==> e@.error_free()),
    decreases input@.len() - pos, 7int,
{
    let size = match width_at(input, pos) {
        Some(size) => size,
        None => {
            return Some((left, pos));
        },
    };
    let (right, next) = match atom(input, pos + 1, errors) {
        Some(read) => read,
        None => {
            return None;
        },
    };
    if !input.is_op(next, "=") {
        input.unexpected(next, Expected::Assign, errors);
        return None;
    }
    let (value, after) = match expression(input, next + 1, errors) {
        Some(read) => read,
        None => {
            return None;
        },
    };
    memory_rest(input, after, make_poke(left, size, right, value), errors)
}

/// Reads an atom with the memory writes that follow it.
fn memory(input: &Input, pos: usize, errors: &mut Vec<SyntaxError>) -> (r: Option<
    (Expression, usize),
>)
    ensures
        reads_expression(r, final(errors)@, read_memory(input@, pos as int, old(errors)@)),
        advances(r, pos, input@.len(), old(errors)@, final(errors)@),
    decreases input@.len() - pos, 8int,
{
    match atom(input, pos, errors) {
        Some((left, next)) => memory_rest(input, next, left, errors),
        None => None,
    }
}

/// The binary operator of a level that the token at `pos` is.
fn operator_at(input: &Input, pos: usize, level: u8) -> (r: Option<BinOp>)
    ensures
        r == operator_token(input@.token(pos as int), level as int),
        r is Some ==> pos < input.tokens@.len(),
{
    if pos < input.tokens.len() {
        match &input.tokens[pos].0 {
            Token::Op(text) => operator_named(text.as_str(), level),
            _ => None,
        }
    } else {
        None
    }
}

/// Builds the binary operation of two expressions.
fn make_binary(op: BinOp, left: Expression, right: Expression) -> (r: Expression)
    ensures
        r@ == binary(op, left@, right@),
{
    let span = Span { start: left.span.start, end: right.span.end };
    Expr::BinOp { op, left: Box::new(left), right: Box::new(right) }.with_span(span)
}

/// Reads the operators of a level and their right operands that follow an
/// expression.
fn binary_rest(
    input: &Input,
    pos: usize,
    level: u8,
    left: Expression,
    errors: &mut Vec<SyntaxError>,
) -> (r: Option<(Expression, usize)>)
    requires
        pos <= input@.len(),
        level <= 4,
    ensures
        reads_expression(
            r,
            final(errors)@,
            read_binary_rest(input@, pos as int, level as nat, left@, old(errors)@),
        ),
        old(errors)@.len() <= final(errors)@.len(),
        r is None ==> old(errors)@.len() < final(errors)@.len(),
        r matches Some((e, next)) ==> pos <= next <= input@.len() && (left@.error_free()
            && old(errors)@.len() == final(errors)@.len() ==> e@.error_free()),
    decreases input@.len() - pos, 9 + 2 * level,
{
    if level == 0 {
        return Some((left, pos));
    }
    let op = match operator_at(input, pos, level) {
        Some(op) => op,
        None => {
            return Some((left, pos));
        },
    };
    match binary_parser(input, pos + 1, level - 1, errors) {
        Some((right, next)) => binary_rest(input, next, level, make_binary(op, left, right), errors),
        None => None,
    }
}

/// Reads an expression of a level of precedence.
fn binary_parser(input: &Input, pos: usize, level: u8, errors: &mut Vec<SyntaxError>) -> (r:
    Option<(Expression, usize)>)
    requires
        level <= 4,
    ensures
        reads_expression(
            r,
            final(errors)@,
            read_binary(input@, pos as int, level as nat, old(errors)@),
        ),
        advances(r, pos, input@.len(), old(errors)@, final(errors)@),
    decreases input@.len() - pos, 10 + 2 * level,
{
    if level == 0 {
        return memory(input, pos, errors);
    }
    match binary_parser(input, pos, level - 1, errors) {
        Some((left, next)) => binary_rest(input, next, level, left, errors),
        None => None,
    }
}

/// Reads an expression.
pub fn expression(input: &Input, pos: usize, errors: &mut Vec<SyntaxError>) -> (r: Option<
    (Expression, usize),
>)
    ensures
        reads_expression(r, final(errors)@, read_expression(input@, pos as int, old(errors)@)),
        advances(r, pos, input@.len(), old(errors)@, final(errors)@),
    decreases input@.len() - pos, 19int,
{
    binary_parser(input, pos, 4, errors)
}

/// Whether an expression can start with the token at `pos`.
fn expression_starts(input: &Input, pos: usize) -> (r: bool)
    ensures
        r == starts_expression(input@.token(pos as int)),
{
    if pos < input.tokens.len() {
        match &input.tokens[pos].0 {
            Token::Int(_) => true,
            Token::Float(_) => true,
            Token::Ident(_) => true,
            Token::Loop => true,
            Token::BranchIf => true,
            Token::Let => true,
            Token::Ctrl(c) => *c == '(',
            _ => false,
        }
    } else {
        false
    }
}

/// Whether a block was read as the grammar says.
pub open spec fn reads_block(
    r: Option<(Block, usize)>,
    errors: Seq<SyntaxError>,
    expected: Parsed<crate::ast::BlockView>,
) -> bool {
    &&& expected.errors == errors
    &&& match r {
        Some((value, pos)) => expected.value == Some(value@) && expected.pos == pos,
        None => expected.value is None,
    }
}

/// Reads a block: expressions that each end with `;`, and at most one
/// expression without it at the end.
pub fn block_parser(input: &Input, pos: usize, errors: &mut Vec<SyntaxError>) -> (r: Option<
    (Block, usize),
>)
    requires
        pos <= input@.len(),
    ensures
        reads_block(r, final(errors)@, read_block(input@, pos as int, old(errors)@)),
        old(errors)@.len() <= final(errors)@.len(),
        r is None ==> old(errors)@.len() < final(errors)@.len(),
        r matches Some((b, next)) ==> pos <= next <= input@.len() && (old(errors)@.len()
            == final(errors)@.len() ==> b@.error_free()),
    decreases input@.len() - pos, 21int,
{
    let count = input.count();
    let ghost errors0 = errors@;
    let mut statements: Vec<Expression> = Vec::new();
    let mut at = pos;
    assert(expression_views(statements@) =~= Seq::empty());
    loop
        invariant
            count == input@.len(),
            pos <= at <= input@.len(),
            errors0 == old(errors)@,
            read_block(input@, pos as int, errors0) == read_block_rest(
                input@,
                at as int,
                expression_views(statements@),
                errors@,
            ),
            errors0.len() <= errors@.len(),
            errors0.len() == errors@.len() ==> forall|i: int|
                0 <= i < statements@.len() ==> (#[trigger] statements@[i])@.error_free(),
        decreases input@.len() - at,
    {
        if !expression_starts(input, at) {
            let b = Block { statements, final_expression: None };
            return Some((b, at));
        }
        let (e, next) = match expression(input, at, errors) {
            Some(read) => read,
            None => {
                return None;
            },
        };
        if input.is_ctrl(next, ';') {
            let ghost before = statements@;
            statements.push(e);
            proof {
                assert(expression_views(statements@) =~= expression_views(before).push(e@));
                if errors0.len() == errors@.len() {
                    assert forall|i: int| 0 <= i < statements@.len() implies (
                    #[trigger] statements@[i])@.error_free() by {
                        if i < before.len() {
                            assert(statements@[i] == before[i]);
                        }
                    }
                }
            }
            at = next + 1;
        } else {
            let b = Block { statements, final_expression: Some(Box::new(e)) };
            return Some((b, next));
        }
    }
}

/// The views of parameters, element by element.
pub open spec fn parameter_views(params: Seq<(String, Type)>) -> Seq<(Seq<char>, Type)> {
    Seq::new(params.len(), |i: int| (params[i].0@, params[i].1))
}

/// Reads a parameter.
fn parameter(input: &Input, pos: usize, errors: &mut Vec<SyntaxError>) -> (r: Option<
    ((String, Type), usize),
>)
    ensures
        reads(
            r,
            final(errors)@,
            read_param(input@, pos as int, old(errors)@),
            |p: (String, Type)| (p.0@, p.1),
        ),
        old(errors)@.len() <= final(errors)@.len(),
        r is None ==> old(errors)@.len() < final(errors)@.len(),
        r is Some ==> old(errors)@.len() == final(errors)@.len(),
        r matches Some((_, next)) ==> next == pos + 3 && next <= input@.len(),
{
    let (name, _) = match identifier(input, pos, errors) {
        Some(read) => read,
        None => {
            return None;
        },
    };
    if !input.is_ctrl(pos + 1, ':') {
        input.unexpected(pos + 1, Expected::Ctrl(':'), errors);
        return None;
    }
    assert(pos + 1 < input@.len());
    match type_parser(input, pos + 2, errors) {
        Some((type_, _)) => Some(((name, type_), pos + 3)),
        None => None,
    }
}

/// Whether parameters were read as the grammar says.
pub open spec fn reads_params(
    r: Option<(Vec<(String, Type)>, usize)>,
    errors: Seq<SyntaxError>,
    expected: Parsed<Seq<(Seq<char>, Type)>>,
) -> bool {
    &&& expected.errors == errors
    &&& match r {
        Some((value, pos)) => expected.value == Some(parameter_views(value@)) && expected.pos
            == pos,
        None => expected.value is None,
    }
}

/// Reads the parameters behind the ones read so far.
fn more_parameters(
    input: &Input,
    pos: usize,
    params: Vec<(String, Type)>,
    errors: &mut Vec<SyntaxError>,
) -> (r: Option<(Vec<(String, Type)>, usize)>)
    requires
        pos <= input@.len(),
    ensures
        reads_params(
            r,
            final(errors)@,
            read_more_params(input@, pos as int, parameter_views(params@), old(errors)@),
        ),
        old(errors)@.len() <= final(errors)@.len(),
        r is None ==> old(errors)@.len() < final(errors)@.len(),
        r is Some ==> old(errors)@.len() == final(errors)@.len(),
        r matches Some((_, next)) ==> pos <= next <= input@.len(),
    decreases input@.len() - pos,
{
    if !input.is_ctrl(pos, ',') {
        return Some((params, pos));
    }
    match parameter(input, pos + 1, errors) {
        Some((param, next)) => {
            let mut params = params;
            let ghost before = params@;
            params.push(param);
            proof {
                assert(parameter_views(params@) =~= parameter_views(before).push(
                    (param.0@, param.1),
                ));
            }
            more_parameters(input, next, params, errors)
        },
        None => None,
    }
}

/// Reads the parameters of a function.
fn parameters(input: &Input, pos: usize, errors: &mut Vec<SyntaxError>) -> (r: Option<
    (Vec<(String, Type)>, usize),
>)
    requires
        pos <= input@.len(),
    ensures
        reads_params(r, final(errors)@, read_params(input@, pos as int, old(errors)@)),
        old(errors)@.len() <= final(errors)@.len(),
        r is None ==> old(errors)@.len() < final(errors)@.len(),
        r is Some ==> old(errors)@.len() == final(errors)@.len(),
        r matches Some((_, next)) ==> pos <= next <= input@.len(),
{
    let starts = pos < input.tokens.len() && match &input.tokens[pos].0 {
        Token::Ident(_) => true,
        _ => false,
    };
    let mut params: Vec<(String, Type)> = Vec::new();
    if !starts {
        assert(parameter_views(params@) =~= Seq::empty());
        return Some((params, pos));
    }
    match parameter(input, pos, errors) {
        Some((param, next)) => {
            params.push(param);
            proof {
                assert(parameter_views(params@) =~= seq![(param.0@, param.1)]);
            }
            more_parameters(input, next, params, errors)
        },
        None => None,
    }
}

/// Whether an item was read as the grammar says.
pub open spec fn reads_item<T: View>(
    r: Option<(T, usize)>,
    errors: Seq<SyntaxError>,
    expected: Parsed<T::V>,
) -> bool {
    &&& expected.errors == errors
    &&& match r {
        Some((value, pos)) => expected.value == Some(value@) && expected.pos == pos,
        None => expected.value is None,
    }
}

/// Reads a function.
fn function_parser(input: &Input, pos: usize, errors: &mut Vec<SyntaxError>) -> (r: Option<
    (Function, usize),
>)
    requires
        pos < input@.len(),
    ensures
        reads_item(r, final(errors)@, read_function(input@, pos as int, old(errors)@)),
        old(errors)@.len() <= final(errors)@.len(),
        r is None ==> old(errors)@.len() < final(errors)@.len(),
        r matches Some((f, next)) ==> pos < next <= input@.len() && (old(errors)@.len()
            == final(errors)@.len() ==> f@.body.error_free()),
{
    let count = input.count();
    let export = match &input.tokens[pos].0 {
        Token::Export => true,
        _ => false,
    };
    let fn_pos = if export {
        pos + 1
    } else {
        pos
    };
    let is_fn = fn_pos < count && match &input.tokens[fn_pos].0 {
        Token::Fn => true,
        _ => false,
    };
    if !is_fn {
        input.unexpected(fn_pos, Expected::Function, errors);
        return None;
    }
    let (name, _) = match identifier(input, fn_pos + 1, errors) {
        Some(read) => read,
        None => {
            return None;
        },
    };
    if !input.is_ctrl(fn_pos + 2, '(') {
        input.unexpected(fn_pos + 2, Expected::Ctrl('('), errors);
        return None;
    }
    let (params, after_params) = match parameters(input, fn_pos + 3, errors) {
        Some(read) => read,
        None => {
            return None;
        },
    };
    if !input.is_ctrl(after_params, ')') {
        input.unexpected(after_params, Expected::Ctrl(')'), errors);
        return None;
    }
    let (type_, brace) = if input.is_op(after_params + 1, "->") {
        match type_parser(input, after_params + 2, errors) {
            Some((type_, next)) => (Some(type_), next),
            None => {
                return None;
            },
        }
    } else {
        (None, after_params + 1)
    };
    if !input.is_ctrl(brace, '{') {
        input.unexpected(brace, Expected::Ctrl('{'), errors);
        return None;
    }
    let (block, next) = match block_parser(input, brace + 1, errors) {
        Some(read) => read,
        None => {
            return None;
        },
    };
    if !input.is_ctrl(next, '}') {
        input.unexpected(next, Expected::Ctrl('}'), errors);
        return None;
    }
    let ghost clean = block@.error_free();
    let body = Expr::Block(block).with_span(input.covering(brace, next + 1));
    proof {
        lemma_view_parts(body);
        assert(clean ==> body@.error_free());
    }
    let f = Function {
        span: input.covering(pos, next + 1),
        export,
        start: false,
        name,
        params,
        type_,
        body,
        locals: Locals::new(),
    };
    proof {
        assert(f@.params =~= parameter_views(f.params@));
    }
    Some((f, next + 1))
}

/// Reads what an import brings in.
fn import_type_parser(input: &Input, pos: usize, errors: &mut Vec<SyntaxError>) -> (r: Option<
    (ImportType, usize),
>)
    requires
        pos <= input@.len(),
    ensures
        reads_item(r, final(errors)@, read_import_type(input@, pos as int, old(errors)@)),
        old(errors)@.len() <= final(errors)@.len(),
        r is None ==> old(errors)@.len() < final(errors)@.len(),
        r is Some ==> old(errors)@.len() == final(errors)@.len(),
        r matches Some((_, next)) ==> pos < next <= input@.len(),
{
    let count = input.count();
    if pos >= count {
        input.unexpected(pos, Expected::ImportKind, errors);
        return None;
    }
    match &input.tokens[pos].0 {
        Token::Memory => {
            if !input.is_ctrl(pos + 1, '(') {
                input.unexpected(pos + 1, Expected::Ctrl('('), errors);
                return None;
            }
            let pages = if pos + 2 < count {
                match &input.tokens[pos + 2].0 {
                    Token::Int(v) => Some(*v),
                    _ => None,
                }
            } else {
                None
            };
            match pages {
                Some(pages) => {
                    if !input.is_ctrl(pos + 3, ')') {
                        input.unexpected(pos + 3, Expected::Ctrl(')'), errors);
                        return None;
                    }
                    if pages < 0 {
                        input.unexpected(pos + 2, Expected::Integer, errors);
                        return None;
                    }
                    Some((ImportType::Memory(pages as u32), pos + 4))
                },
                None => {
                    input.unexpected(pos + 2, Expected::Integer, errors);
                    None
                },
            }
        },
        Token::Global => {
            let mutable = pos + 1 < count && match &input.tokens[pos + 1].0 {
                Token::Mut => true,
                _ => false,
            };
            let name_pos = if mutable {
                pos + 2
            } else {
                pos + 1
            };
            let (name, _) = match identifier(input, name_pos, errors) {
                Some(read) => read,
                None => {
                    return None;
                },
            };
            if !input.is_ctrl(name_pos + 1, ':') {
                input.unexpected(name_pos + 1, Expected::Ctrl(':'), errors);
                return None;
            }
            match type_parser(input, name_pos + 2, errors) {
                Some((type_, _)) => Some(
                    (ImportType::Variable { name, type_, mutable }, name_pos + 3),
                ),
                None => None,
            }
        },
        _ => {
            input.unexpected(pos, Expected::ImportKind, errors);
            None
        },
    }
}

/// Reads an import.
fn import_parser(input: &Input, pos: usize, errors: &mut Vec<SyntaxError>) -> (r: Option<
    (Import, usize),
>)
    requires
        pos < input@.len(),
    ensures
        reads_item(r, final(errors)@, read_import(input@, pos as int, old(errors)@)),
        old(errors)@.len() <= final(errors)@.len(),
        r is None ==> old(errors)@.len() < final(errors)@.len(),
        r is Some ==> old(errors)@.len() == final(errors)@.len(),
        r matches Some((_, next)) ==> pos < next <= input@.len(),
{
    let count = input.count();
    let source = if pos + 1 < count {
        match &input.tokens[pos + 1].0 {
            Token::Str(text) => Some(text.clone()),
            _ => None,
        }
    } else {
        None
    };
    let source = match source {
        Some(source) => source,
        None => {
            input.unexpected(pos + 1, Expected::String, errors);
            return None;
        },
    };
    let (type_, next) = match import_type_parser(input, pos + 2, errors) {
        Some(read) => read,
        None => {
            return None;
        },
    };
    if !input.is_ctrl(next, ';') {
        input.unexpected(next, Expected::Ctrl(';'), errors);
        return None;
    }
    Some((Import { span: input.covering(pos, next + 1), import: source, type_ }, next + 1))
}

/// Reads an import or a function. `None` with no new error means that the
/// input has ended.
pub fn top_level_item_parser(input: &Input, pos: usize, errors: &mut Vec<SyntaxError>) -> (r:
    Option<(TopLevelItem, usize)>)
    ensures
        old(errors)@.len() <= final(errors)@.len(),
        pos >= input@.len() ==> r is None && final(errors)@ == old(errors)@,
        pos < input@.len() ==> (r is None ==> old(errors)@.len() < final(errors)@.len()),
        match input@.token(pos as int) {
            None => true,
            Some(TokenView::Import) => match r {
                Some((TopLevelItem::Import(import), next)) => reads_item(
                    Some((import, next)),
                    final(errors)@,
                    read_import(input@, pos as int, old(errors)@),
                ) && old(errors)@.len() == final(errors)@.len(),
                Some(_) => false,
                None => reads_item(
                    None::<(Import, usize)>,
                    final(errors)@,
                    read_import(input@, pos as int, old(errors)@),
                ),
            },
            Some(token) => if token == TokenView::Export || token == TokenView::Fn {
                match r {
                    Some((TopLevelItem::Function(f), next)) => reads_item(
                        Some((f, next)),
                        final(errors)@,
                        read_function(input@, pos as int, old(errors)@),
                    ) && (old(errors)@.len() == final(errors)@.len() ==> f@.body.error_free()),
                    Some(_) => false,
                    None => reads_item(
                        None::<(Function, usize)>,
                        final(errors)@,
                        read_function(input@, pos as int, old(errors)@),
                    ),
                }
            } else {
                r is None && final(errors)@ == old(errors)@.push(
                    input@.unexpected(pos as int, Expected::Item),
                )
            },
        },
        r matches Some((_, next)) ==> pos < next <= input@.len(),
{
    if pos >= input.tokens.len() {
        return None;
    }
    match &input.tokens[pos].0 {
        Token::Import => match import_parser(input, pos, errors) {
            Some((import, next)) => Some((TopLevelItem::Import(import), next)),
            None => None,
        },
        Token::Export => match function_parser(input, pos, errors) {
            Some((f, next)) => Some((TopLevelItem::Function(f), next)),
            None => None,
        },
        Token::Fn => match function_parser(input, pos, errors) {
            Some((f, next)) => Some((TopLevelItem::Function(f), next)),
            None => None,
        },
        _ => {
            input.unexpected(pos, Expected::Item, errors);
            None
        },
    }
}

/// Reads a script from tokens: the script, if it could be read to the end
/// of the input, and all errors that were found. A script that was read
/// with errors holds error placeholders.
pub fn script_parser(input: &Input) -> (r: (Option<Script>, Vec<SyntaxError>))
    ensures
        r.1@ == read_script(input@).errors,
        match r.0 {
            Some(script) => read_script(input@).value == Some(script@) && (r.1@.len() == 0
                ==> script@.error_free()),
            None => read_script(input@).value is None && r.1@.len() > 0,
        },
{
    let mut script = Script {
        imports: Vec::new(),
        global_vars: Vec::new(),
        functions: Vec::new(),
        data: Vec::new(),
    };
    let mut errors: Vec<SyntaxError> = Vec::new();
    let mut pos: usize = 0;
    proof {
        assert(script@.imports =~= Seq::empty());
        assert(script@.global_vars =~= Seq::empty());
        assert(script@.functions =~= Seq::empty());
        assert(script@.data =~= Seq::empty());
    }
    loop
        invariant
            pos <= input@.len(),
            read_script(input@) == read_items(input@, pos as int, script@, errors@),
            errors@.len() == 0 ==> script@.error_free(),
        ensures
            pos >= input@.len(),
            read_script(input@) == read_items(input@, pos as int, script@, errors@),
            errors@.len() == 0 ==> script@.error_free(),
        decreases input@.len() - pos,
    {
        let ghost before = script@;
        let ghost before_functions = script.functions@;
        match top_level_item_parser(input, pos, &mut errors) {
            Some((TopLevelItem::Import(import), next)) => {
                script.imports.push(import);
                proof {
                    assert(script@.imports =~= before.imports.push(import@));
                }
                pos = next;
            },
            Some((TopLevelItem::Function(f), next)) => {
                script.functions.push(f);
                proof {
                    assert(script@.functions =~= before.functions.push(f@));
                    assert(errors@.len() == 0 ==> script@.error_free()) by {
                        if errors@.len() == 0 {
                            assert forall|i: int| 0 <= i < script@.functions.len() implies (
                            #[trigger] script@.functions[i]).body.error_free() by {
                                if i < before.functions.len() {
                                    assert(script@.functions[i] == before.functions[i]);
                                }
                            }
                        }
                    }
                }
                pos = next;
            },
            Some((_, next)) => {
                pos = next;
            },
            None => {
                if pos >= input.tokens.len() {
                    break;
                }
                return (None, errors);
            },
        }
    }
    (Some(script), errors)
}

/// The span that stands for the end of a text: the one position behind its
/// last character.
pub open spec fn end_of_input(source: Seq<char>) -> Span {
    Span {
        start: source.len() as usize,
        end: if source.len() < usize::MAX {
            (source.len() + 1) as usize
        } else {
            source.len() as usize
        },
    }
}

/// The script that a text spells, or its errors: the lexical errors if
/// there are any, else the errors of the grammar.
pub open spec fn parse_text(source: Seq<char>) -> Result<crate::ast::ScriptView, Seq<SyntaxError>> {
    let lexed = lex(source);
    if lexed.errors.len() > 0 {
        Err(lexed.errors)
    } else {
        let parsed = read_script(Tokens { toks: lexed.tokens, eoi: end_of_input(source) });
        if parsed.errors.len() > 0 || parsed.value is None {
            Err(parsed.errors)
        } else {
            Ok(parsed.value.unwrap())
        }
    }
}

/// Reads a script from source text. A script that is returned holds no
/// error placeholder.
pub fn parse(source: &str) -> (r: Result<Script, Vec<SyntaxError>>)
    ensures
        match r {
            Ok(script) => parse_text(source@) == Ok::<_, Seq<SyntaxError>>(script@)
                && script@.error_free(),
            Err(errors) => parse_text(source@) == Err::<crate::ast::ScriptView, _>(errors@)
                && errors@.len() > 0,
        },
{
    let (tokens, errors) = lexer(source);
    if errors.len() > 0 {
        return Err(errors);
    }
    let n = source.unicode_len();
    let end = if n < usize::MAX {
        n + 1
    } else {
        n
    };
    let input = Input { tokens: &tokens, eoi: Span { start: n, end } };
    let (script, errors) = script_parser(&input);
    match script {
        Some(script) => {
            if errors.len() > 0 {
                Err(errors)
            } else {
                Ok(script)
            }
        },
        None => Err(errors),
    }
}

} // verus!
