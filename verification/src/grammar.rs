//! The grammar, as functions from a token sequence and a position to what
//! is read there.
//!
//! A script is a sequence of imports and functions. Expressions are layered
//! by precedence, every layer associating to the left: atoms, memory
//! writes, products, sums, comparisons, bitwise operations. The inside of
//! a pair of parentheses that cannot be read is skipped up to the closing
//! parenthesis and stands in the tree as an error placeholder.

use crate::ast::{
    BinOp, BlockView, ExprView, ExpressionView, FunctionView, ImportTypeView, ImportView, LetType,
    LocalsView, MemSize, MemoryLocationView, ScriptView, Span, Type,
};
use crate::lexer::TokenView;
use crate::syntax::{Expected, SyntaxError, SyntaxErrorKind};
use vstd::prelude::*;

verus! {

/// The tokens of a text, and the span that stands for its end.
pub ghost struct Tokens {
    pub toks: Seq<(TokenView, Span)>,
    pub eoi: Span,
}

impl Tokens {
    /// The number of tokens.
    pub open spec fn len(self) -> int {
        self.toks.len() as int
    }

    /// The token at `pos`; `None` behind the last token.
    pub open spec fn token(self, pos: int) -> Option<TokenView> {
        if 0 <= pos < self.toks.len() {
            Some(self.toks[pos].0)
        } else {
            None
        }
    }

    /// The span of the token at `pos`, or that of the end of the input.
    pub open spec fn span(self, pos: int) -> Span {
        if 0 <= pos < self.toks.len() {
            self.toks[pos].1
        } else {
            self.eoi
        }
    }

    /// Whether the token at `pos` is the punctuation character `c`.
    pub open spec fn is_ctrl(self, pos: int, c: char) -> bool {
        self.token(pos) == Some(TokenView::Ctrl(c))
    }

    /// Whether the token at `pos` is the operator `text`.
    pub open spec fn is_op(self, pos: int, text: Seq<char>) -> bool {
        self.token(pos) == Some(TokenView::Op(text))
    }

    /// The span from the token at `from` to the token before `to`.
    pub open spec fn covering(self, from: int, to: int) -> Span {
        Span { start: self.span(from).start, end: self.span(to - 1).end }
    }

    /// The error for something else than `expected` at `pos`.
    pub open spec fn unexpected(self, pos: int, expected: Expected) -> SyntaxError {
        SyntaxError { span: self.span(pos), kind: SyntaxErrorKind::Unexpected(expected) }
    }
}

/// What was read: the value and the position behind it, or `None` where
/// reading failed; and the errors found up to there.
pub ghost struct Parsed<T> {
    pub value: Option<T>,
    pub pos: int,
    pub errors: Seq<SyntaxError>,
}

/// `value` was read, and reading goes on at `pos`.
pub open spec fn read<T>(value: T, pos: int, errors: Seq<SyntaxError>) -> Parsed<T> {
    Parsed { value: Some(value), pos, errors }
}

/// Reading failed at `pos`.
pub open spec fn failed<T>(pos: int, errors: Seq<SyntaxError>) -> Parsed<T> {
    Parsed { value: None, pos, errors }
}

/// An expression that has no type yet.
pub open spec fn untyped(expr: ExprView, span: Span) -> ExpressionView {
    ExpressionView { type_: None, expr, span }
}

/// The binary operator that an operator token stands for on a level of
/// precedence: 1 for products, 2 for sums, 3 for comparisons, 4 for bitwise
/// operations.
pub open spec fn binary_operator(text: Seq<char>, level: int) -> Option<BinOp> {
    if level == 1 {
        if text == "*"@ {
            Some(BinOp::Mul)
        } else if text == "/"@ {
            Some(BinOp::Div)
        } else if text == "%"@ {
            Some(BinOp::Rem)
        } else {
            None
        }
    } else if level == 2 {
        if text == "+"@ {
            Some(BinOp::Add)
        } else if text == "-"@ {
            Some(BinOp::Sub)
        } else {
            None
        }
    } else if level == 3 {
        if text == "=="@ {
            Some(BinOp::Eq)
        } else if text == "!="@ {
            Some(BinOp::Ne)
        } else if text == "<"@ {
            Some(BinOp::Lt)
        } else if text == "<="@ {
            Some(BinOp::Le)
        } else if text == ">"@ {
            Some(BinOp::Gt)
        } else if text == ">="@ {
            Some(BinOp::Ge)
        } else {
            None
        }
    } else if level == 4 {
        if text == "&"@ {
            Some(BinOp::And)
        } else if text == "|"@ {
            Some(BinOp::Or)
        } else if text == "^"@ {
            Some(BinOp::Xor)
        } else {
            None
        }
    } else {
        None
    }
}

/// The binary operator of a level that the token is, if it is one.
pub open spec fn operator_token(token: Option<TokenView>, level: int) -> Option<BinOp> {
    match token {
        Some(TokenView::Op(text)) => binary_operator(text, level),
        _ => None,
    }
}

/// The type that an identifier names.
pub open spec fn named_type(text: Seq<char>) -> Option<Type> {
    if text == "i32"@ {
        Some(Type::I32)
    } else if text == "i64"@ {
        Some(Type::I64)
    } else if text == "f32"@ {
        Some(Type::F32)
    } else if text == "f64"@ {
        Some(Type::F64)
    } else {
        None
    }
}

/// Whether an expression can start with the token.
pub open spec fn starts_expression(token: Option<TokenView>) -> bool {
    match token {
        Some(TokenView::Int(_)) => true,
        Some(TokenView::Float(_)) => true,
        Some(TokenView::Ident(_)) => true,
        Some(TokenView::Loop) => true,
        Some(TokenView::BranchIf) => true,
        Some(TokenView::Let) => true,
        Some(TokenView::Ctrl(c)) => c == '(',
        _ => false,
    }
}

/// A type: one of the identifiers `i32`, `i64`, `f32`, `f64`.
pub open spec fn read_type(t: Tokens, pos: int, errors: Seq<SyntaxError>) -> Parsed<Type> {
    match t.token(pos) {
        Some(TokenView::Ident(text)) => match named_type(text) {
            Some(type_) => read(type_, pos + 1, errors),
            None => failed(pos, errors.push(t.unexpected(pos, Expected::Type))),
        },
        _ => failed(pos, errors.push(t.unexpected(pos, Expected::Type))),
    }
}

/// An identifier.
pub open spec fn read_identifier(t: Tokens, pos: int, errors: Seq<SyntaxError>) -> Parsed<
    Seq<char>,
> {
    match t.token(pos) {
        Some(TokenView::Ident(text)) => read(text, pos + 1, errors),
        _ => failed(pos, errors.push(t.unexpected(pos, Expected::Identifier))),
    }
}

/// The position of the parenthesis that closes the one before `pos`, where
/// `depth` parentheses and `braces` braces are open. `None` where the input
/// ends first, or a brace closes that was not opened behind the
/// parenthesis.
pub open spec fn closing_parenthesis(toks: Seq<(TokenView, Span)>, pos: int, depth: int, braces: int)
    -> Option<int>
    decreases toks.len() - pos,
{
    if pos < 0 || pos >= toks.len() {
        None
    } else {
        match toks[pos].0 {
            TokenView::Ctrl(c) => if c == '(' {
                closing_parenthesis(toks, pos + 1, depth + 1, braces)
            } else if c == ')' {
                if depth <= 1 {
                    Some(pos)
                } else {
                    closing_parenthesis(toks, pos + 1, depth - 1, braces)
                }
            } else if c == '{' {
                closing_parenthesis(toks, pos + 1, depth, braces + 1)
            } else if c == '}' {
                if braces <= 0 {
                    None
                } else {
                    closing_parenthesis(toks, pos + 1, depth, braces - 1)
                }
            } else {
                closing_parenthesis(toks, pos + 1, depth, braces)
            },
            _ => closing_parenthesis(toks, pos + 1, depth, braces),
        }
    }
}

/// What stands for a parenthesis at `pos` whose inside could not be read:
/// an error placeholder up to the closing parenthesis, or a failure where
/// there is none.
pub open spec fn recover_parenthesis(t: Tokens, pos: int, errors: Seq<SyntaxError>) -> Parsed<
    ExpressionView,
> {
    match closing_parenthesis(t.toks, pos + 1, 1, 0) {
        Some(close) => read(untyped(ExprView::Error, t.covering(pos, close + 1)), close + 1, errors),
        None => failed(
            pos,
            errors.push(
                SyntaxError { span: t.eoi, kind: SyntaxErrorKind::Unclosed { open: t.span(pos) } },
            ),
        ),
    }
}

/// An expression in parentheses. Where the inside cannot be read, an error
/// placeholder stands for everything up to the closing parenthesis.
pub open spec fn read_parenthesis(t: Tokens, pos: int, errors: Seq<SyntaxError>) -> Parsed<
    ExpressionView,
>
    decreases t.len() - pos, 5int,
{
    if pos < 0 || pos >= t.len() {
        failed(pos, errors)
    } else {
        let inner = read_expression(t, pos + 1, errors);
        if inner.value is Some {
            if t.is_ctrl(inner.pos, ')') {
                read(inner.value.unwrap(), inner.pos + 1, inner.errors)
            } else {
                recover_parenthesis(
                    t,
                    pos,
                    inner.errors.push(t.unexpected(inner.pos, Expected::Ctrl(')'))),
                )
            }
        } else {
            recover_parenthesis(t, pos, inner.errors)
        }
    }
}

/// A `let`: `let [defer] name [: type] [= value]`.
pub open spec fn read_let(t: Tokens, pos: int, errors: Seq<SyntaxError>) -> Parsed<ExpressionView>
    decreases t.len() - pos, 5int,
{
    if pos < 0 || pos >= t.len() {
        failed(pos, errors)
    } else {
        let defer = t.token(pos + 1) == Some(TokenView::Defer);
        let name_pos = if defer {
            pos + 2
        } else {
            pos + 1
        };
        let name = read_identifier(t, name_pos, errors);
        if name.value is None {
            failed(name.pos, name.errors)
        } else {
            let type_ = if t.is_ctrl(name.pos, ':') {
                let read_ = read_type(t, name.pos + 1, name.errors);
                Parsed { value: read_.value, pos: read_.pos, errors: read_.errors }
            } else {
                Parsed { value: None::<Type>, pos: name.pos, errors: name.errors }
            };
            if t.is_ctrl(name.pos, ':') && type_.value is None {
                failed(type_.pos, type_.errors)
            } else if t.is_op(type_.pos, "="@) {
                let value = read_expression(t, type_.pos + 1, type_.errors);
                if value.value is None {
                    failed(value.pos, value.errors)
                } else {
                    read(
                        untyped(
                            ExprView::Let {
                                name: name.value.unwrap(),
                                type_: type_.value,
                                value: Some(Box::new(value.value.unwrap())),
                                let_type: if defer {
                                    LetType::Inline
                                } else {
                                    LetType::Normal
                                },
                                local_id: None,
                            },
                            t.covering(pos, value.pos),
                        ),
                        value.pos,
                        value.errors,
                    )
                }
            } else {
                read(
                    untyped(
                        ExprView::Let {
                            name: name.value.unwrap(),
                            type_: type_.value,
                            value: None,
                            let_type: if defer {
                                LetType::Inline
                            } else {
                                LetType::Normal
                            },
                            local_id: None,
                        },
                        t.covering(pos, type_.pos),
                    ),
                    type_.pos,
                    type_.errors,
                )
            }
        }
    }
}

/// A loop: `loop label { block }`.
pub open spec fn read_loop(t: Tokens, pos: int, errors: Seq<SyntaxError>) -> Parsed<ExpressionView>
    decreases t.len() - pos, 5int,
{
    if pos < 0 || pos >= t.len() {
        failed(pos, errors)
    } else {
        let label = read_identifier(t, pos + 1, errors);
        if label.value is None {
            failed(label.pos, label.errors)
        } else if !t.is_ctrl(pos + 2, '{') {
            failed(pos + 2, label.errors.push(t.unexpected(pos + 2, Expected::Ctrl('{'))))
        } else {
            let block = read_block(t, pos + 3, label.errors);
            if block.value is None {
                failed(block.pos, block.errors)
            } else if !t.is_ctrl(block.pos, '}') {
                failed(
                    block.pos,
                    block.errors.push(t.unexpected(block.pos, Expected::Ctrl('}'))),
                )
            } else {
                read(
                    untyped(
                        ExprView::Loop {
                            label: label.value.unwrap(),
                            block: Box::new(
                                untyped(
                                    ExprView::Block(block.value.unwrap()),
                                    t.covering(pos + 2, block.pos + 1),
                                ),
                            ),
                        },
                        t.covering(pos, block.pos + 1),
                    ),
                    block.pos + 1,
                    block.errors,
                )
            }
        }
    }
}

/// A conditional branch: `branch_if condition : label`.
pub open spec fn read_branch_if(t: Tokens, pos: int, errors: Seq<SyntaxError>) -> Parsed<
    ExpressionView,
>
    decreases t.len() - pos, 5int,
{
    if pos < 0 || pos >= t.len() {
        failed(pos, errors)
    } else {
        let condition = read_expression(t, pos + 1, errors);
        if condition.value is None {
            failed(condition.pos, condition.errors)
        } else if !t.is_ctrl(condition.pos, ':') {
            failed(
                condition.pos,
                condition.errors.push(t.unexpected(condition.pos, Expected::Ctrl(':'))),
            )
        } else {
            let label = read_identifier(t, condition.pos + 1, condition.errors);
            if label.value is None {
                failed(label.pos, label.errors)
            } else {
                read(
                    untyped(
                        ExprView::BranchIf {
                            condition: Box::new(condition.value.unwrap()),
                            label: label.value.unwrap(),
                        },
                        t.covering(pos, label.pos),
                    ),
                    label.pos,
                    label.errors,
                )
            }
        }
    }
}

/// A tee: `name := value`.
pub open spec fn read_tee(t: Tokens, pos: int, name: Seq<char>, errors: Seq<SyntaxError>) -> Parsed<
    ExpressionView,
>
    decreases t.len() - pos, 5int,
{
    if pos < 0 || pos + 1 >= t.len() {
        failed(pos, errors)
    } else {
        let value = read_expression(t, pos + 2, errors);
        if value.value is None {
            failed(value.pos, value.errors)
        } else {
            read(
                untyped(
                    ExprView::LocalTee {
                        name,
                        value: Box::new(value.value.unwrap()),
                        local_id: None,
                    },
                    t.covering(pos, value.pos),
                ),
                value.pos,
                value.errors,
            )
        }
    }
}

/// An atom: a constant, a variable, a tee, a `let`, a loop, a conditional
/// branch, or an expression in parentheses.
pub open spec fn read_atom(t: Tokens, pos: int, errors: Seq<SyntaxError>) -> Parsed<ExpressionView>
    decreases t.len() - pos, 6int,
{
    match t.token(pos) {
        Some(TokenView::Int(v)) => read(untyped(ExprView::I32Const(v), t.span(pos)), pos + 1, errors),
        Some(TokenView::Float(text)) => read(
            untyped(ExprView::F32Const(text), t.span(pos)),
            pos + 1,
            errors,
        ),
        Some(TokenView::Ident(name)) => if t.is_op(pos + 1, ":="@) {
            read_tee(t, pos, name, errors)
        } else {
            read(
                untyped(ExprView::Variable { name, local_id: None }, t.span(pos)),
                pos + 1,
                errors,
            )
        },
        Some(TokenView::Loop) => read_loop(t, pos, errors),
        Some(TokenView::BranchIf) => read_branch_if(t, pos, errors),
        Some(TokenView::Let) => read_let(t, pos, errors),
        Some(TokenView::Ctrl(c)) => if c == '(' {
            read_parenthesis(t, pos, errors)
        } else {
            failed(pos, errors.push(t.unexpected(pos, Expected::Expression)))
        },
        _ => failed(pos, errors.push(t.unexpected(pos, Expected::Expression))),
    }
}

/// The width that a punctuation token gives a memory access: `?` for a
/// byte, `!` for a word.
pub open spec fn access_width(token: Option<TokenView>) -> Option<MemSize> {
    match token {
        Some(TokenView::Ctrl(c)) => if c == '?' {
            Some(MemSize::Byte)
        } else if c == '!' {
            Some(MemSize::Word)
        } else {
            None
        },
        _ => None,
    }
}

/// The memory write of `value` to the address `left` with the offset
/// `right`.
pub open spec fn poke(
    left: ExpressionView,
    size: MemSize,
    right: ExpressionView,
    value: ExpressionView,
) -> ExpressionView {
    untyped(
        ExprView::Poke {
            mem_location: MemoryLocationView {
                span: Span { start: left.span.start, end: right.span.end },
                size,
                left: Box::new(left),
                right: Box::new(right),
            },
            value: Box::new(value),
        },
        Span { start: left.span.start, end: value.span.end },
    )
}

/// The memory writes that follow the expression `left`: each is a width,
/// an atom for the offset, `=` and the value.
pub open spec fn read_memory_rest(
    t: Tokens,
    pos: int,
    left: ExpressionView,
    errors: Seq<SyntaxError>,
) -> Parsed<ExpressionView>
    decreases t.len() - pos, 7int,
{
    match access_width(t.token(pos)) {
        None => read(left, pos, errors),
        Some(size) => {
            let right = read_atom(t, pos + 1, errors);
            if right.value is None {
                failed(right.pos, right.errors)
            } else if !(pos < right.pos < t.len()) || !t.is_op(right.pos, "="@) {
                failed(right.pos, right.errors.push(t.unexpected(right.pos, Expected::Assign)))
            } else {
                let value = read_expression(t, right.pos + 1, right.errors);
                if value.value is None || !(pos < value.pos <= t.len()) {
                    failed(value.pos, value.errors)
                } else {
                    read_memory_rest(
                        t,
                        value.pos,
                        poke(left, size, right.value.unwrap(), value.value.unwrap()),
                        value.errors,
                    )
                }
            }
        },
    }
}

/// An atom with the memory writes that follow it.
pub open spec fn read_memory(t: Tokens, pos: int, errors: Seq<SyntaxError>) -> Parsed<
    ExpressionView,
>
    decreases t.len() - pos, 8int,
{
    let atom = read_atom(t, pos, errors);
    if atom.value is None || !(pos <= atom.pos <= t.len()) {
        failed(atom.pos, atom.errors)
    } else {
        read_memory_rest(t, atom.pos, atom.value.unwrap(), atom.errors)
    }
}

/// The binary operation of two expressions.
pub open spec fn binary(op: BinOp, left: ExpressionView, right: ExpressionView) -> ExpressionView {
    untyped(
        ExprView::BinOp { op, left: Box::new(left), right: Box::new(right) },
        Span { start: left.span.start, end: right.span.end },
    )
}

/// The operators of a level and their right operands that follow the
/// expression `left`.
pub open spec fn read_binary_rest(
    t: Tokens,
    pos: int,
    level: nat,
    left: ExpressionView,
    errors: Seq<SyntaxError>,
) -> Parsed<ExpressionView>
    decreases t.len() - pos, 9 + 2 * level,
{
    if level == 0 {
        read(left, pos, errors)
    } else {
        match operator_token(t.token(pos), level as int) {
            None => read(left, pos, errors),
            Some(op) => {
                let right = read_binary(t, pos + 1, (level - 1) as nat, errors);
                if right.value is None || !(pos < right.pos <= t.len()) {
                    failed(right.pos, right.errors)
                } else {
                    read_binary_rest(
                        t,
                        right.pos,
                        level,
                        binary(op, left, right.value.unwrap()),
                        right.errors,
                    )
                }
            },
        }
    }
}

/// An expression of a level of precedence: operands of the level below,
/// joined by the operators of the level. Level 0 is an atom with its
/// memory writes.
pub open spec fn read_binary(t: Tokens, pos: int, level: nat, errors: Seq<SyntaxError>) -> Parsed<
    ExpressionView,
>
    decreases t.len() - pos, 10 + 2 * level,
{
    if level == 0 {
        read_memory(t, pos, errors)
    } else {
        let left = read_binary(t, pos, (level - 1) as nat, errors);
        if left.value is None || !(pos <= left.pos <= t.len()) {
            failed(left.pos, left.errors)
        } else {
            read_binary_rest(t, left.pos, level, left.value.unwrap(), left.errors)
        }
    }
}

/// An expression.
pub open spec fn read_expression(t: Tokens, pos: int, errors: Seq<SyntaxError>) -> Parsed<
    ExpressionView,
>
    decreases t.len() - pos, 19int,
{
    read_binary(t, pos, 4, errors)
}

/// The rest of a block behind the statements read so far: expressions
/// that each end with `;`, and at most one expression without it at the
/// end.
pub open spec fn read_block_rest(
    t: Tokens,
    pos: int,
    statements: Seq<ExpressionView>,
    errors: Seq<SyntaxError>,
) -> Parsed<BlockView>
    decreases t.len() - pos, 20int,
{
    if !starts_expression(t.token(pos)) {
        read(BlockView { statements, final_expression: None }, pos, errors)
    } else {
        let e = read_expression(t, pos, errors);
        if e.value is None {
            failed(e.pos, e.errors)
        } else if t.is_ctrl(e.pos, ';') && pos <= e.pos < t.len() {
            read_block_rest(t, e.pos + 1, statements.push(e.value.unwrap()), e.errors)
        } else {
            read(
                BlockView { statements, final_expression: Some(Box::new(e.value.unwrap())) },
                e.pos,
                e.errors,
            )
        }
    }
}

/// A block.
pub open spec fn read_block(t: Tokens, pos: int, errors: Seq<SyntaxError>) -> Parsed<BlockView>
    decreases t.len() - pos, 21int,
{
    read_block_rest(t, pos, Seq::empty(), errors)
}

/// The parameters behind the ones read so far: each a comma, a name, a
/// colon and a type.
pub open spec fn read_more_params(
    t: Tokens,
    pos: int,
    params: Seq<(Seq<char>, Type)>,
    errors: Seq<SyntaxError>,
) -> Parsed<Seq<(Seq<char>, Type)>>
    decreases t.len() - pos,
{
    if !t.is_ctrl(pos, ',') {
        read(params, pos, errors)
    } else {
        let param = read_param(t, pos + 1, errors);
        if param.value is None || !(pos < param.pos <= t.len()) {
            failed(param.pos, param.errors)
        } else {
            read_more_params(t, param.pos, params.push(param.value.unwrap()), param.errors)
        }
    }
}

/// A parameter: a name, a colon and a type.
pub open spec fn read_param(t: Tokens, pos: int, errors: Seq<SyntaxError>) -> Parsed<
    (Seq<char>, Type),
> {
    let name = read_identifier(t, pos, errors);
    if name.value is None {
        failed(name.pos, name.errors)
    } else if !t.is_ctrl(pos + 1, ':') {
        failed(pos + 1, name.errors.push(t.unexpected(pos + 1, Expected::Ctrl(':'))))
    } else {
        let type_ = read_type(t, pos + 2, name.errors);
        if type_.value is None {
            failed(type_.pos, type_.errors)
        } else {
            read((name.value.unwrap(), type_.value.unwrap()), pos + 3, type_.errors)
        }
    }
}

/// The parameters of a function, separated by commas; there may be none.
pub open spec fn read_params(t: Tokens, pos: int, errors: Seq<SyntaxError>) -> Parsed<
    Seq<(Seq<char>, Type)>,
> {
    match t.token(pos) {
        Some(TokenView::Ident(_)) => {
            let param = read_param(t, pos, errors);
            if param.value is None {
                failed(param.pos, param.errors)
            } else {
                read_more_params(t, param.pos, seq![param.value.unwrap()], param.errors)
            }
        },
        _ => read(Seq::empty(), pos, errors),
    }
}

/// A function: `[export] fn name ( params ) [-> type] { block }`.
pub open spec fn read_function(t: Tokens, pos: int, errors: Seq<SyntaxError>) -> Parsed<
    FunctionView,
> {
    let export = t.token(pos) == Some(TokenView::Export);
    let fn_pos = if export {
        pos + 1
    } else {
        pos
    };
    if t.token(fn_pos) != Some(TokenView::Fn) {
        failed(fn_pos, errors.push(t.unexpected(fn_pos, Expected::Function)))
    } else {
        let name = read_identifier(t, fn_pos + 1, errors);
        if name.value is None {
            failed(name.pos, name.errors)
        } else if !t.is_ctrl(fn_pos + 2, '(') {
            failed(fn_pos + 2, name.errors.push(t.unexpected(fn_pos + 2, Expected::Ctrl('('))))
        } else {
            let params = read_params(t, fn_pos + 3, name.errors);
            if params.value is None {
                failed(params.pos, params.errors)
            } else if !t.is_ctrl(params.pos, ')') {
                failed(
                    params.pos,
                    params.errors.push(t.unexpected(params.pos, Expected::Ctrl(')'))),
                )
            } else {
                let type_ = if t.is_op(params.pos + 1, "->"@) {
                    let read_ = read_type(t, params.pos + 2, params.errors);
                    Parsed { value: read_.value, pos: read_.pos, errors: read_.errors }
                } else {
                    Parsed { value: None::<Type>, pos: params.pos + 1, errors: params.errors }
                };
                if t.is_op(params.pos + 1, "->"@) && type_.value is None {
                    failed(type_.pos, type_.errors)
                } else if !t.is_ctrl(type_.pos, '{') {
                    failed(
                        type_.pos,
                        type_.errors.push(t.unexpected(type_.pos, Expected::Ctrl('{'))),
                    )
                } else {
                    let block = read_block(t, type_.pos + 1, type_.errors);
                    if block.value is None {
                        failed(block.pos, block.errors)
                    } else if !t.is_ctrl(block.pos, '}') {
                        failed(
                            block.pos,
                            block.errors.push(t.unexpected(block.pos, Expected::Ctrl('}'))),
                        )
                    } else {
                        read(
                            FunctionView {
                                span: t.covering(pos, block.pos + 1),
                                export,
                                start: false,
                                name: name.value.unwrap(),
                                params: params.value.unwrap(),
                                type_: type_.value,
                                body: untyped(
                                    ExprView::Block(block.value.unwrap()),
                                    t.covering(type_.pos, block.pos + 1),
                                ),
                                locals: LocalsView::empty(),
                            },
                            block.pos + 1,
                            block.errors,
                        )
                    }
                }
            }
        }
    }
}

/// What an import brings in: `memory ( pages )`, or
/// `global [mut] name : type`.
pub open spec fn read_import_type(t: Tokens, pos: int, errors: Seq<SyntaxError>) -> Parsed<
    ImportTypeView,
> {
    match t.token(pos) {
        Some(TokenView::Memory) => if !t.is_ctrl(pos + 1, '(') {
            failed(pos + 1, errors.push(t.unexpected(pos + 1, Expected::Ctrl('('))))
        } else {
            match t.token(pos + 2) {
                Some(TokenView::Int(pages)) => if !t.is_ctrl(pos + 3, ')') {
                    failed(pos + 3, errors.push(t.unexpected(pos + 3, Expected::Ctrl(')'))))
                } else if pages < 0 {
                    failed(pos + 2, errors.push(t.unexpected(pos + 2, Expected::Integer)))
                } else {
                    read(ImportTypeView::Memory(pages as u32), pos + 4, errors)
                },
                _ => failed(pos + 2, errors.push(t.unexpected(pos + 2, Expected::Integer))),
            }
        },
        Some(TokenView::Global) => {
            let mutable = t.token(pos + 1) == Some(TokenView::Mut);
            let name_pos = if mutable {
                pos + 2
            } else {
                pos + 1
            };
            let name = read_identifier(t, name_pos, errors);
            if name.value is None {
                failed(name.pos, name.errors)
            } else if !t.is_ctrl(name_pos + 1, ':') {
                failed(
                    name_pos + 1,
                    name.errors.push(t.unexpected(name_pos + 1, Expected::Ctrl(':'))),
                )
            } else {
                let type_ = read_type(t, name_pos + 2, name.errors);
                if type_.value is None {
                    failed(type_.pos, type_.errors)
                } else {
                    read(
                        ImportTypeView::Variable {
                            name: name.value.unwrap(),
                            type_: type_.value.unwrap(),
                            mutable,
                        },
                        name_pos + 3,
                        type_.errors,
                    )
                }
            }
        },
        _ => failed(pos, errors.push(t.unexpected(pos, Expected::ImportKind))),
    }
}

/// An import: `import "source"`, what it brings in, and `;`.
pub open spec fn read_import(t: Tokens, pos: int, errors: Seq<SyntaxError>) -> Parsed<ImportView> {
    match t.token(pos + 1) {
        Some(TokenView::Str(source)) => {
            let type_ = read_import_type(t, pos + 2, errors);
            if type_.value is None {
                failed(type_.pos, type_.errors)
            } else if !t.is_ctrl(type_.pos, ';') {
                failed(type_.pos, type_.errors.push(t.unexpected(type_.pos, Expected::Ctrl(';'))))
            } else {
                read(
                    ImportView {
                        span: t.covering(pos, type_.pos + 1),
                        import: source,
                        type_: type_.value.unwrap(),
                    },
                    type_.pos + 1,
                    type_.errors,
                )
            }
        },
        _ => failed(pos + 1, errors.push(t.unexpected(pos + 1, Expected::String))),
    }
}

/// The rest of a script behind the items read so far.
pub open spec fn read_items(t: Tokens, pos: int, script: ScriptView, errors: Seq<SyntaxError>)
    -> Parsed<ScriptView>
    decreases t.len() - pos,
{
    match t.token(pos) {
        None => read(script, pos, errors),
        Some(TokenView::Import) => {
            let import = read_import(t, pos, errors);
            if import.value is None || !(pos < import.pos <= t.len()) {
                failed(import.pos, import.errors)
            } else {
                read_items(
                    t,
                    import.pos,
                    ScriptView { imports: script.imports.push(import.value.unwrap()), ..script },
                    import.errors,
                )
            }
        },
        Some(token) => if token == TokenView::Export || token == TokenView::Fn {
            let function = read_function(t, pos, errors);
            if function.value is None || !(pos < function.pos <= t.len()) {
                failed(function.pos, function.errors)
            } else {
                read_items(
                    t,
                    function.pos,
                    ScriptView {
                        functions: script.functions.push(function.value.unwrap()),
                        ..script
                    },
                    function.errors,
                )
            }
        } else {
            failed(pos, errors.push(t.unexpected(pos, Expected::Item)))
        },
    }
}

/// A script: imports and functions in any order, up to the end of the
/// input.
pub open spec fn read_script(t: Tokens) -> Parsed<ScriptView> {
    read_items(
        t,
        0,
        ScriptView {
            imports: Seq::empty(),
            global_vars: Seq::empty(),
            functions: Seq::empty(),
            data: Seq::empty(),
        },
        Seq::empty(),
    )
}

} // verus!
