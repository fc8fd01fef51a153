//! The tokens that the parser reads from, with what it asks of them.

use crate::ast::Span;
use crate::grammar::Tokens;
use crate::lexer::{token_views, Token};
use crate::syntax::{Expected, SyntaxError, SyntaxErrorKind};
use vstd::prelude::*;

verus! {

/// The tokens to read from, and the span that stands for the end of the
/// input.
pub struct Input<'a> {
    pub tokens: &'a Vec<(Token, Span)>,
    pub eoi: Span,
}

impl<'a> View for Input<'a> {
    type V = Tokens;

    open spec fn view(&self) -> Tokens {
        Tokens { toks: token_views(self.tokens@), eoi: self.eoi }
    }
}

/// Whether two texts are the same.
pub fn same_text(a: &str, b: &str) -> (r: bool)
    ensures
        r == (a@ == b@),
{
    let n = a.unicode_len();
    if n != b.unicode_len() {
        return false;
    }
    let mut i: usize = 0;
    while i < n
        invariant
            n == a@.len(),
            n == b@.len(),
            i <= n,
            forall|k: int| 0 <= k < i ==> a@[k] == b@[k],
        decreases n - i,
    {
        if a.get_char(i) != b.get_char(i) {
            return false;
        }
        i += 1;
    }
    assert(a@ =~= b@);
    true
}

/// The tokens can be counted.
pub broadcast proof fn lemma_input_bounded(input: &Input)
    ensures
        #[trigger] input@.len() <= usize::MAX,
{
    assert(input.tokens@.len() == input.tokens.len());
}

impl<'a> Input<'a> {
    /// The number of tokens.
    pub fn count(&self) -> (n: usize)
        ensures
            n == self@.len(),
    {
        self.tokens.len()
    }

    /// The span of the token at `pos`, or that of the end of the input.
    pub fn span(&self, pos: usize) -> (r: Span)
        ensures
            r == self@.span(pos as int),
    {
        if pos < self.tokens.len() {
            self.tokens[pos].1
        } else {
            self.eoi
        }
    }

    /// The span from the token at `from` to the token before `to`.
    pub fn covering(&self, from: usize, to: usize) -> (r: Span)
        requires
            to > 0,
        ensures
            r == self@.covering(from as int, to as int),
    {
        Span { start: self.span(from).start, end: self.span(to - 1).end }
    }

    /// Whether the token at `pos` is the punctuation character `c`.
    pub fn is_ctrl(&self, pos: usize, c: char) -> (r: bool)
        ensures
            r == self@.is_ctrl(pos as int, c),
    {
        if pos < self.tokens.len() {
            match &self.tokens[pos].0 {
                Token::Ctrl(d) => *d == c,
                _ => false,
            }
        } else {
            false
        }
    }

    /// Whether the token at `pos` is the operator `text`.
    pub fn is_op(&self, pos: usize, text: &str) -> (r: bool)
        ensures
            r == self@.is_op(pos as int, text@),
    {
        if pos < self.tokens.len() {
            match &self.tokens[pos].0 {
                Token::Op(s) => same_text(s.as_str(), text),
                _ => false,
            }
        } else {
            false
        }
    }

    /// Notes that something else than `expected` stands at `pos`.
    pub fn unexpected(&self, pos: usize, expected: Expected, errors: &mut Vec<SyntaxError>)
        ensures
            final(errors)@ == old(errors)@.push(self@.unexpected(pos as int, expected)),
    {
        errors.push(SyntaxError { span: self.span(pos), kind: SyntaxErrorKind::Unexpected(expected) });
    }
}

} // verus!
