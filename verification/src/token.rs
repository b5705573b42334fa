//! Spans and tokens.

use vstd::prelude::*;

use crate::kind::Kind;

verus! {

/// Range of offsets in a text.
#[derive(Clone, Copy, Debug, PartialEq, Eq, Structural)]
pub struct Span {
    pub start: u32,
    pub end: u32,
}

/// A token of the source text.
#[derive(Clone, Copy, Debug, PartialEq, Eq, Structural)]
pub struct Token {
    pub span: Span,
    pub kind: Kind,
    /// `true` if the token is written with escape sequences.
    pub escaped: bool,
}

impl Span {
    pub fn new(start: u32, end: u32) -> (span: Span)
        ensures
            span.start == start,
            span.end == end,
    {
        Span { start, end }
    }
}

impl Default for Token {
    fn default() -> (token: Token)
        ensures
            token == Token::fresh(),
            token.span.start == 0,
            token.span.end == 0,
            token.kind == Kind::Eof,
            !token.escaped,
    {
        Token { span: Span { start: 0, end: 0 }, kind: Kind::Eof, escaped: false }
    }
}

impl Token {
    /// A token of which nothing has been read yet.
    pub open spec fn fresh() -> Token {
        Token { span: Span { start: 0, end: 0 }, kind: Kind::Eof, escaped: false }
    }

    pub fn start(&self) -> (start: u32)
        ensures
            start == self.span.start,
    {
        self.span.start
    }

    pub fn end(&self) -> (end: u32)
        ensures
            end == self.span.end,
    {
        self.span.end
    }

    pub fn kind(&self) -> (kind: Kind)
        ensures
            kind == self.kind,
    {
        self.kind
    }

    pub fn escaped(&self) -> (escaped: bool)
        ensures
            escaped == self.escaped,
    {
        self.escaped
    }

    pub fn span(&self) -> (span: Span)
        ensures
            span == self.span,
    {
        self.span
    }

    pub fn set_span(&mut self, span: Span)
        ensures
            *final(self) == (Token { span, ..*old(self) }),
    {
        self.span = span;
    }

    pub fn set_start(&mut self, start: u32)
        ensures
            *final(self) == (Token { span: Span { start, end: old(self).span.end }, ..*old(self) }),
    {
        self.span.start = start;
    }

    pub fn set_end(&mut self, end: u32)
        ensures
            *final(self) == (Token {
                span: Span { start: old(self).span.start, end },
                ..*old(self)
            }),
    {
        self.span.end = end;
    }

    pub fn set_kind(&mut self, kind: Kind)
        ensures
            *final(self) == (Token { kind, ..*old(self) }),
    {
        self.kind = kind;
    }
}

/// Index of the first of `tokens` from `i` on which does not start before `start`.
pub open spec fn first_from(tokens: Seq<Token>, start: int, i: nat) -> nat
    decreases tokens.len() - i,
{
    if i >= tokens.len() || tokens[i as int].span.start >= start {
        i
    } else {
        first_from(tokens, start, i + 1)
    }
}

/// Tokens from `i` on start before `start`, up to the first which does not.
pub proof fn lemma_first_from(tokens: Seq<Token>, start: int, i: nat)
    ensures
        i <= first_from(tokens, start, i),
        i <= tokens.len() ==> first_from(tokens, start, i) <= tokens.len(),
        forall|j: int|
            i <= j < first_from(tokens, start, i) && j < tokens.len() ==> (
            #[trigger] tokens[j]).span.start < start,
        first_from(tokens, start, i) < tokens.len() ==> tokens[first_from(
            tokens,
            start,
            i,
        ) as int].span.start >= start,
    decreases tokens.len() - i,
{
    if i < tokens.len() && tokens[i as int].span.start < start {
        lemma_first_from(tokens, start, i + 1);
    }
}

} // verus!
