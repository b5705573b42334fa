//! Splitting compound tokens which turn out to start with an angle bracket.

use vstd::prelude::*;
use vstd::string::StringSliceAdditionalSpecFns;
use vstd::utf8::{encode_utf8, is_ascii_chars, is_ascii_chars_encode_utf8, is_char_boundary};

use crate::kind::Kind;
use crate::parsed::lemma_encode_utf8_concat;
use crate::text::{is_slice, law_slice_of_concatenation, text_slice};
use crate::token::{Span, Token};

verus! {

/// Source text, and how far it has been read.
pub struct Source<'a> {
    pub text: &'a str,
    /// Offset of the next byte to be read.
    pub position: u32,
}

impl<'a> Source<'a> {
    /// Is the position between two characters of the text?
    pub open spec fn wf(self) -> bool {
        is_char_boundary(self.text.spec_bytes(), self.position as int)
    }

    /// Move back by `n` bytes.
    pub fn back(&mut self, n: usize)
        requires
            n <= old(self).position,
            is_char_boundary(old(self).text.spec_bytes(), old(self).position - n),
        ensures
            final(self).wf(),
            final(self).text@ == old(self).text@,
            final(self).position == old(self).position - n,
    {
        self.position = self.position - n as u32;
    }
}

/// Lexer, in the middle of a source text.
pub struct Lexer<'a> {
    pub source: Source<'a>,
    /// The token that is being read.
    pub token: Token,
    /// `true` if finished tokens are collected in `tokens`.
    pub collect_tokens: bool,
    /// The collected tokens.
    pub tokens: Vec<Token>,
}

impl<'a> Lexer<'a> {
    /// The token that comes of re-lexing the last `offset` bytes as one angle bracket.
    pub open spec fn re_lexed(self, offset: u32, kind: Kind) -> Token {
        Token {
            span: Span {
                start: (self.source.position - offset) as u32,
                end: (self.source.position - offset + 1) as u32,
            },
            kind,
            ..self.token
        }
    }

    /// Can the last `offset` bytes be re-lexed as one byte and what follows it?
    pub open spec fn can_re_lex(self, offset: u32) -> bool {
        &&& 1 <= offset <= self.source.position
        &&& is_char_boundary(self.source.text.spec_bytes(), self.source.position - offset + 1)
    }

    /// Offset of the next byte to be read.
    pub fn offset(&self) -> (offset: u32)
        ensures
            offset == self.source.position,
    {
        self.source.position
    }

    /// Finish a token which is read for the second time: it ends here, it is collected, and the
    /// next token starts out afresh.
    fn finish_re_lex(&mut self, kind: Kind) -> (token: Token)
        ensures
            token == (Token {
                span: Span { start: old(self).token.span.start, end: old(self).source.position },
                kind,
                ..old(self).token
            }),
            final(self).source == old(self).source,
            final(self).token == Token::fresh(),
            final(self).collect_tokens == old(self).collect_tokens,
            final(self).tokens@ == if old(self).collect_tokens {
                old(self).tokens@.push(token)
            } else {
                old(self).tokens@
            },
    {
        self.token.set_kind(kind);
        let end: u32 = self.offset();
        self.token.set_end(end);
        let token = self.token;
        if self.collect_tokens {
            self.tokens.push(token);
        }
        self.token = Token::default();
        token
    }

    /// Re-tokenize `<<` or `<=` or `<<=` to `<`.
    ///
    /// `offset` is the length of the compound token, which has just been read. It is removed from
    /// the collected tokens. The characters after the `<` are left to be read again.
    pub fn re_lex_as_typescript_l_angle(&mut self, offset: u32) -> (token: Token)
        requires
            old(self).can_re_lex(offset),
            old(self).collect_tokens ==> old(self).tokens@.len() > 0,
        ensures
            token.span.start == old(self).source.position - offset,
            token.span.end == token.span.start + 1,
            token.kind == Kind::LAngle,
            token.escaped == old(self).token.escaped,
            token == old(self).re_lexed(offset, Kind::LAngle),
            final(self).source.position == old(self).source.position - offset + 1,
            final(self).token.span == (Span { start: 0, end: 0 }),
            final(self).token.kind == Kind::Eof,
            !final(self).token.escaped,
            final(self).source.wf(),
            final(self).source.text@ == old(self).source.text@,
            final(self).source.position == token.span.end,
            final(self).token == Token::fresh(),
            final(self).collect_tokens == old(self).collect_tokens,
            final(self).tokens@ == if old(self).collect_tokens {
                old(self).tokens@.drop_last().push(token)
            } else {
                old(self).tokens@
            },
    {
        let start: u32 = self.offset() - offset;
        self.token.set_start(start);
        self.source.back(offset as usize - 1);
        if self.collect_tokens {
            let _ = self.tokens.pop();
        }
        self.finish_re_lex(Kind::LAngle)
    }

    /// Re-tokenize `>>` and `>>>` to `>`.
    ///
    /// `offset` is the length of the compound token, which has just been read. The characters
    /// after the `>` are left to be read again.
    pub fn re_lex_as_typescript_r_angle(&mut self, offset: u32) -> (token: Token)
        requires
            old(self).can_re_lex(offset),
        ensures
            token.span.start == old(self).source.position - offset,
            token.span.end == token.span.start + 1,
            token.kind == Kind::RAngle,
            token.escaped == old(self).token.escaped,
            token == old(self).re_lexed(offset, Kind::RAngle),
            final(self).source.position == old(self).source.position - offset + 1,
            final(self).token.span == (Span { start: 0, end: 0 }),
            final(self).token.kind == Kind::Eof,
            !final(self).token.escaped,
            final(self).source.wf(),
            final(self).source.text@ == old(self).source.text@,
            final(self).source.position == token.span.end,
            final(self).token == Token::fresh(),
            final(self).collect_tokens == old(self).collect_tokens,
            final(self).tokens@ == if old(self).collect_tokens {
                old(self).tokens@.push(token)
            } else {
                old(self).tokens@
            },
    {
        let start: u32 = self.offset() - offset;
        self.token.set_start(start);
        self.source.back(offset as usize - 1);
        self.finish_re_lex(Kind::RAngle)
    }
}

/// A token which has just been read can be re-lexed, if it is all ASCII: `offset` is its length.
pub proof fn law_compound_tokens_can_be_re_lexed(
    lexer: Lexer<'_>,
    before: Seq<char>,
    compound: Seq<char>,
    after: Seq<char>,
    offset: u32,
)
    requires
        lexer.source.text@ == before + compound + after,
        lexer.source.position == encode_utf8(before + compound).len(),
        is_ascii_chars(compound),
        offset == compound.len(),
        offset > 0,
    ensures
        lexer.can_re_lex(offset),
{
    let first = seq![compound[0]];
    let rest = compound.drop_first();
    assert(compound =~= first + rest);
    assert(is_ascii_chars(first));
    is_ascii_chars_encode_utf8(compound);
    is_ascii_chars_encode_utf8(first);
    lemma_encode_utf8_concat(before, compound);
    lemma_encode_utf8_concat(before, first);
    law_slice_of_concatenation(before + first, rest, after);
    assert(before + first + rest + after =~= before + compound + after);
}

/// Re-lexing a compound token leaves its first character: the token that comes of it starts where
/// the compound token starts, and ends one byte later, before what is to be read again.
pub proof fn law_re_lexed_is_the_first_character(
    lexer: Lexer<'_>,
    before: Seq<char>,
    compound: Seq<char>,
    after: Seq<char>,
    offset: u32,
    kind: Kind,
)
    requires
        lexer.source.text@ == before + compound + after,
        lexer.source.position == encode_utf8(before + compound).len(),
        is_ascii_chars(compound),
        offset == compound.len(),
        offset > 0,
    ensures
        ({
            let token = lexer.re_lexed(offset, kind);
            &&& token.span.start == encode_utf8(before).len()
            &&& token.span.end == encode_utf8(before).len() + 1
            &&& is_slice(lexer.source.text@, token.span.start as int, token.span.end as int)
            &&& text_slice(lexer.source.text@, token.span.start as int, token.span.end as int)
                == seq![compound[0]]
            &&& token.kind == kind
            &&& token.escaped == lexer.token.escaped
        }),
{
    let first = seq![compound[0]];
    let rest = compound.drop_first() + after;
    assert(is_ascii_chars(first));
    is_ascii_chars_encode_utf8(compound);
    is_ascii_chars_encode_utf8(first);
    lemma_encode_utf8_concat(before, compound);
    law_slice_of_concatenation(before, first, rest);
    assert(before + first + rest =~= before + compound + after);
}

} // verus!
