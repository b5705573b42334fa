//! Turning tokens into ESTree tokens.

use oxc_ast_visit::utf8_to_utf16::{Utf8ToUtf16, Utf8ToUtf16Converter};
use vstd::prelude::*;
use vstd::utf8::encode_utf8;

use crate::ast::{RegExpLiteral, TemplateElement};
use crate::config::{ESTreeTokenConfig, JSXState};
use crate::context::Context;
use crate::estree::{ESTreeRegExpToken, ESTreeSafeToken, ESTreeToken, ESTreeUnsafeToken};
use crate::estree::{views, RegExpData, TokenView};
use crate::kind::{default_token_type, has_own_node, is_js_only_keyword};
use crate::text::{is_slice, slice, text_slice};
use crate::token::{first_from, lemma_first_from, Span, Token};
use crate::trace::Action;
use crate::utf16::{
    convert_span, converter, converter_translations, is_convertible, ordered, translations,
    utf16_span,
};

verus! {

/// Tokens of a source text, and how many of them have been dealt with.
pub struct Cursor {
    /// Is it TS style?
    pub ts: bool,
    pub tokens: Seq<Token>,
    pub text: Seq<char>,
    /// Conversion table for spans.
    pub table: Seq<(u32, u32)>,
    /// Index of the next token.
    pub next: nat,
}

/// Where the flags of a regular expression start: after the opening `/`, the pattern and the
/// closing `/`.
pub open spec fn flags_start(pattern: Seq<char>) -> int {
    encode_utf8(pattern).len() as int + 2
}

impl Cursor {
    /// Index of the token that a request for `start` is about.
    pub open spec fn target(self, start: int) -> nat {
        first_from(self.tokens, start, self.next)
    }

    /// The token that a request for `start` is about.
    pub open spec fn token_at(self, start: int) -> Token {
        self.tokens[self.target(start) as int]
    }

    /// After a request for `start`.
    pub open spec fn past(self, start: int) -> Cursor {
        Cursor { next: self.target(start) + 1, ..self }
    }

    /// Are the bytes from `start` to `end` of the text whole characters?
    pub open spec fn has_text(self, start: int, end: int) -> bool {
        is_slice(self.text, start, end)
    }

    /// Can `token` be emitted with its default type?
    pub open spec fn is_default(self, token: Token) -> bool {
        &&& !has_own_node(token.kind)
        &&& self.has_text(token.span.start as int, token.span.end as int)
        &&& is_convertible(self.table, token.span)
    }

    /// Can the tokens from the next one up to `end` be emitted with their default types?
    pub open spec fn are_default(self, end: nat) -> bool {
        forall|i: int| self.next <= i < end ==> self.is_default(#[trigger] self.tokens[i])
    }

    /// Is there a token at `start`, with nothing but default tokens before it?
    pub open spec fn reaches(self, start: int) -> bool {
        &&& self.target(start) < self.tokens.len()
        &&& self.token_at(start).span.start == start
        &&& is_convertible(self.table, self.token_at(start).span)
        &&& self.are_default(self.target(start))
    }

    /// May `action` be requested?
    pub open spec fn accepts(self, action: Action) -> bool {
        let token = self.token_at(action.start());
        let start = token.span.start as int;
        let end = token.span.end as int;
        &&& self.reaches(action.start())
        &&& match action {
            Action::Identifier { .. } => self.ts && token.escaped ==> self.has_text(start, end),
            Action::ThisIdentifier { .. } => true,
            Action::JSXIdentifier { .. } => true,
            Action::JSXText { .. } => self.has_text(start, end),
            Action::PrivateIdentifier { .. } => self.ts && token.escaped ==> self.has_text(
                start + 1,
                end,
            ),
            Action::UnsafeToken { .. } => self.has_text(start, end),
            Action::RegExp { raw, pattern, .. } => {
                &&& raw is Some
                &&& is_slice(
                    raw->0,
                    flags_start(pattern),
                    encode_utf8(raw->0).len() as int,
                )
            },
        }
    }

    /// The source text of `token`.
    pub open spec fn source(self, token: Token) -> Seq<char> {
        text_slice(self.text, token.span.start as int, token.span.end as int)
    }

    /// `token` with its default type.
    pub open spec fn default_view(self, token: Token) -> TokenView {
        TokenView::Safe {
            token_type: default_token_type(token.kind),
            value: self.source(token),
            span: utf16_span(self.table, token.span),
        }
    }

    /// The tokens from the next one up to `end`, with their default types.
    pub open spec fn default_views(self, end: nat) -> Seq<TokenView> {
        Seq::new((end - self.next) as nat, |i: int| self.default_view(self.tokens[self.next + i]))
    }

    /// `token` as `action` wants it.
    pub open spec fn view_for(self, token: Token, action: Action) -> TokenView {
        let span = utf16_span(self.table, token.span);
        match action {
            Action::Identifier { name, .. } => {
                let token_type = if !self.ts && is_js_only_keyword(token.kind) {
                    "Keyword"@
                } else {
                    "Identifier"@
                };
                if self.ts && token.escaped {
                    TokenView::Unsafe { token_type, value: self.source(token), span }
                } else {
                    TokenView::Safe { token_type, value: name, span }
                }
            },
            Action::ThisIdentifier { .. } => TokenView::Safe {
                token_type: "Identifier"@,
                value: "this"@,
                span,
            },
            Action::JSXIdentifier { name, .. } => TokenView::Safe {
                token_type: "JSXIdentifier"@,
                value: name,
                span,
            },
            Action::JSXText { .. } => TokenView::Unsafe {
                token_type: "JSXText"@,
                value: self.source(token),
                span,
            },
            Action::PrivateIdentifier { name, .. } => if self.ts && token.escaped {
                TokenView::Unsafe {
                    token_type: "PrivateIdentifier"@,
                    value: text_slice(self.text, token.span.start + 1, token.span.end as int),
                    span,
                }
            } else {
                TokenView::Safe { token_type: "PrivateIdentifier"@, value: name, span }
            },
            Action::UnsafeToken { token_type, .. } => TokenView::Unsafe {
                token_type,
                value: self.source(token),
                span,
            },
            Action::RegExp { raw, pattern, .. } => TokenView::RegExp {
                value: raw->0,
                flags: text_slice(
                    raw->0,
                    flags_start(pattern),
                    encode_utf8(raw->0).len() as int,
                ),
                pattern,
                span,
            },
        }
    }
}

/// What the requests to a [`JsonContext`] have come to.
pub struct JsonModel {
    pub cursor: Cursor,
    /// What has been emitted.
    pub out: Seq<TokenView>,
}

impl JsonModel {
    /// After `action`: the tokens before the one that it is about are emitted with their default
    /// types, and then that one.
    pub open spec fn step(self, action: Action) -> JsonModel {
        JsonModel {
            cursor: self.cursor.past(action.start()),
            out: (self.out + self.cursor.default_views(
                self.cursor.target(action.start()),
            )).push(self.cursor.view_for(self.cursor.token_at(action.start()), action)),
        }
    }

    /// Everything that is emitted in the end: the remaining tokens have their default types.
    pub open spec fn finished(self) -> Seq<TokenView> {
        self.out + self.cursor.default_views(self.cursor.tokens.len())
    }
}

/// Turns each token into an ESTree token with its correct type.
pub struct JsonContext<'a, 'b, O: ESTreeTokenConfig> {
    /// What has been emitted
    seq: Vec<ESTreeToken<'a>>,
    /// Tokens
    tokens: &'b [Token],
    /// Index of the next token
    next: usize,
    /// Source text (for extracting token values)
    source_text: &'a str,
    /// Span converter for UTF-8 to UTF-16 conversion.
    /// `None` if source is ASCII-only.
    span_converter: Option<Utf8ToUtf16Converter<'b>>,
    /// Options controlling JS/TS style differences
    options: O,
    /// JSX state tracking
    jsx_state: O::JSXState,
}

impl<'a, 'b, O: ESTreeTokenConfig> JsonContext<'a, 'b, O> {
    /// Where the context is.
    pub closed spec fn cursor(self) -> Cursor {
        Cursor {
            ts: self.options.spec_is_ts(),
            tokens: self.tokens@,
            text: self.source_text@,
            table: match self.span_converter {
                Some(converter) => converter_translations(converter),
                None => Seq::empty(),
            },
            next: self.next as nat,
        }
    }

    /// What has been emitted.
    pub closed spec fn out(self) -> Seq<TokenView> {
        views(self.seq@)
    }

    /// Do the parts of the context fit together?
    pub closed spec fn wf(self) -> bool {
        &&& self.next <= self.tokens@.len()
        &&& ordered(self.cursor().table)
        &&& self.span_converter is Some ==> self.cursor().table.len() > 0
    }

    /// The model has the style that the context reports, and its next token is within the tokens, or
    /// just after them.
    pub proof fn lemma_inv(&self)
        requires
            self.inv(),
        ensures
            self.model().cursor.ts == self.spec_is_ts(),
            self.model().cursor.next <= self.model().cursor.tokens.len(),
            ordered(self.model().cursor.table),
            self.cursor() == self.model().cursor,
            self.out() == self.model().out,
    {
    }

    /// A context which has not dealt with any token yet.
    pub fn new(
        tokens: &'b [Token],
        source_text: &'a str,
        span_converter: &'b Utf8ToUtf16,
        options: O,
    ) -> (ctx: Self)
        requires
            ordered(translations(*span_converter)),
        ensures
            ctx.inv(),
            ctx.model() == (JsonModel {
                cursor: Cursor {
                    ts: options.spec_is_ts(),
                    tokens: tokens@,
                    text: source_text@,
                    table: translations(*span_converter),
                    next: 0,
                },
                out: Seq::empty(),
            }),
            ctx.jsx() == O::JSXState::spec_initial(),
            ctx.spec_is_ts() == options.spec_is_ts(),
    {
        let ctx = JsonContext {
            seq: Vec::new(),
            tokens,
            next: 0,
            source_text,
            span_converter: converter(span_converter),
            options,
            jsx_state: O::JSXState::initial(),
        };
        assert(ctx.out() =~= Seq::empty());
        assert(ctx.cursor().table =~= translations(*span_converter));
        ctx
    }

    /// Span of `token`, in UTF-16 offsets.
    fn converted_span(&mut self, token: Token) -> (span: Span)
        requires
            old(self).wf(),
            is_convertible(old(self).cursor().table, token.span),
        ensures
            final(self).wf(),
            final(self).cursor() == old(self).cursor(),
            final(self).out() == old(self).out(),
            final(self).jsx_state == old(self).jsx_state,
            span == utf16_span(old(self).cursor().table, token.span),
    {
        let span = Span::new(token.start(), token.end());
        if let Some(converter) = self.span_converter.as_mut() {
            convert_span(converter, span)
        } else {
            span
        }
    }

    /// Emit an ESTree token.
    fn serialize_element(&mut self, element: ESTreeToken<'a>)
        requires
            old(self).wf(),
        ensures
            final(self).wf(),
            final(self).cursor() == old(self).cursor(),
            final(self).out() == old(self).out().push(element@),
            final(self).jsx_state == old(self).jsx_state,
    {
        self.seq.push(element);
        assert(self.out() =~= old(self).out().push(element@));
    }

    /// Emit a token whose value is guaranteed JSON-safe.
    pub fn serialize_safe_token(&mut self, token: Token, token_type: &'static str, value: &'a str)
        requires
            old(self).inv(),
            is_convertible(old(self).model().cursor.table, token.span),
        ensures
            final(self).inv(),
            final(self).model() == (JsonModel {
                cursor: old(self).model().cursor,
                out: old(self).model().out.push(
                    TokenView::Safe {
                        token_type: token_type@,
                        value: value@,
                        span: utf16_span(old(self).model().cursor.table, token.span),
                    },
                ),
            }),
            final(self).jsx() == old(self).jsx(),
            final(self).spec_is_ts() == old(self).spec_is_ts(),
    {
        let span = self.converted_span(token);
        self.serialize_element(ESTreeToken::Safe(ESTreeSafeToken { token_type, value, span }));
    }

    /// Emit a token whose value may not be JSON-safe.
    pub fn serialize_unsafe_token(&mut self, token: Token, token_type: &'static str, value: &'a str)
        requires
            old(self).inv(),
            is_convertible(old(self).model().cursor.table, token.span),
        ensures
            final(self).inv(),
            final(self).model() == (JsonModel {
                cursor: old(self).model().cursor,
                out: old(self).model().out.push(
                    TokenView::Unsafe {
                        token_type: token_type@,
                        value: value@,
                        span: utf16_span(old(self).model().cursor.table, token.span),
                    },
                ),
            }),
            final(self).jsx() == old(self).jsx(),
            final(self).spec_is_ts() == old(self).spec_is_ts(),
    {
        let span = self.converted_span(token);
        self.serialize_element(ESTreeToken::Unsafe(ESTreeUnsafeToken { token_type, value, span }));
    }

    /// Emit a token with its default type (determined by its `Kind`).
    ///
    /// Token values emitted here are JSON-safe (punctuators, keywords, numbers, booleans, `null`):
    /// tokens of other kinds are always consumed by specific visitors.
    fn emit_default_token(&mut self, token: Token)
        requires
            old(self).wf(),
            old(self).cursor().is_default(token),
        ensures
            final(self).wf(),
            final(self).cursor() == old(self).cursor(),
            final(self).out() == old(self).out().push(old(self).cursor().default_view(token)),
            final(self).jsx_state == old(self).jsx_state,
    {
        let token_type = token.kind().default_token_type();
        let value = slice(self.source_text, token.start() as usize, token.end() as usize);
        self.serialize_safe_token(token, token_type, value);
    }

    /// Emit a token using its raw source text, with JSON encoding.
    ///
    /// Used for tokens whose values may contain backslashes, quotes, or control characters
    /// (escaped identifiers, string literals, template literals, JSXText).
    fn emit_unsafe_token(&mut self, token: Token, token_type: &'static str)
        requires
            old(self).wf(),
            is_convertible(old(self).cursor().table, token.span),
            old(self).cursor().has_text(token.span.start as int, token.span.end as int),
        ensures
            final(self).wf(),
            final(self).cursor() == old(self).cursor(),
            final(self).out() == old(self).out().push(
                TokenView::Unsafe {
                    token_type: token_type@,
                    value: old(self).cursor().source(token),
                    span: utf16_span(old(self).cursor().table, token.span),
                },
            ),
            final(self).jsx_state == old(self).jsx_state,
    {
        let value = slice(self.source_text, token.start() as usize, token.end() as usize);
        self.serialize_unsafe_token(token, token_type, value);
    }

    /// Consume all tokens before `start` (emitting them with default types),
    /// and return the token at `start`.
    fn advance_to(&mut self, start: u32) -> (token: Token)
        requires
            old(self).wf(),
            old(self).cursor().reaches(start as int),
        ensures
            final(self).wf(),
            final(self).cursor() == old(self).cursor().past(start as int),
            final(self).out() == old(self).out() + old(self).cursor().default_views(
                old(self).cursor().target(start as int),
            ),
            final(self).jsx_state == old(self).jsx_state,
            token == old(self).cursor().token_at(start as int),
    {
        let ghost cursor = self.cursor();
        let ghost out = self.out();
        let ghost target = cursor.target(start as int);
        proof {
            lemma_first_from(cursor.tokens, start as int, cursor.next);
            assert(out =~= out + cursor.default_views(cursor.next));
        }
        while self.tokens[self.next].start() < start
            invariant
                self.wf(),
                cursor.reaches(start as int),
                target == cursor.target(start as int),
                cursor.next <= self.next <= target,
                target == first_from(cursor.tokens, start as int, self.next as nat),
                self.cursor() == (Cursor { next: self.next as nat, ..cursor }),
                self.out() == out + cursor.default_views(self.next as nat),
                self.jsx_state == old(self).jsx_state,
            decreases target - self.next,
        {
            let token = self.tokens[self.next];
            proof {
                lemma_first_from(cursor.tokens, start as int, self.next as nat);
                assert(cursor.is_default(cursor.tokens[self.next as int]));
                assert(cursor.default_views((self.next + 1) as nat) =~= cursor.default_views(
                    self.next as nat,
                ).push(cursor.default_view(token)));
            }
            self.next = self.next + 1;
            self.emit_default_token(token);
        }
        let token = self.tokens[self.next];
        self.next = self.next + 1;
        token
    }

    /// Emit the remaining tokens, and hand over everything that has been emitted.
    pub fn finish(self) -> (seq: Vec<ESTreeToken<'a>>)
        requires
            self.inv(),
            self.model().cursor.are_default(self.model().cursor.tokens.len()),
        ensures
            views(seq@) == self.model().finished(),
    {
        let mut ctx = self;
        let ghost cursor = self.cursor();
        assert(self.out() =~= self.out() + cursor.default_views(cursor.next));
        while ctx.next < ctx.tokens.len()
            invariant
                ctx.wf(),
                cursor == self.cursor(),
                cursor.are_default(cursor.tokens.len()),
                cursor.next <= ctx.next <= cursor.tokens.len(),
                ctx.cursor() == (Cursor { next: ctx.next as nat, ..cursor }),
                ctx.out() == self.out() + cursor.default_views(ctx.next as nat),
            decreases cursor.tokens.len() - ctx.next,
        {
            let token = ctx.tokens[ctx.next];
            proof {
                assert(cursor.is_default(cursor.tokens[ctx.next as int]));
                assert(cursor.default_views((ctx.next + 1) as nat) =~= cursor.default_views(
                    ctx.next as nat,
                ).push(cursor.default_view(token)));
            }
            ctx.next = ctx.next + 1;
            ctx.emit_default_token(token);
        }
        ctx.seq
    }
}

impl<'a, 'b, O: ESTreeTokenConfig> Context<'a> for JsonContext<'a, 'b, O> {
    type JSXState = O::JSXState;

    type Model = JsonModel;

    closed spec fn spec_is_ts(&self) -> bool {
        self.options.spec_is_ts()
    }

    closed spec fn jsx(&self) -> O::JSXState {
        self.jsx_state
    }

    closed spec fn model(&self) -> JsonModel {
        JsonModel { cursor: self.cursor(), out: self.out() }
    }

    closed spec fn inv(&self) -> bool {
        self.wf()
    }

    open spec fn accepts(model: JsonModel, action: Action) -> bool {
        model.cursor.accepts(action)
    }

    open spec fn step(model: JsonModel, action: Action) -> JsonModel {
        model.step(action)
    }

    open spec fn spec_needs_quasis() -> bool {
        true
    }

    fn needs_quasis() -> (r: bool) {
        true
    }

    fn is_ts(&self) -> (r: bool) {
        self.options.is_ts()
    }

    fn jsx_state(&self) -> (state: &O::JSXState) {
        &self.jsx_state
    }

    fn jsx_state_mut(&mut self) -> (state: &mut O::JSXState) {
        &mut self.jsx_state
    }

    fn emit_identifier_at(&mut self, start: u32, name: &'a str) {
        let token = self.advance_to(start);
        let token_type = if self.is_js() && token.kind().is_js_only_keyword() {
            "Keyword"
        } else {
            "Identifier"
        };

        // Use `name` from AST node in most cases - it's JSON-safe so can skip JSON encoding.
        // Only fall back to raw source text when the token contains escapes and decoding is disabled
        // (TS style), since escape sequences contain `\` which needs JSON escaping.
        if self.is_js() || !token.escaped() {
            self.serialize_safe_token(token, token_type, name);
        } else {
            self.emit_unsafe_token(token, token_type);
        }
    }

    fn emit_this_identifier_at(&mut self, start: u32) {
        let token = self.advance_to(start);
        self.serialize_safe_token(token, "Identifier", "this");
    }

    fn emit_jsx_identifier_at(&mut self, start: u32, name: &'a str) {
        let token = self.advance_to(start);
        self.serialize_safe_token(token, "JSXIdentifier", name);
    }

    fn emit_jsx_text_at(&mut self, start: u32) {
        let token = self.advance_to(start);
        self.emit_unsafe_token(token, "JSXText");
    }

    fn emit_private_identifier_at(&mut self, start: u32, name: &'a str) {
        let token = self.advance_to(start);

        // `name` has `#` stripped and escapes decoded by the parser, and is JSON-safe.
        // Only fall back to slicing raw source text when the token contains escapes and decoding
        // is disabled (TS style), since raw escape sequences contain `\` which needs JSON escaping.
        if self.is_js() || !token.escaped() {
            self.serialize_safe_token(token, "PrivateIdentifier", name);
        } else {
            // Strip leading `#`
            let value = slice(self.source_text, token.start() as usize + 1, token.end() as usize);
            self.serialize_unsafe_token(token, "PrivateIdentifier", value);
        }
    }

    fn emit_unsafe_token_at(&mut self, start: u32, token_type: &'static str) {
        let token = self.advance_to(start);
        self.emit_unsafe_token(token, token_type);
    }

    fn emit_template_element(&mut self, quasi: &TemplateElement) {
        self.emit_unsafe_token_at(quasi.span.start - 1, "Template");
    }

    fn emit_regexp(&mut self, regexp: &RegExpLiteral<'a>) {
        let token = self.advance_to(regexp.span.start);

        let value = regexp.raw.unwrap();
        let pattern = regexp.pattern;

        // Flags start after opening `/`, pattern, and closing `/`
        let end: usize = value.as_bytes().len();
        let flags = slice(value, pattern.as_bytes().len() + 2, end);
        let regex = RegExpData { flags, pattern };

        let span = self.converted_span(token);
        self.serialize_element(ESTreeToken::RegExp(ESTreeRegExpToken { value, regex, span }));
    }
}

} // verus!
