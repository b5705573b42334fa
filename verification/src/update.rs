//! Updating the kinds of tokens in place.

use oxc_ast_visit::utf8_to_utf16::{Utf8ToUtf16, Utf8ToUtf16Converter};
use vstd::prelude::*;

use crate::ast::{RegExpLiteral, TemplateElement};
use crate::config::{ESTreeTokenConfig, JSXState};
use crate::context::Context;
use crate::kind::{is_js_only_keyword, Kind};
use crate::token::{first_from, lemma_first_from, Token};
use crate::trace::Action;
use crate::utf16::{
    convert_span, converter, converter_translations, is_convertible, ordered, translations,
    utf16_span,
};

verus! {

/// `token` with its span in UTF-16 offsets.
pub open spec fn converted(table: Seq<(u32, u32)>, token: Token) -> Token {
    Token { span: utf16_span(table, token.span), ..token }
}

/// `tokens` with the spans from index `start` up to index `end` in UTF-16 offsets.
pub open spec fn converted_between(
    table: Seq<(u32, u32)>,
    tokens: Seq<Token>,
    start: nat,
    end: nat,
) -> Seq<Token> {
    Seq::new(
        tokens.len(),
        |i: int|
            if start <= i < end {
                converted(table, tokens[i])
            } else {
                tokens[i]
            },
    )
}

/// The kind that `action` gives to a token of kind `kind`, or `None` if the kinds of the tokens
/// that `action` is for are right already.
///
/// In JS style, `yield` / `let` / `static` used as identifiers remain keywords.
pub open spec fn updated_kind(ts: bool, action: Action, kind: Kind) -> Option<Kind> {
    match action {
        Action::Identifier { .. } => if !ts && is_js_only_keyword(kind) {
            Some(kind)
        } else {
            Some(Kind::Ident)
        },
        Action::ThisIdentifier { .. } => Some(Kind::Ident),
        Action::JSXIdentifier { .. } => Some(Kind::JSXIdentifier),
        Action::JSXText { .. } => Some(Kind::JSXText),
        Action::PrivateIdentifier { .. } => None,
        Action::UnsafeToken { .. } => None,
        Action::RegExp { .. } => None,
    }
}

/// Does `action` change anything?
pub open spec fn is_update(action: Action) -> bool {
    updated_kind(true, action, Kind::Ident) is Some
}

/// Those of `actions` which change the kind of a token.
pub open spec fn updates(actions: Seq<Action>) -> Seq<Action> {
    actions.filter(|action: Action| is_update(action))
}

/// What the requests to an [`UpdateContext`] have come to.
pub struct UpdateModel {
    /// Is it TS style?
    pub ts: bool,
    /// The tokens as they are now.
    pub tokens: Seq<Token>,
    /// Conversion table for spans.
    pub table: Seq<(u32, u32)>,
    /// Index of the next token.
    pub next: nat,
}

impl UpdateModel {
    /// Index of the token that a request for `start` is about.
    pub open spec fn target(self, start: int) -> nat {
        first_from(self.tokens, start, self.next)
    }

    /// Can the spans of the tokens from the next one up to `end` be converted?
    pub open spec fn are_convertible(self, end: nat) -> bool {
        forall|i: int|
            self.next <= i < end ==> is_convertible(self.table, (#[trigger] self.tokens[i]).span)
    }

    /// Is there a token at `start`, which can be reached from the next one?
    pub open spec fn reaches(self, start: int) -> bool {
        &&& self.target(start) < self.tokens.len()
        &&& self.tokens[self.target(start) as int].span.start == start
        &&& self.are_convertible(self.target(start) + 1)
    }

    /// After a request for `start`, but for the kind of the token at `start`.
    pub open spec fn past(self, start: int) -> UpdateModel {
        UpdateModel {
            tokens: converted_between(
                self.table,
                self.tokens,
                self.next,
                self.target(start) + 1,
            ),
            next: self.target(start) + 1,
            ..self
        }
    }

    /// With the kind of the token at `index` set to `kind`.
    pub open spec fn with_kind(self, index: nat, kind: Kind) -> UpdateModel {
        UpdateModel {
            tokens: self.tokens.update(
                index as int,
                Token { kind, ..self.tokens[index as int] },
            ),
            ..self
        }
    }

    /// May `action` be requested?
    pub open spec fn accepts(self, action: Action) -> bool {
        is_update(action) ==> self.reaches(action.start())
    }

    /// After `action`.
    pub open spec fn step(self, action: Action) -> UpdateModel {
        let target = self.target(action.start());
        match updated_kind(self.ts, action, self.tokens[target as int].kind) {
            Some(kind) => self.past(action.start()).with_kind(target, kind),
            None => self,
        }
    }

    /// The tokens in the end: the spans of the remaining tokens are converted.
    pub open spec fn finished(self) -> Seq<Token> {
        converted_between(self.table, self.tokens, self.next, self.tokens.len())
    }
}

/// Updates token kinds so that [`get_token_type`](crate::kind::get_token_type) returns the correct
/// ESTree token type without needing AST context.
///
/// Also converts token spans from UTF-8 byte offsets to UTF-16 offsets.
pub struct UpdateContext<'b, O: ESTreeTokenConfig> {
    /// Tokens
    tokens: Vec<Token>,
    /// Index of the next token
    next: usize,
    /// Span converter for UTF-8 to UTF-16 conversion.
    /// `None` if source is ASCII-only.
    span_converter: Option<Utf8ToUtf16Converter<'b>>,
    /// Options controlling JS/TS style differences
    options: O,
    /// JSX state tracking
    jsx_state: O::JSXState,
}

impl<'b, O: ESTreeTokenConfig> UpdateContext<'b, O> {
    /// What the requests so far have come to.
    pub closed spec fn state(self) -> UpdateModel {
        UpdateModel {
            ts: self.options.spec_is_ts(),
            tokens: self.tokens@,
            table: match self.span_converter {
                Some(converter) => converter_translations(converter),
                None => Seq::empty(),
            },
            next: self.next as nat,
        }
    }

    /// Do the parts of the context fit together?
    pub closed spec fn wf(self) -> bool {
        &&& self.next <= self.tokens@.len()
        &&& ordered(self.state().table)
        &&& self.span_converter is Some ==> self.state().table.len() > 0
    }

    /// The model has the style that the context reports, and its next token is within the tokens, or
    /// just after them.
    pub proof fn lemma_inv(&self)
        requires
            self.inv(),
        ensures
            self.model().ts == self.spec_is_ts(),
            self.model().next <= self.model().tokens.len(),
            ordered(self.model().table),
            self.state() == self.model(),
    {
    }

    /// A context which has not dealt with any token yet.
    pub fn new(tokens: Vec<Token>, span_converter: &'b Utf8ToUtf16, options: O) -> (ctx: Self)
        requires
            ordered(translations(*span_converter)),
        ensures
            ctx.wf(),
            ctx.state() == (UpdateModel {
                ts: options.spec_is_ts(),
                tokens: tokens@,
                table: translations(*span_converter),
                next: 0,
            }),
            ctx.inv(),
            ctx.model() == ctx.state(),
            ctx.jsx() == O::JSXState::spec_initial(),
            ctx.spec_is_ts() == options.spec_is_ts(),
    {
        let ctx = UpdateContext {
            tokens,
            next: 0,
            span_converter: converter(span_converter),
            options,
            jsx_state: O::JSXState::initial(),
        };
        assert(ctx.state().table =~= translations(*span_converter));
        ctx
    }

    /// Convert the span of the next token from UTF-8 byte offsets to UTF-16 offsets, and go on to
    /// the token after it.
    fn convert_next(&mut self)
        requires
            old(self).wf(),
            old(self).state().next < old(self).state().tokens.len(),
            is_convertible(
                old(self).state().table,
                old(self).state().tokens[old(self).state().next as int].span,
            ),
        ensures
            final(self).wf(),
            final(self).state() == (UpdateModel {
                tokens: converted_between(
                    old(self).state().table,
                    old(self).state().tokens,
                    old(self).state().next,
                    old(self).state().next + 1,
                ),
                next: old(self).state().next + 1,
                ..old(self).state()
            }),
            final(self).jsx_state == old(self).jsx_state,
    {
        assert(self.next < self.tokens.len());
        let mut token = self.tokens[self.next];
        if let Some(converter) = self.span_converter.as_mut() {
            let span = convert_span(converter, token.span());
            token.set_span(span);
        }
        self.tokens.set(self.next, token);
        self.next = self.next + 1;
        assert(self.state().tokens =~= converted_between(
            old(self).state().table,
            old(self).state().tokens,
            old(self).state().next,
            old(self).state().next + 1,
        ));
    }

    /// Advance to the token at `start`, converting spans along the way, and return its index.
    /// Skipped tokens are not modified (they already have the correct kind),
    /// but their spans are converted from UTF-8 to UTF-16.
    fn advance_to(&mut self, start: u32) -> (index: usize)
        requires
            old(self).wf(),
            old(self).state().reaches(start as int),
        ensures
            final(self).wf(),
            final(self).state() == old(self).state().past(start as int),
            final(self).jsx_state == old(self).jsx_state,
            index == old(self).state().target(start as int),
    {
        let ghost before = self.state();
        let ghost target = before.target(start as int);
        proof {
            lemma_first_from(before.tokens, start as int, before.next);
            assert(converted_between(before.table, before.tokens, before.next, before.next)
                =~= before.tokens);
        }
        while self.tokens[self.next].start() < start
            invariant
                self.wf(),
                before.reaches(start as int),
                target == before.target(start as int),
                before.next <= self.next <= target,
                target == first_from(before.tokens, start as int, self.next as nat),
                self.state() == (UpdateModel {
                    tokens: converted_between(
                        before.table,
                        before.tokens,
                        before.next,
                        self.next as nat,
                    ),
                    next: self.next as nat,
                    ..before
                }),
                self.jsx_state == old(self).jsx_state,
            decreases target - self.next,
        {
            let ghost next = self.next as nat;
            proof {
                lemma_first_from(before.tokens, start as int, next);
                assert(self.tokens@[next as int] == before.tokens[next as int]);
                assert(is_convertible(before.table, before.tokens[next as int].span));
            }
            self.convert_next();
            assert(self.state().tokens =~= converted_between(
                before.table,
                before.tokens,
                before.next,
                next + 1,
            ));
        }
        let index: usize = self.next;
        proof {
            assert(self.tokens@[index as int] == before.tokens[index as int]);
            assert(is_convertible(before.table, before.tokens[index as int].span));
        }
        self.convert_next();
        assert(self.state().tokens =~= before.past(start as int).tokens);
        index
    }

    /// Set the kind of the token at `index`.
    fn set_kind(&mut self, index: usize, kind: Kind)
        requires
            old(self).wf(),
            index < old(self).state().tokens.len(),
        ensures
            final(self).wf(),
            final(self).state() == old(self).state().with_kind(index as nat, kind),
            final(self).jsx_state == old(self).jsx_state,
    {
        let mut token = self.tokens[index];
        token.set_kind(kind);
        self.tokens.set(index, token);
    }

    /// Convert the spans of the remaining tokens, and hand over the tokens.
    pub fn finish(self) -> (tokens: Vec<Token>)
        requires
            self.inv(),
            self.model().are_convertible(self.model().tokens.len()),
        ensures
            tokens@ == self.model().finished(),
    {
        let mut ctx = self;
        let ghost before = self.state();
        assert(converted_between(before.table, before.tokens, before.next, before.next)
            =~= before.tokens);
        while ctx.next < ctx.tokens.len()
            invariant
                ctx.wf(),
                before == self.state(),
                before.are_convertible(before.tokens.len()),
                before.next <= ctx.next <= before.tokens.len(),
                ctx.state() == (UpdateModel {
                    tokens: converted_between(
                        before.table,
                        before.tokens,
                        before.next,
                        ctx.next as nat,
                    ),
                    next: ctx.next as nat,
                    ..before
                }),
            decreases before.tokens.len() - ctx.next,
        {
            let ghost next = ctx.next as nat;
            proof {
                assert(ctx.tokens@[next as int] == before.tokens[next as int]);
                assert(is_convertible(before.table, before.tokens[next as int].span));
            }
            ctx.convert_next();
            assert(ctx.state().tokens =~= converted_between(
                before.table,
                before.tokens,
                before.next,
                next + 1,
            ));
        }
        ctx.tokens
    }
}

impl<'a, 'b, O: ESTreeTokenConfig> Context<'a> for UpdateContext<'b, O> {
    type JSXState = O::JSXState;

    type Model = UpdateModel;

    closed spec fn spec_is_ts(&self) -> bool {
        self.options.spec_is_ts()
    }

    closed spec fn jsx(&self) -> O::JSXState {
        self.jsx_state
    }

    closed spec fn model(&self) -> UpdateModel {
        self.state()
    }

    closed spec fn inv(&self) -> bool {
        self.wf()
    }

    open spec fn accepts(model: UpdateModel, action: Action) -> bool {
        model.accepts(action)
    }

    open spec fn step(model: UpdateModel, action: Action) -> UpdateModel {
        model.step(action)
    }

    open spec fn spec_needs_quasis() -> bool {
        false
    }

    fn needs_quasis() -> (r: bool) {
        false
    }

    fn is_ts(&self) -> (r: bool) {
        self.options.is_ts()
    }

    fn jsx_state(&self) -> (state: &O::JSXState) {
        &self.jsx_state
    }

    fn jsx_state_mut(&mut self) -> (state: &mut O::JSXState) {
        &mut self.jsx_state
    }

    fn emit_identifier_at(&mut self, start: u32, _name: &'a str) {
        let is_js = !self.options.is_ts();
        let index = self.advance_to(start);

        // In JS style, `yield` / `let` / `static` used as identifiers should remain as keywords
        let kind = self.tokens[index].kind();
        if !is_js || !kind.is_js_only_keyword() {
            self.set_kind(index, Kind::Ident);
        } else {
            assert(self.state().tokens =~= self.state().with_kind(index as nat, kind).tokens);
        }
    }

    fn emit_this_identifier_at(&mut self, start: u32) {
        let index = self.advance_to(start);
        self.set_kind(index, Kind::Ident);
    }

    fn emit_jsx_identifier_at(&mut self, start: u32, _name: &'a str) {
        let index = self.advance_to(start);
        self.set_kind(index, Kind::JSXIdentifier);
    }

    fn emit_jsx_text_at(&mut self, start: u32) {
        let index = self.advance_to(start);
        self.set_kind(index, Kind::JSXText);
    }

    fn emit_private_identifier_at(&mut self, _start: u32, _name: &'a str) {
        // The token already has `Kind::PrivateIdentifier`.
        // It is skipped on the next call of `advance_to`.
    }

    fn emit_unsafe_token_at(&mut self, _start: u32, _token_type: &'static str) {
        // The token already has the correct kind.
    }

    fn emit_template_element(&mut self, _quasi: &TemplateElement) {
        // The token already has the correct kind.
    }

    fn emit_regexp(&mut self, _regexp: &RegExpLiteral<'a>) {
        // The token already has `Kind::RegExp`.
    }
}

} // verus!
