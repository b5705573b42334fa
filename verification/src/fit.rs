//! Finding out whether tokens fit an AST, before anything is done to them.

use oxc_ast_visit::utf8_to_utf16::Utf8ToUtf16;
use vstd::prelude::*;

use crate::ast::{RegExpLiteral, TemplateElement};
use crate::config::{ESTreeTokenConfig, JSXState};
use crate::context::{accepts_all, run, Context};
use crate::json::{Cursor, JsonContext, JsonModel};
use crate::text::has_slice;
use crate::token::{first_from, lemma_first_from, Span, Token};
use crate::trace::Action;
use crate::update::{is_update, UpdateContext, UpdateModel};
use crate::utf16::{converter, is_convertible, translations};

verus! {

/// `true` if `span` can be converted, where `converts` says whether spans are converted at all.
fn convertible(converts: bool, span: Span) -> (r: bool)
    ensures
        r == (converts ==> span.start < u32::MAX && span.end < u32::MAX),
{
    !converts || (span.start < u32::MAX && span.end < u32::MAX)
}

/// After `action`, starting at `cursor`: `None` once a request may not be made.
pub open spec fn json_fit_step(cursor: Option<Cursor>, action: Action) -> Option<Cursor> {
    match cursor {
        Some(cursor) => if cursor.accepts(action) {
            Some(cursor.past(action.start()))
        } else {
            None
        },
        None => None,
    }
}

/// Goes through tokens as [`JsonContext`] does, and finds out whether it may do so.
pub struct JsonFit<'b, J: JSXState> {
    /// Tokens
    tokens: &'b [Token],
    /// Index of the next token
    next: usize,
    /// Source text
    source_text: &'b str,
    /// Conversion table for spans
    span_converter: &'b Utf8ToUtf16,
    /// `true` if the conversion table is not empty
    converts: bool,
    /// `true` for TS style
    ts: bool,
    /// JSX state tracking
    jsx_state: J,
    /// `true` as long as every request may be made
    ok: bool,
}

impl<'b, J: JSXState> JsonFit<'b, J> {
    /// Where the context is.
    pub closed spec fn cursor(self) -> Cursor {
        Cursor {
            ts: self.ts,
            tokens: self.tokens@,
            text: self.source_text@,
            table: translations(*self.span_converter),
            next: self.next as nat,
        }
    }

    /// Do the parts of the context fit together?
    pub closed spec fn wf(self) -> bool {
        &&& self.next <= self.tokens@.len()
        &&& self.converts == (self.cursor().table.len() > 0)
    }

    /// As long as every request may be made, the model has the style that the context reports, and its
    /// next token is within the tokens, or just after them.
    pub proof fn lemma_inv(&self)
        requires
            self.inv(),
        ensures
            self.model() matches Some(cursor) ==> {
                &&& cursor.ts == self.spec_is_ts()
                &&& cursor.next <= cursor.tokens.len()
                &&& cursor == self.cursor()
            },
    {
    }

    /// A context which has not dealt with any token yet.
    pub fn new(
        tokens: &'b [Token],
        source_text: &'b str,
        span_converter: &'b Utf8ToUtf16,
        ts: bool,
    ) -> (ctx: Self)
        ensures
            ctx.inv(),
            ctx.model() == Some(
                Cursor {
                    ts,
                    tokens: tokens@,
                    text: source_text@,
                    table: translations(*span_converter),
                    next: 0,
                },
            ),
            ctx.jsx() == J::spec_initial(),
            ctx.spec_is_ts() == ts,
    {
        JsonFit {
            tokens,
            next: 0,
            source_text,
            span_converter,
            converts: converter(span_converter).is_some(),
            ts,
            jsx_state: J::initial(),
            ok: true,
        }
    }

    /// `true` if `token` has a source text.
    fn has_text(&self, token: Token) -> (r: bool)
        ensures
            r == self.cursor().has_text(token.span.start as int, token.span.end as int),
    {
        has_slice(self.source_text, token.start() as usize, token.end() as usize)
    }

    /// `true` if `token` can be emitted with its default type.
    fn is_default(&self, token: Token) -> (r: bool)
        requires
            self.wf(),
        ensures
            r == self.cursor().is_default(token),
    {
        !token.kind().has_own_node() && self.has_text(token) && convertible(
            self.converts,
            token.span(),
        )
    }

    /// Go to the token at `start`, if it can be reached.
    fn advance_to(&mut self, start: u32) -> (found: Option<Token>)
        requires
            old(self).wf(),
        ensures
            final(self).wf(),
            final(self).jsx_state == old(self).jsx_state,
            final(self).ts == old(self).ts,
            match found {
                Some(token) => {
                    &&& old(self).ok && final(self).ok
                    &&& old(self).cursor().reaches(start as int)
                    &&& token == old(self).cursor().token_at(start as int)
                    &&& final(self).cursor() == old(self).cursor().past(start as int)
                },
                None => {
                    &&& !(old(self).ok && old(self).cursor().reaches(start as int))
                    &&& !final(self).ok
                },
            },
    {
        if !self.ok {
            return None;
        }
        let ghost cursor = self.cursor();
        let mut i: usize = self.next;
        while i < self.tokens.len() && self.tokens[i].start() < start
            invariant
                *self == *old(self),
                self.wf(),
                self.ok,
                cursor == self.cursor(),
                cursor.next <= i <= cursor.tokens.len(),
                first_from(cursor.tokens, start as int, i as nat) == cursor.target(start as int),
                cursor.are_default(i as nat),
            decreases self.tokens.len() - i,
        {
            proof {
                lemma_first_from(cursor.tokens, start as int, i as nat);
                lemma_first_from(cursor.tokens, start as int, (i + 1) as nat);
            }
            if !self.is_default(self.tokens[i]) {
                assert(!cursor.is_default(cursor.tokens[i as int]));
                self.ok = false;
                return None;
            }
            i += 1;
        }
        if i < self.tokens.len() && self.tokens[i].start() == start && convertible(
            self.converts,
            self.tokens[i].span(),
        ) {
            self.next = i + 1;
            Some(self.tokens[i])
        } else {
            self.ok = false;
            None
        }
    }

    /// `true` if every request could be made, and what remains can be emitted with default types.
    pub fn finish(self) -> (r: bool)
        requires
            self.inv(),
        ensures
            r == (self.model() matches Some(cursor) && cursor.are_default(cursor.tokens.len())),
    {
        if !self.ok {
            return false;
        }
        let ghost cursor = self.cursor();
        let mut i: usize = self.next;
        while i < self.tokens.len()
            invariant
                self.wf(),
                self.ok,
                cursor == self.cursor(),
                cursor.next <= i <= cursor.tokens.len(),
                cursor.are_default(i as nat),
            decreases self.tokens.len() - i,
        {
            if !self.is_default(self.tokens[i]) {
                assert(!cursor.is_default(cursor.tokens[i as int]));
                return false;
            }
            i += 1;
        }
        true
    }
}

impl<'a, 'b, J: JSXState> Context<'a> for JsonFit<'b, J> {
    type JSXState = J;

    type Model = Option<Cursor>;

    closed spec fn spec_is_ts(&self) -> bool {
        self.ts
    }

    closed spec fn jsx(&self) -> J {
        self.jsx_state
    }

    closed spec fn model(&self) -> Option<Cursor> {
        if self.ok {
            Some(self.cursor())
        } else {
            None
        }
    }

    closed spec fn inv(&self) -> bool {
        self.wf()
    }

    open spec fn accepts(model: Option<Cursor>, action: Action) -> bool {
        true
    }

    open spec fn step(model: Option<Cursor>, action: Action) -> Option<Cursor> {
        json_fit_step(model, action)
    }

    open spec fn spec_needs_quasis() -> bool {
        true
    }

    fn needs_quasis() -> (r: bool) {
        true
    }

    fn is_ts(&self) -> (r: bool) {
        self.ts
    }

    fn jsx_state(&self) -> (state: &J) {
        &self.jsx_state
    }

    fn jsx_state_mut(&mut self) -> (state: &mut J) {
        &mut self.jsx_state
    }

    fn emit_identifier_at(&mut self, start: u32, _name: &'a str) {
        if let Some(token) = self.advance_to(start) {
            if self.ts && token.escaped() && !self.has_text(token) {
                self.ok = false;
            }
        }
    }

    fn emit_this_identifier_at(&mut self, start: u32) {
        let _ = self.advance_to(start);
    }

    fn emit_jsx_identifier_at(&mut self, start: u32, _name: &'a str) {
        let _ = self.advance_to(start);
    }

    fn emit_jsx_text_at(&mut self, start: u32) {
        if let Some(token) = self.advance_to(start) {
            if !self.has_text(token) {
                self.ok = false;
            }
        }
    }

    fn emit_private_identifier_at(&mut self, start: u32, _name: &'a str) {
        if let Some(token) = self.advance_to(start) {
            // The text after the leading `#`
            if self.ts && token.escaped() && (token.start() == u32::MAX || !has_slice(
                self.source_text,
                token.start() as usize + 1,
                token.end() as usize,
            )) {
                self.ok = false;
            }
        }
    }

    fn emit_unsafe_token_at(&mut self, start: u32, _token_type: &'static str) {
        if let Some(token) = self.advance_to(start) {
            if !self.has_text(token) {
                self.ok = false;
            }
        }
    }

    fn emit_template_element(&mut self, quasi: &TemplateElement) {
        if quasi.span.start == 0 {
            self.ok = false;
        } else {
            self.emit_unsafe_token_at(quasi.span.start - 1, "Template");
        }
    }

    fn emit_regexp(&mut self, regexp: &RegExpLiteral<'a>) {
        if self.advance_to(regexp.span.start).is_some() {
            if let Some(raw) = regexp.raw {
                let end: usize = raw.as_bytes().len();
                let pattern_len: usize = regexp.pattern.as_bytes().len();
                if end < 2 || pattern_len > end - 2 || !has_slice(raw, pattern_len + 2, end) {
                    self.ok = false;
                }
            } else {
                self.ok = false;
            }
        }
    }
}

/// [`JsonFit`] finds out whether [`JsonContext`] may handle `actions`, and where it is afterwards.
pub proof fn lemma_json_fit<O: ESTreeTokenConfig>(start: JsonModel, actions: Seq<Action>)
    ensures
        run::<JsonFit<'_, O::JSXState>>(Some(start.cursor), actions) == if accepts_all::<
            JsonContext<'_, '_, O>,
        >(start, actions) {
            Some(run::<JsonContext<'_, '_, O>>(start, actions).cursor)
        } else {
            None
        },
        accepts_all::<JsonFit<'_, O::JSXState>>(Some(start.cursor), actions),
    decreases actions.len(),
{
    if actions.len() > 0 {
        lemma_json_fit::<O>(start, actions.drop_last());
    }
}

/// After `action`, starting at `model`: `None` once a request may not be made. Tokens are left
/// as they are.
pub open spec fn update_fit_step(model: Option<UpdateModel>, action: Action) -> Option<
    UpdateModel,
> {
    match model {
        Some(model) => if !is_update(action) {
            Some(model)
        } else if model.reaches(action.start()) {
            Some(UpdateModel { next: model.target(action.start()) + 1, ..model })
        } else {
            None
        },
        None => None,
    }
}

/// Goes through tokens as [`UpdateContext`] does, and finds out whether it may do so.
pub struct UpdateFit<'b, J: JSXState> {
    /// Tokens
    tokens: &'b [Token],
    /// Index of the next token
    next: usize,
    /// Conversion table for spans
    span_converter: &'b Utf8ToUtf16,
    /// `true` if the conversion table is not empty
    converts: bool,
    /// `true` for TS style
    ts: bool,
    /// JSX state tracking
    jsx_state: J,
    /// `true` as long as every request may be made
    ok: bool,
}

impl<'b, J: JSXState> UpdateFit<'b, J> {
    /// Where the context is.
    pub closed spec fn state(self) -> UpdateModel {
        UpdateModel {
            ts: self.ts,
            tokens: self.tokens@,
            table: translations(*self.span_converter),
            next: self.next as nat,
        }
    }

    /// Do the parts of the context fit together?
    pub closed spec fn wf(self) -> bool {
        &&& self.next <= self.tokens@.len()
        &&& self.converts == (self.state().table.len() > 0)
    }

    /// As long as every request may be made, the model has the style that the context reports, and its
    /// next token is within the tokens, or just after them.
    pub proof fn lemma_inv(&self)
        requires
            self.inv(),
        ensures
            self.model() matches Some(model) ==> {
                &&& model.ts == self.spec_is_ts()
                &&& model.next <= model.tokens.len()
                &&& model == self.state()
            },
    {
    }

    /// A context which has not dealt with any token yet.
    pub fn new(tokens: &'b [Token], span_converter: &'b Utf8ToUtf16, ts: bool) -> (ctx: Self)
        ensures
            ctx.inv(),
            ctx.model() == Some(
                UpdateModel {
                    ts,
                    tokens: tokens@,
                    table: translations(*span_converter),
                    next: 0,
                },
            ),
            ctx.jsx() == J::spec_initial(),
            ctx.spec_is_ts() == ts,
    {
        UpdateFit {
            tokens,
            next: 0,
            span_converter,
            converts: converter(span_converter).is_some(),
            ts,
            jsx_state: J::initial(),
            ok: true,
        }
    }

    /// Go to the token at `start`, if it can be reached.
    fn advance_to(&mut self, start: u32)
        requires
            old(self).wf(),
        ensures
            final(self).wf(),
            final(self).jsx_state == old(self).jsx_state,
            final(self).ts == old(self).ts,
            final(self).ok == (old(self).ok && old(self).state().reaches(start as int)),
            final(self).ok ==> final(self).state() == (UpdateModel {
                next: old(self).state().target(start as int) + 1,
                ..old(self).state()
            }),
    {
        if !self.ok {
            return;
        }
        let ghost state = self.state();
        let mut i: usize = self.next;
        while i < self.tokens.len() && self.tokens[i].start() < start
            invariant
                *self == *old(self),
                self.wf(),
                self.ok,
                state == self.state(),
                state.next <= i <= state.tokens.len(),
                first_from(state.tokens, start as int, i as nat) == state.target(start as int),
                state.are_convertible(i as nat),
            decreases self.tokens.len() - i,
        {
            proof {
                lemma_first_from(state.tokens, start as int, i as nat);
                lemma_first_from(state.tokens, start as int, (i + 1) as nat);
            }
            if !convertible(self.converts, self.tokens[i].span()) {
                assert(!is_convertible(state.table, state.tokens[i as int].span));
                self.ok = false;
                return;
            }
            i += 1;
        }
        if i < self.tokens.len() && self.tokens[i].start() == start && convertible(
            self.converts,
            self.tokens[i].span(),
        ) {
            self.next = i + 1;
        } else {
            self.ok = false;
        }
    }

    /// `true` if every request could be made, and the spans of what remains can be converted.
    pub fn finish(self) -> (r: bool)
        requires
            self.inv(),
        ensures
            r == (self.model() matches Some(model) && model.are_convertible(model.tokens.len())),
    {
        if !self.ok {
            return false;
        }
        let ghost state = self.state();
        let mut i: usize = self.next;
        while i < self.tokens.len()
            invariant
                self.wf(),
                self.ok,
                state == self.state(),
                state.next <= i <= state.tokens.len(),
                state.are_convertible(i as nat),
            decreases self.tokens.len() - i,
        {
            if !convertible(self.converts, self.tokens[i].span()) {
                assert(!is_convertible(state.table, state.tokens[i as int].span));
                return false;
            }
            i += 1;
        }
        true
    }
}

impl<'a, 'b, J: JSXState> Context<'a> for UpdateFit<'b, J> {
    type JSXState = J;

    type Model = Option<UpdateModel>;

    closed spec fn spec_is_ts(&self) -> bool {
        self.ts
    }

    closed spec fn jsx(&self) -> J {
        self.jsx_state
    }

    closed spec fn model(&self) -> Option<UpdateModel> {
        if self.ok {
            Some(self.state())
        } else {
            None
        }
    }

    closed spec fn inv(&self) -> bool {
        self.wf()
    }

    open spec fn accepts(model: Option<UpdateModel>, action: Action) -> bool {
        true
    }

    open spec fn step(model: Option<UpdateModel>, action: Action) -> Option<UpdateModel> {
        update_fit_step(model, action)
    }

    open spec fn spec_needs_quasis() -> bool {
        false
    }

    fn needs_quasis() -> (r: bool) {
        false
    }

    fn is_ts(&self) -> (r: bool) {
        self.ts
    }

    fn jsx_state(&self) -> (state: &J) {
        &self.jsx_state
    }

    fn jsx_state_mut(&mut self) -> (state: &mut J) {
        &mut self.jsx_state
    }

    fn emit_identifier_at(&mut self, start: u32, _name: &'a str) {
        self.advance_to(start);
    }

    fn emit_this_identifier_at(&mut self, start: u32) {
        self.advance_to(start);
    }

    fn emit_jsx_identifier_at(&mut self, start: u32, _name: &'a str) {
        self.advance_to(start);
    }

    fn emit_jsx_text_at(&mut self, start: u32) {
        self.advance_to(start);
    }

    fn emit_private_identifier_at(&mut self, _start: u32, _name: &'a str) {
    }

    fn emit_unsafe_token_at(&mut self, _start: u32, _token_type: &'static str) {
    }

    fn emit_template_element(&mut self, _quasi: &TemplateElement) {
    }

    fn emit_regexp(&mut self, _regexp: &RegExpLiteral<'a>) {
    }
}

/// If `a` and `b` agree from `i` on, then so do searches from `i` on.
proof fn lemma_first_from_suffix(a: Seq<Token>, b: Seq<Token>, start: int, i: nat)
    requires
        a.len() == b.len(),
        forall|j: int| i <= j < a.len() ==> a[j] == b[j],
    ensures
        first_from(a, start, i) == first_from(b, start, i),
    decreases a.len() - i,
{
    if i < a.len() && a[i as int].span.start < start {
        lemma_first_from_suffix(a, b, start, i + 1);
    }
}

/// [`UpdateFit`] finds out whether [`UpdateContext`] may handle `actions`, and where it is
/// afterwards. The tokens from there on are as they were.
pub proof fn lemma_update_fit<O: ESTreeTokenConfig>(start: UpdateModel, actions: Seq<Action>)
    ensures
        accepts_all::<UpdateFit<'_, O::JSXState>>(Some(start), actions),
        match run::<UpdateFit<'_, O::JSXState>>(Some(start), actions) {
            Some(fit) => {
                let model = run::<UpdateContext<'_, O>>(start, actions);
                &&& accepts_all::<UpdateContext<'_, O>>(start, actions)
                &&& fit == (UpdateModel { next: model.next, ..start })
                &&& model == (UpdateModel { next: model.next, tokens: model.tokens, ..start })
                &&& model.tokens.len() == start.tokens.len()
                &&& forall|j: int|
                    model.next <= j < start.tokens.len() ==> model.tokens[j] == start.tokens[j]
            },
            None => !accepts_all::<UpdateContext<'_, O>>(start, actions),
        },
    decreases actions.len(),
{
    if actions.len() > 0 {
        lemma_update_fit::<O>(start, actions.drop_last());
        let action = actions.last();
        if let Some(fit) = run::<UpdateFit<'_, O::JSXState>>(Some(start), actions.drop_last()) {
            let model = run::<UpdateContext<'_, O>>(start, actions.drop_last());
            lemma_first_from_suffix(start.tokens, model.tokens, action.start(), model.next);
            lemma_first_from(start.tokens, action.start(), model.next);
            assert(fit.reaches(action.start()) <==> model.reaches(action.start()));
        }
    }
}

} // verus!
