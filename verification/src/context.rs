//! What the requests of a walk over an AST are handed to.

use vstd::prelude::*;

use crate::ast::{RegExpLiteral, TemplateElement};
use crate::config::JSXState;
use crate::trace::{quasi_action, regexp_action, Action};

verus! {

/// A way of processing tokens: one request after the other, in source order.
///
/// What a request does is fixed by [`step`](Context::step), and when it may be made by
/// [`accepts`](Context::accepts), both on a model of the context.
pub trait Context<'a>: Sized {
    /// State which decides when to emit JSX identifiers.
    type JSXState: JSXState;

    /// What the requests so far have come to.
    type Model;

    /// Is it TS style?
    spec fn spec_is_ts(&self) -> bool;

    /// The JSX state.
    spec fn jsx(&self) -> Self::JSXState;

    /// What the requests so far have come to.
    spec fn model(&self) -> Self::Model;

    /// Do the parts of the context fit together?
    spec fn inv(&self) -> bool;

    /// May `action` be requested?
    spec fn accepts(model: Self::Model, action: Action) -> bool;

    /// What things have come to after `action`.
    spec fn step(model: Self::Model, action: Action) -> Self::Model;

    /// Are the text parts of templates to be requested?
    spec fn spec_needs_quasis() -> bool;

    /// `true` if the text parts of templates are to be requested, in source order with the parts
    /// between them.
    fn needs_quasis() -> (r: bool)
        ensures
            r == Self::spec_needs_quasis(),
    ;

    /// `true` for TS style.
    fn is_ts(&self) -> (r: bool)
        ensures
            r == self.spec_is_ts(),
    ;

    /// `true` for JS style.
    fn is_js(&self) -> (r: bool)
        ensures
            r == !self.spec_is_ts(),
    {
        !self.is_ts()
    }

    /// The JSX state.
    fn jsx_state(&self) -> (state: &Self::JSXState)
        ensures
            *state == self.jsx(),
    ;

    /// The JSX state, to be changed.
    fn jsx_state_mut(&mut self) -> (state: &mut Self::JSXState)
        requires
            old(self).inv(),
        ensures
            *state == old(self).jsx(),
            final(self).jsx() == *final(state),
            final(self).inv(),
            final(self).model() == old(self).model(),
            final(self).spec_is_ts() == old(self).spec_is_ts(),
    ;

    /// Emit the token at `start` as an identifier.
    fn emit_identifier_at(&mut self, start: u32, name: &'a str)
        requires
            old(self).inv(),
            Self::accepts(
                old(self).model(),
                Action::Identifier { start: start as int, name: name@ },
            ),
        ensures
            final(self).inv(),
            final(self).model() == Self::step(
                old(self).model(),
                Action::Identifier { start: start as int, name: name@ },
            ),
            final(self).jsx() == old(self).jsx(),
            final(self).spec_is_ts() == old(self).spec_is_ts(),
    ;

    /// Emit the `this` keyword at `start` as an identifier.
    fn emit_this_identifier_at(&mut self, start: u32)
        requires
            old(self).inv(),
            Self::accepts(old(self).model(), Action::ThisIdentifier { start: start as int }),
        ensures
            final(self).inv(),
            final(self).model() == Self::step(
                old(self).model(),
                Action::ThisIdentifier { start: start as int },
            ),
            final(self).jsx() == old(self).jsx(),
            final(self).spec_is_ts() == old(self).spec_is_ts(),
    ;

    /// Emit the token at `start` as a JSX identifier.
    fn emit_jsx_identifier_at(&mut self, start: u32, name: &'a str)
        requires
            old(self).inv(),
            Self::accepts(
                old(self).model(),
                Action::JSXIdentifier { start: start as int, name: name@ },
            ),
        ensures
            final(self).inv(),
            final(self).model() == Self::step(
                old(self).model(),
                Action::JSXIdentifier { start: start as int, name: name@ },
            ),
            final(self).jsx() == old(self).jsx(),
            final(self).spec_is_ts() == old(self).spec_is_ts(),
    ;

    /// Emit a string in a JSX attribute as JSX text.
    fn emit_jsx_text_at(&mut self, start: u32)
        requires
            old(self).inv(),
            Self::accepts(old(self).model(), Action::JSXText { start: start as int }),
        ensures
            final(self).inv(),
            final(self).model() == Self::step(
                old(self).model(),
                Action::JSXText { start: start as int },
            ),
            final(self).jsx() == old(self).jsx(),
            final(self).spec_is_ts() == old(self).spec_is_ts(),
    ;

    /// Emit the token at `start` as a private identifier.
    fn emit_private_identifier_at(&mut self, start: u32, name: &'a str)
        requires
            old(self).inv(),
            Self::accepts(
                old(self).model(),
                Action::PrivateIdentifier { start: start as int, name: name@ },
            ),
        ensures
            final(self).inv(),
            final(self).model() == Self::step(
                old(self).model(),
                Action::PrivateIdentifier { start: start as int, name: name@ },
            ),
            final(self).jsx() == old(self).jsx(),
            final(self).spec_is_ts() == old(self).spec_is_ts(),
    ;

    /// Emit a token whose value JSON may have to escape (strings, templates, JSX text).
    fn emit_unsafe_token_at(&mut self, start: u32, token_type: &'static str)
        requires
            old(self).inv(),
            Self::accepts(
                old(self).model(),
                Action::UnsafeToken { start: start as int, token_type: token_type@ },
            ),
        ensures
            final(self).inv(),
            final(self).model() == Self::step(
                old(self).model(),
                Action::UnsafeToken { start: start as int, token_type: token_type@ },
            ),
            final(self).jsx() == old(self).jsx(),
            final(self).spec_is_ts() == old(self).spec_is_ts(),
    ;

    /// Emit a text part of a template.
    ///
    /// The span of a text part excludes delimiters, so its token starts one byte before it.
    fn emit_template_element(&mut self, quasi: &TemplateElement)
        requires
            old(self).inv(),
            Self::accepts(old(self).model(), quasi_action(*quasi)),
        ensures
            final(self).inv(),
            final(self).model() == Self::step(old(self).model(), quasi_action(*quasi)),
            final(self).jsx() == old(self).jsx(),
            final(self).spec_is_ts() == old(self).spec_is_ts(),
    ;

    /// Emit a regular expression.
    fn emit_regexp(&mut self, regexp: &RegExpLiteral<'a>)
        requires
            old(self).inv(),
            Self::accepts(old(self).model(), regexp_action(*regexp)),
        ensures
            final(self).inv(),
            final(self).model() == Self::step(old(self).model(), regexp_action(*regexp)),
            final(self).jsx() == old(self).jsx(),
            final(self).spec_is_ts() == old(self).spec_is_ts(),
    ;
}

/// What things have come to after `actions`.
pub open spec fn run<'a, C: Context<'a>>(model: C::Model, actions: Seq<Action>) -> C::Model
    decreases actions.len(),
{
    if actions.len() == 0 {
        model
    } else {
        C::step(run::<C>(model, actions.drop_last()), actions.last())
    }
}

/// May `actions` be requested, one after the other?
pub open spec fn accepts_all<'a, C: Context<'a>>(model: C::Model, actions: Seq<Action>) -> bool
    decreases actions.len(),
{
    if actions.len() == 0 {
        true
    } else {
        &&& accepts_all::<C>(model, actions.drop_last())
        &&& C::accepts(run::<C>(model, actions.drop_last()), actions.last())
    }
}

/// Requests can be split anywhere: first `first`, then `second`.
pub proof fn lemma_run_concat<'a, C: Context<'a>>(
    model: C::Model,
    first: Seq<Action>,
    second: Seq<Action>,
)
    ensures
        run::<C>(model, first + second) == run::<C>(run::<C>(model, first), second),
        accepts_all::<C>(model, first + second) <==> accepts_all::<C>(model, first) && accepts_all::<C>(
            run::<C>(model, first),
            second,
        ),
    decreases second.len(),
{
    if second.len() == 0 {
        assert(first + second =~= first);
    } else {
        lemma_run_concat::<C>(model, first, second.drop_last());
        assert((first + second).drop_last() =~= first + second.drop_last());
    }
}

} // verus!
