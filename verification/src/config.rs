//! Styles of tokens, and the state that decides when an identifier is a JSX identifier.

use vstd::prelude::*;

use crate::ast::MemberExpression;

verus! {

/// Tracks where the walk over an AST is, to decide when to emit JSX identifiers.
///
/// Each method is fixed by a spec function on the state.
pub trait JSXState: Sized {
    /// State at the start of a program.
    spec fn spec_initial() -> Self;

    /// Is an identifier a JSX identifier in this state?
    spec fn spec_should_emit_jsx_identifier(self) -> bool;

    /// State inside a JSX expression which is entered in this state.
    spec fn spec_enter_jsx_expression(self) -> Self;

    /// State after a JSX expression which is left in this state.
    spec fn spec_exit_jsx_expression(self) -> Self;

    /// State inside a member expression which is entered in this state.
    spec fn spec_enter_member_expression(self, member_expr: MemberExpression<'_>) -> Self;

    /// State after a member expression which is left in this state.
    spec fn spec_exit_member_expression(self, member_expr: MemberExpression<'_>) -> Self;

    fn initial() -> (state: Self)
        ensures
            state == Self::spec_initial(),
    ;

    fn should_emit_jsx_identifier(&self) -> (r: bool)
        ensures
            r == self.spec_should_emit_jsx_identifier(),
    ;

    fn enter_jsx_expression(&mut self)
        ensures
            *final(self) == old(self).spec_enter_jsx_expression(),
    ;

    fn exit_jsx_expression(&mut self)
        ensures
            *final(self) == old(self).spec_exit_jsx_expression(),
    ;

    fn enter_member_expression(&mut self, member_expr: &MemberExpression<'_>)
        ensures
            *final(self) == old(self).spec_enter_member_expression(*member_expr),
    ;

    fn exit_member_expression(&mut self, member_expr: &MemberExpression<'_>)
        ensures
            *final(self) == old(self).spec_exit_member_expression(*member_expr),
    ;
}

/// Style of tokens.
pub trait ESTreeTokenConfig: Sized {
    /// State which decides when to emit JSX identifiers.
    type JSXState: JSXState;

    /// Is it TS style?
    spec fn spec_is_ts(&self) -> bool;

    /// `true` for TS style, `false` for JS style.
    fn is_ts(&self) -> (r: bool)
        ensures
            r == self.spec_is_ts(),
    ;
}

/// JSX state of styles in which no identifier outside JSX names is a JSX identifier.
#[derive(Clone, Copy, Debug, Default, PartialEq, Eq)]
pub struct NoJSXState;

impl JSXState for NoJSXState {
    open spec fn spec_initial() -> Self {
        NoJSXState
    }

    open spec fn spec_should_emit_jsx_identifier(self) -> bool {
        false
    }

    open spec fn spec_enter_jsx_expression(self) -> Self {
        self
    }

    open spec fn spec_exit_jsx_expression(self) -> Self {
        self
    }

    open spec fn spec_enter_member_expression(self, member_expr: MemberExpression<'_>) -> Self {
        self
    }

    open spec fn spec_exit_member_expression(self, member_expr: MemberExpression<'_>) -> Self {
        self
    }

    fn initial() -> (state: Self) {
        NoJSXState
    }

    fn should_emit_jsx_identifier(&self) -> (r: bool) {
        false
    }

    fn enter_jsx_expression(&mut self) {
    }

    fn exit_jsx_expression(&mut self) {
    }

    fn enter_member_expression(&mut self, _member_expr: &MemberExpression<'_>) {
    }

    fn exit_member_expression(&mut self, _member_expr: &MemberExpression<'_>) {
    }
}

/// JS style.
#[derive(Clone, Copy, Debug, Default, PartialEq, Eq)]
pub struct JSStyle;

impl ESTreeTokenConfig for JSStyle {
    type JSXState = NoJSXState;

    open spec fn spec_is_ts(&self) -> bool {
        false
    }

    fn is_ts(&self) -> (r: bool) {
        false
    }
}

/// JS style is not TS style, and its JSX state never makes an identifier a JSX identifier.
pub proof fn law_js_style(state: NoJSXState)
    ensures
        !JSStyle.spec_is_ts(),
        !state.spec_should_emit_jsx_identifier(),
        state == <JSStyle as ESTreeTokenConfig>::JSXState::spec_initial(),
{
}

} // verus!
