//! ESTree tokens.

use vstd::prelude::*;

use crate::encode::{encode_json_safe, encode_text, is_encoded, quoted};
use crate::token::Span;

verus! {

/// Token whose value is guaranteed JSON-safe.
///
/// Used for identifiers, keywords, punctuators, numbers, booleans, `null` -
/// any token whose `value` cannot contain quotes, backslashes, or control characters.
#[derive(Clone, Copy, Debug, PartialEq, Eq)]
pub struct ESTreeSafeToken<'a> {
    pub token_type: &'static str,
    pub value: &'a str,
    pub span: Span,
}

/// Token whose `value` may not be JSON-safe.
///
/// Used for strings, templates, and JSXText.
#[derive(Clone, Copy, Debug, PartialEq, Eq)]
pub struct ESTreeUnsafeToken<'a> {
    pub token_type: &'static str,
    pub value: &'a str,
    pub span: Span,
}

/// The `regex` sub-object inside `ESTreeRegExpToken`.
#[derive(Clone, Copy, Debug, PartialEq, Eq)]
pub struct RegExpData<'a> {
    pub flags: &'a str,
    pub pattern: &'a str,
}

/// `RegularExpression` token.
///
/// Flags are sliced from source text to preserve the original order.
#[derive(Clone, Copy, Debug, PartialEq, Eq)]
pub struct ESTreeRegExpToken<'a> {
    pub value: &'a str,
    pub regex: RegExpData<'a>,
    pub span: Span,
}

/// A token of any of the three sorts.
#[derive(Clone, Copy, Debug, PartialEq, Eq)]
pub enum ESTreeToken<'a> {
    Safe(ESTreeSafeToken<'a>),
    Unsafe(ESTreeUnsafeToken<'a>),
    RegExp(ESTreeRegExpToken<'a>),
}

/// What an ESTree token says.
pub enum TokenView {
    Safe { token_type: Seq<char>, value: Seq<char>, span: Span },
    Unsafe { token_type: Seq<char>, value: Seq<char>, span: Span },
    RegExp { value: Seq<char>, flags: Seq<char>, pattern: Seq<char>, span: Span },
}

impl TokenView {
    /// Type of the token.
    pub open spec fn token_type(self) -> Seq<char> {
        match self {
            TokenView::Safe { token_type, .. } => token_type,
            TokenView::Unsafe { token_type, .. } => token_type,
            TokenView::RegExp { .. } => "RegularExpression"@,
        }
    }

    /// Value of the token.
    pub open spec fn value(self) -> Seq<char> {
        match self {
            TokenView::Safe { value, .. } => value,
            TokenView::Unsafe { value, .. } => value,
            TokenView::RegExp { value, .. } => value,
        }
    }

    /// Span of the token.
    pub open spec fn span(self) -> Span {
        match self {
            TokenView::Safe { span, .. } => span,
            TokenView::Unsafe { span, .. } => span,
            TokenView::RegExp { span, .. } => span,
        }
    }
}

impl<'a> View for ESTreeToken<'a> {
    type V = TokenView;

    open spec fn view(&self) -> TokenView {
        match self {
            ESTreeToken::Safe(token) => TokenView::Safe {
                token_type: token.token_type@,
                value: token.value@,
                span: token.span,
            },
            ESTreeToken::Unsafe(token) => TokenView::Unsafe {
                token_type: token.token_type@,
                value: token.value@,
                span: token.span,
            },
            ESTreeToken::RegExp(token) => TokenView::RegExp {
                value: token.value@,
                flags: token.regex.flags@,
                pattern: token.regex.pattern@,
                span: token.span,
            },
        }
    }
}

/// A part of a JSON object. Parts stand in the order in which they are written.
#[derive(Clone, Copy, Debug, PartialEq, Eq)]
pub enum Entry<'a> {
    /// A field with a string which needs no escaping in JSON.
    JsonSafe { key: &'static str, value: &'a str },
    /// A field with a string which may need escaping in JSON.
    Text { key: &'static str, value: &'a str },
    /// A field with an object for the pattern and the flags of a regular expression.
    RegExp { key: &'static str, regex: RegExpData<'a> },
    /// The fields of a span.
    Span(Span),
}

/// What a part of a JSON object says.
pub enum EntryView {
    JsonSafe { key: Seq<char>, value: Seq<char> },
    Text { key: Seq<char>, value: Seq<char> },
    RegExp { key: Seq<char>, flags: Seq<char>, pattern: Seq<char> },
    Span(Span),
}

impl<'a> View for Entry<'a> {
    type V = EntryView;

    open spec fn view(&self) -> EntryView {
        match self {
            Entry::JsonSafe { key, value } => EntryView::JsonSafe { key: key@, value: value@ },
            Entry::Text { key, value } => EntryView::Text { key: key@, value: value@ },
            Entry::RegExp { key, regex } => EntryView::RegExp {
                key: key@,
                flags: regex.flags@,
                pattern: regex.pattern@,
            },
            Entry::Span(span) => EntryView::Span(*span),
        }
    }
}

impl EntryView {
    /// Key of a field.
    pub open spec fn key(self) -> Option<Seq<char>> {
        match self {
            EntryView::JsonSafe { key, .. } => Some(key),
            EntryView::Text { key, .. } => Some(key),
            EntryView::RegExp { key, .. } => Some(key),
            EntryView::Span(_) => None,
        }
    }

    /// Value of a field with a string.
    pub open spec fn value(self) -> Option<Seq<char>> {
        match self {
            EntryView::JsonSafe { value, .. } => Some(value),
            EntryView::Text { value, .. } => Some(value),
            EntryView::RegExp { .. } => None,
            EntryView::Span(_) => None,
        }
    }

    /// Is the value of a field with a string written as `json`?
    pub open spec fn is_written_as(self, json: Seq<char>) -> bool {
        match self {
            EntryView::JsonSafe { value, .. } => json == quoted(value),
            EntryView::Text { value, .. } => is_encoded(value, json),
            EntryView::RegExp { .. } => false,
            EntryView::Span(_) => false,
        }
    }
}

impl<'a> Entry<'a> {
    /// The JSON string for the value of a field, or `None` if it is no field with a string.
    ///
    /// JSON encoding is skipped for a value which needs no escaping.
    pub fn value_json(&self) -> (json: Option<String>)
        ensures
            json is Some <==> self@.value() is Some,
            json matches Some(json) ==> self@.is_written_as(json@),
    {
        match self {
            Entry::JsonSafe { value, .. } => Some(encode_json_safe(value)),
            Entry::Text { value, .. } => Some(encode_text(value)),
            Entry::RegExp { .. } => None,
            Entry::Span(_) => None,
        }
    }
}

/// What each of `entries` says.
pub open spec fn entry_views(entries: Seq<Entry<'_>>) -> Seq<EntryView> {
    Seq::new(entries.len(), |i: int| entries[i]@)
}

/// The JSON object for the pattern and the flags of a regular expression.
///
/// Flags are single ASCII letters (d, g, i, m, s, u, v, y) - always JSON-safe.
pub open spec fn regexp_entries(flags: Seq<char>, pattern: Seq<char>) -> Seq<EntryView> {
    seq![
        EntryView::JsonSafe { key: "flags"@, value: flags },
        EntryView::Text { key: "pattern"@, value: pattern },
    ]
}

impl TokenView {
    /// The JSON object for the token.
    pub open spec fn entries(self) -> Seq<EntryView> {
        let token_type = EntryView::JsonSafe { key: "type"@, value: self.token_type() };
        match self {
            TokenView::Safe { value, span, .. } => seq![
                token_type,
                EntryView::JsonSafe { key: "value"@, value },
                EntryView::Span(span),
            ],
            TokenView::Unsafe { value, span, .. } => seq![
                token_type,
                EntryView::Text { key: "value"@, value },
                EntryView::Span(span),
            ],
            TokenView::RegExp { value, flags, pattern, span } => seq![
                token_type,
                EntryView::Text { key: "value"@, value },
                EntryView::RegExp { key: "regex"@, flags, pattern },
                EntryView::Span(span),
            ],
        }
    }
}

impl<'a> ESTreeSafeToken<'a> {
    /// The JSON object for the token.
    pub fn serialize(&self) -> (entries: Vec<Entry<'a>>)
        ensures
            entry_views(entries@) == ESTreeToken::Safe(*self)@.entries(),
    {
        let entries = vec![
            Entry::JsonSafe { key: "type", value: self.token_type },
            Entry::JsonSafe { key: "value", value: self.value },
            Entry::Span(self.span),
        ];
        assert(entry_views(entries@) =~= ESTreeToken::Safe(*self)@.entries());
        entries
    }
}

impl<'a> ESTreeUnsafeToken<'a> {
    /// The JSON object for the token.
    pub fn serialize(&self) -> (entries: Vec<Entry<'a>>)
        ensures
            entry_views(entries@) == ESTreeToken::Unsafe(*self)@.entries(),
    {
        let entries = vec![
            Entry::JsonSafe { key: "type", value: self.token_type },
            Entry::Text { key: "value", value: self.value },
            Entry::Span(self.span),
        ];
        assert(entry_views(entries@) =~= ESTreeToken::Unsafe(*self)@.entries());
        entries
    }
}

impl<'a> ESTreeRegExpToken<'a> {
    /// The JSON object for the token.
    pub fn serialize(&self) -> (entries: Vec<Entry<'a>>)
        ensures
            entry_views(entries@) == ESTreeToken::RegExp(*self)@.entries(),
    {
        let entries = vec![
            Entry::JsonSafe { key: "type", value: "RegularExpression" },
            Entry::Text { key: "value", value: self.value },
            Entry::RegExp { key: "regex", regex: self.regex },
            Entry::Span(self.span),
        ];
        assert(entry_views(entries@) =~= ESTreeToken::RegExp(*self)@.entries());
        entries
    }
}

impl<'a> RegExpData<'a> {
    /// The JSON object for the pattern and the flags.
    pub fn serialize(&self) -> (entries: Vec<Entry<'a>>)
        ensures
            entry_views(entries@) == regexp_entries(self.flags@, self.pattern@),
    {
        let entries = vec![
            Entry::JsonSafe { key: "flags", value: self.flags },
            Entry::Text { key: "pattern", value: self.pattern },
        ];
        assert(entry_views(entries@) =~= regexp_entries(self.flags@, self.pattern@));
        entries
    }
}

impl<'a> ESTreeToken<'a> {
    /// The JSON object for the token.
    pub fn serialize(&self) -> (entries: Vec<Entry<'a>>)
        ensures
            entry_views(entries@) == self@.entries(),
    {
        match self {
            ESTreeToken::Safe(token) => token.serialize(),
            ESTreeToken::Unsafe(token) => token.serialize(),
            ESTreeToken::RegExp(token) => token.serialize(),
        }
    }
}

/// What each of `tokens` says.
pub open spec fn views(tokens: Seq<ESTreeToken<'_>>) -> Seq<TokenView> {
    Seq::new(tokens.len(), |i: int| tokens[i]@)
}

} // verus!
