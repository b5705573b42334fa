//! What comes of a token, from what is asked for where it stands.
//!
//! These laws go from the leaves of the AST to the ESTree tokens and to the updated kinds, by way of
//! nothing but the places at which tokens and leaves start.

use vstd::prelude::*;
use vstd::utf8::{encode_utf8, is_ascii_chars_encode_utf8};

use crate::ast::Program;
use crate::config::ESTreeTokenConfig;
use crate::context::{accepts_all, run};
use crate::estree::TokenView;
use crate::json::{flags_start, Cursor, JsonContext, JsonModel};
use crate::kind::{default_token_type, law_default_types, law_sorts_of_kinds, law_types, Kind};
use crate::laws::{
    in_source_order, law_serialized_tokens, law_updated_tokens, lemma_first_from_is, serialized_at,
    updated_at,
};
use crate::occurrences::{
    is_increasing, law_requests_are_what_is_asked_for, law_requests_follow_the_source,
    program_asks, program_ordered,
};
use crate::parsed::{law_regexp_flags, lemma_encode_utf8_concat, regexp_text};
use crate::serialize::{
    can_serialize, can_update, json_start, requests, serialized, update_start, updated,
};
use crate::text::{is_slice, law_slice_of_concatenation, text_slice};
use crate::token::Token;
use crate::trace::Action;
use crate::update::{is_update, updates, UpdateContext, UpdateModel};
use crate::utf16::{is_convertible, utf16_offset};
use crate::walks::{is_balanced, nodes_complete};

verus! {

/// Can walks over `program` be told by what stands in it? Its templates are complete, and in TS style
/// leaving an expression undoes what entering it did to the JSX state.
pub open spec fn is_walkable<O: ESTreeTokenConfig>(program: Program<'_>, options: O) -> bool {
    &&& nodes_complete(program.children@)
    &&& options.spec_is_ts() ==> is_balanced::<O::JSXState>()
}

/// Is `kind` one of the three that JS style leaves as keywords where they are used as identifiers?
pub open spec fn is_yield_let_or_static(kind: Kind) -> bool {
    kind == Kind::Yield || kind == Kind::Let || kind == Kind::Static
}

/// Is `element` what becomes of `token`, where `action` is asked for?
pub open spec fn is_outcome(
    ts: bool,
    text: Seq<char>,
    token: Token,
    action: Action,
    element: TokenView,
) -> bool {
    let start = token.span.start as int;
    let end = token.span.end as int;
    match action {
        Action::Identifier { name, .. } => {
            &&& !ts && is_yield_let_or_static(token.kind) ==> element.token_type() == "Keyword"@
            &&& ts || !is_yield_let_or_static(token.kind) ==> element.token_type() == "Identifier"@
            &&& ts && token.escaped ==> element is Unsafe && element.value() == text_slice(
                text,
                start,
                end,
            )
            &&& !ts || !token.escaped ==> element is Safe && element.value() == name
        },
        Action::ThisIdentifier { .. } => {
            &&& element is Safe
            &&& element.token_type() == "Identifier"@
            &&& element.value() == "this"@
        },
        Action::JSXIdentifier { name, .. } => {
            &&& element is Safe
            &&& element.token_type() == "JSXIdentifier"@
            &&& element.value() == name
        },
        Action::JSXText { .. } => {
            &&& element is Unsafe
            &&& element.token_type() == "JSXText"@
            &&& element.value() == text_slice(text, start, end)
        },
        Action::PrivateIdentifier { name, .. } => {
            &&& element.token_type() == "PrivateIdentifier"@
            &&& ts && token.escaped ==> element is Unsafe && element.value() == text_slice(
                text,
                start + 1,
                end,
            )
            &&& !ts || !token.escaped ==> element is Safe && element.value() == name
        },
        Action::UnsafeToken { token_type, .. } => {
            &&& element is Unsafe
            &&& element.token_type() == token_type
            &&& element.value() == text_slice(text, start, end)
        },
        Action::RegExp { raw, pattern, .. } => {
            &&& element is RegExp
            &&& element.token_type() == "RegularExpression"@
            &&& raw == Some(element.value())
            &&& element->RegExp_pattern == pattern
            &&& forall|flags: Seq<char>|
                element.value() == #[trigger] regexp_text(pattern, flags) ==> element->RegExp_flags
                    == flags
        },
    }
}

/// A token at which something is asked for is serialized as that asks for it, with its span in UTF-16
/// offsets.
///
/// Names are identifiers, whatever the kind of the token. Only `yield`, `let` and `static` remain
/// keywords, and only in JS style.
pub proof fn law_asked_tokens<O: ESTreeTokenConfig>(
    tokens: Seq<Token>,
    program: Program<'_>,
    text: Seq<char>,
    table: Seq<(u32, u32)>,
    options: O,
    i: int,
    action: Action,
)
    requires
        can_serialize(tokens, program, text, table, options),
        in_source_order(tokens),
        is_walkable(program, options),
        0 <= i < tokens.len(),
        program_asks(program, options, true, action),
        action.start() == tokens[i].span.start,
    ensures
        ({
            let element = serialized(tokens, program, text, table, options)[i];
            &&& is_outcome(options.spec_is_ts(), text, tokens[i], action, element)
            &&& element.span().start == utf16_offset(table, tokens[i].span.start)
            &&& element.span().end == utf16_offset(table, tokens[i].span.end)
        }),
{
    let cursor = json_start(tokens, text, table, options).cursor;
    let actions = requests(program, options, true);
    let out = serialized(tokens, program, text, table, options);
    law_requests_are_what_is_asked_for(program, options, true, action);
    let k = choose|k: int| 0 <= k < actions.len() && actions[k] == action;
    law_serialized_tokens(tokens, program, text, table, options);
    let at = choose|at: Seq<int>| serialized_at(cursor, actions, at, out);
    assert(out[at[k]] == cursor.view_for(tokens[at[k]], actions[k]));
    assert(tokens[at[k]].span.start == tokens[i].span.start);
    if at[k] < i {
        assert(tokens[at[k]].span.start < tokens[i].span.start);
    } else if i < at[k] {
        assert(tokens[i].span.start < tokens[at[k]].span.start);
    }
    law_sorts_of_kinds(tokens[i].kind);
    if let Action::RegExp { raw, pattern, .. } = action {
        assert(raw is Some) by {
            lemma_regexps_have_texts::<O>(
                json_start(tokens, text, table, options),
                actions,
                k,
            );
        }
        assert forall|flags: Seq<char>|
            raw->0 == #[trigger] regexp_text(pattern, flags) implies out[i]->RegExp_flags
            == flags by {
            law_regexp_flags(pattern, flags);
        }
    }
}

/// Regular expressions that have been accepted have a text.
proof fn lemma_regexps_have_texts<O: ESTreeTokenConfig>(
    start: JsonModel,
    actions: Seq<Action>,
    k: int,
)
    requires
        accepts_all::<JsonContext<'_, '_, O>>(start, actions),
        0 <= k < actions.len(),
        actions[k] is RegExp,
    ensures
        actions[k]->RegExp_raw is Some,
    decreases actions.len(),
{
    if k < actions.len() - 1 {
        assert(actions.drop_last()[k] == actions[k]);
        lemma_regexps_have_texts::<O>(start, actions.drop_last(), k);
    }
}

/// A token at which nothing is asked for is serialized with its source text, and a type which goes by
/// its kind. No kind that belongs to an AST node with a rule of its own is left over.
pub proof fn law_unasked_tokens<O: ESTreeTokenConfig>(
    tokens: Seq<Token>,
    program: Program<'_>,
    text: Seq<char>,
    table: Seq<(u32, u32)>,
    options: O,
    i: int,
)
    requires
        can_serialize(tokens, program, text, table, options),
        in_source_order(tokens),
        is_walkable(program, options),
        0 <= i < tokens.len(),
        forall|action: Action| #[trigger]
            program_asks(program, options, true, action) ==> action.start()
                != tokens[i].span.start,
    ensures
        ({
            let element = serialized(tokens, program, text, table, options)[i];
            let kind = tokens[i].kind;
            &&& element is Safe
            &&& element.value() == text_slice(
                text,
                tokens[i].span.start as int,
                tokens[i].span.end as int,
            )
            &&& element.span().start == utf16_offset(table, tokens[i].span.start)
            &&& element.span().end == utf16_offset(table, tokens[i].span.end)
            &&& element.token_type() == default_token_type(kind)
            &&& element.token_type() == "Keyword"@ <==> is_keyword_by_default(kind)
            &&& element.token_type() == "Identifier"@ <==> is_identifier_by_default(kind)
            &&& element.token_type() == "Boolean"@ <==> kind == Kind::True || kind == Kind::False
            &&& element.token_type() == "Null"@ <==> kind == Kind::Null
            &&& kind != Kind::Str && kind != Kind::RegExp && kind != Kind::JSXText
            &&& kind != Kind::PrivateIdentifier && kind != Kind::NoSubstitutionTemplate
            &&& kind != Kind::TemplateHead && kind != Kind::TemplateMiddle
            &&& kind != Kind::TemplateTail
        }),
{
    let cursor = json_start(tokens, text, table, options).cursor;
    let actions = requests(program, options, true);
    let out = serialized(tokens, program, text, table, options);
    law_serialized_tokens(tokens, program, text, table, options);
    let at = choose|at: Seq<int>| serialized_at(cursor, actions, at, out);
    if at.contains(i) {
        let k = choose|k: int| 0 <= k < at.len() && at[k] == i;
        assert(tokens[at[k]].span.start == actions[k].start());
        law_requests_are_what_is_asked_for(program, options, true, actions[k]);
        assert(actions.contains(actions[k]));
    }
    assert(out[i] == cursor.default_view(tokens[i]));
    law_default_types(tokens[i].kind);
    law_types(tokens[i].kind);
    law_sorts_of_kinds(tokens[i].kind);
}

/// Kinds of the words that are keywords where nothing else is asked for.
pub open spec fn is_keyword_by_default(kind: Kind) -> bool {
    matches!(
        kind,
        Kind::Break | Kind::Case | Kind::Catch | Kind::Class | Kind::Const | Kind::Continue
            | Kind::Debugger | Kind::Default | Kind::Delete | Kind::Do | Kind::Else | Kind::Enum
            | Kind::Export | Kind::Extends | Kind::Finally | Kind::For | Kind::Function | Kind::If
            | Kind::Import | Kind::In | Kind::Instanceof | Kind::New | Kind::Return | Kind::Super
            | Kind::Switch | Kind::This | Kind::Throw | Kind::Try | Kind::Typeof | Kind::Var
            | Kind::Void | Kind::While | Kind::With | Kind::Implements | Kind::Interface | Kind::Let
            | Kind::Package | Kind::Private | Kind::Protected | Kind::Public | Kind::Static
            | Kind::Yield
    )
}

/// Kinds of the words that are identifiers where nothing else is asked for.
pub open spec fn is_identifier_by_default(kind: Kind) -> bool {
    matches!(
        kind,
        Kind::Ident | Kind::Await | Kind::Async | Kind::From | Kind::GetKeyword | Kind::Meta
            | Kind::Of | Kind::SetKeyword | Kind::Target | Kind::Accessor | Kind::Source
            | Kind::Defer | Kind::Abstract | Kind::As | Kind::Asserts | Kind::Assert | Kind::Any
            | Kind::Boolean | Kind::Constructor | Kind::Declare | Kind::Infer | Kind::Intrinsic
            | Kind::Is | Kind::KeyOf | Kind::Module | Kind::Namespace | Kind::Never | Kind::Out
            | Kind::Readonly | Kind::Require | Kind::Number | Kind::Object | Kind::Satisfies
            | Kind::String | Kind::Symbol | Kind::Type | Kind::Undefined | Kind::Unique
            | Kind::Using | Kind::Unknown | Kind::Global | Kind::BigInt | Kind::Override
    )
}

/// What is left of `actions` are those which change a kind.
proof fn lemma_updates_contain(actions: Seq<Action>, action: Action)
    ensures
        updates(actions).contains(action) <==> actions.contains(action) && is_update(action),
    decreases actions.len(),
{
    reveal(Seq::filter);
    if actions.len() > 0 {
        let before = actions.drop_last();
        let last = actions.last();
        lemma_updates_contain(before, action);
        assert(actions =~= before.push(last));
        if before.contains(action) {
            let i = choose|i: int| 0 <= i < before.len() && before[i] == action;
            assert(actions[i] == action);
        }
        if actions.contains(action) && action != last {
            let i = choose|i: int| 0 <= i < actions.len() && actions[i] == action;
            assert(before[i] == action);
        }
        assert(actions[actions.len() - 1] == last);
        let rest = updates(before);
        if is_update(last) {
            assert(updates(actions) == rest.push(last));
            assert(rest.push(last)[rest.len() as int] == last);
            if rest.contains(action) {
                let i = choose|i: int| 0 <= i < rest.len() && rest[i] == action;
                assert(rest.push(last)[i] == action);
            }
            if rest.push(last).contains(action) && action != last {
                let i = choose|i: int|
                    0 <= i < rest.push(last).len() && rest.push(last)[i] == action;
                assert(rest[i] == action);
            }
        } else {
            assert(updates(actions) == rest);
        }
    }
}

/// The kind that a token of kind `kind` has after an update, where `action` is asked for.
///
/// Names are identifiers, but for `yield`, `let` and `static` in JS style.
pub open spec fn kind_after(ts: bool, kind: Kind, action: Action) -> Kind {
    match action {
        Action::Identifier { .. } => if ts || !is_yield_let_or_static(kind) {
            Kind::Ident
        } else {
            kind
        },
        Action::ThisIdentifier { .. } => Kind::Ident,
        Action::JSXIdentifier { .. } => Kind::JSXIdentifier,
        Action::JSXText { .. } => Kind::JSXText,
        Action::PrivateIdentifier { .. } => kind,
        Action::UnsafeToken { .. } => kind,
        Action::RegExp { .. } => kind,
    }
}

/// A token at which something is asked for has the kind which goes with that after an update. Its
/// span is in UTF-16 offsets.
pub proof fn law_asked_updates<O: ESTreeTokenConfig>(
    tokens: Seq<Token>,
    program: Program<'_>,
    table: Seq<(u32, u32)>,
    options: O,
    i: int,
    action: Action,
)
    requires
        can_update(tokens, program, table, options),
        in_source_order(tokens),
        is_walkable(program, options),
        program_ordered(program, options, false),
        0 <= i < tokens.len(),
        program_asks(program, options, false, action),
        action.start() == tokens[i].span.start,
    ensures
        ({
            let token = updated(tokens, program, table, options)[i];
            &&& token.kind == kind_after(options.spec_is_ts(), tokens[i].kind, action)
            &&& token.span.start == utf16_offset(table, tokens[i].span.start)
            &&& token.span.end == utf16_offset(table, tokens[i].span.end)
            &&& token.escaped == tokens[i].escaped
        }),
{
    let start = update_start(tokens, table, options);
    let requested = requests(program, options, false);
    let actions = updates(requested);
    let out = updated(tokens, program, table, options);
    law_requests_are_what_is_asked_for(program, options, false, action);
    law_requests_follow_the_source(program, options, false);
    law_updated_tokens(tokens, program, table, options);
    let at = choose|at: Seq<int>| updated_at(start, actions, at, out);
    lemma_updates_contain(requested, action);
    law_sorts_of_kinds(tokens[i].kind);
    let n = choose|n: int| 0 <= n < requested.len() && requested[n] == action;
    if at.contains(i) {
        let k = choose|k: int| 0 <= k < at.len() && at[k] == i;
        assert(tokens[at[k]].span.start == actions[k].start());
        assert(actions.contains(actions[k]));
        lemma_updates_contain(requested, actions[k]);
        let m = choose|m: int| 0 <= m < requested.len() && requested[m] == actions[k];
        if m < n {
            assert(requested[m].start() < requested[n].start());
        } else if n < m {
            assert(requested[n].start() < requested[m].start());
        }
        assert(actions[k] == action);
    } else if is_update(action) {
        let k = choose|k: int| 0 <= k < actions.len() && actions[k] == action;
        assert(tokens[at[k]].span.start == tokens[i].span.start);
        if at[k] < i {
            assert(tokens[at[k]].span.start < tokens[i].span.start);
        } else if i < at[k] {
            assert(tokens[i].span.start < tokens[at[k]].span.start);
        }
        assert(at.contains(at[k]));
    } else {
        assert(out[i].kind == tokens[i].kind);
    }
}

/// A token at which nothing is asked for has the same kind after an update. Its span is in UTF-16
/// offsets.
pub proof fn law_unasked_updates<O: ESTreeTokenConfig>(
    tokens: Seq<Token>,
    program: Program<'_>,
    table: Seq<(u32, u32)>,
    options: O,
    i: int,
)
    requires
        can_update(tokens, program, table, options),
        is_walkable(program, options),
        0 <= i < tokens.len(),
        forall|action: Action| #[trigger]
            program_asks(program, options, false, action) ==> action.start()
                != tokens[i].span.start,
    ensures
        ({
            let token = updated(tokens, program, table, options)[i];
            &&& token.kind == tokens[i].kind
            &&& token.span.start == utf16_offset(table, tokens[i].span.start)
            &&& token.span.end == utf16_offset(table, tokens[i].span.end)
            &&& token.escaped == tokens[i].escaped
        }),
{
    let start = update_start(tokens, table, options);
    let requested = requests(program, options, false);
    let actions = updates(requested);
    let out = updated(tokens, program, table, options);
    law_updated_tokens(tokens, program, table, options);
    let at = choose|at: Seq<int>| updated_at(start, actions, at, out);
    if at.contains(i) {
        let k = choose|k: int| 0 <= k < at.len() && at[k] == i;
        assert(tokens[at[k]].span.start == actions[k].start());
        assert(actions.contains(actions[k]));
        lemma_updates_contain(requested, actions[k]);
        law_requests_are_what_is_asked_for(program, options, false, actions[k]);
    }
}

/// Has `token` the texts that `action` needs?
pub open spec fn has_needed_text(ts: bool, text: Seq<char>, token: Token, action: Action) -> bool {
    match action {
        Action::PrivateIdentifier { .. } => ts && token.escaped ==> is_slice(
            text,
            token.span.start + 1,
            token.span.end as int,
        ),
        Action::RegExp { raw, pattern, .. } => raw matches Some(raw) && exists|flags: Seq<char>|
            raw == #[trigger] regexp_text(pattern, flags),
        _ => true,
    }
}

/// Is there a token for `action`, with the texts that it needs?
pub open spec fn has_token_for(
    ts: bool,
    text: Seq<char>,
    tokens: Seq<Token>,
    action: Action,
) -> bool {
    exists|i: int|
        {
            &&& 0 <= i < tokens.len()
            &&& (#[trigger] tokens[i]).span.start == action.start()
            &&& has_needed_text(ts, text, tokens[i], action)
        }
}

/// Does a token of `tokens` stand where `action` asks for one?
pub open spec fn has_token_at(tokens: Seq<Token>, action: Action) -> bool {
    exists|i: int|
        0 <= i < tokens.len() && (#[trigger] tokens[i]).span.start == action.start()
}

/// Is `kind` one of those that belong to an AST node with a rule of its own?
pub open spec fn needs_to_be_asked_for(kind: Kind) -> bool {
    ||| kind == Kind::Str
    ||| kind == Kind::RegExp
    ||| kind == Kind::JSXText
    ||| kind == Kind::PrivateIdentifier
    ||| kind == Kind::NoSubstitutionTemplate
    ||| kind == Kind::TemplateHead
    ||| kind == Kind::TemplateMiddle
    ||| kind == Kind::TemplateTail
}

/// Do `tokens` stand in source order in `text`, with offsets that can be converted?
pub open spec fn are_laid_out(
    tokens: Seq<Token>,
    text: Seq<char>,
    table: Seq<(u32, u32)>,
) -> bool {
    &&& in_source_order(tokens)
    &&& forall|i: int|
        0 <= i < tokens.len() ==> {
            let span = (#[trigger] tokens[i]).span;
            &&& is_slice(text, span.start as int, span.end as int)
            &&& table.len() > 0 ==> span.start < u32::MAX && span.end < u32::MAX
        }
}

/// Requests in source order can be made of tokens which stand in source order, if there is a token
/// for each.
proof fn lemma_accepted<O: ESTreeTokenConfig>(start: JsonModel, actions: Seq<Action>, n: nat)
    requires
        start.cursor.next == 0,
        are_laid_out(start.cursor.tokens, start.cursor.text, start.cursor.table),
        is_increasing(actions),
        forall|k: int|
            0 <= k < actions.len() ==> has_token_for(
                start.cursor.ts,
                start.cursor.text,
                start.cursor.tokens,
                #[trigger] actions[k],
            ),
        forall|i: int|
            0 <= i < start.cursor.tokens.len() && needs_to_be_asked_for(
                (#[trigger] start.cursor.tokens[i]).kind,
            ) ==> exists|k: int|
                0 <= k < actions.len() && (#[trigger] actions[k]).start()
                    == start.cursor.tokens[i].span.start,
        n <= actions.len(),
    ensures
        accepts_all::<JsonContext<'_, '_, O>>(start, actions.take(n as int)),
        ({
            let cursor = run::<JsonContext<'_, '_, O>>(start, actions.take(n as int)).cursor;
            &&& cursor == (Cursor { next: cursor.next, ..start.cursor })
            &&& cursor.next <= cursor.tokens.len()
            &&& n == 0 ==> cursor.next == 0
            &&& n > 0 ==> cursor.next > 0 && cursor.tokens[cursor.next - 1].span.start == actions[n
                - 1].start()
            &&& n == actions.len() ==> cursor.are_default(cursor.tokens.len())
        }),
    decreases n,
{
    let tokens = start.cursor.tokens;
    let done = actions.take(n as int);
    if n > 0 {
        let action = actions[n - 1];
        lemma_accepted::<O>(start, actions, (n - 1) as nat);
        assert(done.drop_last() =~= actions.take(n - 1));
        assert(done.last() == action);
        let cursor = run::<JsonContext<'_, '_, O>>(start, done.drop_last()).cursor;
        let i = choose|i: int|
            {
                &&& 0 <= i < tokens.len()
                &&& (#[trigger] tokens[i]).span.start == action.start()
                &&& has_needed_text(start.cursor.ts, start.cursor.text, tokens[i], action)
            };
        if n > 1 {
            assert(actions[n - 2].start() < actions[n - 1].start());
            if i < cursor.next - 1 {
                assert(tokens[i].span.start < tokens[cursor.next - 1].span.start);
            }
        }
        assert(cursor.next <= i);
        assert forall|j: int| cursor.next <= j < i implies (
        #[trigger] tokens[j]).span.start < action.start() by {
            assert(tokens[j].span.start < tokens[i].span.start);
        }
        lemma_first_from_is(tokens, action.start(), cursor.next, i as nat);
        assert forall|j: int| cursor.next <= j < i implies cursor.is_default(
            #[trigger] cursor.tokens[j],
        ) by {
            lemma_between(tokens, actions, n, cursor.next, j);
            law_sorts_of_kinds(tokens[j].kind);
            law_types(tokens[j].kind);
        }
        if let Action::RegExp { raw, pattern, .. } = action {
            let flags = choose|flags: Seq<char>| raw->0 == #[trigger] regexp_text(pattern, flags);
            lemma_flags_are_slice(pattern, flags);
        }
        assert(cursor.accepts(action));
    }
    if n == actions.len() {
        let cursor = run::<JsonContext<'_, '_, O>>(start, done).cursor;
        assert forall|j: int| cursor.next <= j < tokens.len() implies cursor.is_default(
            #[trigger] cursor.tokens[j],
        ) by {
            lemma_between(tokens, actions, n + 1, cursor.next, j);
            law_sorts_of_kinds(tokens[j].kind);
            law_types(tokens[j].kind);
        }
    }
}

/// A token after the one that a request is for, and before the one that the next request is for, is
/// asked for by none.
proof fn lemma_between(tokens: Seq<Token>, actions: Seq<Action>, n: nat, next: nat, j: int)
    requires
        in_source_order(tokens),
        is_increasing(actions),
        1 <= n <= actions.len() + 1,
        next <= j < tokens.len(),
        n > 1 ==> next > 0 && tokens[next - 1].span.start == actions[n - 2].start(),
        n <= actions.len() ==> tokens[j].span.start < actions[n - 1].start(),
    ensures
        forall|k: int|
            0 <= k < actions.len() ==> (#[trigger] actions[k]).start() != tokens[j].span.start,
{
    assert forall|k: int| 0 <= k < actions.len() implies (#[trigger] actions[k]).start()
        != tokens[j].span.start by {
        if k < n - 1 {
            assert(k == n - 2 || actions[k].start() < actions[n - 2].start());
            assert(tokens[next - 1].span.start < tokens[j].span.start);
        } else {
            assert(k == n - 1 || actions[n - 1].start() < actions[k].start());
        }
    }
}

/// The flags of a regular expression are whole characters of it.
proof fn lemma_flags_are_slice(pattern: Seq<char>, flags: Seq<char>)
    ensures
        is_slice(
            regexp_text(pattern, flags),
            flags_start(pattern),
            encode_utf8(regexp_text(pattern, flags)).len() as int,
        ),
{
    let slash = seq!['/'];
    let before = slash + pattern + slash;
    let none = Seq::<char>::empty();
    law_slice_of_concatenation(before, flags, none);
    assert(before + flags + none =~= regexp_text(pattern, flags));
    lemma_encode_utf8_concat(slash, pattern);
    lemma_encode_utf8_concat(slash + pattern, slash);
    lemma_encode_utf8_concat(before, flags);
    is_ascii_chars_encode_utf8(slash);
}

/// Tokens and a program which are laid out in source order can be serialized, if there is a token for
/// all that is asked for, and every token which needs to be asked for is.
pub proof fn law_fitting_tokens_can_be_serialized<O: ESTreeTokenConfig>(
    tokens: Seq<Token>,
    program: Program<'_>,
    text: Seq<char>,
    table: Seq<(u32, u32)>,
    options: O,
)
    requires
        are_laid_out(tokens, text, table),
        is_walkable(program, options),
        program_ordered(program, options, true),
        forall|action: Action| #[trigger]
            program_asks(program, options, true, action) ==> has_token_for(
                options.spec_is_ts(),
                text,
                tokens,
                action,
            ),
        forall|i: int|
            0 <= i < tokens.len() && needs_to_be_asked_for((#[trigger] tokens[i]).kind)
                ==> exists|action: Action| #[trigger]
                program_asks(program, options, true, action) && action.start()
                    == tokens[i].span.start,
    ensures
        can_serialize(tokens, program, text, table, options),
{
    let start = json_start(tokens, text, table, options);
    let actions = requests(program, options, true);
    law_requests_follow_the_source(program, options, true);
    assert forall|k: int| 0 <= k < actions.len() implies has_token_for(
        options.spec_is_ts(),
        text,
        tokens,
        #[trigger] actions[k],
    ) by {
        law_requests_are_what_is_asked_for(program, options, true, actions[k]);
        assert(actions.contains(actions[k]));
    }
    assert forall|i: int|
        0 <= i < tokens.len() && needs_to_be_asked_for(
            (#[trigger] tokens[i]).kind,
        ) implies exists|k: int|
        0 <= k < actions.len() && (#[trigger] actions[k]).start() == tokens[i].span.start by {
        let action = choose|action: Action| #[trigger]
            program_asks(program, options, true, action) && action.start() == tokens[i].span.start;
        law_requests_are_what_is_asked_for(program, options, true, action);
        let k = choose|k: int| 0 <= k < actions.len() && actions[k] == action;
        assert(actions[k].start() == tokens[i].span.start);
    }
    lemma_accepted::<O>(start, actions, actions.len());
    assert(actions.take(actions.len() as int) =~= actions);
}

/// Requests in source order can be made of tokens which stand in source order, if there is a token
/// for each.
proof fn lemma_update_accepted<O: ESTreeTokenConfig>(
    start: UpdateModel,
    actions: Seq<Action>,
    n: nat,
)
    requires
        start.next == 0,
        in_source_order(start.tokens),
        forall|i: int|
            0 <= i < start.tokens.len() ==> is_convertible(
                start.table,
                (#[trigger] start.tokens[i]).span,
            ),
        is_increasing(actions),
        forall|k: int|
            0 <= k < actions.len() ==> has_token_at(start.tokens, #[trigger] actions[k]),
        n <= actions.len(),
    ensures
        accepts_all::<UpdateContext<'_, O>>(start, actions.take(n as int)),
        ({
            let model = run::<UpdateContext<'_, O>>(start, actions.take(n as int));
            &&& model == (UpdateModel { next: model.next, tokens: model.tokens, ..start })
            &&& model.next <= model.tokens.len()
            &&& model.tokens.len() == start.tokens.len()
            &&& forall|j: int|
                model.next <= j < start.tokens.len() ==> #[trigger] model.tokens[j]
                    == start.tokens[j]
            &&& n == 0 ==> model.next == 0
            &&& n > 0 && model.next > 0 ==> start.tokens[model.next - 1].span.start <= actions[n
                - 1].start()
        }),
    decreases n,
{
    let tokens = start.tokens;
    let done = actions.take(n as int);
    if n > 0 {
        let action = actions[n - 1];
        lemma_update_accepted::<O>(start, actions, (n - 1) as nat);
        assert(done.drop_last() =~= actions.take(n - 1));
        assert(done.last() == action);
        let model = run::<UpdateContext<'_, O>>(start, done.drop_last());
        if n > 1 {
            assert(actions[n - 2].start() < actions[n - 1].start());
        }
        if is_update(action) {
            let i = choose|i: int|
                0 <= i < tokens.len() && (#[trigger] tokens[i]).span.start == action.start();
            if i < model.next - 1 {
                assert(tokens[i].span.start < tokens[model.next - 1].span.start);
            }
            assert(model.next <= i);
            assert forall|j: int| model.next <= j < i implies (
            #[trigger] model.tokens[j]).span.start < action.start() by {
                assert(tokens[j].span.start < tokens[i].span.start);
            }
            assert(model.tokens[i] == tokens[i]);
            lemma_first_from_is(model.tokens, action.start(), model.next, i as nat);
            assert forall|j: int| model.next <= j < i + 1 implies is_convertible(
                model.table,
                (#[trigger] model.tokens[j]).span,
            ) by {
                assert(model.tokens[j] == tokens[j]);
            }
            assert(model.reaches(action.start()));
        }
    }
}

/// Tokens and a program which are laid out in source order can be updated, if there is a token for all
/// that is asked for.
pub proof fn law_fitting_tokens_can_be_updated<O: ESTreeTokenConfig>(
    tokens: Seq<Token>,
    program: Program<'_>,
    table: Seq<(u32, u32)>,
    options: O,
)
    requires
        in_source_order(tokens),
        forall|i: int|
            0 <= i < tokens.len() ==> (table.len() > 0 ==> (#[trigger] tokens[i]).span.start
                < u32::MAX && tokens[i].span.end < u32::MAX),
        is_walkable(program, options),
        program_ordered(program, options, false),
        forall|action: Action| #[trigger]
            program_asks(program, options, false, action) ==> has_token_at(tokens, action),
    ensures
        can_update(tokens, program, table, options),
{
    let start = update_start(tokens, table, options);
    let actions = requests(program, options, false);
    law_requests_follow_the_source(program, options, false);
    assert forall|k: int| 0 <= k < actions.len() implies has_token_at(
        tokens,
        #[trigger] actions[k],
    ) by {
        law_requests_are_what_is_asked_for(program, options, false, actions[k]);
        assert(actions.contains(actions[k]));
    }
    lemma_update_accepted::<O>(start, actions, actions.len());
    assert(actions.take(actions.len() as int) =~= actions);
    let model = run::<UpdateContext<'_, O>>(start, actions);
    assert forall|j: int| model.next <= j < tokens.len() implies is_convertible(
        model.table,
        (#[trigger] model.tokens[j]).span,
    ) by {
        assert(model.tokens[j] == tokens[j]);
    }
}

} // verus!
