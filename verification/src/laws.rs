//! What holds of serialized and updated tokens as a whole.

use vstd::prelude::*;
use vstd::utf8::encode_utf8;

use crate::ast::Program;
use crate::config::{ESTreeTokenConfig, JSXState};
use crate::context::{accepts_all, run};
use crate::encode::{
    is_encoded, is_encoding_fixed, is_json_safe, json_text, json_value,
    law_json_safe_encoding_is_fixed, law_json_safe_text_needs_quotes_only, law_json_text_value,
};
use crate::estree::{regexp_entries, ESTreeToken, EntryView, TokenView};
use crate::json::{flags_start, Cursor, JsonContext, JsonModel};
use crate::kind::{has_own_node, is_estree_type, token_type, Kind};
use crate::serialize::{
    can_serialize, can_update, json_end, json_start, requests, serialized, update_end,
    update_start, updated,
};
use crate::text::text_slice;
use crate::token::{first_from, lemma_first_from, Span, Token};
use crate::trace::{Action, Style};
use crate::update::{converted, is_update, updated_kind, updates, UpdateContext, UpdateModel};
use crate::utf16::{is_convertible, is_table_of, utf16_len, utf16_span};
use crate::walks::{
    law_requests_have_estree_types, law_text_parts_change_no_kind, nodes_complete,
};

verus! {

/// Do `tokens` stand in the order in which they start?
pub open spec fn in_source_order(tokens: Seq<Token>) -> bool {
    forall|i: int, j: int|
        0 <= i < j < tokens.len() ==> (#[trigger] tokens[i]).span.start < (
        #[trigger] tokens[j]).span.start
}

/// Is each of `actions` about the token at its place in `at`, in source order?
pub open spec fn served_at(tokens: Seq<Token>, actions: Seq<Action>, at: Seq<int>) -> bool {
    &&& at.len() == actions.len()
    &&& forall|j: int, k: int| 0 <= j < k < at.len() ==> at[j] < at[k]
    &&& forall|k: int|
        0 <= k < at.len() ==> 0 <= #[trigger] at[k] < tokens.len() && tokens[at[k]].span.start
            == actions[k].start()
}

/// Do the tokens at the places `at` come out in `out` as `actions` want them, and all others with
/// their default types?
pub open spec fn serialized_at(
    cursor: Cursor,
    actions: Seq<Action>,
    at: Seq<int>,
    out: Seq<TokenView>,
) -> bool {
    &&& served_at(cursor.tokens, actions, at)
    &&& forall|k: int|
        0 <= k < actions.len() ==> out[#[trigger] at[k]] == cursor.view_for(
            cursor.tokens[at[k]],
            actions[k],
        )
    &&& forall|i: int|
        0 <= i < cursor.tokens.len() && !at.contains(i) ==> #[trigger] out[i]
            == cursor.default_view(cursor.tokens[i]) && !has_own_node(cursor.tokens[i].kind)
}

/// Places of the tokens that `actions` are about.
spec fn places<O: ESTreeTokenConfig>(start: JsonModel, actions: Seq<Action>) -> Seq<int>
    decreases actions.len(),
{
    if actions.len() == 0 {
        Seq::empty()
    } else {
        places::<O>(start, actions.drop_last()).push(
            run::<JsonContext<'_, '_, O>>(start, actions.drop_last()).cursor.target(
                actions.last().start(),
            ) as int,
        )
    }
}

/// What is known after `actions`, all of which have been accepted.
proof fn lemma_json_run<O: ESTreeTokenConfig>(start: JsonModel, actions: Seq<Action>)
    requires
        start.cursor.next == 0,
        start.out.len() == 0,
        accepts_all::<JsonContext<'_, '_, O>>(start, actions),
    ensures
        ({
            let model = run::<JsonContext<'_, '_, O>>(start, actions);
            let tokens = start.cursor.tokens;
            let at = places::<O>(start, actions);
            &&& model.cursor == (Cursor { next: model.cursor.next, ..start.cursor })
            &&& model.cursor.next <= tokens.len()
            &&& model.out.len() == model.cursor.next
            &&& served_at(tokens, actions, at)
            &&& forall|k: int|
                0 <= k < at.len() ==> #[trigger] at[k] < model.cursor.next && model.out[at[k]]
                    == start.cursor.view_for(tokens[at[k]], actions[k])
            &&& forall|i: int|
                0 <= i < model.cursor.next && !at.contains(i) ==> #[trigger] model.out[i]
                    == start.cursor.default_view(tokens[i]) && start.cursor.is_default(tokens[i])
            &&& forall|i: int|
                0 <= i < model.cursor.next ==> is_convertible(
                    start.cursor.table,
                    (#[trigger] tokens[i]).span,
                )
        }),
    decreases actions.len(),
{
    if actions.len() > 0 {
        let tokens = start.cursor.tokens;
        let before = actions.drop_last();
        let action = actions.last();
        lemma_json_run::<O>(start, before);
        let model = run::<JsonContext<'_, '_, O>>(start, before);
        let after = run::<JsonContext<'_, '_, O>>(start, actions);
        let at_before = places::<O>(start, before);
        let at = places::<O>(start, actions);
        let target = model.cursor.target(action.start());
        lemma_first_from(tokens, action.start(), model.cursor.next);
        assert(at == at_before.push(target as int));
        assert forall|k: int| 0 <= k < at.len() implies #[trigger] at[k] < after.cursor.next
            && after.out[at[k]] == start.cursor.view_for(tokens[at[k]], actions[k]) by {
            if k < at_before.len() {
                assert(at[k] == at_before[k]);
            }
        }
        assert forall|i: int| 0 <= i < after.cursor.next && !at.contains(i) implies #[trigger] after.out[i]
            == start.cursor.default_view(tokens[i]) && start.cursor.is_default(tokens[i]) by {
            assert(at[at_before.len() as int] == target);
            if i < model.cursor.next {
                if at_before.contains(i) {
                    let k = choose|k: int| 0 <= k < at_before.len() && at_before[k] == i;
                    assert(at[k] == i);
                }
                assert(after.out[i] == model.out[i]);
            } else {
                assert(i != target);
                assert(model.cursor.is_default(model.cursor.tokens[i]));
            }
        }
        assert forall|i: int| 0 <= i < after.cursor.next implies is_convertible(
            start.cursor.table,
            (#[trigger] tokens[i]).span,
        ) by {
            if model.cursor.next <= i < target {
                assert(model.cursor.is_default(model.cursor.tokens[i]));
            }
        }
    }
}

/// Each token becomes one ESTree token, in source order. Those that the walk over the program asks
/// for, again in source order, come out as it asks for them. All others come out with their default
/// types and their source texts, and are of no kind that belongs to an AST node with a rule of its
/// own.
pub proof fn law_serialized_tokens<O: ESTreeTokenConfig>(
    tokens: Seq<Token>,
    program: Program<'_>,
    text: Seq<char>,
    table: Seq<(u32, u32)>,
    options: O,
)
    requires
        can_serialize(tokens, program, text, table, options),
    ensures
        serialized(tokens, program, text, table, options).len() == tokens.len(),
        exists|at: Seq<int>|
            serialized_at(
                json_start(tokens, text, table, options).cursor,
                requests(program, options, true),
                at,
                serialized(tokens, program, text, table, options),
            ),
{
    let start = json_start(tokens, text, table, options);
    let actions = requests(program, options, true);
    lemma_json_run::<O>(start, actions);
    let model = json_end(tokens, program, text, table, options);
    let at = places::<O>(start, actions);
    let out = serialized(tokens, program, text, table, options);
    assert(served_at(tokens, actions, at));
    assert forall|k: int| 0 <= k < actions.len() implies out[#[trigger] at[k]]
        == start.cursor.view_for(tokens[at[k]], actions[k]) by {
        assert(out[at[k]] == model.out[at[k]]);
    }
    assert forall|i: int| 0 <= i < tokens.len() && !at.contains(i) implies #[trigger] out[i]
        == start.cursor.default_view(tokens[i]) && !has_own_node(tokens[i].kind) by {
        if i < model.cursor.next {
            assert(out[i] == model.out[i]);
        } else {
            assert(model.cursor.is_default(model.cursor.tokens[i]));
        }
    }
    assert(serialized_at(start.cursor, actions, at, out));
}

/// Spans of ESTree tokens are those of the tokens, in UTF-16 offsets.
pub proof fn law_serialized_spans<O: ESTreeTokenConfig>(
    tokens: Seq<Token>,
    program: Program<'_>,
    text: Seq<char>,
    table: Seq<(u32, u32)>,
    options: O,
    i: int,
)
    requires
        can_serialize(tokens, program, text, table, options),
        0 <= i < tokens.len(),
    ensures
        serialized(tokens, program, text, table, options)[i].span() == utf16_span(
            table,
            tokens[i].span,
        ),
{
    let cursor = json_start(tokens, text, table, options).cursor;
    let actions = requests(program, options, true);
    let out = serialized(tokens, program, text, table, options);
    law_serialized_tokens(tokens, program, text, table, options);
    let at = choose|at: Seq<int>| serialized_at(cursor, actions, at, out);
    if at.contains(i) {
        let k = choose|k: int| 0 <= k < at.len() && at[k] == i;
        assert(out[at[k]] == cursor.view_for(tokens[at[k]], actions[k]));
    } else {
        assert(out[i] == cursor.default_view(tokens[i]));
    }
}

/// Tokens that can be serialized are asked for in source order.
pub proof fn law_requests_in_source_order<O: ESTreeTokenConfig>(
    tokens: Seq<Token>,
    program: Program<'_>,
    text: Seq<char>,
    table: Seq<(u32, u32)>,
    options: O,
    j: int,
    k: int,
)
    requires
        can_serialize(tokens, program, text, table, options),
        in_source_order(tokens),
        0 <= j < k < requests(program, options, true).len(),
    ensures
        requests(program, options, true)[j].start() < requests(program, options, true)[k].start(),
{
    let cursor = json_start(tokens, text, table, options).cursor;
    let actions = requests(program, options, true);
    let out = serialized(tokens, program, text, table, options);
    law_serialized_tokens(tokens, program, text, table, options);
    let at = choose|at: Seq<int>| serialized_at(cursor, actions, at, out);
    assert(at[j] < at[k]);
    assert(tokens[at[j]].span.start < tokens[at[k]].span.start);
}

/// Once a token has been emitted, no second request for it is accepted.
pub proof fn law_no_second_serialization(model: JsonModel, first: Action, second: Action)
    requires
        in_source_order(model.cursor.tokens),
        model.cursor.accepts(first),
        second.start() == first.start(),
    ensures
        !model.step(first).cursor.accepts(second),
{
    let tokens = model.cursor.tokens;
    let target = model.cursor.target(first.start());
    let next = first_from(tokens, second.start(), target + 1);
    lemma_first_from(tokens, second.start(), target + 1);
    if next < tokens.len() {
        assert(tokens[target as int].span.start < tokens[next as int].span.start);
    }
}

/// Once the kind of a token has been changed, no second request to change it is accepted.
pub proof fn law_no_second_update(model: UpdateModel, first: Action, second: Action)
    requires
        in_source_order(model.tokens),
        is_update(first),
        is_update(second),
        model.accepts(first),
        second.start() == first.start(),
    ensures
        !model.step(first).accepts(second),
{
    let tokens = model.tokens;
    let after = model.step(first);
    let target = model.target(first.start());
    let next = first_from(after.tokens, second.start(), target + 1);
    lemma_first_from(after.tokens, second.start(), target + 1);
    if next < tokens.len() {
        assert(after.tokens[next as int] == tokens[next as int]);
        assert(tokens[target as int].span.start < tokens[next as int].span.start);
    }
}

/// Every serialized token has one of the ESTree token types.
pub proof fn law_serialized_types<O: ESTreeTokenConfig>(
    tokens: Seq<Token>,
    program: Program<'_>,
    text: Seq<char>,
    table: Seq<(u32, u32)>,
    options: O,
    i: int,
)
    requires
        can_serialize(tokens, program, text, table, options),
        0 <= i < tokens.len(),
    ensures
        is_estree_type(serialized(tokens, program, text, table, options)[i].token_type()),
{
    let cursor = json_start(tokens, text, table, options).cursor;
    let actions = requests(program, options, true);
    let out = serialized(tokens, program, text, table, options);
    law_serialized_tokens(tokens, program, text, table, options);
    law_requests_have_estree_types(
        program,
        Style { ts: options.spec_is_ts(), quasis: true },
        O::JSXState::spec_initial(),
    );
    let at = choose|at: Seq<int>| serialized_at(cursor, actions, at, out);
    if at.contains(i) {
        let k = choose|k: int| 0 <= k < at.len() && at[k] == i;
        assert(out[at[k]] == cursor.view_for(tokens[at[k]], actions[k]));
    } else {
        assert(out[i] == cursor.default_view(tokens[i]));
    }
}

/// Is what `action` names JSON-safe: names of identifiers, and flags of regular expressions?
pub open spec fn is_json_safe_request(action: Action) -> bool {
    match action {
        Action::Identifier { name, .. } => is_json_safe(name),
        Action::JSXIdentifier { name, .. } => is_json_safe(name),
        Action::PrivateIdentifier { name, .. } => is_json_safe(name),
        Action::RegExp { raw, pattern, .. } => is_json_safe(
            text_slice(raw->0, flags_start(pattern), encode_utf8(raw->0).len() as int),
        ),
        _ => true,
    }
}

/// Is the JSON object for `token` right without escaping what is taken to need none?
pub open spec fn is_json_safe_token(token: TokenView) -> bool {
    &&& forall|j: int|
        0 <= j < token.entries().len() ==> ((#[trigger] token.entries()[j]) matches EntryView::JsonSafe {
            value,
            ..
        } ==> is_json_safe(value))
    &&& token matches TokenView::RegExp { flags, .. } ==> is_json_safe(flags)
}

/// ESTree token types are JSON-safe.
proof fn lemma_estree_type_json_safe(name: Seq<char>)
    requires
        is_estree_type(name),
    ensures
        is_json_safe(name),
{
    reveal_strlit("Boolean");
    reveal_strlit("Identifier");
    reveal_strlit("JSXIdentifier");
    reveal_strlit("JSXText");
    reveal_strlit("Keyword");
    reveal_strlit("Null");
    reveal_strlit("Numeric");
    reveal_strlit("PrivateIdentifier");
    reveal_strlit("Punctuator");
    reveal_strlit("RegularExpression");
    reveal_strlit("String");
    reveal_strlit("Template");
}

/// A token with a JSON-safe value differs from one with any value only in that encoding is skipped:
/// the JSON objects for them have the same keys and the same values, in the same order, and then the
/// same span. If the value needs no escaping, then they are written in the same way. What is written
/// for the value with encoding stands for the value, wherever that is the same on every machine.
pub proof fn law_safe_tokens_skip_encoding(
    token_type: Seq<char>,
    value: Seq<char>,
    span: Span,
    j: int,
)
    requires
        0 <= j < 3,
    ensures
        ({
            let safe = TokenView::Safe { token_type, value, span }.entries();
            let unsafe_token = TokenView::Unsafe { token_type, value, span }.entries();
            &&& safe.len() == 3 && unsafe_token.len() == 3
            &&& safe[j].key() == unsafe_token[j].key()
            &&& safe[j].value() == unsafe_token[j].value()
            &&& safe[2] == EntryView::Span(span) && unsafe_token[2] == EntryView::Span(span)
            &&& safe[1].value() == Some(value)
            &&& is_json_safe(value) ==> forall|json: Seq<char>|
                #[trigger] safe[j].is_written_as(json) <==> unsafe_token[j].is_written_as(json)
            &&& is_json_safe(value) || is_encoding_fixed(value) ==> forall|json: Seq<char>|
                #[trigger] unsafe_token[1].is_written_as(json) ==> json_value(json) == Some(value)
        }),
{
    law_json_text_value(value);
    if is_json_safe(value) {
        law_json_safe_text_needs_quotes_only(value);
        law_json_safe_encoding_is_fixed(value);
    }
}

/// The JSON objects of tokens: their type, their value, for a regular expression the object for its
/// flags and its pattern, and their span, in this order. Types, flags, and values which need no
/// escaping are only put between quotes, whatever they hold.
pub proof fn law_objects(
    token_type: Seq<char>,
    value: Seq<char>,
    flags: Seq<char>,
    pattern: Seq<char>,
    span: Span,
    json: Seq<char>,
)
    ensures
        ({
            let safe = (TokenView::Safe { token_type, value, span }).entries();
            let unsafe_token = (TokenView::Unsafe { token_type, value, span }).entries();
            let regexp = (TokenView::RegExp { value, flags, pattern, span }).entries();
            let regex = regexp_entries(flags, pattern);
            let plain = EntryView::JsonSafe { key: "value"@, value };
            &&& safe.len() == 3 && unsafe_token.len() == 3 && regexp.len() == 4
            &&& safe[0] == (EntryView::JsonSafe { key: "type"@, value: token_type })
            &&& safe[1] == plain
            &&& safe[2] == EntryView::Span(span)
            &&& unsafe_token[0] == (EntryView::JsonSafe { key: "type"@, value: token_type })
            &&& unsafe_token[1] == (EntryView::Text { key: "value"@, value })
            &&& unsafe_token[2] == EntryView::Span(span)
            &&& regexp[0] == (EntryView::JsonSafe {
                key: "type"@,
                value: "RegularExpression"@,
            })
            &&& regexp[1] == (EntryView::Text { key: "value"@, value })
            &&& regexp[2] == (EntryView::RegExp { key: "regex"@, flags, pattern })
            &&& regexp[3] == EntryView::Span(span)
            &&& regex.len() == 2
            &&& regex[0] == (EntryView::JsonSafe { key: "flags"@, value: flags })
            &&& regex[1] == (EntryView::Text { key: "pattern"@, value: pattern })
            &&& plain.is_written_as(json) <==> json == seq!['"'] + value + seq!['"']
        }),
{
}

/// What an ESTree token says is what it holds.
pub proof fn law_views(token: ESTreeToken<'_>)
    ensures
        (match token {
            ESTreeToken::Safe(safe) => {
                &&& token@ is Safe
                &&& token@.token_type() == safe.token_type@
                &&& token@.value() == safe.value@
                &&& token@.span() == safe.span
            },
            ESTreeToken::Unsafe(unsafe_token) => {
                &&& token@ is Unsafe
                &&& token@.token_type() == unsafe_token.token_type@
                &&& token@.value() == unsafe_token.value@
                &&& token@.span() == unsafe_token.span
            },
            ESTreeToken::RegExp(regexp) => {
                &&& token@.token_type() == "RegularExpression"@
                &&& token@.value() == regexp.value@
                &&& token@.span() == regexp.span
                &&& token@ is RegExp
                &&& token@->RegExp_flags == regexp.regex.flags@
                &&& token@->RegExp_pattern == regexp.regex.pattern@
            },
        }),
{
}

/// What is written for a value which may need escaping stands for the value, wherever it is the same
/// on every machine. For one that needs no escaping it always is.
pub proof fn law_encoded_value(value: Seq<char>, json: Seq<char>)
    requires
        is_encoded(value, json),
        is_json_safe(value) || is_encoding_fixed(value),
    ensures
        json == json_text(value),
        json_value(json) == Some(value),
{
    law_json_text_value(value);
    if is_json_safe(value) {
        law_json_safe_text_needs_quotes_only(value);
    }
}

/// What has been emitted after some of the requests is what the tokens are serialized to, as far as
/// it goes.
pub proof fn law_emitted_tokens<O: ESTreeTokenConfig>(
    tokens: Seq<Token>,
    program: Program<'_>,
    text: Seq<char>,
    table: Seq<(u32, u32)>,
    options: O,
    n: int,
)
    requires
        can_serialize(tokens, program, text, table, options),
        0 <= n <= requests(program, options, true).len(),
    ensures
        run::<JsonContext<'_, '_, O>>(
            json_start(tokens, text, table, options),
            requests(program, options, true).take(n),
        ).out.is_prefix_of(serialized(tokens, program, text, table, options)),
    decreases requests(program, options, true).len() - n,
{
    let start = json_start(tokens, text, table, options);
    let actions = requests(program, options, true);
    let out = serialized(tokens, program, text, table, options);
    let emitted = run::<JsonContext<'_, '_, O>>(start, actions.take(n)).out;
    if n < actions.len() {
        law_emitted_tokens(tokens, program, text, table, options, n + 1);
        let next = run::<JsonContext<'_, '_, O>>(start, actions.take(n + 1)).out;
        assert(actions.take(n + 1).drop_last() =~= actions.take(n));
        assert(emitted.is_prefix_of(next));
    } else {
        assert(actions.take(n) =~= actions);
        assert(emitted.is_prefix_of(out));
    }
}

/// No serialized token has anything in it that would have to be escaped in JSON but is not, as long
/// as the names of identifiers, the flags of regular expressions, and the source texts of the other
/// tokens that no AST node with a rule of its own is for are JSON-safe.
pub proof fn law_serialized_json_safe<O: ESTreeTokenConfig>(
    tokens: Seq<Token>,
    program: Program<'_>,
    text: Seq<char>,
    table: Seq<(u32, u32)>,
    options: O,
    i: int,
)
    requires
        can_serialize(tokens, program, text, table, options),
        in_source_order(tokens),
        forall|k: int|
            0 <= k < requests(program, options, true).len() ==> is_json_safe_request(
                #[trigger] requests(program, options, true)[k],
            ),
        forall|j: int|
            0 <= j < tokens.len() && !has_own_node(tokens[j].kind) && (forall|k: int|
                0 <= k < requests(program, options, true).len() ==> (#[trigger] requests(
                    program,
                    options,
                    true,
                )[k]).start() != tokens[j].span.start) ==> is_json_safe(
                text_slice(
                    text,
                    (#[trigger] tokens[j]).span.start as int,
                    tokens[j].span.end as int,
                ),
            ),
        0 <= i < tokens.len(),
    ensures
        is_json_safe_token(serialized(tokens, program, text, table, options)[i]),
{
    let cursor = json_start(tokens, text, table, options).cursor;
    let actions = requests(program, options, true);
    let out = serialized(tokens, program, text, table, options);
    law_serialized_types(tokens, program, text, table, options, i);
    lemma_estree_type_json_safe(out[i].token_type());
    law_serialized_tokens(tokens, program, text, table, options);
    let at = choose|at: Seq<int>| serialized_at(cursor, actions, at, out);
    if at.contains(i) {
        let k = choose|k: int| 0 <= k < at.len() && at[k] == i;
        assert(out[at[k]] == cursor.view_for(tokens[at[k]], actions[k]));
        assert(is_json_safe_request(actions[k]));
        reveal_strlit("this");
    } else {
        assert(out[i] == cursor.default_view(tokens[i]));
        assert forall|k: int| 0 <= k < actions.len() implies (#[trigger] actions[k]).start()
            != tokens[i].span.start by {
            assert(tokens[at[k]].span.start == actions[k].start());
            assert(at.contains(at[k]));
            if at[k] < i {
                assert(tokens[at[k]].span.start < tokens[i].span.start);
            } else {
                assert(tokens[i].span.start < tokens[at[k]].span.start);
            }
        }
    }
}

/// A text which is all ASCII has an empty table, and spans are as they were.
pub proof fn law_no_conversion<O: ESTreeTokenConfig>(
    tokens: Seq<Token>,
    program: Program<'_>,
    text: Seq<char>,
    options: O,
    i: int,
)
    requires
        0 <= i < tokens.len(),
    ensures
        can_serialize(tokens, program, text, Seq::empty(), options) ==> serialized(
            tokens,
            program,
            text,
            Seq::empty(),
            options,
        )[i].span() == tokens[i].span,
        can_update(tokens, program, Seq::empty(), options) ==> updated(
            tokens,
            program,
            Seq::empty(),
            options,
        )[i].span == tokens[i].span,
{
    let table = Seq::<(u32, u32)>::empty();
    assert(utf16_span(table, tokens[i].span) == tokens[i].span);
    if can_serialize(tokens, program, text, table, options) {
        law_serialized_spans(tokens, program, text, table, options, i);
    }
    if can_update(tokens, program, table, options) {
        law_updated_spans(tokens, program, table, options, i);
    }
}

/// A token which starts after `n` characters of the text, and ends after `m`, has a span which counts
/// the UTF-16 code units before those places.
pub proof fn law_utf16_spans<O: ESTreeTokenConfig>(
    tokens: Seq<Token>,
    program: Program<'_>,
    text: Seq<char>,
    table: Seq<(u32, u32)>,
    options: O,
    i: int,
    n: int,
    m: int,
)
    requires
        is_table_of(table, text),
        0 <= i < tokens.len(),
        0 <= n <= text.len(),
        0 <= m <= text.len(),
        tokens[i].span.start == encode_utf8(text.take(n)).len(),
        tokens[i].span.end == encode_utf8(text.take(m)).len(),
    ensures
        can_serialize(tokens, program, text, table, options) ==> {
            let span = serialized(tokens, program, text, table, options)[i].span();
            span.start == utf16_len(text.take(n)) && span.end == utf16_len(text.take(m))
        },
        can_update(tokens, program, table, options) ==> {
            let span = updated(tokens, program, table, options)[i].span;
            span.start == utf16_len(text.take(n)) && span.end == utf16_len(text.take(m))
        },
{
    if can_serialize(tokens, program, text, table, options) {
        law_serialized_spans(tokens, program, text, table, options, i);
    }
    if can_update(tokens, program, table, options) {
        law_updated_spans(tokens, program, table, options, i);
    }
}

/// Do the tokens at the places `at` come out in `out` with the kinds that `actions` give them, and
/// all others with their kinds unchanged?
pub open spec fn updated_at(
    start: UpdateModel,
    actions: Seq<Action>,
    at: Seq<int>,
    out: Seq<Token>,
) -> bool {
    &&& served_at(start.tokens, actions, at)
    &&& forall|k: int|
        0 <= k < actions.len() ==> {
            let token = start.tokens[#[trigger] at[k]];
            &&& updated_kind(start.ts, actions[k], token.kind) is Some
            &&& out[at[k]] == (Token {
                kind: updated_kind(start.ts, actions[k], token.kind)->0,
                ..converted(start.table, token)
            })
        }
    &&& forall|i: int|
        0 <= i < start.tokens.len() && !at.contains(i) ==> #[trigger] out[i] == converted(
            start.table,
            start.tokens[i],
        )
}

/// Requests which change no kind can be left out.
proof fn lemma_update_run_updates<O: ESTreeTokenConfig>(start: UpdateModel, actions: Seq<Action>)
    ensures
        run::<UpdateContext<'_, O>>(start, actions) == run::<UpdateContext<'_, O>>(
            start,
            updates(actions),
        ),
        accepts_all::<UpdateContext<'_, O>>(start, actions) == accepts_all::<UpdateContext<'_, O>>(
            start,
            updates(actions),
        ),
    decreases actions.len(),
{
    reveal(Seq::filter);
    if actions.len() > 0 {
        lemma_update_run_updates::<O>(start, actions.drop_last());
        let before = updates(actions.drop_last());
        if is_update(actions.last()) {
            assert(updates(actions) == before.push(actions.last()));
            assert(updates(actions).drop_last() =~= before);
        } else {
            assert(updates(actions) == before);
        }
    }
}

/// Places of the tokens whose kinds `actions` change.
spec fn update_places<O: ESTreeTokenConfig>(start: UpdateModel, actions: Seq<Action>) -> Seq<int>
    decreases actions.len(),
{
    if actions.len() == 0 {
        Seq::empty()
    } else {
        update_places::<O>(start, actions.drop_last()).push(
            run::<UpdateContext<'_, O>>(start, actions.drop_last()).target(
                actions.last().start(),
            ) as int,
        )
    }
}

/// What is known after `actions`, all of which have been accepted, and change the kind of a token.
proof fn lemma_update_run<O: ESTreeTokenConfig>(start: UpdateModel, actions: Seq<Action>)
    requires
        start.next == 0,
        forall|k: int| 0 <= k < actions.len() ==> is_update(#[trigger] actions[k]),
        accepts_all::<UpdateContext<'_, O>>(start, actions),
    ensures
        ({
            let model = run::<UpdateContext<'_, O>>(start, actions);
            let tokens = start.tokens;
            let at = update_places::<O>(start, actions);
            &&& model == (UpdateModel { next: model.next, tokens: model.tokens, ..start })
            &&& model.next <= tokens.len()
            &&& model.tokens.len() == tokens.len()
            &&& served_at(tokens, actions, at)
            &&& forall|k: int|
                0 <= k < at.len() ==> {
                    &&& #[trigger] at[k] < model.next
                    &&& updated_kind(start.ts, actions[k], tokens[at[k]].kind) is Some
                    &&& model.tokens[at[k]] == (Token {
                        kind: updated_kind(start.ts, actions[k], tokens[at[k]].kind)->0,
                        ..converted(start.table, tokens[at[k]])
                    })
                }
            &&& forall|i: int|
                0 <= i < model.next && !at.contains(i) ==> #[trigger] model.tokens[i] == converted(
                    start.table,
                    tokens[i],
                )
            &&& forall|i: int|
                model.next <= i < tokens.len() ==> #[trigger] model.tokens[i] == tokens[i]
        }),
    decreases actions.len(),
{
    if actions.len() > 0 {
        let tokens = start.tokens;
        let before = actions.drop_last();
        let action = actions.last();
        assert forall|k: int| 0 <= k < before.len() implies is_update(#[trigger] before[k]) by {
            assert(before[k] == actions[k]);
        }
        lemma_update_run::<O>(start, before);
        let model = run::<UpdateContext<'_, O>>(start, before);
        let after = run::<UpdateContext<'_, O>>(start, actions);
        let at_before = update_places::<O>(start, before);
        let at = update_places::<O>(start, actions);
        let target = model.target(action.start());
        lemma_first_from(model.tokens, action.start(), model.next);
        assert(at == at_before.push(target as int));
        assert(is_update(actions[actions.len() - 1]));
        assert(model.reaches(action.start()));
        assert(model.tokens[target as int] == tokens[target as int]);
        assert(at[at_before.len() as int] == target);
        assert forall|k: int| 0 <= k < at.len() implies {
            &&& #[trigger] at[k] < after.next
            &&& updated_kind(start.ts, actions[k], tokens[at[k]].kind) is Some
            &&& after.tokens[at[k]] == (Token {
                kind: updated_kind(start.ts, actions[k], tokens[at[k]].kind)->0,
                ..converted(start.table, tokens[at[k]])
            })
        } by {
            if k < at_before.len() {
                assert(at[k] == at_before[k]);
                assert(after.tokens[at[k]] == model.tokens[at[k]]);
            }
        }
        assert forall|i: int| 0 <= i < after.next && !at.contains(i) implies #[trigger] after.tokens[i]
            == converted(start.table, tokens[i]) by {
            assert(i != target);
            if i < model.next {
                if at_before.contains(i) {
                    let k = choose|k: int| 0 <= k < at_before.len() && at_before[k] == i;
                    assert(at[k] == i);
                }
                assert(after.tokens[i] == model.tokens[i]);
            } else {
                assert(model.tokens[i] == tokens[i]);
            }
        }
    }
}

/// There are as many tokens after an update as before. Those whose kinds the walk over the program
/// changes, in source order, have the kinds that it gives them. The kinds of all others are as they
/// were. All spans are in UTF-16 offsets. Nothing else has changed.
pub proof fn law_updated_tokens<O: ESTreeTokenConfig>(
    tokens: Seq<Token>,
    program: Program<'_>,
    table: Seq<(u32, u32)>,
    options: O,
)
    requires
        can_update(tokens, program, table, options),
    ensures
        updated(tokens, program, table, options).len() == tokens.len(),
        exists|at: Seq<int>|
            updated_at(
                update_start(tokens, table, options),
                updates(requests(program, options, false)),
                at,
                updated(tokens, program, table, options),
            ),
{
    let start = update_start(tokens, table, options);
    let requested = requests(program, options, false);
    let actions = updates(requested);
    let out = updated(tokens, program, table, options);
    lemma_update_run_updates::<O>(start, requested);
    assert forall|k: int| 0 <= k < actions.len() implies is_update(#[trigger] actions[k]) by {
        requested.lemma_filter_pred(|action: Action| is_update(action), k);
    }
    lemma_update_run::<O>(start, actions);
    let model = update_end(tokens, program, table, options);
    let at = update_places::<O>(start, actions);
    assert forall|i: int| 0 <= i < tokens.len() && !at.contains(i) implies #[trigger] out[i]
        == converted(table, tokens[i]) by {
        if i < model.next {
            assert(out[i] == model.tokens[i]);
        }
    }
    assert forall|k: int| 0 <= k < actions.len() implies out[#[trigger] at[k]]
        == model.tokens[at[k]] by {}
    assert(updated_at(start, actions, at, out));
}

/// Spans of updated tokens are those of the tokens, in UTF-16 offsets.
pub proof fn law_updated_spans<O: ESTreeTokenConfig>(
    tokens: Seq<Token>,
    program: Program<'_>,
    table: Seq<(u32, u32)>,
    options: O,
    i: int,
)
    requires
        can_update(tokens, program, table, options),
        0 <= i < tokens.len(),
    ensures
        updated(tokens, program, table, options)[i].span == utf16_span(table, tokens[i].span),
{
    let start = update_start(tokens, table, options);
    let actions = updates(requests(program, options, false));
    let out = updated(tokens, program, table, options);
    law_updated_tokens(tokens, program, table, options);
    let at = choose|at: Seq<int>| updated_at(start, actions, at, out);
    if at.contains(i) {
        let k = choose|k: int| 0 <= k < at.len() && at[k] == i;
        assert(out[at[k]].span == converted(table, tokens[at[k]]).span);
    } else {
        assert(out[i] == converted(table, tokens[i]));
    }
}

/// Searches go by where tokens start, and by nothing else.
proof fn lemma_first_from_starts(a: Seq<Token>, b: Seq<Token>, start: int, i: nat)
    requires
        a.len() == b.len(),
        forall|j: int| 0 <= j < a.len() ==> (#[trigger] a[j]).span.start == b[j].span.start,
    ensures
        first_from(a, start, i) == first_from(b, start, i),
    decreases a.len() - i,
{
    if i < a.len() {
        assert(a[i as int].span.start == b[i as int].span.start);
        if a[i as int].span.start < start {
            lemma_first_from_starts(a, b, start, i + 1);
        }
    }
}

/// Without a conversion table, requests which have been made of tokens can be made of what has come
/// of them, and change nothing.
proof fn lemma_second_update<O: ESTreeTokenConfig>(
    start: UpdateModel,
    actions: Seq<Action>,
    out: Seq<Token>,
)
    requires
        start.next == 0,
        start.table.len() == 0,
        forall|k: int| 0 <= k < actions.len() ==> is_update(#[trigger] actions[k]),
        accepts_all::<UpdateContext<'_, O>>(start, actions),
        out.len() == start.tokens.len(),
        forall|i: int| 0 <= i < out.len() ==> (#[trigger] out[i]).span == start.tokens[i].span,
        forall|k: int|
            0 <= k < actions.len() ==> {
                let i = #[trigger] update_places::<O>(start, actions)[k];
                updated_kind(start.ts, actions[k], start.tokens[i].kind) == Some(out[i].kind)
            },
    ensures
        ({
            let again = UpdateModel { tokens: out, ..start };
            let model = run::<UpdateContext<'_, O>>(start, actions);
            &&& accepts_all::<UpdateContext<'_, O>>(again, actions)
            &&& run::<UpdateContext<'_, O>>(again, actions) == (UpdateModel {
                next: model.next,
                ..again
            })
        }),
    decreases actions.len(),
{
    if actions.len() > 0 {
        let before = actions.drop_last();
        let action = actions.last();
        let at = update_places::<O>(start, actions);
        let at_before = update_places::<O>(start, before);
        let again = UpdateModel { tokens: out, ..start };
        assert forall|k: int| 0 <= k < before.len() implies is_update(#[trigger] before[k]) by {
            assert(before[k] == actions[k]);
        }
        lemma_update_run::<O>(start, before);
        assert forall|k: int| 0 <= k < before.len() implies {
            let i = #[trigger] at_before[k];
            updated_kind(start.ts, before[k], start.tokens[i].kind) == Some(out[i].kind)
        } by {
            assert(at[k] == at_before[k]);
        }
        lemma_second_update::<O>(start, before, out);
        let model = run::<UpdateContext<'_, O>>(start, before);
        let model_again = run::<UpdateContext<'_, O>>(again, before);
        assert forall|j: int| 0 <= j < out.len() implies (
        #[trigger] model.tokens[j]).span.start == out[j].span.start by {
            if j < model.next {
                if at_before.contains(j) {
                    let k = choose|k: int| 0 <= k < at_before.len() && at_before[k] == j;
                    assert(model.tokens[at_before[k]].span == start.tokens[j].span);
                } else {
                    assert(model.tokens[j] == converted(start.table, start.tokens[j]));
                }
            }
            assert(out[j].span == start.tokens[j].span);
        }
        lemma_first_from_starts(model.tokens, out, action.start(), model.next);
        let target = model.target(action.start());
        lemma_first_from(model.tokens, action.start(), model.next);
        assert(is_update(actions[actions.len() - 1]));
        assert(model.reaches(action.start()));
        assert(model_again.target(action.start()) == target);
        assert(model_again.reaches(action.start()));
        assert(at[before.len() as int] == target);
        assert(updated_kind(start.ts, action, start.tokens[target as int].kind) == Some(
            out[target as int].kind,
        ));
        assert(updated_kind(start.ts, action, out[target as int].kind) == Some(
            out[target as int].kind,
        ));
        assert(model_again.step(action).tokens =~= out);
    }
}

/// A second update of the tokens of an ASCII text changes nothing.
pub proof fn law_second_update_changes_nothing<O: ESTreeTokenConfig>(
    tokens: Seq<Token>,
    program: Program<'_>,
    options: O,
)
    requires
        can_update(tokens, program, Seq::empty(), options),
    ensures
        ({
            let once = updated(tokens, program, Seq::empty(), options);
            &&& can_update(once, program, Seq::empty(), options)
            &&& updated(once, program, Seq::empty(), options) == once
        }),
{
    let table = Seq::<(u32, u32)>::empty();
    let start = update_start(tokens, table, options);
    let requested = requests(program, options, false);
    let actions = updates(requested);
    let once = updated(tokens, program, table, options);
    let model = update_end(tokens, program, table, options);
    lemma_update_run_updates::<O>(start, requested);
    lemma_update_run_updates::<O>(update_start(once, table, options), requested);
    assert forall|k: int| 0 <= k < actions.len() implies is_update(#[trigger] actions[k]) by {
        requested.lemma_filter_pred(|action: Action| is_update(action), k);
    }
    lemma_update_run::<O>(start, actions);
    assert forall|i: int| 0 <= i < once.len() implies (#[trigger] once[i]).span
        == tokens[i].span by {
        law_updated_spans(tokens, program, table, options, i);
    }
    assert forall|k: int| 0 <= k < actions.len() implies {
        let i = #[trigger] update_places::<O>(start, actions)[k];
        updated_kind(start.ts, actions[k], start.tokens[i].kind) == Some(once[i].kind)
    } by {
        let i = update_places::<O>(start, actions)[k];
        assert(model.tokens[i].kind == once[i].kind);
    }
    lemma_second_update::<O>(start, actions, once);
    assert(updated(once, program, table, options) =~= once);
}

/// Is `kind` what a lexer gives to a token which `action` is about?
///
/// Kinds that `action` changes do not matter.
pub open spec fn is_kind_for(kind: Kind, action: Action) -> bool {
    match action {
        Action::PrivateIdentifier { .. } => kind == Kind::PrivateIdentifier,
        Action::UnsafeToken { token_type: wanted, .. } => token_type(kind) == wanted,
        Action::RegExp { .. } => kind == Kind::RegExp,
        _ => true,
    }
}

/// Do `tokens` have the kinds that a lexer gives them, where `actions` are about them?
///
/// A lexer does not know of JSX identifiers.
pub open spec fn has_lexed_kinds(tokens: Seq<Token>, actions: Seq<Action>) -> bool {
    &&& forall|i: int| 0 <= i < tokens.len() ==> (#[trigger] tokens[i]).kind != Kind::JSXIdentifier
    &&& forall|i: int, k: int|
        0 <= i < tokens.len() && 0 <= k < actions.len() && (#[trigger] tokens[i]).span.start == (
        #[trigger] actions[k]).start() ==> is_kind_for(tokens[i].kind, actions[k])
}

/// A search ends at the first token which does not start before `start`.
pub proof fn lemma_first_from_is(tokens: Seq<Token>, start: int, i: nat, target: nat)
    requires
        i <= target < tokens.len(),
        tokens[target as int].span.start >= start,
        forall|j: int| i <= j < target ==> (#[trigger] tokens[j]).span.start < start,
    ensures
        first_from(tokens, start, i) == target,
    decreases target - i,
{
    if i < target {
        lemma_first_from_is(tokens, start, i + 1, target);
    }
}

/// Serialization and update go through tokens side by side: what can be serialized can be updated,
/// and the kinds after the update say what has been emitted.
proof fn lemma_side_by_side<O: ESTreeTokenConfig>(start: JsonModel, actions: Seq<Action>)
    requires
        start.cursor.next == 0,
        start.out.len() == 0,
        in_source_order(start.cursor.tokens),
        has_lexed_kinds(start.cursor.tokens, actions),
        accepts_all::<JsonContext<'_, '_, O>>(start, actions),
    ensures
        ({
            let tokens = start.cursor.tokens;
            let update = UpdateModel {
                ts: start.cursor.ts,
                tokens,
                table: start.cursor.table,
                next: 0,
            };
            let json_model = run::<JsonContext<'_, '_, O>>(start, actions);
            let model = run::<UpdateContext<'_, O>>(update, actions);
            &&& accepts_all::<UpdateContext<'_, O>>(update, actions)
            &&& model == (UpdateModel { next: model.next, tokens: model.tokens, ..update })
            &&& model.next <= json_model.cursor.next <= tokens.len()
            &&& model.tokens.len() == tokens.len()
            &&& forall|i: int|
                0 <= i < json_model.cursor.next ==> token_type((#[trigger] model.tokens[i]).kind)
                    == json_model.out[i].token_type()
            &&& forall|i: int|
                0 <= i < model.next ==> (#[trigger] model.tokens[i]).span == utf16_span(
                    update.table,
                    tokens[i].span,
                )
            &&& forall|i: int|
                model.next <= i < tokens.len() ==> #[trigger] model.tokens[i] == tokens[i]
        }),
    decreases actions.len(),
{
    if actions.len() > 0 {
        let tokens = start.cursor.tokens;
        let table = start.cursor.table;
        let update = UpdateModel { ts: start.cursor.ts, tokens, table, next: 0 };
        let before = actions.drop_last();
        let action = actions.last();
        assert(has_lexed_kinds(tokens, before)) by {
            assert forall|i: int, k: int|
                0 <= i < tokens.len() && 0 <= k < before.len() && (
                #[trigger] tokens[i]).span.start == (
                #[trigger] before[k]).start() implies is_kind_for(tokens[i].kind, before[k]) by {
                assert(before[k] == actions[k]);
            }
        }
        lemma_side_by_side::<O>(start, before);
        lemma_json_run::<O>(start, before);
        lemma_json_run::<O>(start, actions);
        let json_model = run::<JsonContext<'_, '_, O>>(start, before);
        let json_after = run::<JsonContext<'_, '_, O>>(start, actions);
        let model = run::<UpdateContext<'_, O>>(update, before);
        let after = run::<UpdateContext<'_, O>>(update, actions);
        let target = json_model.cursor.target(action.start());
        lemma_first_from(tokens, action.start(), json_model.cursor.next);
        assert(tokens[target as int].span.start == action.start());
        assert(actions[actions.len() - 1] == action);
        assert(is_kind_for(tokens[target as int].kind, action));
        assert forall|j: int| model.next <= j < target implies (
        #[trigger] model.tokens[j]).span.start < action.start() by {
            assert(tokens[j].span.start < tokens[target as int].span.start);
        }
        assert(model.tokens[target as int] == tokens[target as int]);
        lemma_first_from_is(model.tokens, action.start(), model.next, target);
        assert(model.target(action.start()) == target);
        assert forall|i: int|
            model.next <= i < target + 1 implies is_convertible(
            table,
            (#[trigger] model.tokens[i]).span,
        ) by {
            assert(is_convertible(table, tokens[i].span));
        }
        assert forall|i: int| 0 <= i < json_after.cursor.next implies token_type(
            (#[trigger] after.tokens[i]).kind,
        ) == json_after.out[i].token_type() by {
            if i < json_model.cursor.next {
                assert(json_after.out[i] == json_model.out[i]);
                assert(after.tokens[i].kind == model.tokens[i].kind);
            } else if i < target {
                assert(json_model.cursor.is_default(json_model.cursor.tokens[i]));
                assert(json_after.out[i] == json_model.cursor.default_view(tokens[i]));
                assert(after.tokens[i].kind == tokens[i].kind);
                assert(tokens[i].kind != Kind::JSXIdentifier);
            } else {
                assert(json_after.out[i] == json_model.cursor.view_for(
                    tokens[target as int],
                    action,
                ));
            }
        }
    }
}

/// The requests of an update can be made if those of serialization can be made, and what comes of
/// them fits together.
proof fn lemma_update_follows_serialization<O: ESTreeTokenConfig>(
    tokens: Seq<Token>,
    program: Program<'_>,
    text: Seq<char>,
    table: Seq<(u32, u32)>,
    options: O,
)
    requires
        can_serialize(tokens, program, text, table, options),
        in_source_order(tokens),
        has_lexed_kinds(tokens, requests(program, options, true)),
        nodes_complete(program.children@),
    ensures
        can_update(tokens, program, table, options),
        ({
            let json_model = json_end(tokens, program, text, table, options);
            let model = update_end(tokens, program, table, options);
            &&& json_model.cursor == (Cursor {
                next: json_model.cursor.next,
                ..json_start(tokens, text, table, options).cursor
            })
            &&& json_model.out.len() == json_model.cursor.next
            &&& model == (UpdateModel {
                next: model.next,
                tokens: model.tokens,
                ..update_start(tokens, table, options)
            })
            &&& model.next <= json_model.cursor.next <= tokens.len()
            &&& model.tokens.len() == tokens.len()
            &&& forall|i: int|
                0 <= i < json_model.cursor.next ==> token_type((#[trigger] model.tokens[i]).kind)
                    == json_model.out[i].token_type()
            &&& forall|i: int|
                0 <= i < model.next ==> (#[trigger] model.tokens[i]).span == utf16_span(
                    table,
                    tokens[i].span,
                )
            &&& forall|i: int|
                model.next <= i < tokens.len() ==> #[trigger] model.tokens[i] == tokens[i]
        }),
{
    let start = json_start(tokens, text, table, options);
    let update = update_start(tokens, table, options);
    let actions = requests(program, options, true);
    lemma_side_by_side::<O>(start, actions);
    lemma_json_run::<O>(start, actions);
    law_text_parts_change_no_kind(program, options.spec_is_ts(), O::JSXState::spec_initial());
    lemma_update_run_updates::<O>(update, actions);
    lemma_update_run_updates::<O>(update, requests(program, options, false));
    let json_model = json_end(tokens, program, text, table, options);
    let model = update_end(tokens, program, table, options);
    assert forall|i: int| model.next <= i < tokens.len() implies is_convertible(
        table,
        (#[trigger] model.tokens[i]).span,
    ) by {
        assert(model.tokens[i] == tokens[i]);
        if i >= json_model.cursor.next {
            assert(json_model.cursor.is_default(json_model.cursor.tokens[i]));
        }
    }
}

/// After an update, [`get_token_type`](crate::kind::get_token_type) gives each token the ESTree
/// type, and the token has the span, with which it is serialized.
///
/// Tokens have to stand in source order, with the kinds that a lexer gives them, and the templates
/// of the program have to have one text part more than they have interpolated parts. Whatever can
/// be serialized can then be updated.
pub proof fn law_update_agrees_with_serialization<O: ESTreeTokenConfig>(
    tokens: Seq<Token>,
    program: Program<'_>,
    text: Seq<char>,
    table: Seq<(u32, u32)>,
    options: O,
)
    requires
        can_serialize(tokens, program, text, table, options),
        in_source_order(tokens),
        has_lexed_kinds(tokens, requests(program, options, true)),
        nodes_complete(program.children@),
    ensures
        can_update(tokens, program, table, options),
        updated(tokens, program, table, options).len() == serialized(
            tokens,
            program,
            text,
            table,
            options,
        ).len(),
        forall|i: int|
            0 <= i < tokens.len() ==> {
                let token = #[trigger] updated(tokens, program, table, options)[i];
                let element = serialized(tokens, program, text, table, options)[i];
                &&& token_type(token.kind) == element.token_type()
                &&& token.span == element.span()
            },
{
    lemma_update_follows_serialization(tokens, program, text, table, options);
    let json_model = json_end(tokens, program, text, table, options);
    let model = update_end(tokens, program, table, options);
    assert forall|i: int| 0 <= i < tokens.len() implies {
        let token = #[trigger] updated(tokens, program, table, options)[i];
        let element = serialized(tokens, program, text, table, options)[i];
        &&& token_type(token.kind) == element.token_type()
        &&& token.span == element.span()
    } by {
        law_serialized_spans(tokens, program, text, table, options, i);
        assert(model.tokens[i].kind == updated(tokens, program, table, options)[i].kind);
        if i >= json_model.cursor.next {
            assert(json_model.cursor.is_default(json_model.cursor.tokens[i]));
            assert(tokens[i].kind != Kind::JSXIdentifier);
        } else {
            assert(serialized(tokens, program, text, table, options)[i] == json_model.out[i]);
        }
    }
}

} // verus!
