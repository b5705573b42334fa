//! What holds of the tokens and the AST of one parse without errors.

use vstd::prelude::*;
use vstd::utf8::{encode_utf8, encode_utf8_decode_utf8, is_ascii_chars_encode_utf8};

use crate::ast::Program;
use crate::config::ESTreeTokenConfig;
use crate::encode::{
    is_json_safe, json_value, law_json_safe_text_needs_quotes_only, quoted,
};
use crate::estree::TokenView;
use crate::json::flags_start;
use crate::kind::{has_own_node, is_any_keyword, is_number, Kind};
use crate::laws::{
    in_source_order, is_json_safe_request, is_json_safe_token, law_serialized_json_safe,
    law_serialized_tokens, serialized_at,
};
use crate::serialize::{can_serialize, json_start, requests, serialized};
use crate::text::text_slice;
use crate::token::{Span, Token};
use crate::trace::Action;

verus! {

/// Is `c` a letter or a digit of ASCII?
pub open spec fn is_ascii_alphanumeric(c: char) -> bool {
    ||| 'a' <= c <= 'z'
    ||| 'A' <= c <= 'Z'
    ||| '0' <= c <= '9'
}

/// Can `c` stand in a word? JSX names may hold hyphens.
pub open spec fn is_word_char(c: char) -> bool {
    ||| is_ascii_alphanumeric(c)
    ||| c == '$'
    ||| c == '_'
    ||| c == '-'
    ||| c >= '\u{80}'
}

/// Can `c` stand in a number?
pub open spec fn is_number_char(c: char) -> bool {
    ||| is_ascii_alphanumeric(c)
    ||| c == '_'
    ||| c == '.'
    ||| c == '+'
    ||| c == '-'
}

/// Can `c` stand in a punctuator?
pub open spec fn is_punctuator_char(c: char) -> bool {
    matches!(
        c,
        '!' | '%' | '&' | '(' | ')' | '*' | '+' | ',' | '-' | '.' | '/' | ':' | ';' | '<' | '='
            | '>' | '?' | '@' | '[' | ']' | '^' | '{' | '|' | '}' | '~'
    )
}

/// Is `text` a word: an identifier without escapes, or a keyword?
pub open spec fn is_word(text: Seq<char>) -> bool {
    forall|i: int| 0 <= i < text.len() ==> is_word_char(#[trigger] text[i])
}

/// Kinds whose tokens are words.
pub open spec fn is_word_kind(kind: Kind) -> bool {
    ||| is_any_keyword(kind)
    ||| matches!(kind, Kind::Ident | Kind::JSXIdentifier | Kind::True | Kind::False | Kind::Null)
}

/// Can a token of kind `kind` which is written without escapes have the source text `text`?
///
/// Nothing is said of strings, regular expressions, templates and JSX text.
pub open spec fn is_lexeme(kind: Kind, text: Seq<char>) -> bool {
    if kind == Kind::PrivateIdentifier {
        text.len() > 0 && text[0] == '#' && is_word(text.drop_first())
    } else if has_own_node(kind) {
        true
    } else if is_word_kind(kind) {
        is_word(text)
    } else if is_number(kind) {
        forall|i: int| 0 <= i < text.len() ==> is_number_char(#[trigger] text[i])
    } else {
        forall|i: int| 0 <= i < text.len() ==> is_punctuator_char(#[trigger] text[i])
    }
}

/// The source text of `token`.
pub open spec fn source_of(text: Seq<char>, token: Token) -> Seq<char> {
    text_slice(text, token.span.start as int, token.span.end as int)
}

/// A regular expression, as it is written.
pub open spec fn regexp_text(pattern: Seq<char>, flags: Seq<char>) -> Seq<char> {
    seq!['/'] + pattern + seq!['/'] + flags
}

/// Are `flags` flags of a regular expression? Each one is a letter.
pub open spec fn are_flags(flags: Seq<char>) -> bool {
    forall|i: int| 0 <= i < flags.len() ==> 'a' <= #[trigger] flags[i] <= 'z'
}

/// Is `raw` a regular expression with the pattern `pattern`?
pub open spec fn is_regexp(raw: Seq<char>, pattern: Seq<char>) -> bool {
    exists|flags: Seq<char>| are_flags(flags) && raw == #[trigger] regexp_text(pattern, flags)
}

/// Is what `action` names what a parser reads in `token`?
///
/// Names are source texts, the `#` of private ones left out. Escapes are decoded to characters of
/// words. `this` and regular expressions are source texts, too. Only private names are written with
/// `#`.
pub open spec fn is_parsed_request(text: Seq<char>, token: Token, action: Action) -> bool {
    match action {
        Action::Identifier { name, .. } | Action::JSXIdentifier { name, .. } => {
            if token.escaped {
                is_word(name)
            } else {
                !has_own_node(token.kind) && name == source_of(text, token)
            }
        },
        Action::PrivateIdentifier { name, .. } => {
            if token.escaped {
                is_word(name)
            } else {
                token.kind == Kind::PrivateIdentifier && name == source_of(text, token).drop_first()
            }
        },
        Action::RegExp { raw, pattern, .. } => {
            &&& token.kind == Kind::RegExp
            &&& raw == Some(source_of(text, token))
            &&& is_regexp(source_of(text, token), pattern)
        },
        Action::ThisIdentifier { .. } => {
            token.kind == Kind::This && source_of(text, token) == "this"@
        },
        Action::JSXText { .. } | Action::UnsafeToken { .. } => {
            token.kind != Kind::PrivateIdentifier
        },
    }
}

/// Do `tokens`, and an AST which makes the requests `actions`, come from one parse of `text`?
///
/// Each token is written as tokens of its kind are. What a request names is what stands there. Only
/// tokens that are asked for may be written with escapes.
pub open spec fn is_parsed(tokens: Seq<Token>, actions: Seq<Action>, text: Seq<char>) -> bool {
    &&& forall|i: int|
        0 <= i < tokens.len() && !(#[trigger] tokens[i]).escaped ==> is_lexeme(
            tokens[i].kind,
            source_of(text, tokens[i]),
        )
    &&& forall|i: int, k: int|
        0 <= i < tokens.len() && 0 <= k < actions.len() && (#[trigger] tokens[i]).span.start == (
        #[trigger] actions[k]).start() ==> is_parsed_request(text, tokens[i], actions[k])
    &&& forall|i: int|
        0 <= i < tokens.len() && (#[trigger] tokens[i]).escaped ==> exists|k: int|
            0 <= k < actions.len() && (#[trigger] actions[k]).start() == tokens[i].span.start
}

/// Texts are encoded one character after the other.
pub proof fn lemma_encode_utf8_concat(a: Seq<char>, b: Seq<char>)
    ensures
        encode_utf8(a + b) == encode_utf8(a) + encode_utf8(b),
    decreases a.len(),
{
    if a.len() == 0 {
        assert(a + b =~= b);
        assert(encode_utf8(a) + encode_utf8(b) =~= encode_utf8(b));
    } else {
        lemma_encode_utf8_concat(a.drop_first(), b);
        assert((a + b).drop_first() =~= a.drop_first() + b);
        assert(encode_utf8(a + b) =~= encode_utf8(a) + encode_utf8(b));
    }
}

/// The flags of a regular expression come out as they are written, in the same order.
pub proof fn law_regexp_flags(pattern: Seq<char>, flags: Seq<char>)
    ensures
        text_slice(
            regexp_text(pattern, flags),
            flags_start(pattern),
            encode_utf8(regexp_text(pattern, flags)).len() as int,
        ) == flags,
{
    let slash = seq!['/'];
    is_ascii_chars_encode_utf8(slash);
    lemma_encode_utf8_concat(slash, pattern);
    lemma_encode_utf8_concat(slash + pattern, slash);
    lemma_encode_utf8_concat(slash + pattern + slash, flags);
    let bytes = encode_utf8(regexp_text(pattern, flags));
    assert(bytes.subrange(flags_start(pattern), bytes.len() as int) =~= encode_utf8(flags));
    encode_utf8_decode_utf8(flags);
}

/// Words, numbers and punctuators are JSON-safe.
proof fn lemma_lexeme_json_safe(kind: Kind, text: Seq<char>)
    requires
        is_lexeme(kind, text),
        !has_own_node(kind),
    ensures
        is_json_safe(text),
{
}

/// What is asked for after a parse is JSON-safe.
proof fn lemma_parsed_request_json_safe(text: Seq<char>, token: Token, action: Action)
    requires
        !token.escaped ==> is_lexeme(token.kind, source_of(text, token)),
        is_parsed_request(text, token, action),
    ensures
        is_json_safe_request(action),
{
    match action {
        Action::Identifier { name, .. } | Action::JSXIdentifier { name, .. } => {
            if !token.escaped {
                lemma_lexeme_json_safe(token.kind, name);
            }
        },
        Action::RegExp { raw, pattern, .. } => {
            let flags = choose|flags: Seq<char>|
                are_flags(flags) && raw->0 == #[trigger] regexp_text(pattern, flags);
            law_regexp_flags(pattern, flags);
        },
        _ => {},
    }
}

/// If tokens and program come from one parse, then no serialized token has anything in it that would
/// have to be escaped in JSON but is not: whatever is emitted as a JSON-safe value holds no quotes,
/// backslashes, or control characters.
pub proof fn law_parsed_json_safe<O: ESTreeTokenConfig>(
    tokens: Seq<Token>,
    program: Program<'_>,
    text: Seq<char>,
    table: Seq<(u32, u32)>,
    options: O,
    i: int,
)
    requires
        can_serialize(tokens, program, text, table, options),
        in_source_order(tokens),
        is_parsed(tokens, requests(program, options, true), text),
        0 <= i < tokens.len(),
    ensures
        is_json_safe_token(serialized(tokens, program, text, table, options)[i]),
{
    let cursor = json_start(tokens, text, table, options).cursor;
    let actions = requests(program, options, true);
    let out = serialized(tokens, program, text, table, options);
    law_serialized_tokens(tokens, program, text, table, options);
    let at = choose|at: Seq<int>| serialized_at(cursor, actions, at, out);
    assert forall|k: int| 0 <= k < actions.len() implies is_json_safe_request(
        #[trigger] actions[k],
    ) by {
        assert(tokens[at[k]].span.start == actions[k].start());
        lemma_parsed_request_json_safe(text, tokens[at[k]], actions[k]);
    }
    assert forall|j: int|
        0 <= j < tokens.len() && !has_own_node(tokens[j].kind) && (forall|k: int|
            0 <= k < actions.len() ==> (#[trigger] actions[k]).start()
                != tokens[j].span.start) implies is_json_safe(
        text_slice(text, (#[trigger] tokens[j]).span.start as int, tokens[j].span.end as int),
    ) by {
        lemma_lexeme_json_safe(tokens[j].kind, source_of(text, tokens[j]));
    }
    law_serialized_json_safe(tokens, program, text, table, options, i);
}

/// If tokens and program come from one parse, then whatever value is emitted as a JSON-safe one, on
/// the way to what the tokens are serialized to, holds no quotes, backslashes, or control
/// characters. Between quotes it is a JSON string which stands for it. The same is true of its type.
///
/// `out` is what has been emitted before.
pub proof fn law_safe_values_are_json_safe<O: ESTreeTokenConfig>(
    tokens: Seq<Token>,
    program: Program<'_>,
    text: Seq<char>,
    table: Seq<(u32, u32)>,
    options: O,
    out: Seq<TokenView>,
    token_type: Seq<char>,
    value: Seq<char>,
    span: Span,
)
    requires
        can_serialize(tokens, program, text, table, options),
        in_source_order(tokens),
        is_parsed(tokens, requests(program, options, true), text),
        out.push(TokenView::Safe { token_type, value, span }).is_prefix_of(
            serialized(tokens, program, text, table, options),
        ),
    ensures
        is_json_safe(value),
        json_value(quoted(value)) == Some(value),
        is_json_safe(token_type),
        json_value(quoted(token_type)) == Some(token_type),
{
    let emitted = out.push(TokenView::Safe { token_type, value, span });
    let element = serialized(tokens, program, text, table, options)[out.len() as int];
    law_serialized_tokens(tokens, program, text, table, options);
    assert(emitted[out.len() as int] == element);
    law_parsed_json_safe(tokens, program, text, table, options, out.len() as int);
    assert(element.entries()[0].value() == Some(token_type));
    assert(element.entries()[1].value() == Some(value));
    law_json_safe_text_needs_quotes_only(value);
    law_json_safe_text_needs_quotes_only(token_type);
}

/// If tokens and program come from one parse, then a token which is written without escapes is
/// serialized with its source text as value, the `#` of a private name left out.
pub proof fn law_parsed_values<O: ESTreeTokenConfig>(
    tokens: Seq<Token>,
    program: Program<'_>,
    text: Seq<char>,
    table: Seq<(u32, u32)>,
    options: O,
    i: int,
)
    requires
        can_serialize(tokens, program, text, table, options),
        is_parsed(tokens, requests(program, options, true), text),
        0 <= i < tokens.len(),
        !tokens[i].escaped,
    ensures
        serialized(tokens, program, text, table, options)[i].value() == if tokens[i].kind
            == Kind::PrivateIdentifier {
            source_of(text, tokens[i]).drop_first()
        } else {
            source_of(text, tokens[i])
        },
{
    let cursor = json_start(tokens, text, table, options).cursor;
    let actions = requests(program, options, true);
    let out = serialized(tokens, program, text, table, options);
    law_serialized_tokens(tokens, program, text, table, options);
    let at = choose|at: Seq<int>| serialized_at(cursor, actions, at, out);
    if at.contains(i) {
        let k = choose|k: int| 0 <= k < at.len() && at[k] == i;
        assert(out[at[k]] == cursor.view_for(tokens[at[k]], actions[k]));
        assert(is_parsed_request(text, tokens[i], actions[k]));
    } else {
        assert(out[i] == cursor.default_view(tokens[i]));
    }
}

} // verus!
