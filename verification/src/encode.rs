//! Strings in JSON.

use oxc_estree::{CompactTSSerializer, ESTree, JsonSafeString};
use vstd::prelude::*;
use vstd::utf8::encode_utf8;

verus! {

/// Does `text` need no escaping in JSON: no quotes, backslashes, or control characters?
pub open spec fn is_json_safe(text: Seq<char>) -> bool {
    forall|i: int|
        0 <= i < text.len() ==> (#[trigger] text[i]) != '"' && text[i] != '\\' && text[i] >= ' '
}

/// `text` between quotes.
pub open spec fn quoted(text: Seq<char>) -> Seq<char> {
    seq!['"'] + text + seq!['"']
}

/// The hexadecimal digit for `n`.
pub open spec fn hex_digit(n: int) -> char {
    if n < 10 {
        ('0' as int + n) as char
    } else {
        ('a' as int + n - 10) as char
    }
}

/// `c` as it is written in a JSON string.
pub open spec fn json_char(c: char) -> Seq<char> {
    if c == '"' {
        seq!['\\', '"']
    } else if c == '\\' {
        seq!['\\', '\\']
    } else if c == '\u{8}' {
        seq!['\\', 'b']
    } else if c == '\t' {
        seq!['\\', 't']
    } else if c == '\n' {
        seq!['\\', 'n']
    } else if c == '\u{c}' {
        seq!['\\', 'f']
    } else if c == '\r' {
        seq!['\\', 'r']
    } else if ' ' > c {
        seq!['\\', 'u', '0', '0', hex_digit(c as int / 16), hex_digit(c as int % 16)]
    } else {
        seq![c]
    }
}

/// `text` as it is written in a JSON string, without the quotes.
pub open spec fn json_chars(text: Seq<char>) -> Seq<char>
    decreases text.len(),
{
    if text.len() == 0 {
        Seq::empty()
    } else {
        json_char(text[0]) + json_chars(text.drop_first())
    }
}

/// The JSON string for `text`.
pub open spec fn json_text(text: Seq<char>) -> Seq<char> {
    quoted(json_chars(text))
}

/// What the hexadecimal digit `c` stands for, or `None` if it is no such digit.
pub open spec fn hex_value(c: char) -> Option<int> {
    if '0' <= c <= '9' {
        Some(c as int - '0' as int)
    } else if 'a' <= c <= 'f' {
        Some(c as int - 'a' as int + 10)
    } else if 'A' <= c <= 'F' {
        Some(c as int - 'A' as int + 10)
    } else {
        None
    }
}

/// What the four hexadecimal digits of an escape stand for, or `None` if they stand for no character.
///
/// A surrogate stands for no character.
pub open spec fn hex_char(a: char, b: char, c: char, d: char) -> Option<char> {
    match (hex_value(a), hex_value(b), hex_value(c), hex_value(d)) {
        (Some(a), Some(b), Some(c), Some(d)) => {
            let n = a * 4096 + b * 256 + c * 16 + d;
            if 0xD800 <= n < 0xE000 {
                None
            } else {
                Some(n as char)
            }
        },
        _ => None,
    }
}

/// The character at the start of what stands between the quotes of a JSON string, and how many
/// characters it is written with.
pub open spec fn first_json_char(chars: Seq<char>) -> Option<(char, int)> {
    if chars.len() == 0 || chars[0] == '"' || ' ' > chars[0] {
        None
    } else if chars[0] != '\\' {
        Some((chars[0], 1))
    } else if chars.len() < 2 {
        None
    } else if chars[1] == '"' || chars[1] == '\\' || chars[1] == '/' {
        Some((chars[1], 2))
    } else if chars[1] == 'b' {
        Some(('\u{8}', 2))
    } else if chars[1] == 't' {
        Some(('\t', 2))
    } else if chars[1] == 'n' {
        Some(('\n', 2))
    } else if chars[1] == 'f' {
        Some(('\u{c}', 2))
    } else if chars[1] == 'r' {
        Some(('\r', 2))
    } else if chars[1] == 'u' && chars.len() >= 6 {
        match hex_char(chars[2], chars[3], chars[4], chars[5]) {
            Some(c) => Some((c, 6)),
            None => None,
        }
    } else {
        None
    }
}

/// What stands between the quotes of a JSON string, decoded.
pub open spec fn json_chars_value(chars: Seq<char>) -> Option<Seq<char>>
    decreases chars.len(),
{
    if chars.len() == 0 {
        Some(Seq::empty())
    } else {
        match first_json_char(chars) {
            Some((c, n)) => if 0 < n <= chars.len() {
                match json_chars_value(chars.skip(n)) {
                    Some(rest) => Some(seq![c] + rest),
                    None => None,
                }
            } else {
                None
            },
            None => None,
        }
    }
}

/// The text that the JSON string `literal` stands for, or `None` if it is no JSON string.
///
/// Strings with surrogates in escapes are left out.
pub open spec fn json_value(literal: Seq<char>) -> Option<Seq<char>> {
    if literal.len() >= 2 && literal.first() == '"' && literal.last() == '"' {
        json_chars_value(literal.subrange(1, literal.len() - 1))
    } else {
        None
    }
}

/// A character is read as it is written.
proof fn lemma_first_json_char(c: char, rest: Seq<char>)
    ensures
        first_json_char(json_char(c) + rest) == Some((c, json_char(c).len() as int)),
        (json_char(c) + rest).skip(json_char(c).len() as int) == rest,
{
    assert((json_char(c) + rest).skip(json_char(c).len() as int) =~= rest);
    let chars = json_char(c) + rest;
    if ' ' > c && json_char(c).len() == 6 {
        let high = c as int / 16;
        let low = c as int % 16;
        assert(0 <= high < 2 && 0 <= low < 16);
        assert(chars[2] == '0' && chars[3] == '0');
        assert(chars[4] == hex_digit(high) && chars[5] == hex_digit(low));
        assert(hex_value(hex_digit(high)) == Some(high));
        assert(hex_value(hex_digit(low)) == Some(low));
        assert(high * 16 + low == c as int);
    }
}

/// What is written between the quotes is read as the text.
proof fn lemma_json_chars_value(text: Seq<char>)
    ensures
        json_chars_value(json_chars(text)) == Some(text),
    decreases text.len(),
{
    if text.len() > 0 {
        let rest = json_chars(text.drop_first());
        lemma_json_chars_value(text.drop_first());
        lemma_first_json_char(text[0], rest);
        assert(seq![text[0]] + text.drop_first() =~= text);
    } else {
        assert(text =~= Seq::empty());
    }
}

/// A JSON-safe text is written as it is.
proof fn lemma_json_safe_chars(text: Seq<char>)
    requires
        is_json_safe(text),
    ensures
        json_chars(text) == text,
    decreases text.len(),
{
    if text.len() > 0 {
        assert forall|i: int| 0 <= i < text.drop_first().len() implies {
            let c = #[trigger] text.drop_first()[i];
            c != '"' && c != '\\' && c >= ' '
        } by {
            assert(text.drop_first()[i] == text[i + 1]);
        }
        lemma_json_safe_chars(text.drop_first());
        assert(json_char(text[0]) =~= seq![text[0]]);
        assert(seq![text[0]] + text.drop_first() =~= text);
    } else {
        assert(text =~= Seq::empty());
    }
}

/// The JSON string for a text stands for the text.
pub proof fn law_json_text_value(text: Seq<char>)
    ensures
        json_value(json_text(text)) == Some(text),
{
    lemma_json_chars_value(text);
    let literal = json_text(text);
    assert(literal.subrange(1, literal.len() - 1) =~= json_chars(text));
}

/// A JSON-safe text between quotes is the JSON string for the text, and stands for it.
pub proof fn law_json_safe_text_needs_quotes_only(text: Seq<char>)
    requires
        is_json_safe(text),
    ensures
        json_text(text) == quoted(text),
        json_value(quoted(text)) == Some(text),
{
    lemma_json_safe_chars(text);
    law_json_text_value(text);
}

/// Is there a character in `text` which a search in big-endian byte order can take for one that
/// needs escaping, because of the one behind it?
pub open spec fn can_be_misread(text: Seq<char>) -> bool {
    exists|i: int|
        0 <= i < text.len() - 1 && {
            ||| #[trigger] text[i] == ' ' && ' ' > text[i + 1]
            ||| text[i] == '#' && text[i + 1] == '"'
            ||| text[i] == ']' && text[i + 1] == '\\'
        }
}

/// Is the JSON string which `text` is written as the same on every machine?
pub open spec fn is_encoding_fixed(text: Seq<char>) -> bool {
    encode_utf8(text).len() < 8 || !can_be_misread(text)
}

/// Is `json` what `text` is written as, by an encoder which escapes what needs escaping?
///
/// A JSON-safe text is only put between quotes. In any other, what needs escaping is escaped. Nothing
/// is said of texts of eight bytes or more which can be misread: see [`encode_text`].
pub open spec fn is_encoded(text: Seq<char>, json: Seq<char>) -> bool {
    &&& is_json_safe(text) ==> json == quoted(text)
    &&& is_encoding_fixed(text) ==> json == json_text(text)
}

/// The encoding of a JSON-safe text is fixed.
pub proof fn law_json_safe_encoding_is_fixed(text: Seq<char>)
    requires
        is_json_safe(text),
    ensures
        is_encoding_fixed(text),
{
    assert forall|i: int| 0 <= i < text.len() - 1 implies {
        &&& !(#[trigger] text[i] == ' ' && ' ' > text[i + 1])
        &&& !(text[i] == '#' && text[i + 1] == '"')
        &&& !(text[i] == ']' && text[i + 1] == '\\')
    } by {
        assert(text[i + 1] != '"' && text[i + 1] != '\\' && text[i + 1] >= ' ');
    }
}

/// Writes a string which needs no escaping ([`JsonSafeString`], serialized by itself).
///
/// The result is the string between quotes, whatever it holds.
#[verifier::external_body]
pub(crate) fn encode_json_safe(value: &str) -> (json: String)
    ensures
        json@ == quoted(value@),
{
    let mut serializer = CompactTSSerializer::new(false);
    JsonSafeString(value).serialize(&mut serializer);
    serializer.into_string()
}

/// Writes a string, with what needs escaping escaped (`str` as an [`ESTree`], serialized by itself).
///
/// A string which needs no escaping comes out between quotes. Any other comes out between quotes with
/// its quotes, backslashes and control characters escaped.
///
/// Strings of eight bytes or more are searched for what needs escaping eight bytes at a time, in the
/// byte order of the machine. Where that is big-endian, the search can also stop at a space before a
/// control character, at `#` before a quote or at `]` before a backslash, and put a backslash and a
/// NUL in their place. So nothing is claimed of strings of eight bytes or more which hold one of
/// these pairs.
#[verifier::external_body]
pub(crate) fn encode_text(value: &str) -> (json: String)
    ensures
        is_encoded(value@, json@),
{
    let mut serializer = CompactTSSerializer::new(false);
    value.serialize(&mut serializer);
    serializer.into_string()
}

} // verus!
