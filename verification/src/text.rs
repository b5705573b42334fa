//! Slices of a source text by byte offsets.

use vstd::prelude::*;
use vstd::string::StringSliceAdditionalSpecFns;
use vstd::utf8::{
    decode_utf8, encode_utf8, encode_utf8_decode_utf8, encode_utf8_first_scalar,
    encode_utf8_valid_utf8, is_char_boundary, is_char_boundary_iff_not_is_continuation_byte,
    is_char_boundary_start_end_of_seq, valid_utf8_split,
};

use crate::parsed::lemma_encode_utf8_concat;

verus! {

/// Are the bytes from `start` to `end` of `text` whole characters?
pub open spec fn is_slice(text: Seq<char>, start: int, end: int) -> bool {
    &&& start <= end
    &&& is_char_boundary(encode_utf8(text), start)
    &&& is_char_boundary(encode_utf8(text), end)
}

/// The characters from byte `start` to byte `end` of `text`.
pub open spec fn text_slice(text: Seq<char>, start: int, end: int) -> Seq<char> {
    decode_utf8(encode_utf8(text).subrange(start, end))
}

/// A character boundary is one of the text.
proof fn lemma_boundary_in_bounds(bytes: Seq<u8>, index: int)
    requires
        vstd::utf8::valid_utf8(bytes),
        is_char_boundary(bytes, index),
    ensures
        0 <= index <= bytes.len(),
{
}

/// The start of what follows a text is between two characters.
proof fn lemma_boundary_after(text: Seq<char>, rest: Seq<char>)
    ensures
        is_char_boundary(encode_utf8(text + rest), encode_utf8(text).len() as int),
    decreases text.len(),
{
    encode_utf8_valid_utf8(text + rest);
    if text.len() > 0 {
        let all = text + rest;
        let bytes = encode_utf8(all);
        lemma_encode_utf8_concat(text, rest);
        encode_utf8_first_scalar(all);
        assert(all.drop_first() =~= text.drop_first() + rest);
        assert(vstd::utf8::pop_first_scalar(bytes) =~= encode_utf8(all.drop_first()));
        lemma_boundary_after(text.drop_first(), rest);
    }
}

/// What stands between two texts is the slice from the end of the first to the start of the second.
pub proof fn law_slice_of_concatenation(before: Seq<char>, text: Seq<char>, after: Seq<char>)
    ensures
        ({
            let start = encode_utf8(before).len() as int;
            let end = start + encode_utf8(text).len();
            &&& is_slice(before + text + after, start, end)
            &&& text_slice(before + text + after, start, end) == text
        }),
{
    lemma_encode_utf8_concat(before, text);
    lemma_encode_utf8_concat(before + text, after);
    lemma_boundary_after(before, text + after);
    lemma_boundary_after(before + text, after);
    assert(before + (text + after) =~= before + text + after);
    let start = encode_utf8(before).len() as int;
    let end = start + encode_utf8(text).len();
    assert(encode_utf8(before + text + after).subrange(start, end) =~= encode_utf8(text));
    encode_utf8_decode_utf8(text);
}

/// `true` if the bytes from `start` to `end` of `text` are whole characters.
pub fn has_slice(text: &str, start: usize, end: usize) -> (r: bool)
    ensures
        r == is_slice(text@, start as int, end as int),
{
    start <= end && text.is_char_boundary(start) && text.is_char_boundary(end)
}

/// The characters from byte `start` to byte `end` of `text`.
pub fn slice(text: &str, start: usize, end: usize) -> (r: &str)
    requires
        is_slice(text@, start as int, end as int),
    ensures
        r@ == text_slice(text@, start as int, end as int),
{
    let ghost bytes = text.spec_bytes();
    let ghost head = bytes.subrange(0, end as int);
    proof {
        encode_utf8_valid_utf8(text@);
        lemma_boundary_in_bounds(bytes, end as int);
        valid_utf8_split(bytes, end as int);
        if start < end {
            is_char_boundary_iff_not_is_continuation_byte(bytes, start as int);
            is_char_boundary_iff_not_is_continuation_byte(head, start as int);
            assert(head[start as int] == bytes[start as int]);
        } else {
            is_char_boundary_start_end_of_seq(head);
        }
    }
    let result = text.split_at(end).0.split_at(start).1;
    proof {
        assert(result.spec_bytes() =~= bytes.subrange(start as int, end as int));
        encode_utf8_decode_utf8(result@);
    }
    result
}

/// `true` if `a` and `b` are the same text.
pub fn same_text(a: &str, b: &str) -> (r: bool)
    ensures
        r == (a@ == b@),
{
    let a_bytes = a.as_bytes();
    let b_bytes = b.as_bytes();
    proof {
        encode_utf8_decode_utf8(a@);
        encode_utf8_decode_utf8(b@);
    }
    if a_bytes.len() != b_bytes.len() {
        return false;
    }
    let mut i: usize = 0;
    while i < a_bytes.len()
        invariant
            i <= a_bytes.len(),
            a_bytes@.len() == b_bytes@.len(),
            a_bytes@ == encode_utf8(a@),
            b_bytes@ == encode_utf8(b@),
            forall|j: int| 0 <= j < i ==> a_bytes@[j] == b_bytes@[j],
        decreases a_bytes.len() - i,
    {
        if a_bytes[i] != b_bytes[i] {
            return false;
        }
        i += 1;
    }
    assert(a_bytes@ =~= b_bytes@);
    true
}

} // verus!
