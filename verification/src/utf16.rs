//! Conversion of spans from UTF-8 byte offsets to UTF-16 offsets.

use oxc_ast_visit::utf8_to_utf16::{Utf8ToUtf16, Utf8ToUtf16Converter};
use vstd::prelude::*;
use vstd::utf8::{encode_utf8, is_ascii_chars};

use crate::token::Span;

verus! {

/// [`Utf8ToUtf16`]: the conversion table of a source text.
#[verifier::external_type_specification]
#[verifier::external_body]
pub struct ExUtf8ToUtf16(Utf8ToUtf16);

/// [`Utf8ToUtf16Converter`]: reads a conversion table, and remembers where it last looked.
#[verifier::external_type_specification]
#[verifier::external_body]
pub struct ExUtf8ToUtf16Converter<'t>(Utf8ToUtf16Converter<'t>);

/// Entries of a conversion table: from the first offset on, the second number is what has to be
/// subtracted from a UTF-8 offset to get the UTF-16 offset.
pub uninterp spec fn translations(table: Utf8ToUtf16) -> Seq<(u32, u32)>;

/// Entries of the table that a converter reads.
pub uninterp spec fn converter_translations(converter: Utf8ToUtf16Converter<'_>) -> Seq<(u32, u32)>;

/// Is `table` in order of offsets, from offset 0 on, without ever subtracting more than there is?
///
/// An empty table is for a text which needs no conversion.
pub open spec fn ordered(table: Seq<(u32, u32)>) -> bool {
    table.len() == 0 || {
        &&& table.len() >= 2
        &&& table[0] == (0u32, 0u32)
        &&& forall|i: int, j: int| 0 <= i < j < table.len() ==> table[i].0 <= table[j].0
        &&& forall|i: int| 0 <= i < table.len() ==> #[trigger] table[i].1 <= table[i].0
    }
}

/// What the first `n` entries of `table` subtract from `offset`: the last one whose own offset is
/// not after `offset` counts.
pub open spec fn difference(table: Seq<(u32, u32)>, offset: u32, n: nat) -> u32
    decreases n,
{
    if n == 0 {
        0
    } else if table[n - 1].0 <= offset {
        table[n - 1].1
    } else {
        difference(table, offset, (n - 1) as nat)
    }
}

/// UTF-16 offset of the UTF-8 offset `offset`.
pub open spec fn utf16_offset(table: Seq<(u32, u32)>, offset: u32) -> u32 {
    (offset - difference(table, offset, table.len())) as u32
}

/// `span`, converted from UTF-8 offsets to UTF-16 offsets.
pub open spec fn utf16_span(table: Seq<(u32, u32)>, span: Span) -> Span {
    Span { start: utf16_offset(table, span.start), end: utf16_offset(table, span.end) }
}

/// Number of UTF-16 code units that `text` takes.
pub open spec fn utf16_len(text: Seq<char>) -> nat
    decreases text.len(),
{
    if text.len() == 0 {
        0
    } else if text.last() as u32 >= 0x10000 {
        utf16_len(text.drop_last()) + 2
    } else {
        utf16_len(text.drop_last()) + 1
    }
}

/// Does `table` convert offsets in `text`?
///
/// Where a character ends in UTF-8, it ends in UTF-16 after as many code units as the text up to
/// there takes. Only a text which is all ASCII needs no table.
pub open spec fn is_table_of(table: Seq<(u32, u32)>, text: Seq<char>) -> bool {
    &&& ordered(table)
    &&& table.len() == 0 <==> is_ascii_chars(text)
    &&& forall|n: int|
        0 <= n <= text.len() ==> utf16_offset(
            table,
            encode_utf8(#[trigger] text.take(n)).len() as u32,
        ) == utf16_len(text.take(n))
}

/// [`Utf8ToUtf16::new`]: creates the conversion table of a text.
///
/// The table has no entries if the text is all ASCII. It is in order, and converts the offset of
/// each character boundary to the number of UTF-16 code units before it. Nothing is said here of
/// offsets inside a character.
pub assume_specification[ Utf8ToUtf16::new ](source_text: &str) -> (table: Utf8ToUtf16)
    requires
        encode_utf8(source_text@).len() <= u32::MAX,
    ensures
        is_table_of(translations(table), source_text@),
;

/// Can `span` be converted with `table`?
pub open spec fn is_convertible(table: Seq<(u32, u32)>, span: Span) -> bool {
    table.len() > 0 ==> span.start < u32::MAX && span.end < u32::MAX
}

/// Creates the converter of a table ([`Utf8ToUtf16::converter`]).
///
/// There is none if the table has no entries. Otherwise it reads the entries of the table, of
/// which there are at least two.
#[verifier::external_body]
pub(crate) fn converter(table: &Utf8ToUtf16) -> (converter: Option<Utf8ToUtf16Converter<'_>>)
    ensures
        converter is None <==> translations(*table).len() == 0,
        converter matches Some(converter) ==> converter_translations(converter) == translations(
            *table,
        ) && translations(*table).len() >= 2,
{
    table.converter()
}

/// Converts a span ([`Utf8ToUtf16Converter::convert_span`]).
///
/// Each offset is converted as the table says. The converter reads the same table afterwards.
#[verifier::external_body]
pub(crate) fn convert_span(converter: &mut Utf8ToUtf16Converter<'_>, span: Span) -> (result: Span)
    requires
        ordered(converter_translations(*old(converter))),
        span.start < u32::MAX,
        span.end < u32::MAX,
    ensures
        converter_translations(*final(converter)) == converter_translations(*old(converter)),
        result == utf16_span(converter_translations(*old(converter)), span),
{
    let mut outside = oxc_span::Span::new(span.start, span.end);
    converter.convert_span(&mut outside);
    Span { start: outside.start, end: outside.end }
}

} // verus!
