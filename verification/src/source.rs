//! The editable text buffer of an open document, kept in a `typst` source.
//!
//! A source holds its text together with a table of line starts that it
//! updates on every edit. This file holds what Verus takes on trust of it:
//! thin wrappers, each of which says which method of `Source` it calls.

use crate::text::{is_offset, line_count, line_of, starts_line};
use typst::syntax::Source;
use vstd::prelude::*;
use vstd::string::*;
use vstd::utf8::*;

verus! {

#[verifier::external_type_specification]
#[verifier::external_body]
pub struct ExSource(Source);

/// The text that a source holds.
pub uninterp spec fn source_text(source: Source) -> Seq<char>;

/// The line table that a source keeps is the line structure of its text.
///
/// A fresh source has this. An edit keeps it unless the edit starts right
/// after a carriage return, where the source's update of its table can miss
/// or drop a line.
pub uninterp spec fn source_indexed(source: Source) -> bool;

/// The UTF-8 bytes of the text that a source holds.
pub open spec fn source_bytes(source: Source) -> Seq<u8> {
    encode_utf8(source_text(source))
}

/// The text `t` with bytes `start..end` replaced by `with`.
pub open spec fn spliced(t: Seq<u8>, start: int, end: int, with: Seq<u8>) -> Seq<u8> {
    t.subrange(0, start) + with + t.subrange(end, t.len() as int)
}

/// No byte of `t` is a carriage return.
pub open spec fn no_carriage_return(t: Seq<u8>) -> bool {
    forall|i: int| 0 <= i < t.len() ==> t[i] != 0x0D
}

/// Bytes `start..end` of `t` can be replaced: the range lies in the text and
/// cuts no character.
pub open spec fn replaceable(t: Seq<u8>, start: int, end: int) -> bool {
    &&& 0 <= start <= end <= t.len()
    &&& is_char_boundary(t, start)
    &&& is_char_boundary(t, end)
}

/// `Source::detached`: a fresh source over the given text, with the line
/// table of that text.
#[verifier::external_body]
pub(crate) fn detached(text: String) -> (source: Source)
    ensures
        source_text(source) == text@,
        source_indexed(source),
{
    Source::detached(text)
}

/// `Source::text`: the whole text of a source.
#[verifier::external_body]
pub(crate) fn text_of(source: &Source) -> (text: &str)
    ensures
        text@ == source_text(*source),
{
    source.text()
}

/// `Source::get`: the part of the text in bytes `start..end`, or none when
/// the range is inverted, reaches past the end or cuts a character.
#[verifier::external_body]
pub(crate) fn slice_of(source: &Source, start: usize, end: usize) -> (part: Option<&str>)
    ensures
        part is Some <==> replaceable(source_bytes(*source), start as int, end as int),
        part matches Some(p) ==> p.spec_bytes() == source_bytes(*source).subrange(
            start as int,
            end as int,
        ),
{
    source.get(start..end)
}

/// `Source::byte_to_line`: the line that holds a byte offset, or none when
/// the offset is past the end of the text.
#[verifier::external_body]
pub(crate) fn byte_to_line(source: &Source, offset: usize) -> (line: Option<usize>)
    requires
        source_indexed(*source),
    ensures
        line is Some <==> offset <= source_bytes(*source).len(),
        line matches Some(l) ==> l == line_of(source_bytes(*source), offset as int),
{
    source.byte_to_line(offset)
}

/// `Source::line_to_byte`: the byte at which a line starts, which is never
/// inside a character, or none when the text has no such line.
#[verifier::external_body]
pub(crate) fn line_to_byte(source: &Source, line: usize) -> (start: Option<usize>)
    requires
        source_indexed(*source),
    ensures
        start is Some <==> line < line_count(source_bytes(*source)),
        start matches Some(p) ==> starts_line(source_bytes(*source), p as int, line as nat)
            && is_char_boundary(source_bytes(*source), p as int),
{
    source.line_to_byte(line)
}

/// `Source::line_column_to_byte`: the byte offset of a column in a line, or
/// none when the text has no such line. The source walks `column` characters
/// from the start of the line and stops at the end of the line.
#[verifier::external_body]
pub(crate) fn line_column_to_byte(source: &Source, line: usize, column: usize) -> (offset: Option<
    usize,
>)
    requires
        source_indexed(*source),
    ensures
        offset is Some <==> line < line_count(source_bytes(*source)),
        offset matches Some(b) ==> is_offset(
            source_bytes(*source),
            line as nat,
            column as nat,
            b as int,
        ),
{
    source.line_column_to_byte(line, column)
}

/// `Source::edit`: replaces bytes `start..end` of the text. The source
/// panics on a range that `replaceable` refuses, and its line table is only
/// sure to follow when the byte before `start` is no carriage return.
#[verifier::external_body]
pub(crate) fn edit(source: &mut Source, start: usize, end: usize, with: &str)
    requires
        source_indexed(*old(source)),
        replaceable(source_bytes(*old(source)), start as int, end as int),
        start == 0 || source_bytes(*old(source))[start - 1] != 0x0D,
    ensures
        source_bytes(*final(source)) == spliced(
            source_bytes(*old(source)),
            start as int,
            end as int,
            with.spec_bytes(),
        ),
        source_indexed(*final(source)),
    no_unwind
{
    source.edit(start..end, with);
}

/// `Source::replace`: replaces the whole text, by one edit between the
/// common prefix and the common suffix of the old and the new text, which
/// it finds byte by byte. Where both texts are ASCII every byte is a
/// character, so the edit covers all that differs; and with no carriage
/// return in the new text that edit never starts after one. Between texts
/// with longer characters the source can cut the edit short or never
/// return, so those are left out.
#[verifier::external_body]
pub(crate) fn replace(source: &mut Source, with: &str)
    requires
        source_indexed(*old(source)),
        is_ascii_chars(source_text(*old(source))),
        is_ascii_chars(with@),
        no_carriage_return(with.spec_bytes()),
    ensures
        source_text(*final(source)) == with@,
        source_indexed(*final(source)),
    no_unwind
{
    source.replace(with);
}

/// `String::replace_range`: replaces bytes `start..end` of a string. It
/// panics on a range that `replaceable` refuses.
#[verifier::external_body]
pub(crate) fn replace_range(text: &mut String, start: usize, end: usize, with: &str)
    requires
        replaceable(encode_utf8(old(text)@), start as int, end as int),
    ensures
        encode_utf8(final(text)@) == spliced(
            encode_utf8(old(text)@),
            start as int,
            end as int,
            with.spec_bytes(),
        ),
{
    text.replace_range(start..end, with);
}

} // verus!
