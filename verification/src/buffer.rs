//! A text buffer that can be edited by byte range and asked for the line
//! and column of a byte, and the other way round.

use crate::model::Position;
use crate::source::{
    byte_to_line, detached, edit, line_column_to_byte, line_to_byte, no_carriage_return, replace,
    replace_range, replaceable, slice_of, source_bytes, source_indexed, source_text, spliced,
    text_of,
};
use crate::text::{
    breaks_upto, lemma_ascii_chars_in, lemma_ascii_position_round_trip, lemma_line_holds,
    lemma_line_start_is, lemma_offset_is, line_of, line_start, offset_of, position_of,
};
use typst::syntax::Source;
use vstd::prelude::*;
use vstd::string::*;
use vstd::utf8::*;

verus! {

/// The byte offset of a position in a text; none when the text has no such
/// line or the line has no such column.
pub open spec fn exact_offset(t: Seq<u8>, position: Position) -> Option<int> {
    match offset_of(t, position.line as nat, position.character as nat) {
        Some(b) => if position_of(t, b) == Some(
            (position.line as nat, position.character as nat),
        ) {
            Some(b)
        } else {
            None
        },
        None => None,
    }
}

/// No more lines break up to a byte than there are bytes before it.
pub proof fn lemma_breaks_bounded(t: Seq<u8>, b: int)
    requires
        0 <= b,
    ensures
        breaks_upto(t, b) <= b,
    decreases b,
{
    if b > 0 {
        lemma_breaks_bounded(t, b - 1);
    }
}

/// Position mapping round trip, as the buffer does it: in a text of ASCII
/// characters only, of a length that fits the editor's 32 bits, the line
/// and column that `byte_to_position` gives for a byte offset is a position
/// for which `offset_at` gives that byte offset again.
pub proof fn lemma_ascii_buffer_round_trip(chars: Seq<char>, b: int)
    requires
        is_ascii_chars(chars),
        0 <= b <= chars.len() <= u32::MAX,
    ensures
        position_of(encode_utf8(chars), b) matches Some(p) && p.0 <= u32::MAX && p.1 <= u32::MAX
            && exact_offset(
            encode_utf8(chars),
            Position { line: p.0 as u32, character: p.1 as u32 },
        ) == Some(b),
{
    let t = encode_utf8(chars);
    lemma_ascii_position_round_trip(chars, b);
    lemma_breaks_bounded(t, b);
    lemma_line_holds(t, b);
    let s = line_start(t, line_of(t, b));
    lemma_ascii_chars_in(chars, s, b);
}

/// Whether a text holds no carriage return.
pub fn lacks_carriage_return(text: &str) -> (none: bool)
    ensures
        none == no_carriage_return(text.spec_bytes()),
{
    let bytes = text.as_bytes();
    let mut i: usize = 0;
    while i < bytes.len()
        invariant
            i <= bytes.len(),
            bytes@ == text.spec_bytes(),
            forall|k: int| 0 <= k < i ==> bytes@[k] != 0x0D,
        decreases bytes.len() - i,
    {
        if bytes[i] == 0x0D {
            return false;
        }
        i += 1;
    }
    true
}

/// A text with its line table.
pub struct Buffer {
    source: Source,
}

impl Buffer {
    /// The line table is the one of the text.
    #[verifier::type_invariant]
    spec fn indexed(self) -> bool {
        source_indexed(self.source)
    }

    /// The text, as UTF-8 bytes.
    pub closed spec fn bytes(&self) -> Seq<u8> {
        source_bytes(self.source)
    }

    /// A buffer that holds the given text.
    pub fn new(text: String) -> (buffer: Self)
        ensures
            buffer.bytes() == encode_utf8(text@),
    {
        Self { source: detached(text) }
    }

    /// The text of the buffer.
    pub fn text(&self) -> (text: String)
        ensures
            encode_utf8(text@) == self.bytes(),
    {
        text_of(&self.source).to_owned()
    }

    /// Replaces bytes `start..end` of the text, and says whether it did: a
    /// range that is inverted, reaches past the end of the text or cuts a
    /// character is refused.
    pub fn splice(&mut self, start: usize, end: usize, with: &str) -> (done: bool)
        ensures
            done == replaceable(old(self).bytes(), start as int, end as int),
            done ==> final(self).bytes() == spliced(
                old(self).bytes(),
                start as int,
                end as int,
                with.spec_bytes(),
            ),
            !done ==> final(self).bytes() == old(self).bytes(),
    {
        proof {
            use_type_invariant(&*self);
        }
        if slice_of(&self.source, start, end).is_none() {
            return false;
        }
        let after_return = start > 0 && text_of(&self.source).as_bytes()[start - 1] == 0x0D;
        if !after_return {
            edit(&mut self.source, start, end, with);
        } else {
            let mut text = text_of(&self.source).to_owned();
            replace_range(&mut text, start, end, with);
            self.source = detached(text);
        }
        true
    }

    /// Replaces the whole text: in place where the source can be relied on
    /// to do so, which is between ASCII texts with no carriage return in the
    /// new one, else by building the source anew.
    pub fn overwrite(&mut self, with: &str)
        ensures
            final(self).bytes() == with.spec_bytes(),
    {
        proof {
            use_type_invariant(&*self);
        }
        let plain = text_of(&self.source).is_ascii() && with.is_ascii() && lacks_carriage_return(
            with,
        );
        if plain {
            replace(&mut self.source, with);
        } else {
            self.source = detached(with.to_owned());
        }
    }

    /// The line and the column of a byte offset; none for an offset past
    /// the end of the text or inside a character. The column counts
    /// characters from the start of the line.
    pub fn byte_to_position(&self, index: usize) -> (position: Option<(usize, usize)>)
        ensures
            position is Some <==> position_of(self.bytes(), index as int) is Some,
            position matches Some(p) ==> position_of(self.bytes(), index as int) == Some(
                (p.0 as nat, p.1 as nat),
            ),
    {
        let ghost t = self.bytes();
        proof {
            use_type_invariant(self);
        }
        let line = match byte_to_line(&self.source, index) {
            Some(line) => line,
            None => {
                return None;
            },
        };
        proof {
            lemma_line_holds(t, index as int);
        }
        let start = match line_to_byte(&self.source, line) {
            Some(start) => start,
            None => {
                return None;
            },
        };
        proof {
            lemma_line_start_is(t, start as int, line as nat);
        }
        match slice_of(&self.source, start, index) {
            Some(head) => {
                proof {
                    encode_utf8_decode_utf8(head@);
                }
                Some((line, head.unicode_len()))
            },
            None => None,
        }
    }

    /// The byte offset of a position; none when the text has no such line
    /// or the line has no such column.
    pub fn offset_at(&self, position: Position) -> (offset: Option<usize>)
        ensures
            offset is Some <==> exact_offset(self.bytes(), position) is Some,
            offset matches Some(b) ==> exact_offset(self.bytes(), position) == Some(b as int),
    {
        proof {
            use_type_invariant(self);
        }
        let line = position.line as usize;
        let column = position.character as usize;
        let offset = match line_column_to_byte(&self.source, line, column) {
            Some(offset) => offset,
            None => {
                return None;
            },
        };
        proof {
            encode_utf8_valid_utf8(source_text(self.source));
            lemma_offset_is(self.bytes(), line as nat, column as nat, offset as int);
        }
        match self.byte_to_position(offset) {
            Some(found) => if found.0 == line && found.1 == column {
                Some(offset)
            } else {
                None
            },
            None => None,
        }
    }
}

} // verus!
