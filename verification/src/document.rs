//! The open documents: for each, the text as the editor has it, which
//! stands in for the file on disk until the document is closed.
//!
//! An edit names its range by line and column. Both ends must be places of
//! the text as it is when the edit is applied: a line that the text does
//! not have, or a column past the end of its line, is refused and never
//! moved to the nearest place that exists.

use crate::buffer::{exact_offset, Buffer};
use crate::model::Change;
use crate::source::spliced;
use vstd::prelude::*;
use vstd::string::*;
use vstd::utf8::*;

verus! {

/// Why an edit is refused.
#[derive(Clone, Copy, Debug, PartialEq, Eq, Structural)]
pub enum Refusal {
    /// An end of the range is no place of the text.
    OutOfBounds,
    /// The range ends before it starts.
    Inverted,
}

/// What becomes of an edit on a text: the new text, or why it is refused.
pub open spec fn changed(t: Seq<u8>, change: Change) -> Result<Seq<u8>, Refusal> {
    match change.range {
        None => Ok(encode_utf8(change.text@)),
        Some(range) => match (exact_offset(t, range.start), exact_offset(t, range.end)) {
            (Some(start), Some(end)) => if start <= end {
                Ok(spliced(t, start, end, encode_utf8(change.text@)))
            } else {
                Err(Refusal::Inverted)
            },
            _ => Err(Refusal::OutOfBounds),
        },
    }
}

/// The text after the first `n` of a list of edits, each applied to what
/// the edits before it made. A refused edit leaves the text as it is.
pub open spec fn changed_by(t: Seq<u8>, changes: Seq<Change>, n: int) -> Seq<u8>
    decreases n,
{
    if n <= 0 {
        t
    } else {
        match changed(changed_by(t, changes, n - 1), changes[n - 1]) {
            Ok(after) => after,
            Err(_) => changed_by(t, changes, n - 1),
        }
    }
}

/// Edit `index` is the first of the list that is refused, for `reason`.
pub open spec fn first_refused(
    t: Seq<u8>,
    changes: Seq<Change>,
    index: int,
    reason: Refusal,
) -> bool {
    &&& 0 <= index < changes.len()
    &&& changed(changed_by(t, changes, index), changes[index]) == Err::<Seq<u8>, Refusal>(reason)
    &&& forall|i: int|
        0 <= i < index ==> (#[trigger] changed(changed_by(t, changes, i), changes[i])) is Ok
}

/// Every edit of the list applies.
pub open spec fn all_apply(t: Seq<u8>, changes: Seq<Change>) -> bool {
    forall|i: int|
        0 <= i < changes.len() ==> (#[trigger] changed(changed_by(t, changes, i), changes[i])) is Ok
}

/// Why a change notification is refused.
#[derive(Clone, Copy, Debug, PartialEq, Eq, Structural)]
pub enum EditError {
    /// The document is not open.
    NotOpen,
    /// Edit `index` of the notification is refused; the edits before it
    /// were applied.
    Refused { index: usize, reason: Refusal },
}

/// What a change notification for `path` makes of the open documents
/// `before`: the text of that document is what the edits make of it, up to
/// the first edit that is refused, and no other document changes.
pub open spec fn change_outcome(
    before: Map<Seq<char>, Seq<u8>>,
    after: Map<Seq<char>, Seq<u8>>,
    path: Seq<char>,
    changes: Seq<Change>,
    done: Result<(), EditError>,
) -> bool {
    &&& after.dom() == before.dom()
    &&& forall|p: Seq<char>| p != path && before.contains_key(p) ==> #[trigger] after[p] == before[p]
    &&& match done {
        Ok(_) => {
            &&& before.contains_key(path)
            &&& all_apply(before[path], changes)
            &&& after[path] == changed_by(before[path], changes, changes.len() as int)
        },
        Err(EditError::NotOpen) => !before.contains_key(path),
        Err(EditError::Refused { index, reason }) => {
            &&& before.contains_key(path)
            &&& first_refused(before[path], changes, index as int, reason)
            &&& after[path] == changed_by(before[path], changes, index as int)
        },
    }
}

/// Applies one edit to a text. A refused edit changes nothing.
pub fn apply_change(buffer: &mut Buffer, change: &Change) -> (done: Result<(), Refusal>)
    ensures
        match done {
            Ok(_) => changed(old(buffer).bytes(), *change) == Ok::<Seq<u8>, Refusal>(
                final(buffer).bytes(),
            ),
            Err(reason) => changed(old(buffer).bytes(), *change) == Err::<Seq<u8>, Refusal>(reason)
                && final(buffer).bytes() == old(buffer).bytes(),
        },
{
    match change.range {
        None => {
            buffer.overwrite(change.text.as_str());
            Ok(())
        },
        Some(range) => {
            let start = buffer.offset_at(range.start);
            let end = buffer.offset_at(range.end);
            match (start, end) {
                (Some(start), Some(end)) => {
                    if start <= end {
                        let done = buffer.splice(start, end, change.text.as_str());
                        assert(done);
                        Ok(())
                    } else {
                        Err(Refusal::Inverted)
                    }
                },
                _ => Err(Refusal::OutOfBounds),
            }
        },
    }
}

/// Applies a list of edits to a text, in order, each to the text that the
/// edits before it made. It stops at the first edit that is refused and
/// says which one that is.
pub fn apply_changes(buffer: &mut Buffer, changes: &Vec<Change>) -> (done: Result<
    (),
    (usize, Refusal),
>)
    ensures
        match done {
            Ok(_) => all_apply(old(buffer).bytes(), changes@) && final(buffer).bytes()
                == changed_by(old(buffer).bytes(), changes@, changes@.len() as int),
            Err(e) => first_refused(old(buffer).bytes(), changes@, e.0 as int, e.1)
                && final(buffer).bytes() == changed_by(old(buffer).bytes(), changes@, e.0 as int),
        },
{
    let ghost t = buffer.bytes();
    let mut i: usize = 0;
    while i < changes.len()
        invariant
            i <= changes.len(),
            t == old(buffer).bytes(),
            buffer.bytes() == changed_by(t, changes@, i as int),
            forall|k: int|
                0 <= k < i ==> (#[trigger] changed(changed_by(t, changes@, k), changes@[k])) is Ok,
        decreases changes.len() - i,
    {
        match apply_change(buffer, &changes[i]) {
            Ok(_) => {},
            Err(reason) => {
                return Err((i, reason));
            },
        }
        i += 1;
    }
    Ok(())
}

/// An open document: its path and its text.
pub struct OpenDocument {
    path: String,
    buffer: Buffer,
}

/// The paths of a sequence of documents.
pub closed spec fn held_paths(documents: Seq<OpenDocument>) -> Seq<Seq<char>> {
    documents.map_values(|d: OpenDocument| d.path@)
}

/// No path is held twice.
pub closed spec fn distinct_paths(documents: Seq<OpenDocument>) -> bool {
    forall|i: int, j: int| 0 <= i < j < documents.len() ==> documents[i].path@ != documents[j].path@
}

/// The place of a path among the open documents.
pub open spec fn is_slot(paths: Seq<Seq<char>>, path: Seq<char>, i: int) -> bool {
    0 <= i < paths.len() && paths[i] == path
}

/// The open documents.
pub struct Documents {
    open: Vec<OpenDocument>,
}

impl View for Documents {
    type V = Map<Seq<char>, Seq<u8>>;

    /// The text of each open document, as UTF-8 bytes, by its path.
    closed spec fn view(&self) -> Map<Seq<char>, Seq<u8>> {
        Map::new(
            |path: Seq<char>| exists|i: int| is_slot(self.paths(), path, i),
            |path: Seq<char>| self.texts()[choose|i: int| is_slot(self.paths(), path, i)],
        )
    }
}

impl Documents {
    /// The paths of the open documents, in the order they are held in.
    pub closed spec fn paths(&self) -> Seq<Seq<char>> {
        held_paths(self.open@)
    }

    /// The texts of the open documents, in the order they are held in.
    pub closed spec fn texts(&self) -> Seq<Seq<u8>> {
        self.open@.map_values(|d: OpenDocument| d.buffer.bytes())
    }

    /// No path is held twice.
    #[verifier::type_invariant]
    spec fn distinct(self) -> bool {
        distinct_paths(self.open@)
    }

    /// With no path held twice, a path's place is its text's place.
    proof fn lemma_slot(&self, path: Seq<char>, i: int)
        requires
            distinct_paths(self.open@),
            is_slot(self.paths(), path, i),
        ensures
            self@.contains_key(path),
            self@[path] == self.open@[i].buffer.bytes(),
    {
        let j = choose|j: int| is_slot(self.paths(), path, j);
        assert(self.paths()[i] == self.open@[i].path@);
        assert(self.paths()[j] == self.open@[j].path@);
        assert(i == j);
    }

    /// No document is open.
    pub fn new() -> (documents: Self)
        ensures
            documents@ == Map::<Seq<char>, Seq<u8>>::empty(),
    {
        let documents = Self { open: Vec::new() };
        assert(documents@ =~= Map::<Seq<char>, Seq<u8>>::empty());
        documents
    }

    /// Where a path is held, if the document is open.
    fn find(&self, path: &String) -> (slot: Option<usize>)
        ensures
            slot is Some <==> self@.contains_key(path@),
            slot matches Some(i) ==> is_slot(self.paths(), path@, i as int),
    {
        proof {
            use_type_invariant(self);
        }
        let mut i: usize = 0;
        while i < self.open.len()
            invariant
                distinct_paths(self.open@),
                i <= self.open.len(),
                forall|k: int| 0 <= k < i ==> self.open@[k].path@ != path@,
            decreases self.open.len() - i,
        {
            if self.open[i].path == *path {
                proof {
                    assert(is_slot(self.paths(), path@, i as int));
                    self.lemma_slot(path@, i as int);
                }
                return Some(i);
            }
            i += 1;
        }
        proof {
            if self@.contains_key(path@) {
                let k = choose|k: int| is_slot(self.paths(), path@, k);
                assert(self.paths()[k] == self.open@[k].path@);
            }
        }
        None
    }

    /// Opens a document with the given text. For a document that is open
    /// already, the text takes the place of the one held.
    pub fn open(&mut self, path: String, text: String)
        ensures
            final(self)@ == old(self)@.insert(path@, encode_utf8(text@)),
    {
        let ghost key = path@;
        let ghost bytes = encode_utf8(text@);
        let buffer = Buffer::new(text);
        proof {
            use_type_invariant(&*self);
        }
        let found = self.find(&path);
        let mut open: Vec<OpenDocument> = Vec::new();
        std::mem::swap(&mut self.open, &mut open);
        match found {
            Some(i) => {
                open.set(i, OpenDocument { path, buffer });
                assert forall|a: int, b: int| 0 <= a < b < open@.len() implies open@[a].path@
                    != open@[b].path@ by {
                    assert(old(self).paths()[i as int] == old(self).open@[i as int].path@);
                    assert(open@[a].path@ == old(self).open@[a].path@);
                    assert(open@[b].path@ == old(self).open@[b].path@);
                }
            },
            None => {
                open.push(OpenDocument { path, buffer });
                assert forall|a: int, b: int| 0 <= a < b < open@.len() implies open@[a].path@
                    != open@[b].path@ by {
                    if b == open@.len() - 1 {
                        assert(is_slot(old(self).paths(), open@[a].path@, a));
                    }
                }
            },
        }
        std::mem::swap(&mut self.open, &mut open);
        proof {
            match found {
                Some(i) => {
                    assert(self.paths() =~= old(self).paths());
                    assert(self.texts() =~= old(self).texts().update(i as int, bytes));
                    assert forall|p: Seq<char>| #[trigger]
                        self@.contains_key(p) && p != key implies self@[p] == old(self)@[p] by {
                        let j = choose|j: int| is_slot(self.paths(), p, j);
                        assert(self.paths()[j] == self.open@[j].path@);
                    }
                    self.lemma_slot(key, i as int);
                },
                None => {
                    let n = old(self).open@.len() as int;
                    assert(self.paths() =~= old(self).paths().push(key));
                    assert(self.texts() =~= old(self).texts().push(bytes));
                    assert(is_slot(self.paths(), key, n));
                    self.lemma_slot(key, n);
                    assert forall|p: Seq<char>| p != key implies (#[trigger] self@.contains_key(p)
                        <==> old(self)@.contains_key(p)) by {
                        if self@.contains_key(p) {
                            let j = choose|j: int| is_slot(self.paths(), p, j);
                            assert(is_slot(old(self).paths(), p, j));
                        }
                        if old(self)@.contains_key(p) {
                            let j = choose|j: int| is_slot(old(self).paths(), p, j);
                            assert(is_slot(self.paths(), p, j));
                        }
                    }
                    assert forall|p: Seq<char>| #[trigger]
                        self@.contains_key(p) && p != key implies self@[p] == old(self)@[p] by {
                        let j = choose|j: int| is_slot(old(self).paths(), p, j);
                        assert(is_slot(self.paths(), p, j));
                        self.lemma_slot(p, j);
                        old(self).lemma_slot(p, j);
                    }
                },
            }
            assert(self@ =~= old(self)@.insert(key, bytes));
        }
    }

    /// Closes a document and says whether it was open. Its text is held no
    /// longer.
    pub fn close(&mut self, path: &str) -> (was_open: bool)
        ensures
            was_open == old(self)@.contains_key(path@),
            final(self)@ == old(self)@.remove(path@),
    {
        proof {
            use_type_invariant(&*self);
        }
        let i = match self.find(&path.to_owned()) {
            Some(i) => i,
            None => {
                assert(self@ =~= old(self)@.remove(path@));
                return false;
            },
        };
        let mut open: Vec<OpenDocument> = Vec::new();
        std::mem::swap(&mut self.open, &mut open);
        open.remove(i);
        assert forall|a: int, b: int| 0 <= a < b < open@.len() implies open@[a].path@
            != open@[b].path@ by {
            let a0 = if a < i { a } else { a + 1 };
            let b0 = if b < i { b } else { b + 1 };
            assert(open@[a] == old(self).open@[a0]);
            assert(open@[b] == old(self).open@[b0]);
        }
        std::mem::swap(&mut self.open, &mut open);
        proof {
            assert(self.paths() =~= old(self).paths().remove(i as int));
            assert(self.texts() =~= old(self).texts().remove(i as int));
            assert forall|p: Seq<char>| p != path@ implies (#[trigger] self@.contains_key(p)
                <==> old(self)@.contains_key(p)) by {
                if self@.contains_key(p) {
                    let j = choose|j: int| is_slot(self.paths(), p, j);
                    assert(is_slot(old(self).paths(), p, if j < i { j } else { j + 1 }));
                }
                if old(self)@.contains_key(p) {
                    let j = choose|j: int| is_slot(old(self).paths(), p, j);
                    assert(is_slot(self.paths(), p, if j < i { j } else { j - 1 }));
                }
            }
            assert forall|p: Seq<char>| #[trigger]
                self@.contains_key(p) && p != path@ implies self@[p] == old(self)@[p] by {
                let j = choose|j: int| is_slot(self.paths(), p, j);
                let k = if j < i { j } else { j + 1 };
                assert(is_slot(old(self).paths(), p, k));
                self.lemma_slot(p, j);
                old(self).lemma_slot(p, k);
            }
            if self@.contains_key(path@) {
                let j = choose|j: int| is_slot(self.paths(), path@, j);
                let k = if j < i { j } else { j + 1 };
                assert(is_slot(old(self).paths(), path@, k));
                assert(old(self).paths()[k] == old(self).open@[k].path@);
                assert(old(self).paths()[i as int] == old(self).open@[i as int].path@);
            }
            assert(self@ =~= old(self)@.remove(path@));
        }
        true
    }

    /// Applies the edits of a change notification to an open document, in
    /// the order received. At the first edit that is refused it stops: the
    /// edits before that one stay applied, and the error says which edit it
    /// was. No other document changes.
    pub fn change(&mut self, path: &str, changes: &Vec<Change>) -> (done: Result<(), EditError>)
        ensures
            change_outcome(old(self)@, final(self)@, path@, changes@, done),
    {
        proof {
            use_type_invariant(&*self);
        }
        let i = match self.find(&path.to_owned()) {
            Some(i) => i,
            None => {
                return Err(EditError::NotOpen);
            },
        };
        proof {
            old(self).lemma_slot(path@, i as int);
        }
        let mut open: Vec<OpenDocument> = Vec::new();
        std::mem::swap(&mut self.open, &mut open);
        let mut document = open.remove(i);
        let done = apply_changes(&mut document.buffer, changes);
        let ghost bytes = document.buffer.bytes();
        open.insert(i, document);
        assert forall|a: int, b: int| 0 <= a < b < open@.len() implies open@[a].path@
            != open@[b].path@ by {
            assert(open@[a].path@ == old(self).open@[a].path@);
            assert(open@[b].path@ == old(self).open@[b].path@);
        }
        std::mem::swap(&mut self.open, &mut open);
        proof {
            assert(self.paths() =~= old(self).paths());
            assert(self.texts() =~= old(self).texts().update(i as int, bytes));
            self.lemma_slot(path@, i as int);
            assert(self@.dom() =~= old(self)@.dom());
            assert forall|p: Seq<char>| p != path@ && old(self)@.contains_key(p) implies #[trigger]
                self@[p] == old(self)@[p] by {
                let j = choose|j: int| is_slot(self.paths(), p, j);
                assert(self.paths()[j] == self.open@[j].path@);
            }
        }
        match done {
            Ok(_) => Ok(()),
            Err(e) => Err(EditError::Refused { index: e.0, reason: e.1 }),
        }
    }

    /// Whether a document is open.
    pub fn is_open(&self, path: &str) -> (open: bool)
        ensures
            open == self@.contains_key(path@),
    {
        self.find(&path.to_owned()).is_some()
    }

    /// The text of an open document.
    pub fn text(&self, path: &str) -> (text: Option<String>)
        ensures
            text is Some <==> self@.contains_key(path@),
            text matches Some(t) ==> encode_utf8(t@) == self@[path@],
    {
        proof {
            use_type_invariant(self);
        }
        match self.find(&path.to_owned()) {
            Some(i) => {
                proof {
                    self.lemma_slot(path@, i as int);
                }
                Some(self.open[i].buffer.text())
            },
            None => None,
        }
    }

    /// The buffer that holds the text of an open document.
    pub fn buffer(&self, path: &str) -> (buffer: Option<&Buffer>)
        ensures
            buffer is Some <==> self@.contains_key(path@),
            buffer matches Some(b) ==> b.bytes() == self@[path@],
    {
        proof {
            use_type_invariant(self);
        }
        match self.find(&path.to_owned()) {
            Some(i) => {
                proof {
                    self.lemma_slot(path@, i as int);
                }
                Some(&self.open[i].buffer)
            },
            None => None,
        }
    }
}

} // verus!
