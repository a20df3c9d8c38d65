//! The values that pass between the analyzer, the cache and the editor.

use crate::payload::strings_view;
use serde_json::Value;
use vstd::prelude::*;

verus! {

/// A place in a document: a line and a column, both counted from zero.
#[derive(Clone, Copy, Debug, PartialEq, Eq, Structural)]
pub struct Position {
    pub line: u32,
    pub character: u32,
}

/// A stretch of a document, from `start` up to `end`.
#[derive(Clone, Copy, Debug, PartialEq, Eq, Structural)]
pub struct TextRange {
    pub start: Position,
    pub end: Position,
}

/// What the analyzer found in one segment: the rule, a message for the
/// user, the texts to put instead, and the bytes of the segment's text that
/// it is about.
#[derive(Clone, Debug, PartialEq, Eq)]
pub struct Suggestion {
    pub rule_id: String,
    pub message: String,
    pub replacements: Vec<String>,
    pub start: usize,
    pub end: usize,
}

/// A suggestion as a mathematical value.
pub struct SuggestionView {
    pub rule_id: Seq<char>,
    pub message: Seq<char>,
    pub replacements: Seq<Seq<char>>,
    pub start: usize,
    pub end: usize,
}

impl View for Suggestion {
    type V = SuggestionView;

    open spec fn view(&self) -> SuggestionView {
        SuggestionView {
            rule_id: self.rule_id@,
            message: self.message@,
            replacements: strings_view(self.replacements@),
            start: self.start,
            end: self.end,
        }
    }
}

/// The views of a sequence of suggestions.
pub open spec fn suggestions_view(suggestions: Seq<Suggestion>) -> Seq<SuggestionView> {
    suggestions.map_values(|s: Suggestion| s@)
}

/// The views of the suggestion lists of a sequence of segments.
pub open spec fn results_view(results: Seq<Vec<Suggestion>>) -> Seq<Seq<SuggestionView>> {
    results.map_values(|r: Vec<Suggestion>| suggestions_view(r@))
}

/// A finding placed in its document: like a suggestion, with `start` and
/// `end` as byte offsets into the document's text.
#[derive(Clone, Debug, PartialEq, Eq)]
pub struct Finding {
    pub rule_id: String,
    pub message: String,
    pub replacements: Vec<String>,
    pub start: usize,
    pub end: usize,
}

/// How grave a diagnostic is.
#[derive(Clone, Copy, Debug, PartialEq, Eq, Structural)]
pub enum Severity {
    Error,
    Warning,
    Information,
    Hint,
}

/// What the editor is told about one finding. `data` carries the
/// replacement list, which comes back with a request for fixes.
#[derive(Clone, Debug, PartialEq)]
pub struct Diagnostic {
    pub range: TextRange,
    pub severity: Severity,
    pub rule_id: String,
    pub message: String,
    pub data: Option<Value>,
}

/// One edit of a change notification: new text for a range of the document,
/// or for the whole document when there is no range.
#[derive(Clone, Debug, PartialEq, Eq)]
pub struct Change {
    pub range: Option<TextRange>,
    pub text: String,
}

/// A copy of a list of strings.
pub fn copy_strings(strings: &Vec<String>) -> (copy: Vec<String>)
    ensures
        copy@ == strings@,
{
    let mut copy: Vec<String> = Vec::new();
    let mut i: usize = 0;
    while i < strings.len()
        invariant
            i <= strings.len(),
            copy@ == strings@.take(i as int),
        decreases strings.len() - i,
    {
        copy.push(strings[i].clone());
        assert(strings@.take(i + 1) == strings@.take(i as int).push(strings@[i as int]));
        i += 1;
    }
    copy
}

/// A copy of a suggestion.
pub fn copy_suggestion(suggestion: &Suggestion) -> (copy: Suggestion)
    ensures
        copy@ == suggestion@,
{
    Suggestion {
        rule_id: suggestion.rule_id.clone(),
        message: suggestion.message.clone(),
        replacements: copy_strings(&suggestion.replacements),
        start: suggestion.start,
        end: suggestion.end,
    }
}

/// A copy of a list of suggestions.
pub fn copy_suggestions(suggestions: &Vec<Suggestion>) -> (copy: Vec<Suggestion>)
    ensures
        suggestions_view(copy@) == suggestions_view(suggestions@),
{
    let mut copy: Vec<Suggestion> = Vec::new();
    let mut i: usize = 0;
    while i < suggestions.len()
        invariant
            i <= suggestions.len(),
            copy@.len() == i,
            forall|k: int| 0 <= k < i ==> copy@[k]@ == suggestions@[k]@,
        decreases suggestions.len() - i,
    {
        copy.push(copy_suggestion(&suggestions[i]));
        i += 1;
    }
    assert(suggestions_view(copy@) =~= suggestions_view(suggestions@));
    copy
}

} // verus!
