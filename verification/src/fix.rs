//! The fixes that the editor can offer for a diagnostic: one for each
//! replacement that the diagnostic carries.

use crate::model::{Diagnostic, TextRange};
use crate::payload::{strings_view, value_strings, value_to_strings};
use vstd::prelude::*;
use vstd::string::*;

verus! {

/// A fix on offer: put `new_text` in place of `range` in the document
/// `uri`.
#[derive(Clone, Debug, PartialEq, Eq)]
pub struct CodeAction {
    pub title: String,
    pub is_preferred: bool,
    pub uri: String,
    pub range: TextRange,
    pub new_text: String,
}

/// The title of the fix that puts in `replacement`.
pub open spec fn fix_title(replacement: Seq<char>) -> Seq<char> {
    "Replace with \""@ + replacement + "\""@
}

/// The replacement list that a list of diagnostics asks fixes for: that of
/// its last diagnostic, if it has a payload that is a list of strings.
pub open spec fn offered(diagnostics: Seq<Diagnostic>) -> Option<Seq<Seq<char>>> {
    if diagnostics.len() == 0 {
        None
    } else {
        match diagnostics.last().data {
            Some(payload) => value_strings(payload),
            None => None,
        }
    }
}

/// The action is fix number `i` for the document and range given.
pub open spec fn is_fix(
    action: CodeAction,
    uri: Seq<char>,
    range: TextRange,
    replacements: Seq<Seq<char>>,
    i: int,
) -> bool {
    &&& action.title@ == fix_title(replacements[i])
    &&& action.is_preferred == (i == 0)
    &&& action.uri@ == uri
    &&& action.range == range
    &&& action.new_text@ == replacements[i]
}

/// The title of the fix that puts in `replacement`.
pub fn title_for(replacement: &str) -> (title: String)
    ensures
        title@ == fix_title(replacement@),
{
    let mut title = String::from_str("Replace with \"");
    title.append(replacement);
    title.append("\"");
    title
}

/// The fixes for the last of the diagnostics that a request names: one for
/// each replacement in its payload, in order, the first marked as the
/// preferred one. No fixes are on offer, which is no error, when the
/// request names no diagnostic or the last one has no payload or one that
/// is no list of strings.
pub fn code_action(uri: &str, diagnostics: &Vec<Diagnostic>) -> (actions: Option<Vec<CodeAction>>)
    ensures
        actions is Some <==> offered(diagnostics@) is Some,
        actions matches Some(a) ==> {
            let replacements = offered(diagnostics@)->0;
            &&& a@.len() == replacements.len()
            &&& forall|i: int|
                0 <= i < a@.len() ==> is_fix(
                    #[trigger] a@[i],
                    uri@,
                    diagnostics@.last().range,
                    replacements,
                    i,
                )
        },
{
    if diagnostics.len() == 0 {
        return None;
    }
    let diagnostic = &diagnostics[diagnostics.len() - 1];
    let replacements = match &diagnostic.data {
        Some(payload) => match value_to_strings(payload) {
            Some(replacements) => replacements,
            None => {
                return None;
            },
        },
        None => {
            return None;
        },
    };
    let ghost wanted = strings_view(replacements@);
    let mut actions: Vec<CodeAction> = Vec::new();
    let mut i: usize = 0;
    while i < replacements.len()
        invariant
            i <= replacements.len(),
            wanted == strings_view(replacements@),
            actions@.len() == i,
            forall|k: int|
                0 <= k < i ==> is_fix(#[trigger] actions@[k], uri@, diagnostic.range, wanted, k),
        decreases replacements.len() - i,
    {
        actions.push(
            CodeAction {
                title: title_for(replacements[i].as_str()),
                is_preferred: i == 0,
                uri: uri.to_owned(),
                range: diagnostic.range,
                new_text: replacements[i].clone(),
            },
        );
        i += 1;
    }
    Some(actions)
}

} // verus!
