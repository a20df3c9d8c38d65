//! From findings at byte offsets to diagnostics at lines and columns.

use crate::model::{Diagnostic, Finding, Position, Severity, TextRange};
use crate::payload::{strings_to_value, strings_view, value_strings};
use crate::buffer::Buffer;
use crate::text::position_of;
use vstd::prelude::*;
use vstd::string::*;

verus! {

/// The position that the editor is told for a line and a column. Both are
/// cut to 32 bits, which is all that the editor's protocol carries.
pub open spec fn editor_position(line: nat, column: nat) -> Position {
    Position { line: line as usize as u32, character: column as usize as u32 }
}

/// The finding has a place in the text: both its ends have a line and a
/// column.
pub open spec fn placeable(t: Seq<u8>, finding: Finding) -> bool {
    position_of(t, finding.start as int) is Some && position_of(t, finding.end as int) is Some
}

/// The diagnostic says what the finding says, at the finding's place in the
/// text, and carries the finding's replacement list as its payload.
pub open spec fn describes(t: Seq<u8>, finding: Finding, diagnostic: Diagnostic) -> bool {
    let start = position_of(t, finding.start as int)->0;
    let end = position_of(t, finding.end as int)->0;
    &&& diagnostic.range.start == editor_position(start.0, start.1)
    &&& diagnostic.range.end == editor_position(end.0, end.1)
    &&& diagnostic.severity == Severity::Information
    &&& diagnostic.rule_id@ == finding.rule_id@
    &&& diagnostic.message@ == finding.message@
    &&& diagnostic.data matches Some(payload) && value_strings(payload) == Some(
        strings_view(finding.replacements@),
    )
}

/// The diagnostics are those of the findings, one for one and in order.
pub open spec fn all_described(
    t: Seq<u8>,
    findings: Seq<Finding>,
    diagnostics: Seq<Diagnostic>,
) -> bool {
    &&& diagnostics.len() == findings.len()
    &&& forall|i: int|
        #![trigger findings[i]]
        #![trigger diagnostics[i]]
        0 <= i < findings.len() ==> placeable(t, findings[i]) && describes(
            t,
            findings[i],
            diagnostics[i],
        )
}

/// Finding `index` is the first that has no place in the text.
pub open spec fn first_unplaced(t: Seq<u8>, findings: Seq<Finding>, index: int) -> bool {
    &&& 0 <= index < findings.len()
    &&& !placeable(t, findings[index])
    &&& forall|i: int| 0 <= i < index ==> placeable(t, #[trigger] findings[i])
}

/// The diagnostic for one finding, or none when an end of the finding is
/// past the end of the text or inside a character.
pub fn diagnostic_of(buffer: &Buffer, finding: &Finding) -> (diagnostic: Option<Diagnostic>)
    ensures
        diagnostic is Some <==> placeable(buffer.bytes(), *finding),
        diagnostic matches Some(d) ==> describes(buffer.bytes(), *finding, d),
{
    let start = match buffer.byte_to_position(finding.start) {
        Some(start) => start,
        None => {
            return None;
        },
    };
    let end = match buffer.byte_to_position(finding.end) {
        Some(end) => end,
        None => {
            return None;
        },
    };
    Some(
        Diagnostic {
            range: TextRange {
                start: Position {
                    line: #[verifier::truncate]
                    (start.0 as u32),
                    character: #[verifier::truncate]
                    (start.1 as u32),
                },
                end: Position {
                    line: #[verifier::truncate]
                    (end.0 as u32),
                    character: #[verifier::truncate]
                    (end.1 as u32),
                },
            },
            severity: Severity::Information,
            rule_id: finding.rule_id.clone(),
            message: finding.message.clone(),
            data: strings_to_value(&finding.replacements),
        },
    )
}

/// A finding that has no place in the text it was reported for.
#[derive(Clone, Copy, Debug, PartialEq, Eq, Structural)]
pub struct Unplaced {
    /// Which finding of the list it is.
    pub index: usize,
}

/// The diagnostics for the findings of a document, in the order of the
/// findings; or the first finding that has no place in the text.
pub fn locate(buffer: &Buffer, findings: &Vec<Finding>) -> (diagnostics: Result<
    Vec<Diagnostic>,
    Unplaced,
>)
    ensures
        match diagnostics {
            Ok(d) => all_described(buffer.bytes(), findings@, d@),
            Err(e) => first_unplaced(buffer.bytes(), findings@, e.index as int),
        },
{
    let mut diagnostics: Vec<Diagnostic> = Vec::new();
    let mut i: usize = 0;
    while i < findings.len()
        invariant
            i <= findings.len(),
            diagnostics@.len() == i,
            all_described(buffer.bytes(), findings@.take(i as int), diagnostics@),
        decreases findings.len() - i,
    {
        match diagnostic_of(buffer, &findings[i]) {
            Some(diagnostic) => {
                diagnostics.push(diagnostic);
            },
            None => {
                assert forall|k: int| 0 <= k < i implies placeable(
                    buffer.bytes(),
                    #[trigger] findings@[k],
                ) by {
                    assert(findings@.take(i as int)[k] == findings@[k]);
                }
                return Err(Unplaced { index: i });
            },
        }
        assert forall|k: int|
            #![trigger findings@.take(i + 1)[k]]
            #![trigger diagnostics@[k]]
            0 <= k < i + 1 implies (placeable(buffer.bytes(), findings@.take(i + 1)[k])
            && describes(buffer.bytes(), findings@.take(i + 1)[k], diagnostics@[k])) by {
            if k < i {
                assert(findings@.take(i as int)[k] == findings@[k]);
            }
        }
        i += 1;
    }
    assert(findings@.take(i as int) =~= findings@);
    Ok(diagnostics)
}

/// The diagnostics for the findings of a document with the given text.
pub fn get_diagnostics(text: &str, findings: &Vec<Finding>) -> (diagnostics: Result<
    Vec<Diagnostic>,
    Unplaced,
>)
    ensures
        match diagnostics {
            Ok(d) => all_described(text.spec_bytes(), findings@, d@),
            Err(e) => first_unplaced(text.spec_bytes(), findings@, e.index as int),
        },
{
    let buffer = Buffer::new(text.to_owned());
    locate(&buffer, findings)
}

} // verus!
