use lt_lsp::cache::Cache;
use lt_lsp::check::{CheckPass, Segment, Step};
use lt_lsp::diagnostic::{diagnostic_of, get_diagnostics, locate, Unplaced};
use lt_lsp::buffer::Buffer;
use lt_lsp::fix::{code_action, title_for, CodeAction};
use lt_lsp::language::{base_language, create_language_map};
use lt_lsp::model::{
    copy_strings, copy_suggestion, copy_suggestions, Diagnostic, Finding, Position, Severity,
    Suggestion, TextRange,
};
use serde_json::Value;

fn suggestion(rule: &str, replacements: &[&str], start: usize, end: usize) -> Suggestion {
    Suggestion {
        rule_id: rule.to_string(),
        message: format!("message of {}", rule),
        replacements: replacements.iter().map(|r| r.to_string()).collect(),
        start,
        end,
    }
}

fn finding(rule: &str, replacements: &[&str], start: usize, end: usize) -> Finding {
    Finding {
        rule_id: rule.to_string(),
        message: format!("message of {}", rule),
        replacements: replacements.iter().map(|r| r.to_string()).collect(),
        start,
        end,
    }
}

fn segment(text: &str, language: &str) -> Segment {
    Segment { text: text.to_string(), language: language.to_string() }
}

fn strings(values: &[&str]) -> Value {
    Value::Array(values.iter().map(|v| Value::String(v.to_string())).collect())
}

/// Runs a pass to its end, answering each request with one suggestion that
/// names the text, and counts the requests.
fn run(previous: Cache, segments: Vec<Segment>, calls: &mut Vec<(String, String)>) -> (Cache, Vec<Vec<Suggestion>>) {
    let languages = create_language_map(vec!["en-GB".to_string()]);
    let mut pass = CheckPass::begin(previous, segments);
    loop {
        match pass.advance(&languages) {
            Step::Analyze { language, text } => {
                let answer = vec![suggestion(&format!("RULE {} #{}", text, calls.len()), &["x"], 0, 1)];
                calls.push((language, text));
                assert!(pass.supply(answer));
            }
            Step::Done => break,
        }
    }
    let (cache, results) = pass.conclude();
    (cache, results.unwrap())
}

#[test]
fn copies_are_equal() {
    let s = suggestion("R", &["a", "b"], 1, 2);
    assert_eq!(copy_suggestion(&s), s);
    assert_eq!(copy_suggestions(&vec![s.clone(), s.clone()]), vec![s.clone(), s.clone()]);
    assert_eq!(copy_strings(&s.replacements), vec!["a".to_string(), "b".to_string()]);
    assert_eq!(copy_suggestions(&Vec::new()), Vec::new());
}

#[test]
fn cache_lookup_takes_the_entry_out() {
    let mut cache = Cache::new();
    assert_eq!(cache.get("text"), None);
    cache.insert("text".to_string(), vec![suggestion("R", &["a"], 0, 1)]);
    cache.insert("other".to_string(), vec![]);
    assert_eq!(cache.get("text"), Some(vec![suggestion("R", &["a"], 0, 1)]));
    assert_eq!(cache.get("text"), None);
    assert_eq!(cache.get("other"), Some(vec![]));
}

#[test]
fn cache_insert_replaces() {
    let mut cache = Cache::new();
    cache.insert("text".to_string(), vec![suggestion("R1", &[], 0, 1)]);
    cache.insert("text".to_string(), vec![suggestion("R2", &[], 0, 1)]);
    assert_eq!(cache.get("text"), Some(vec![suggestion("R2", &[], 0, 1)]));
}

#[test]
fn cache_matches_the_exact_text_only() {
    let mut cache = Cache::new();
    cache.insert("Text".to_string(), vec![]);
    assert_eq!(cache.get("text"), None);
    assert_eq!(cache.get("Text "), None);
    assert_eq!(cache.get("Text"), Some(vec![]));
}

#[test]
fn first_pass_asks_for_every_segment() {
    let mut calls = Vec::new();
    let (_, results) = run(Cache::new(), vec![segment("one", "en-US"), segment("two", "de-DE")], &mut calls);
    assert_eq!(
        calls,
        vec![("en-GB".to_string(), "one".to_string()), ("de-DE".to_string(), "two".to_string())]
    );
    assert_eq!(results.len(), 2);
    assert_eq!(results[0][0].rule_id, "RULE one #0");
    assert_eq!(results[1][0].rule_id, "RULE two #1");
}

#[test]
fn second_pass_over_the_same_text_asks_for_nothing() {
    let mut calls = Vec::new();
    let segments = vec![segment("one", "en"), segment("two", "en"), segment("three", "en")];
    let (cache, first) = run(Cache::new(), segments.clone(), &mut calls);
    assert_eq!(calls.len(), 3);
    let (_, second) = run(cache, segments, &mut calls);
    assert_eq!(calls.len(), 3);
    assert_eq!(second, first);
}

#[test]
fn changed_segment_is_analyzed_again() {
    let mut calls = Vec::new();
    let (cache, first) = run(Cache::new(), vec![segment("one", "en"), segment("two", "en")], &mut calls);
    let (_, second) = run(cache, vec![segment("one", "en"), segment("two!", "en")], &mut calls);
    assert_eq!(calls.len(), 3);
    assert_eq!(calls[2].1, "two!");
    assert_eq!(second[0], first[0]);
    assert_eq!(second[1][0].rule_id, "RULE two! #2");
}

#[test]
fn cache_does_not_grow_across_passes() {
    let mut calls = Vec::new();
    let (cache, _) = run(Cache::new(), vec![segment("one", "en"), segment("two", "en")], &mut calls);
    let (mut cache, _) = run(cache, vec![segment("two", "en")], &mut calls);
    assert_eq!(calls.len(), 2);
    assert_eq!(cache.get("one"), None);
    assert!(cache.get("two").is_some());
}

#[test]
fn repeated_text_is_reused_once() {
    let mut calls = Vec::new();
    let (cache, _) = run(Cache::new(), vec![segment("same", "en")], &mut calls);
    assert_eq!(calls.len(), 1);
    let (mut cache, results) = run(cache, vec![segment("same", "en"), segment("same", "en")], &mut calls);
    assert_eq!(calls.len(), 2);
    assert_eq!(results[0][0].rule_id, "RULE same #0");
    assert_eq!(results[1][0].rule_id, "RULE same #1");
    assert_eq!(cache.get("same").unwrap()[0].rule_id, "RULE same #1");
}

#[test]
fn pass_without_segments_is_done_at_once() {
    let mut previous = Cache::new();
    previous.insert("old".to_string(), vec![]);
    let mut pass = CheckPass::begin(previous, Vec::new());
    assert_eq!(pass.advance(&create_language_map(Vec::new())), Step::Done);
    let (mut cache, results) = pass.conclude();
    assert_eq!(results, Some(Vec::new()));
    assert_eq!(cache.get("old"), None);
}

#[test]
fn supply_is_refused_when_nothing_was_asked() {
    let mut pass = CheckPass::begin(Cache::new(), vec![segment("one", "en")]);
    assert!(!pass.supply(vec![]));
    let languages = create_language_map(Vec::new());
    assert_eq!(
        pass.advance(&languages),
        Step::Analyze { language: "en".to_string(), text: "one".to_string() }
    );
    assert_eq!(
        pass.advance(&languages),
        Step::Analyze { language: "en".to_string(), text: "one".to_string() }
    );
    assert!(pass.supply(vec![]));
    assert!(!pass.supply(vec![]));
    assert_eq!(pass.advance(&languages), Step::Done);
}

#[test]
fn pass_given_up_keeps_what_was_not_looked_up() {
    let mut previous = Cache::new();
    previous.insert("one".to_string(), vec![suggestion("A", &[], 0, 1)]);
    previous.insert("three".to_string(), vec![suggestion("C", &[], 0, 1)]);
    let mut pass = CheckPass::begin(previous, vec![segment("one", "en"), segment("two", "en"), segment("three", "en")]);
    let languages = create_language_map(Vec::new());
    assert_eq!(
        pass.advance(&languages),
        Step::Analyze { language: "en".to_string(), text: "two".to_string() }
    );
    let (mut cache, results) = pass.conclude();
    assert_eq!(results, None);
    assert_eq!(cache.get("one"), None);
    assert_eq!(cache.get("three"), Some(vec![suggestion("C", &[], 0, 1)]));
}

#[test]
fn base_language_strips_the_region() {
    assert_eq!(base_language("en-US"), "en");
    assert_eq!(base_language("de"), "de");
    assert_eq!(base_language("zh-Hant-TW"), "zh");
    assert_eq!(base_language(""), "");
    assert_eq!(base_language("-x"), "");
}

#[test]
fn language_map_prefers_the_configured_tag() {
    let map = create_language_map(vec!["en-GB".to_string(), "de-AT".to_string(), "fr".to_string()]);
    assert_eq!(map.resolve("en-US"), "en-GB");
    assert_eq!(map.resolve("en"), "en-GB");
    assert_eq!(map.resolve("de-DE"), "de-AT");
    assert_eq!(map.resolve("fr-CA"), "fr");
    assert_eq!(map.resolve("es-ES"), "es-ES");
}

#[test]
fn language_map_later_tag_replaces_earlier() {
    let map = create_language_map(vec!["en-GB".to_string(), "en-AU".to_string()]);
    assert_eq!(map.resolve("en-US"), "en-AU");
}

#[test]
fn diagnostic_has_position_and_payload() {
    let buffer = Buffer::new("Teh cät\nsät down.".to_string());
    let d = diagnostic_of(&buffer, &finding("R", &["sat", "set"], 9, 13)).unwrap();
    assert_eq!(
        d,
        Diagnostic {
            range: TextRange {
                start: Position { line: 1, character: 0 },
                end: Position { line: 1, character: 3 },
            },
            severity: Severity::Information,
            rule_id: "R".to_string(),
            message: "message of R".to_string(),
            data: Some(strings(&["sat", "set"])),
        }
    );
}

#[test]
fn diagnostic_of_unplaced_finding() {
    let buffer = Buffer::new("Teh cät".to_string());
    assert_eq!(diagnostic_of(&buffer, &finding("R", &[], 0, 6)), None);
    assert_eq!(diagnostic_of(&buffer, &finding("R", &[], 9, 10)), None);
}

#[test]
fn locate_keeps_the_order() {
    let buffer = Buffer::new("one two".to_string());
    let d = locate(&buffer, &vec![finding("B", &[], 4, 7), finding("A", &[], 0, 3)]).unwrap();
    assert_eq!(d.len(), 2);
    assert_eq!(d[0].rule_id, "B");
    assert_eq!(d[0].range.start, Position { line: 0, character: 4 });
    assert_eq!(d[1].rule_id, "A");
    assert_eq!(d[1].range.end, Position { line: 0, character: 3 });
}

#[test]
fn locate_names_the_first_unplaced() {
    let buffer = Buffer::new("one".to_string());
    let found = locate(&buffer, &vec![finding("A", &[], 0, 3), finding("B", &[], 2, 4), finding("C", &[], 5, 6)]);
    assert_eq!(found, Err(Unplaced { index: 1 }));
}

#[test]
fn get_diagnostics_of_a_text() {
    let d = get_diagnostics("a\nbc", &vec![finding("A", &["x"], 2, 4)]).unwrap();
    assert_eq!(d[0].range.start, Position { line: 1, character: 0 });
    assert_eq!(d[0].range.end, Position { line: 1, character: 2 });
    assert_eq!(get_diagnostics("a", &vec![finding("A", &[], 0, 2)]), Err(Unplaced { index: 0 }));
    assert_eq!(get_diagnostics("a", &Vec::new()), Ok(Vec::new()));
}

fn diagnostic_with(data: Option<Value>) -> Diagnostic {
    Diagnostic {
        range: TextRange {
            start: Position { line: 2, character: 1 },
            end: Position { line: 2, character: 4 },
        },
        severity: Severity::Information,
        rule_id: "R".to_string(),
        message: "m".to_string(),
        data,
    }
}

#[test]
fn fix_generation_for_two_replacements() {
    let d = diagnostic_with(Some(strings(&["foo", "bar"])));
    let actions = code_action("file:///a.typ", &vec![d.clone()]).unwrap();
    assert_eq!(
        actions,
        vec![
            CodeAction {
                title: "Replace with \"foo\"".to_string(),
                is_preferred: true,
                uri: "file:///a.typ".to_string(),
                range: d.range,
                new_text: "foo".to_string(),
            },
            CodeAction {
                title: "Replace with \"bar\"".to_string(),
                is_preferred: false,
                uri: "file:///a.typ".to_string(),
                range: d.range,
                new_text: "bar".to_string(),
            },
        ]
    );
}

#[test]
fn fix_generation_uses_the_last_diagnostic() {
    let first = diagnostic_with(Some(strings(&["foo"])));
    let mut last = diagnostic_with(Some(strings(&["bar"])));
    last.range.start.line = 7;
    let actions = code_action("u", &vec![first, last.clone()]).unwrap();
    assert_eq!(actions.len(), 1);
    assert_eq!(actions[0].new_text, "bar");
    assert_eq!(actions[0].range, last.range);
}

#[test]
fn fix_generation_without_candidates() {
    assert_eq!(code_action("u", &Vec::new()), None);
    assert_eq!(code_action("u", &vec![diagnostic_with(None)]), None);
    assert_eq!(code_action("u", &vec![diagnostic_with(Some(Value::String("foo".to_string())))]), None);
    assert_eq!(code_action("u", &vec![diagnostic_with(Some(Value::Array(vec![Value::Bool(true)])))]), None);
    assert_eq!(code_action("u", &vec![diagnostic_with(Some(Value::Null))]), None);
    assert_eq!(code_action("u", &vec![diagnostic_with(Some(strings(&[])))]), Some(Vec::new()));
}

#[test]
fn payload_of_a_diagnostic_comes_back_as_fixes() {
    let buffer = Buffer::new("Teh cat".to_string());
    let d = diagnostic_of(&buffer, &finding("R", &["The", "Ten"], 0, 3)).unwrap();
    let actions = code_action("u", &vec![d]).unwrap();
    assert_eq!(actions.len(), 2);
    assert_eq!(actions[0].new_text, "The");
    assert_eq!(actions[1].new_text, "Ten");
}

#[test]
fn title_quotes_the_replacement() {
    assert_eq!(title_for("The"), "Replace with \"The\"");
    assert_eq!(title_for(""), "Replace with \"\"");
}
