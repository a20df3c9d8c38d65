use lt_lsp::check::{Segment, Step};
use lt_lsp::document::{EditError, Refusal};
use lt_lsp::model::{Change, Diagnostic, Finding, Position, Severity, Suggestion, TextRange};
use lt_lsp::options::{settle_path, InitOptions};
use lt_lsp::protocol::{notification_kind, request_kind, same_text, NotificationKind, RequestKind};
use lt_lsp::schedule::CheckData;
use lt_lsp::state::{
    Action, CheckOutcome, ConfigError, ConfigUpdate, Disconnected, Dropped, Message, Notification,
    PlacingError, Publication, Received, Reply, Request, State, Wait,
};
use serde_json::Value;

const URL: &str = "file:///project/main.typ";
const PATH: &str = "/project/main.typ";

fn options(on_change: Option<u64>) -> InitOptions {
    InitOptions { main: Some(PATH.to_string()), on_change, ..InitOptions::default() }
}

fn session(on_change: Option<u64>) -> State {
    State::new(options(on_change)).unwrap()
}

fn open(text: &str) -> Notification {
    Notification::DidOpen { url: URL.to_string(), path: PATH.to_string(), text: text.to_string() }
}

fn save() -> Notification {
    Notification::DidSave { url: URL.to_string(), path: PATH.to_string() }
}

fn change(changes: Vec<Change>) -> Notification {
    Notification::DidChange { url: URL.to_string(), path: PATH.to_string(), changes }
}

fn insert(line: u32, character: u32, text: &str) -> Change {
    let at = Position { line, character };
    Change { range: Some(TextRange { start: at, end: at }), text: text.to_string() }
}

fn check(time: u128) -> CheckData {
    CheckData { check_time: time, url: URL.to_string(), path: PATH.to_string() }
}

fn strings(values: &[&str]) -> Value {
    Value::Array(values.iter().map(|v| Value::String(v.to_string())).collect())
}

#[test]
fn default_options() {
    let o = InitOptions::default();
    assert!(o.dictionary.is_empty());
    assert!(o.disabled_checks.is_empty());
    assert!(o.languages.is_empty());
    assert!(!o.bundled);
    assert_eq!(o.jar_location, None);
    assert_eq!(o.host, None);
    assert_eq!(o.port, None);
    assert_eq!(o.chunk_size, 1000);
    assert_eq!(o.on_change, None);
    assert_eq!(o.root, None);
    assert_eq!(o.main, None);
}

#[test]
fn make_absolute_joins_relative_paths() {
    let mut o = InitOptions {
        main: Some("main.typ".to_string()),
        root: Some("/elsewhere/root".to_string()),
        ..InitOptions::default()
    };
    o.make_absolute("/work/dir");
    assert_eq!(o.main, Some("/work/dir/main.typ".to_string()));
    assert_eq!(o.root, Some("/elsewhere/root".to_string()));
    let mut unset = InitOptions::default();
    unset.make_absolute("/work/dir");
    assert_eq!(unset, InitOptions::default());
}

#[test]
fn settle_path_picks() {
    assert_eq!(settle_path("/a".to_string(), true, "/cwd//a".to_string()), "/a");
    assert_eq!(settle_path("a".to_string(), false, "/cwd/a".to_string()), "/cwd/a");
}

#[test]
fn new_session_needs_a_main_file() {
    assert_eq!(State::new(InitOptions::default()).err(), Some(ConfigError::MissingMain));
    let state = State::new(InitOptions {
        main: Some(PATH.to_string()),
        root: Some("/project".to_string()),
        chunk_size: 500,
        on_change: Some(7),
        languages: vec!["en-GB".to_string()],
        ..InitOptions::default()
    })
    .unwrap();
    assert_eq!(state.main, PATH);
    assert_eq!(state.root, Some("/project".to_string()));
    assert_eq!(state.options.chunk_size, 500);
    assert_eq!(state.options.on_change, Some(7));
    assert_eq!(state.options.language_codes.resolve("en-US"), "en-GB");
    assert_eq!(state.check, None);
    assert_eq!(state.wait(), Wait::Forever);
    assert!(!state.documents.is_open(PATH));
}

#[test]
fn open_arms_a_check_for_now() {
    let mut state = session(None);
    assert_eq!(state.notification(open("text"), 40), Ok(Reply::UseShadow { path: PATH.to_string() }));
    assert_eq!(state.check, Some(check(40)));
    assert_eq!(state.wait(), Wait::Until(40));
    assert_eq!(state.documents.text(PATH), Some("text".to_string()));
}

#[test]
fn save_arms_a_check_for_now() {
    let mut state = session(Some(1000));
    assert_eq!(state.notification(save(), 55), Ok(Reply::Nothing));
    assert_eq!(state.check, Some(check(55)));
}

#[test]
fn change_without_rest_arms_nothing() {
    let mut state = session(None);
    state.file_open(URL.to_string(), PATH.to_string(), "ab".to_string(), 1);
    assert_eq!(state.next_action::<u8>(Received::Timeout, 1), Ok(Action::Check(check(1))));
    assert_eq!(state.notification(change(vec![insert(0, 2, "c")]), 9), Ok(Reply::UseShadow { path: PATH.to_string() }));
    assert_eq!(state.check, None);
    assert_eq!(state.wait(), Wait::Forever);
    assert_eq!(state.documents.text(PATH), Some("abc".to_string()));
}

#[test]
fn change_with_rest_arms_a_check_after_the_rest() {
    let mut state = session(Some(500));
    state.file_open(URL.to_string(), PATH.to_string(), "ab".to_string(), 1);
    assert_eq!(state.file_change(URL.to_string(), PATH.to_string(), &vec![insert(0, 0, "x")], 100), Ok(()));
    assert_eq!(state.check, Some(check(600)));
    assert_eq!(state.next_action::<u8>(Received::Timeout, 599), Ok(Action::Wait));
    assert_eq!(state.check, Some(check(600)));
    assert_eq!(state.next_action::<u8>(Received::Timeout, 600), Ok(Action::Check(check(600))));
    assert_eq!(state.check, None);
}

#[test]
fn later_change_puts_the_check_off() {
    let mut state = session(Some(500));
    state.file_open(URL.to_string(), PATH.to_string(), "ab".to_string(), 1);
    state.file_change(URL.to_string(), PATH.to_string(), &vec![insert(0, 0, "x")], 100).unwrap();
    state.file_change(URL.to_string(), PATH.to_string(), &vec![insert(0, 0, "y")], 400).unwrap();
    assert_eq!(state.check, Some(check(900)));
    assert_eq!(state.next_action::<u8>(Received::Timeout, 650), Ok(Action::Wait));
    assert_eq!(state.next_action::<u8>(Received::Timeout, 900), Ok(Action::Check(check(900))));
    assert_eq!(state.next_action::<u8>(Received::Timeout, 901), Ok(Action::Wait));
}

#[test]
fn check_time_holds_any_time_and_rest() {
    let mut state = session(Some(u64::MAX));
    state.file_open(URL.to_string(), PATH.to_string(), "ab".to_string(), 1);
    assert_eq!(
        state.notification(change(vec![insert(0, 0, "x")]), u64::MAX),
        Ok(Reply::UseShadow { path: PATH.to_string() })
    );
    assert_eq!(state.check, Some(check(2 * (u64::MAX as u128))));
    assert_eq!(state.wait(), Wait::Until(36893488147419103230));
    assert_eq!(state.next_action::<u8>(Received::Timeout, u64::MAX), Ok(Action::Wait));
    assert_eq!(state.check, Some(check(36893488147419103230)));
}

#[test]
fn whole_text_change_between_characters_with_a_common_last_byte() {
    let mut state = session(None);
    state.file_open(URL.to_string(), PATH.to_string(), "é".to_string(), 1);
    let whole = Change { range: None, text: "©".to_string() };
    assert_eq!(state.file_change(URL.to_string(), PATH.to_string(), &vec![whole], 2), Ok(()));
    assert_eq!(state.documents.text(PATH), Some("©".to_string()));
    let whole = Change { range: None, text: "₩".to_string() };
    assert_eq!(
        state.message(lt_lsp::state::Message::Notification(change(vec![whole])), 3),
        Ok(Reply::UseShadow { path: PATH.to_string() })
    );
    assert_eq!(state.documents.text(PATH), Some("₩".to_string()));
}

#[test]
fn arming_replaces_the_pending_check() {
    let mut state = session(Some(500));
    state.file_open(URL.to_string(), PATH.to_string(), "ab".to_string(), 1);
    state.file_open("file:///other.typ".to_string(), "/other.typ".to_string(), "cd".to_string(), 2);
    assert_eq!(
        state.check,
        Some(CheckData { check_time: 2, url: "file:///other.typ".to_string(), path: "/other.typ".to_string() })
    );
    state.file_change(URL.to_string(), PATH.to_string(), &vec![insert(0, 0, "x")], 3).unwrap();
    assert_eq!(state.check, Some(check(503)));
    state.file_save(URL.to_string(), PATH.to_string(), 4);
    assert_eq!(state.check, Some(check(4)));
}

#[test]
fn message_leaves_the_check_pending() {
    let mut state = session(None);
    state.file_save(URL.to_string(), PATH.to_string(), 10);
    assert_eq!(state.next_action(Received::Message(7u8), 99), Ok(Action::Message(7u8)));
    assert_eq!(state.check, Some(check(10)));
    assert_eq!(state.next_action::<u8>(Received::Disconnected, 99), Err(Disconnected));
    assert_eq!(state.check, Some(check(10)));
}

#[test]
fn close_drops_the_text_and_keeps_the_check() {
    let mut state = session(None);
    state.notification(open("text"), 5).unwrap();
    assert_eq!(
        state.notification(Notification::DidClose { path: PATH.to_string() }, 6),
        Ok(Reply::UseDisk { path: PATH.to_string() })
    );
    assert!(!state.documents.is_open(PATH));
    assert_eq!(state.check, Some(check(5)));
}

#[test]
fn change_errors_are_surfaced() {
    let mut state = session(Some(10));
    assert_eq!(state.notification(change(vec![insert(0, 0, "x")]), 1), Err(EditError::NotOpen));
    state.notification(open("ab"), 2).unwrap();
    assert_eq!(
        state.notification(change(vec![insert(0, 1, "x"), insert(5, 0, "y")]), 3),
        Err(EditError::Refused { index: 1, reason: Refusal::OutOfBounds })
    );
    assert_eq!(state.documents.text(PATH), Some("axb".to_string()));
    assert_eq!(state.check, Some(check(2)));
}

#[test]
fn notifications_that_ask_for_nothing() {
    let mut state = session(None);
    state.file_save(URL.to_string(), PATH.to_string(), 10);
    assert_eq!(state.notification(Notification::Cancel, 11), Ok(Reply::Nothing));
    assert_eq!(state.notification(Notification::SetTrace, 11), Ok(Reply::Nothing));
    assert_eq!(
        state.notification(Notification::Malformed, 11),
        Ok(Reply::Dropped { why: Dropped::Malformed })
    );
    assert_eq!(
        state.notification(Notification::Unknown, 11),
        Ok(Reply::Dropped { why: Dropped::UnknownNotification })
    );
    assert_eq!(state.check, Some(check(10)));
}

#[test]
fn messages_go_to_their_handler() {
    let mut state = session(None);
    assert_eq!(
        state.message(Message::Response, 1),
        Ok(Reply::Dropped { why: Dropped::UnexpectedResponse })
    );
    assert_eq!(
        state.message(Message::Request(Request::Unknown), 1),
        Ok(Reply::Dropped { why: Dropped::UnknownRequest })
    );
    assert_eq!(
        state.message(Message::Request(Request::Malformed), 1),
        Ok(Reply::Dropped { why: Dropped::Malformed })
    );
    assert_eq!(
        state.message(Message::Notification(open("t")), 2),
        Ok(Reply::UseShadow { path: PATH.to_string() })
    );
    assert_eq!(state.check, Some(check(2)));
    let request = Request::CodeAction { uri: URL.to_string(), diagnostics: Vec::new() };
    assert_eq!(state.message(Message::Request(request), 3), Ok(Reply::Respond { actions: None }));
}

#[test]
fn request_for_fixes_is_answered() {
    let state = session(None);
    let diagnostic = Diagnostic {
        range: TextRange {
            start: Position { line: 0, character: 0 },
            end: Position { line: 0, character: 3 },
        },
        severity: Severity::Information,
        rule_id: "R".to_string(),
        message: "m".to_string(),
        data: Some(strings(&["foo", "bar"])),
    };
    let reply = state.request(Request::CodeAction { uri: URL.to_string(), diagnostics: vec![diagnostic] });
    match reply {
        Reply::Respond { actions: Some(actions) } => {
            assert_eq!(actions.len(), 2);
            assert_eq!(actions[0].title, "Replace with \"foo\"");
            assert_eq!(actions[1].title, "Replace with \"bar\"");
            assert!(actions[0].is_preferred);
            assert!(!actions[1].is_preferred);
            assert_eq!(actions[0].uri, URL);
        }
        other => panic!("unexpected reply {:?}", other),
    }
}

#[test]
fn check_change_says_what_to_send() {
    let state = session(None);
    assert_eq!(
        state.check_change(check(1), CheckOutcome::CompileFailed),
        Some(Publication { url: URL.to_string(), diagnostics: Vec::new() })
    );
    assert_eq!(state.check_change(check(1), CheckOutcome::AnalyzerFailed), None);
    let diagnostic = Diagnostic {
        range: TextRange {
            start: Position { line: 0, character: 0 },
            end: Position { line: 0, character: 3 },
        },
        severity: Severity::Information,
        rule_id: "R".to_string(),
        message: "m".to_string(),
        data: None,
    };
    assert_eq!(
        state.check_change(check(1), CheckOutcome::Diagnostics(vec![diagnostic.clone()])),
        Some(Publication { url: URL.to_string(), diagnostics: vec![diagnostic] })
    );
}

#[test]
fn get_diagnostics_of_an_open_document() {
    let mut state = session(None);
    let finding = Finding {
        rule_id: "R".to_string(),
        message: "m".to_string(),
        replacements: vec![],
        start: 0,
        end: 2,
    };
    assert_eq!(state.get_diagnostics(PATH, &vec![finding.clone()]), Err(PlacingError::NotOpen));
    state.file_open(URL.to_string(), PATH.to_string(), "a".to_string(), 1);
    assert_eq!(
        state.get_diagnostics(PATH, &vec![finding.clone()]),
        Err(PlacingError::Unplaced { index: 0 })
    );
    state.file_change(URL.to_string(), PATH.to_string(), &vec![insert(0, 1, "b")], 2).unwrap();
    let d = state.get_diagnostics(PATH, &vec![finding]).unwrap();
    assert_eq!(d[0].range.end, Position { line: 0, character: 2 });
}

/// Runs one check of the open document as the server's loop does, with an
/// analyzer that finds "Teh" at the start of a segment and counts its calls.
fn run_check(state: &mut State, segments: Vec<Segment>, calls: &mut usize) -> Vec<Diagnostic> {
    let mut pass = state.begin_check(segments);
    loop {
        match state.advance(&mut pass) {
            Step::Analyze { language: _, text } => {
                *calls += 1;
                let found = if text.starts_with("Teh") {
                    vec![Suggestion {
                        rule_id: "TEH_CAT".to_string(),
                        message: "Did you mean The?".to_string(),
                        replacements: vec!["The".to_string()],
                        start: 0,
                        end: 3,
                    }]
                } else {
                    Vec::new()
                };
                assert!(pass.supply(found));
            }
            Step::Done => break,
        }
    }
    let results = state.end_check(pass).unwrap();
    let mut findings = Vec::new();
    for suggestions in results {
        for s in suggestions {
            findings.push(Finding {
                rule_id: s.rule_id,
                message: s.message,
                replacements: s.replacements,
                start: s.start,
                end: s.end,
            });
        }
    }
    state.get_diagnostics(PATH, &findings).unwrap()
}

#[test]
fn end_to_end_check_of_an_opened_document() {
    let mut state = session(None);
    state.notification(open("Teh cat sat."), 100).unwrap();
    assert_eq!(state.wait(), Wait::Until(100));
    let data = match state.next_action::<Message>(Received::Timeout, 100) {
        Ok(Action::Check(data)) => data,
        other => panic!("unexpected action {:?}", other),
    };
    assert_eq!(data.path, PATH);
    let mut calls = 0;
    let segments = vec![Segment { text: "Teh cat sat.".to_string(), language: "en-US".to_string() }];
    let diagnostics = run_check(&mut state, segments.clone(), &mut calls);
    assert_eq!(calls, 1);
    assert_eq!(diagnostics.len(), 1);
    assert_eq!(diagnostics[0].range.start, Position { line: 0, character: 0 });
    assert_eq!(diagnostics[0].range.end, Position { line: 0, character: 3 });
    assert_eq!(diagnostics[0].rule_id, "TEH_CAT");
    assert_eq!(diagnostics[0].severity, Severity::Information);
    assert_eq!(diagnostics[0].data, Some(strings(&["The"])));
    let sent = state.check_change(data, CheckOutcome::Diagnostics(diagnostics.clone())).unwrap();
    assert_eq!(sent.url, URL);
    assert_eq!(sent.diagnostics, diagnostics);

    let again = run_check(&mut state, segments, &mut calls);
    assert_eq!(calls, 1);
    assert_eq!(again, diagnostics);
}

#[test]
fn reconfiguration_with_another_main_file_empties_the_cache() {
    let mut state = session(None);
    state.notification(open("Teh cat sat."), 1).unwrap();
    let mut calls = 0;
    let segments = vec![Segment { text: "Teh cat sat.".to_string(), language: "en-US".to_string() }];
    run_check(&mut state, segments.clone(), &mut calls);
    assert_eq!(calls, 1);

    let update = InitOptions {
        main: Some("/project/other.typ".to_string()),
        root: Some("/project".to_string()),
        on_change: Some(5),
        chunk_size: 200,
        ..InitOptions::default()
    };
    assert_eq!(
        state.notification(Notification::DidChangeConfiguration(ConfigUpdate::Options(update)), 2),
        Ok(Reply::UpdateProject {
            main: "/project/other.typ".to_string(),
            root: Some("/project".to_string())
        })
    );
    assert_eq!(state.main, "/project/other.typ");
    assert_eq!(state.root, Some("/project".to_string()));
    assert_eq!(state.options.on_change, Some(5));
    assert_eq!(state.options.chunk_size, 200);
    assert!(state.documents.is_open(PATH));

    run_check(&mut state, segments, &mut calls);
    assert_eq!(calls, 2);
}

#[test]
fn reconfiguration_with_the_same_main_file_keeps_the_cache() {
    let mut state = session(None);
    state.notification(open("Teh cat sat."), 1).unwrap();
    let mut calls = 0;
    let segments = vec![Segment { text: "Teh cat sat.".to_string(), language: "en-US".to_string() }];
    run_check(&mut state, segments.clone(), &mut calls);
    assert_eq!(state.config_change(ConfigUpdate::Options(options(Some(3)))), Reply::UpdateProject {
        main: PATH.to_string(),
        root: None,
    });
    run_check(&mut state, segments.clone(), &mut calls);
    assert_eq!(calls, 1);
    let no_main = InitOptions { chunk_size: 9, ..InitOptions::default() };
    assert_eq!(state.config_change(ConfigUpdate::Options(no_main)), Reply::Nothing);
    assert_eq!(state.main, PATH);
    assert_eq!(state.options.chunk_size, 9);
    assert_eq!(state.options.on_change, None);
    run_check(&mut state, segments, &mut calls);
    assert_eq!(calls, 1);
}

#[test]
fn configuration_that_cannot_be_used_is_dropped() {
    let mut state = session(Some(8));
    assert_eq!(
        state.config_change(ConfigUpdate::Malformed),
        Reply::Dropped { why: Dropped::BadConfiguration }
    );
    assert_eq!(
        state.config_change(ConfigUpdate::NoBackend),
        Reply::Dropped { why: Dropped::NoBackend }
    );
    assert_eq!(state.main, PATH);
    assert_eq!(state.options.on_change, Some(8));
}

#[test]
fn check_given_up_publishes_nothing() {
    let mut state = session(None);
    state.notification(open("one"), 1).unwrap();
    let mut pass = state.begin_check(vec![Segment { text: "one".to_string(), language: "en".to_string() }]);
    assert_eq!(
        state.advance(&mut pass),
        Step::Analyze { language: "en".to_string(), text: "one".to_string() }
    );
    assert_eq!(state.end_check(pass), None);
    assert_eq!(state.check_change(check(1), CheckOutcome::AnalyzerFailed), None);
}

#[test]
fn methods_are_told_apart() {
    assert_eq!(notification_kind("textDocument/didChange"), NotificationKind::DidChange);
    assert_eq!(notification_kind("textDocument/didSave"), NotificationKind::DidSave);
    assert_eq!(notification_kind("textDocument/didOpen"), NotificationKind::DidOpen);
    assert_eq!(notification_kind("textDocument/didClose"), NotificationKind::DidClose);
    assert_eq!(
        notification_kind("workspace/didChangeConfiguration"),
        NotificationKind::DidChangeConfiguration
    );
    assert_eq!(notification_kind("$/cancelRequest"), NotificationKind::Cancel);
    assert_eq!(notification_kind("$/setTrace"), NotificationKind::SetTrace);
    assert_eq!(notification_kind("textDocument/willSave"), NotificationKind::Unknown);
    assert_eq!(notification_kind(""), NotificationKind::Unknown);
    assert_eq!(request_kind("textDocument/codeAction"), RequestKind::CodeAction);
    assert_eq!(request_kind("textDocument/hover"), RequestKind::Unknown);
    assert!(same_text("a", "a"));
    assert!(!same_text("a", "A"));
}
