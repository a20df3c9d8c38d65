//! The session: the open documents, the configuration, the cache of the
//! last check pass and the pending check, owned by one value that every
//! handler works on.
//!
//! The handlers decide; they do not wait, read or send. Whoever runs the
//! server waits for the next message as `wait` says, hands what came to
//! `next_action`, and carries out the reply of a handler: it tells the
//! compiler which text to read, and sends what is to be sent.

use crate::cache::Cache;
use crate::check::{
    is_hit, rebuilt, segment_languages, segment_texts, settled_from_cache, unconsumed, CheckPass,
    Segment, Step,
};
use crate::diagnostic::{all_described, first_unplaced, locate};
use crate::document::{change_outcome, Documents, EditError};
use crate::fix::{code_action, is_fix, offered, CodeAction};
use crate::language::{create_language_map, language_table, resolved_language};
use crate::model::{results_view, Change, Diagnostic, Finding, Suggestion, SuggestionView};
use crate::options::{InitOptions, Options};
use crate::payload::strings_view;
use crate::schedule::{after_event, due, pending, CheckData, Event, Pending, Trigger};
use vstd::prelude::*;
use vstd::utf8::*;

verus! {

/// The session of one editor.
pub struct State {
    pub documents: Documents,
    pub cache: Cache,
    pub check: Option<CheckData>,
    pub options: Options,
    pub main: String,
    pub root: Option<String>,
}

/// Why a configuration cannot be used.
#[derive(Clone, Copy, Debug, PartialEq, Eq, Structural)]
pub enum ConfigError {
    /// It names no main file.
    MissingMain,
}

/// How long to wait for the next message.
#[derive(Clone, Copy, Debug, PartialEq, Eq, Structural)]
pub enum Wait {
    /// Until one comes.
    Forever,
    /// Until one comes or the clock shows this time, whichever is first.
    Until(u128),
}

/// How a wait ended.
#[derive(Clone, Debug, PartialEq, Eq)]
pub enum Received<M> {
    Message(M),
    Timeout,
    Disconnected,
}

/// What to do next.
#[derive(Clone, Debug, PartialEq, Eq)]
pub enum Action<M> {
    /// Handle this message.
    Message(M),
    /// Run this check.
    Check(CheckData),
    /// Wait again: the wait ended early.
    Wait,
}

/// The editor has hung up.
#[derive(Clone, Copy, Debug, PartialEq, Eq, Structural)]
pub struct Disconnected;

/// A request of the editor, decoded.
#[derive(Clone, Debug, PartialEq)]
pub enum Request {
    /// Fixes are asked for the diagnostics named, in the document `uri`.
    CodeAction { uri: String, diagnostics: Vec<Diagnostic> },
    /// A request that is known, with parameters that cannot be read.
    Malformed,
    /// A request that is not known.
    Unknown,
}

/// A new configuration, as far as it could be made.
#[derive(Clone, Debug, PartialEq, Eq)]
pub enum ConfigUpdate {
    /// The options, with the analyzer for them ready.
    Options(InitOptions),
    /// The options cannot be read.
    Malformed,
    /// No analyzer could be made for the options.
    NoBackend,
}

/// A notification of the editor, decoded.
#[derive(Clone, Debug, PartialEq, Eq)]
pub enum Notification {
    DidChange { url: String, path: String, changes: Vec<Change> },
    DidSave { url: String, path: String },
    DidOpen { url: String, path: String, text: String },
    DidClose { path: String },
    DidChangeConfiguration(ConfigUpdate),
    Cancel,
    SetTrace,
    /// A notification that is known, with parameters that cannot be read.
    Malformed,
    /// A notification that is not known.
    Unknown,
}

/// A message of the editor, decoded.
#[derive(Clone, Debug, PartialEq)]
pub enum Message {
    Request(Request),
    Response,
    Notification(Notification),
}

/// Why a message had no effect.
#[derive(Clone, Copy, Debug, PartialEq, Eq, Structural)]
pub enum Dropped {
    Malformed,
    UnknownRequest,
    UnknownNotification,
    UnexpectedResponse,
    BadConfiguration,
    NoBackend,
}

/// What is to be done for a message, outside the session.
#[derive(Clone, Debug, PartialEq, Eq)]
pub enum Reply {
    /// Nothing.
    Nothing,
    /// The compiler is to read the text of the open document `path` from
    /// the session, not from disk.
    UseShadow { path: String },
    /// The compiler is to read the document `path` from disk again.
    UseDisk { path: String },
    /// The compiler is to work on another project.
    UpdateProject { main: String, root: Option<String> },
    /// These fixes are to be sent in answer.
    Respond { actions: Option<Vec<CodeAction>> },
    /// The message is to be logged and forgotten.
    Dropped { why: Dropped },
}

/// How a check ended.
#[derive(Clone, Debug, PartialEq)]
pub enum CheckOutcome {
    /// The document did not compile.
    CompileFailed,
    /// The analyzer failed on a segment.
    AnalyzerFailed,
    /// The check went through, with these diagnostics.
    Diagnostics(Vec<Diagnostic>),
}

/// The diagnostics to send for a document.
#[derive(Clone, Debug, PartialEq)]
pub struct Publication {
    pub url: String,
    pub diagnostics: Vec<Diagnostic>,
}

/// Why the findings of an open document cannot be placed.
#[derive(Clone, Copy, Debug, PartialEq, Eq, Structural)]
pub enum PlacingError {
    /// The document is not open.
    NotOpen,
    /// Finding `index` has no place in the document's text.
    Unplaced { index: usize },
}

/// What a notification that came at time `now` makes of the session
/// `before`, and what is to be done for it.
pub open spec fn notified(
    before: State,
    notification: Notification,
    now: u64,
    after: State,
    reply: Result<Reply, EditError>,
) -> bool {
    match notification {
        Notification::DidChange { url, path, changes } => {
            &&& after.same_setup(&before)
            &&& change_outcome(
                before.documents@,
                after.documents@,
                path@,
                changes@,
                match reply {
                    Ok(_) => Ok(()),
                    Err(e) => Err(e),
                },
            )
            &&& reply matches Ok(r) ==> r == (Reply::UseShadow { path }) && pending(
                after.check,
            ) == after_event(
                pending(before.check),
                before.options.on_change,
                Event { trigger: Trigger::Change, time: now as int, url: url@, path: path@ },
            )
            &&& reply is Err ==> after.check == before.check
        },
        Notification::DidSave { url, path } => {
            &&& reply == Ok::<Reply, EditError>(Reply::Nothing)
            &&& after.same_but_check(&before)
            &&& pending(after.check) == after_event(
                pending(before.check),
                before.options.on_change,
                Event { trigger: Trigger::Save, time: now as int, url: url@, path: path@ },
            )
        },
        Notification::DidOpen { url, path, text } => {
            &&& reply == Ok::<Reply, EditError>(Reply::UseShadow { path })
            &&& after.same_setup(&before)
            &&& after.documents@ == before.documents@.insert(
                path@,
                encode_utf8(text@),
            )
            &&& pending(after.check) == after_event(
                pending(before.check),
                before.options.on_change,
                Event { trigger: Trigger::Open, time: now as int, url: url@, path: path@ },
            )
        },
        Notification::DidClose { path } => {
            &&& reply == Ok::<Reply, EditError>(Reply::UseDisk { path })
            &&& after.same_setup(&before)
            &&& after.check == before.check
            &&& after.documents@ == before.documents@.remove(path@)
        },
        Notification::DidChangeConfiguration(update) => {
            &&& reply is Ok
            &&& after.documents == before.documents
            &&& after.check == before.check
            &&& update is Malformed ==> after.same(&before) && reply->Ok_0 == (
            Reply::Dropped { why: Dropped::BadConfiguration })
            &&& update is NoBackend ==> after.same(&before) && reply->Ok_0 == (
            Reply::Dropped { why: Dropped::NoBackend })
            &&& update matches ConfigUpdate::Options(options) ==> {
                &&& after.options.chunk_size == options.chunk_size
                &&& after.options.on_change == options.on_change
                &&& after.options.language_codes@ == language_table(
                    strings_view(options.languages@),
                )
                &&& options.main matches Some(main) ==> {
                    &&& after.main == main
                    &&& after.root == options.root
                    &&& reply->Ok_0 == (Reply::UpdateProject { main, root: options.root })
                    &&& main@ == before.main@ ==> after.cache@ == before.cache@
                    &&& main@ != before.main@ ==> after.cache@ == Map::<
                        Seq<char>,
                        Seq<SuggestionView>,
                    >::empty()
                }
                &&& options.main is None ==> {
                    &&& after.main == before.main
                    &&& after.root == before.root
                    &&& after.cache@ == before.cache@
                    &&& reply->Ok_0 == Reply::Nothing
                }
            }
        },
        Notification::Cancel | Notification::SetTrace => {
            &&& reply == Ok::<Reply, EditError>(Reply::Nothing)
            &&& after.same(&before)
        },
        Notification::Malformed => {
            &&& reply == Ok::<Reply, EditError>(Reply::Dropped { why: Dropped::Malformed })
            &&& after.same(&before)
        },
        Notification::Unknown => {
            &&& reply == Ok::<Reply, EditError>(
                Reply::Dropped { why: Dropped::UnknownNotification },
            )
            &&& after.same(&before)
        },
    }
}

/// The reply answers the request: a request for fixes with the fixes of
/// the fix generator, any other with nothing.
pub open spec fn answered(request: Request, reply: Reply) -> bool {
    match request {
        Request::CodeAction { uri, diagnostics } => {
            &&& reply matches Reply::Respond { actions }
            &&& actions is Some <==> offered(diagnostics@) is Some
            &&& actions matches Some(a) ==> {
                let replacements = offered(diagnostics@)->0;
                &&& a@.len() == replacements.len()
                &&& forall|i: int|
                    0 <= i < a@.len() ==> is_fix(
                        #[trigger] a@[i],
                        uri@,
                        diagnostics@.last().range,
                        replacements,
                        i,
                    )
            }
        },
        Request::Malformed => reply == (Reply::Dropped { why: Dropped::Malformed }),
        Request::Unknown => reply == (Reply::Dropped { why: Dropped::UnknownRequest }),
    }
}

impl State {
    /// The two sessions differ in the pending check at most.
    pub open spec fn same_but_check(&self, other: &State) -> bool {
        &&& self.documents@ == other.documents@
        &&& self.cache@ == other.cache@
        &&& self.options == other.options
        &&& self.main == other.main
        &&& self.root == other.root
    }

    /// The two sessions differ in the open documents and the pending check
    /// at most.
    pub open spec fn same_setup(&self, other: &State) -> bool {
        &&& self.cache@ == other.cache@
        &&& self.options == other.options
        &&& self.main == other.main
        &&& self.root == other.root
    }

    /// The two sessions are the same.
    pub open spec fn same(&self, other: &State) -> bool {
        self.same_but_check(other) && self.check == other.check
    }

    /// A session for the given options: no document open, nothing cached,
    /// no check pending. Options without a main file are refused.
    pub fn new(options: InitOptions) -> (state: Result<Self, ConfigError>)
        ensures
            state is Ok <==> options.main is Some,
            state matches Ok(s) ==> {
                &&& s.documents@ == Map::<Seq<char>, Seq<u8>>::empty()
                &&& s.cache@ == Map::<Seq<char>, Seq<SuggestionView>>::empty()
                &&& s.check is None
                &&& s.options.chunk_size == options.chunk_size
                &&& s.options.on_change == options.on_change
                &&& s.options.language_codes@ == language_table(strings_view(options.languages@))
                &&& Some(s.main) == options.main
                &&& s.root == options.root
            },
            state matches Err(e) ==> e == ConfigError::MissingMain,
    {
        let main = match options.main {
            Some(main) => main,
            None => {
                return Err(ConfigError::MissingMain);
            },
        };
        Ok(
            Self {
                documents: Documents::new(),
                cache: Cache::new(),
                check: None,
                options: Options {
                    chunk_size: options.chunk_size,
                    on_change: options.on_change,
                    language_codes: create_language_map(options.languages),
                },
                main,
                root: options.root,
            },
        )
    }

    /// How long to wait for the next message: until the pending check is
    /// due, or without end where none is pending.
    pub fn wait(&self) -> (wait: Wait)
        ensures
            wait == match self.check {
                Some(data) => Wait::Until(data.check_time),
                None => Wait::Forever,
            },
    {
        match &self.check {
            Some(data) => Wait::Until(data.check_time),
            None => Wait::Forever,
        }
    }

    /// What to do after a wait that ended at time `now`. A message is to be
    /// handled, and what is pending stays pending. When the time ran out and
    /// the pending check is due, that check is to be run and is pending no
    /// longer. When the time ran out early, or nothing is pending, the wait
    /// goes on. When the editor has hung up, that is the error.
    pub fn next_action<M>(&mut self, received: Received<M>, now: u64) -> (action: Result<
        Action<M>,
        Disconnected,
    >)
        ensures
            final(self).same_but_check(old(self)),
            match received {
                Received::Message(m) => action == Ok::<Action<M>, Disconnected>(Action::Message(m))
                    && final(self).check == old(self).check,
                Received::Timeout => if due(pending(old(self).check), now as int) {
                    action == Ok::<Action<M>, Disconnected>(Action::Check(old(self).check->0))
                        && final(self).check is None
                } else {
                    action == Ok::<Action<M>, Disconnected>(Action::Wait) && final(self).check
                        == old(self).check
                },
                Received::Disconnected => action is Err && final(self).check == old(self).check,
            },
    {
        match received {
            Received::Message(message) => Ok(Action::Message(message)),
            Received::Timeout => {
                let is_due = match &self.check {
                    Some(data) => data.check_time <= now as u128,
                    None => false,
                };
                if is_due {
                    match self.check.take() {
                        Some(data) => Ok(Action::Check(data)),
                        None => Ok(Action::Wait),
                    }
                } else {
                    Ok(Action::Wait)
                }
            },
            Received::Disconnected => Err(Disconnected),
        }
    }

    /// A document was saved: it is to be checked at once.
    pub fn file_save(&mut self, url: String, path: String, now: u64)
        ensures
            final(self).same_but_check(old(self)),
            pending(final(self).check) == after_event(
                pending(old(self).check),
                old(self).options.on_change,
                Event { trigger: Trigger::Save, time: now as int, url: url@, path: path@ },
            ),
    {
        self.check = Some(CheckData { check_time: now as u128, url, path });
    }

    /// A document was opened: the session holds its text from now on, and
    /// it is to be checked at once.
    pub fn file_open(&mut self, url: String, path: String, text: String, now: u64)
        ensures
            final(self).same_setup(old(self)),
            final(self).documents@ == old(self).documents@.insert(path@, encode_utf8(text@)),
            pending(final(self).check) == after_event(
                pending(old(self).check),
                old(self).options.on_change,
                Event { trigger: Trigger::Open, time: now as int, url: url@, path: path@ },
            ),
    {
        self.documents.open(path.clone(), text);
        self.check = Some(CheckData { check_time: now as u128, url, path });
    }

    /// A document was closed: the session holds its text no longer. What is
    /// pending stays pending.
    pub fn file_close(&mut self, path: &str)
        ensures
            final(self).same_setup(old(self)),
            final(self).check == old(self).check,
            final(self).documents@ == old(self).documents@.remove(path@),
    {
        self.documents.close(path);
    }

    /// A document was changed: its edits are applied, in order, to the text
    /// that the session holds. Where a rest is configured, the document is
    /// to be checked after that rest, in place of any check that was
    /// pending. When an edit is refused, or the document is not open, that
    /// is the error, and what is pending stays as it is.
    pub fn file_change(&mut self, url: String, path: String, changes: &Vec<Change>, now: u64) -> (done:
        Result<(), EditError>)
        ensures
            final(self).same_setup(old(self)),
            change_outcome(old(self).documents@, final(self).documents@, path@, changes@, done),
            done is Ok ==> pending(final(self).check) == after_event(
                pending(old(self).check),
                old(self).options.on_change,
                Event { trigger: Trigger::Change, time: now as int, url: url@, path: path@ },
            ),
            done is Err ==> final(self).check == old(self).check,
    {
        match self.documents.change(path.as_str(), changes) {
            Ok(_) => {},
            Err(e) => {
                return Err(e);
            },
        }
        match self.options.on_change {
            Some(rest) => {
                self.check = Some(CheckData { check_time: now as u128 + rest as u128, url, path });
            },
            None => {},
        }
        Ok(())
    }

    /// The configuration changed. Options that cannot be read, or that no
    /// analyzer could be made for, are dropped, and the session stays as it
    /// is. Else the options take the place of those in use. Where they name
    /// a main file, the compiler is to work on that project, and where that
    /// main file is another than before, the cache of the last check pass
    /// is emptied: nothing found in one project is reused in another.
    pub fn config_change(&mut self, update: ConfigUpdate) -> (reply: Reply)
        ensures
            final(self).documents == old(self).documents,
            final(self).check == old(self).check,
            match update {
                ConfigUpdate::Malformed => final(self).same(old(self)) && reply == (Reply::Dropped {
                    why: Dropped::BadConfiguration,
                }),
                ConfigUpdate::NoBackend => final(self).same(old(self)) && reply == (Reply::Dropped {
                    why: Dropped::NoBackend,
                }),
                ConfigUpdate::Options(options) => {
                    &&& final(self).options.chunk_size == options.chunk_size
                    &&& final(self).options.on_change == options.on_change
                    &&& final(self).options.language_codes@ == language_table(
                        strings_view(options.languages@),
                    )
                    &&& match options.main {
                        Some(main) => {
                            &&& final(self).main == main
                            &&& final(self).root == options.root
                            &&& reply == (Reply::UpdateProject { main, root: options.root })
                            &&& final(self).cache@ == if main@ == old(self).main@ {
                                old(self).cache@
                            } else {
                                Map::<Seq<char>, Seq<SuggestionView>>::empty()
                            }
                        },
                        None => {
                            &&& final(self).main == old(self).main
                            &&& final(self).root == old(self).root
                            &&& final(self).cache@ == old(self).cache@
                            &&& reply == Reply::Nothing
                        },
                    }
                },
            },
    {
        let options = match update {
            ConfigUpdate::Options(options) => options,
            ConfigUpdate::Malformed => {
                return Reply::Dropped { why: Dropped::BadConfiguration };
            },
            ConfigUpdate::NoBackend => {
                return Reply::Dropped { why: Dropped::NoBackend };
            },
        };
        self.options = Options {
            chunk_size: options.chunk_size,
            on_change: options.on_change,
            language_codes: create_language_map(options.languages),
        };
        match options.main {
            Some(main) => {
                if main != self.main {
                    self.cache = Cache::new();
                }
                self.main = main.clone();
                self.root = options.root.clone();
                Reply::UpdateProject { main, root: options.root }
            },
            None => Reply::Nothing,
        }
    }

    /// The fixes asked for by a request, as `code_action` of the fix
    /// generator gives them. The session stays as it is.
    pub fn code_action(&self, uri: &str, diagnostics: &Vec<Diagnostic>) -> (actions: Option<
        Vec<CodeAction>,
    >)
        ensures
            actions is Some <==> offered(diagnostics@) is Some,
            actions matches Some(a) ==> {
                let replacements = offered(diagnostics@)->0;
                &&& a@.len() == replacements.len()
                &&& forall|i: int|
                    0 <= i < a@.len() ==> is_fix(
                        #[trigger] a@[i],
                        uri@,
                        diagnostics@.last().range,
                        replacements,
                        i,
                    )
            },
    {
        code_action(uri, diagnostics)
    }

    /// Handles a request: a request for fixes is answered with the fixes;
    /// one that cannot be read or is not known is dropped.
    pub fn request(&self, request: Request) -> (reply: Reply)
        ensures
            answered(request, reply),
    {
        match request {
            Request::CodeAction { uri, diagnostics } => Reply::Respond {
                actions: self.code_action(uri.as_str(), &diagnostics),
            },
            Request::Malformed => Reply::Dropped { why: Dropped::Malformed },
            Request::Unknown => Reply::Dropped { why: Dropped::UnknownRequest },
        }
    }

    /// Handles a notification that came at time `now`, as the handler for
    /// its kind does. A notification that asks for nothing, cannot be read
    /// or is not known leaves the session as it is.
    pub fn notification(&mut self, notification: Notification, now: u64) -> (reply: Result<
        Reply,
        EditError,
    >)
        ensures
            notified(*old(self), notification, now, *final(self), reply),
    {
        match notification {
            Notification::DidChange { url, path, changes } => {
                match self.file_change(url, path.clone(), &changes, now) {
                    Ok(_) => Ok(Reply::UseShadow { path }),
                    Err(e) => Err(e),
                }
            },
            Notification::DidSave { url, path } => {
                self.file_save(url, path, now);
                Ok(Reply::Nothing)
            },
            Notification::DidOpen { url, path, text } => {
                self.file_open(url, path.clone(), text, now);
                Ok(Reply::UseShadow { path })
            },
            Notification::DidClose { path } => {
                self.file_close(path.as_str());
                Ok(Reply::UseDisk { path })
            },
            Notification::DidChangeConfiguration(update) => Ok(self.config_change(update)),
            Notification::Cancel => Ok(Reply::Nothing),
            Notification::SetTrace => Ok(Reply::Nothing),
            Notification::Malformed => Ok(Reply::Dropped { why: Dropped::Malformed }),
            Notification::Unknown => Ok(Reply::Dropped { why: Dropped::UnknownNotification }),
        }
    }

    /// Begins a check pass over the segments of a document. The pass takes
    /// the cache of the pass before with it; the session's cache is empty
    /// until the pass ends.
    pub fn begin_check(&mut self, segments: Vec<Segment>) -> (pass: CheckPass)
        ensures
            final(self).documents == old(self).documents,
            final(self).check == old(self).check,
            final(self).options == old(self).options,
            final(self).main == old(self).main,
            final(self).root == old(self).root,
            final(self).cache@ == Map::<Seq<char>, Seq<SuggestionView>>::empty(),
            pass.texts() == segment_texts(segments@),
            pass.languages() == segment_languages(segments@),
            pass.initial() == old(self).cache@,
            pass.results() == Seq::<Seq<SuggestionView>>::empty(),
            !pass.awaiting(),
    {
        let mut previous = Cache::new();
        std::mem::swap(&mut self.cache, &mut previous);
        CheckPass::begin(previous, segments)
    }

    /// Takes a pass as far as it goes without the analyzer, with the
    /// languages that are configured.
    pub fn advance(&self, pass: &mut CheckPass) -> (step: Step)
        ensures
            final(pass).texts() == old(pass).texts(),
            final(pass).languages() == old(pass).languages(),
            final(pass).initial() == old(pass).initial(),
            old(pass).results().len() <= final(pass).results().len() <= final(pass).texts().len(),
            final(pass).results().take(old(pass).results().len() as int) == old(pass).results(),
            settled_from_cache(
                final(pass).initial(),
                final(pass).texts(),
                final(pass).results(),
                old(pass).results().len() as int,
            ),
            old(pass).awaiting() ==> final(pass).results() == old(pass).results(),
            match step {
                Step::Analyze { language, text } => {
                    let k = final(pass).results().len() as int;
                    &&& final(pass).awaiting()
                    &&& k < final(pass).texts().len()
                    &&& !is_hit(final(pass).initial(), final(pass).texts(), k)
                    &&& text@ == final(pass).texts()[k]
                    &&& language@ == resolved_language(
                        self.options.language_codes@,
                        final(pass).languages()[k],
                    )
                },
                Step::Done => final(pass).complete() && !final(pass).awaiting(),
            },
    {
        pass.advance(&self.options.language_codes)
    }

    /// Ends a check pass. After a complete pass the session's cache is the
    /// one that the pass built, which holds the texts of that pass and no
    /// others, and the suggestions of every segment are handed out. After a
    /// pass that was given up the session's cache is what the pass left of
    /// the cache before, and nothing is handed out.
    pub fn end_check(&mut self, pass: CheckPass) -> (results: Option<Vec<Vec<Suggestion>>>)
        ensures
            final(self).documents == old(self).documents,
            final(self).check == old(self).check,
            final(self).options == old(self).options,
            final(self).main == old(self).main,
            final(self).root == old(self).root,
            results is Some <==> pass.complete(),
            results matches Some(r) ==> results_view(r@) == pass.results(),
            pass.complete() ==> final(self).cache@ == rebuilt(
                pass.texts(),
                pass.results(),
                pass.texts().len() as int,
            ),
            !pass.complete() ==> final(self).cache@ == unconsumed(
                pass.initial(),
                pass.texts(),
                pass.results().len() as int,
            ),
    {
        let (cache, results) = pass.conclude();
        self.cache = cache;
        results
    }

    /// The diagnostics for the findings of an open document, placed in the
    /// text that the session holds for it.
    pub fn get_diagnostics(&self, path: &str, findings: &Vec<Finding>) -> (diagnostics: Result<
        Vec<Diagnostic>,
        PlacingError,
    >)
        ensures
            match diagnostics {
                Ok(d) => self.documents@.contains_key(path@) && all_described(
                    self.documents@[path@],
                    findings@,
                    d@,
                ),
                Err(PlacingError::NotOpen) => !self.documents@.contains_key(path@),
                Err(PlacingError::Unplaced { index }) => self.documents@.contains_key(path@)
                    && first_unplaced(self.documents@[path@], findings@, index as int),
            },
    {
        let buffer = match self.documents.buffer(path) {
            Some(buffer) => buffer,
            None => {
                return Err(PlacingError::NotOpen);
            },
        };
        match locate(buffer, findings) {
            Ok(diagnostics) => Ok(diagnostics),
            Err(e) => Err(PlacingError::Unplaced { index: e.index }),
        }
    }

    /// What to send after a check: the diagnostics of a check that went
    /// through; none at all, so that the editor shows none, for a document
    /// that did not compile; and nothing when the analyzer failed.
    pub fn check_change(&self, data: CheckData, outcome: CheckOutcome) -> (publication: Option<
        Publication,
    >)
        ensures
            match outcome {
                CheckOutcome::CompileFailed => publication matches Some(p) && p.url == data.url
                    && p.diagnostics@.len() == 0,
                CheckOutcome::AnalyzerFailed => publication is None,
                CheckOutcome::Diagnostics(d) => publication == Some(
                    Publication { url: data.url, diagnostics: d },
                ),
            },
    {
        match outcome {
            CheckOutcome::CompileFailed => Some(
                Publication { url: data.url, diagnostics: Vec::new() },
            ),
            CheckOutcome::AnalyzerFailed => None,
            CheckOutcome::Diagnostics(diagnostics) => Some(
                Publication { url: data.url, diagnostics },
            ),
        }
    }

    /// Handles a message that came at time `now`: a request or a
    /// notification as its handler does; a response, which the session
    /// never asked for, is dropped. Only a notification changes the
    /// session.
    pub fn message(&mut self, incoming: Message, now: u64) -> (reply: Result<Reply, EditError>)
        ensures
            match incoming {
                Message::Request(request) => final(self).same(old(self)) && reply is Ok
                    && answered(request, reply->Ok_0),
                Message::Response => final(self).same(old(self)) && reply == Ok::<
                    Reply,
                    EditError,
                >(Reply::Dropped { why: Dropped::UnexpectedResponse }),
                Message::Notification(notification) => notified(
                    *old(self),
                    notification,
                    now,
                    *final(self),
                    reply,
                ),
            },
    {
        match incoming {
            Message::Request(request) => Ok(self.request(request)),
            Message::Response => Ok(Reply::Dropped { why: Dropped::UnexpectedResponse }),
            Message::Notification(notification) => self.notification(notification, now),
        }
    }
}

} // verus!
