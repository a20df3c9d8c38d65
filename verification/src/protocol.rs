//! Which of the editor's messages the server knows, by the name of their
//! method.

use vstd::prelude::*;
use vstd::string::*;

verus! {

/// The notifications that the server knows.
#[derive(Clone, Copy, Debug, PartialEq, Eq, Structural)]
pub enum NotificationKind {
    DidChange,
    DidSave,
    DidOpen,
    DidClose,
    DidChangeConfiguration,
    Cancel,
    SetTrace,
    Unknown,
}

/// The requests that the server knows.
#[derive(Clone, Copy, Debug, PartialEq, Eq, Structural)]
pub enum RequestKind {
    CodeAction,
    Unknown,
}

/// The kind of the notification with the given method.
pub open spec fn notification_kind_of(method: Seq<char>) -> NotificationKind {
    if method == "textDocument/didChange"@ {
        NotificationKind::DidChange
    } else if method == "textDocument/didSave"@ {
        NotificationKind::DidSave
    } else if method == "textDocument/didOpen"@ {
        NotificationKind::DidOpen
    } else if method == "textDocument/didClose"@ {
        NotificationKind::DidClose
    } else if method == "workspace/didChangeConfiguration"@ {
        NotificationKind::DidChangeConfiguration
    } else if method == "$/cancelRequest"@ {
        NotificationKind::Cancel
    } else if method == "$/setTrace"@ {
        NotificationKind::SetTrace
    } else {
        NotificationKind::Unknown
    }
}

/// The kind of the request with the given method.
pub open spec fn request_kind_of(method: Seq<char>) -> RequestKind {
    if method == "textDocument/codeAction"@ {
        RequestKind::CodeAction
    } else {
        RequestKind::Unknown
    }
}

/// Whether two texts are the same.
pub fn same_text(a: &str, b: &str) -> (same: bool)
    ensures
        same == (a@ == b@),
{
    a.to_owned() == b.to_owned()
}

/// The kind of the notification with the given method.
pub fn notification_kind(method: &str) -> (kind: NotificationKind)
    ensures
        kind == notification_kind_of(method@),
{
    if same_text(method, "textDocument/didChange") {
        NotificationKind::DidChange
    } else if same_text(method, "textDocument/didSave") {
        NotificationKind::DidSave
    } else if same_text(method, "textDocument/didOpen") {
        NotificationKind::DidOpen
    } else if same_text(method, "textDocument/didClose") {
        NotificationKind::DidClose
    } else if same_text(method, "workspace/didChangeConfiguration") {
        NotificationKind::DidChangeConfiguration
    } else if same_text(method, "$/cancelRequest") {
        NotificationKind::Cancel
    } else if same_text(method, "$/setTrace") {
        NotificationKind::SetTrace
    } else {
        NotificationKind::Unknown
    }
}

/// The kind of the request with the given method.
pub fn request_kind(method: &str) -> (kind: RequestKind)
    ensures
        kind == request_kind_of(method@),
{
    if same_text(method, "textDocument/codeAction") {
        RequestKind::CodeAction
    } else {
        RequestKind::Unknown
    }
}

} // verus!
