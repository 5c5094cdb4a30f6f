//! The indexer: what it makes of the files it finds and of the file system
//! events it watches.
pub mod db;
pub mod metadata;
pub mod spotify;

use vstd::prelude::*;

verus! {

/// The kinds of file system events that the watcher reports.
#[derive(Debug, Clone, Copy, PartialEq, Eq, Structural)]
pub enum WatchEventKind {
    Any,
    Access,
    Create,
    Modify,
    Remove,
    Other,
}

/// What the indexer does about a file system event.
#[derive(Debug, Clone, Copy, PartialEq, Eq, Structural)]
pub enum WatchAction {
    /// Scan the event's first path as a new file.
    ScanFile,
    /// Report that the event's first path was removed.
    ReportRemoved,
    /// Nothing.
    Ignore,
}

/// What the indexer does about an event of the given kind: a created file is
/// scanned, a removed one is reported, and nothing else is acted upon.
pub open spec fn action_for(kind: WatchEventKind) -> WatchAction {
    match kind {
        WatchEventKind::Create => WatchAction::ScanFile,
        WatchEventKind::Remove => WatchAction::ReportRemoved,
        _ => WatchAction::Ignore,
    }
}

/// Created files are scanned, removed files are reported, and every other
/// kind of event is let be.
pub proof fn law_watch_actions(kind: WatchEventKind)
    ensures
        kind == WatchEventKind::Create <==> action_for(kind) == WatchAction::ScanFile,
        kind == WatchEventKind::Remove <==> action_for(kind) == WatchAction::ReportRemoved,
        kind != WatchEventKind::Create && kind != WatchEventKind::Remove <==> action_for(kind)
            == WatchAction::Ignore,
{
}

/// What the indexer does about an event of the given kind.
pub fn event_action(kind: WatchEventKind) -> (r: WatchAction)
    ensures
        r == action_for(kind),
{
    match kind {
        WatchEventKind::Create => WatchAction::ScanFile,
        WatchEventKind::Remove => WatchAction::ReportRemoved,
        _ => WatchAction::Ignore,
    }
}

/// The report of a removed file.
pub fn removed_message(path: &str) -> (r: String)
    ensures
        r@ == "removed "@ + path@,
{
    let mut message = String::from_str("removed ");
    message.append(path);
    message
}

/// The report of a library path that is a file rather than a folder.
pub fn not_a_folder_message(path: &str) -> (r: String)
    ensures
        r@ == "critical error !!!!!\nthe path "@ + path@ + " is not a folder."@,
{
    let mut message = String::from_str("critical error !!!!!\nthe path ");
    message.append(path);
    message.append(" is not a folder.");
    message
}

} // verus!
