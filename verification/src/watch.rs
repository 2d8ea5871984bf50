//! Routing of file-system events: a whole-vault rescan, a single-file sync,
//! a single-file removal, or nothing. Events that the application caused
//! itself are recognised through [`SelfWriteSuppression`] and skipped.
//!
//! The caller observes the event, stats its first path, waits out the
//! debounce delay and performs the returned action.

use vstd::prelude::*;

use crate::suppression::{consume_delete, consume_write, SelfWriteSuppression};

verus! {

/// Debounce before a single-file action, in milliseconds.
pub const DEBOUNCE_FILE_MS: u64 = 300;

/// Debounce before a whole-vault rescan, in milliseconds.
pub const DEBOUNCE_RESCAN_MS: u64 = 1000;

/// The kind of a file-system event, as far as routing cares.
#[derive(Debug, Clone, Copy, PartialEq, Eq, Structural)]
pub enum WatchEventKind {
    Any,
    Access,
    Create,
    Modify,
    Remove,
    Other,
}

/// What to do about an event.
#[derive(Debug, Clone, PartialEq, Eq)]
pub enum WatchAction {
    SyncVault,
    SyncFile(String),
    RemoveFile(String),
    Ignore,
}

/// The action as plain values: 0 rescan, 1 sync file, 2 remove file,
/// 3 ignore, with the path where there is one.
pub open spec fn action_view(a: WatchAction) -> (int, Seq<char>) {
    match a {
        WatchAction::SyncVault => (0, Seq::empty()),
        WatchAction::SyncFile(p) => (1, p@),
        WatchAction::RemoveFile(p) => (2, p@),
        WatchAction::Ignore => (3, Seq::empty()),
    }
}

/// The event calls for a whole-vault rescan.
pub open spec fn is_rescan(kind: WatchEventKind, need_rescan: bool) -> bool {
    need_rescan || kind == WatchEventKind::Any || kind == WatchEventKind::Other
}

/// The single-file action for `path` unless the event was the application's own.
pub open spec fn file_action(code: int, hit: bool, path: Option<Seq<char>>) -> (int, Seq<char>) {
    if hit {
        (3, Seq::empty())
    } else {
        match path {
            Some(p) => (code, p),
            None => (3, Seq::empty()),
        }
    }
}

/// Routes one event. `first_path` is the event's first path, `stat` the
/// `(size, mtime_ns)` of that file where it could be read, `now_ns` the
/// monotonic time of arrival.
pub fn route_event(
    suppression: &mut SelfWriteSuppression,
    kind: WatchEventKind,
    need_rescan: bool,
    first_path: Option<&str>,
    stat: Option<(u64, i128)>,
    now_ns: u64,
) -> (r: WatchAction)
    ensures
        is_rescan(kind, need_rescan) ==> action_view(r) == (0int, Seq::<char>::empty())
            && final(suppression).writes_view() == old(suppression).writes_view()
            && final(suppression).deletes_view() == old(suppression).deletes_view(),
        !is_rescan(kind, need_rescan) && (kind == WatchEventKind::Create || kind
            == WatchEventKind::Modify) ==> {
            let (q, hit) = if first_path is Some && stat is Some {
                consume_write(
                    old(suppression).writes_view(),
                    first_path.unwrap()@,
                    stat.unwrap().0,
                    stat.unwrap().1,
                    now_ns,
                )
            } else {
                (old(suppression).writes_view(), false)
            };
            &&& final(suppression).writes_view() == q
            &&& final(suppression).deletes_view() == old(suppression).deletes_view()
            &&& action_view(r) == file_action(1, hit, opt_view(first_path))
        },
        !is_rescan(kind, need_rescan) && kind == WatchEventKind::Remove ==> {
            let (q, hit) = if first_path is Some {
                consume_delete(old(suppression).deletes_view(), first_path.unwrap()@, now_ns)
            } else {
                (old(suppression).deletes_view(), false)
            };
            &&& final(suppression).deletes_view() == q
            &&& final(suppression).writes_view() == old(suppression).writes_view()
            &&& action_view(r) == file_action(2, hit, opt_view(first_path))
        },
        !is_rescan(kind, need_rescan) && kind == WatchEventKind::Access ==> action_view(r) == (
        3int, Seq::<char>::empty())
            && final(suppression).writes_view() == old(suppression).writes_view()
            && final(suppression).deletes_view() == old(suppression).deletes_view(),
{
    if need_rescan || kind == WatchEventKind::Any || kind == WatchEventKind::Other {
        return WatchAction::SyncVault;
    }
    match kind {
        WatchEventKind::Create | WatchEventKind::Modify => {
            if suppression.check_and_consume_write(first_path, stat, now_ns) {
                return WatchAction::Ignore;
            }
            match first_path {
                Some(p) => WatchAction::SyncFile(p.to_string()),
                None => WatchAction::Ignore,
            }
        },
        WatchEventKind::Remove => {
            if suppression.check_and_consume_delete(first_path, now_ns) {
                return WatchAction::Ignore;
            }
            match first_path {
                Some(p) => WatchAction::RemoveFile(p.to_string()),
                None => WatchAction::Ignore,
            }
        },
        _ => WatchAction::Ignore,
    }
}

pub open spec fn opt_view(p: Option<&str>) -> Option<Seq<char>> {
    match p {
        Some(s) => Some(s@),
        None => None,
    }
}

} // verus!
