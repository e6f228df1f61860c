use crate::common::SessionInfo;
use crate::entry::{entries_sorted, sort_entries, Entry};
use crate::model::{current, Model};
use crate::msg::Msg;
use crate::path::FsPath;
use crate::session::SessionView;
use vstd::prelude::*;

verus! {

/// A copy or a move of entries into a destination directory.
#[derive(Debug)]
pub enum FSOperation {
    Copy { items: Vec<Entry>, destination: FsPath },
    Move { items: Vec<Entry>, destination: FsPath },
}

/// Work for the outside world, asked for by the update function.
#[derive(Debug)]
pub enum Cmd {
    RunFSOperation(FSOperation),
    /// List a directory for a session; the flag tells whether the session
    /// navigated there.
    ReadDir((SessionInfo, bool)),
}

/// Whether `c` asks to list `path` for slot `index`.
pub open spec fn is_read_dir(c: Cmd, index: int, path: Seq<Seq<char>>, navigated_to: bool) -> bool {
    c matches Cmd::ReadDir((info, nav)) && info.index == index && info.path@ == path && nav
        == navigated_to
}

/// The message that a finished directory listing turns into: on success the
/// entries in listing order, on failure the error's description.
pub fn listing_message(
    session_info: SessionInfo,
    navigated_to: bool,
    result: Result<Vec<Entry>, String>,
) -> (r: Msg)
    ensures
        match result {
            Ok(entries) => r matches Msg::DirectoryRead { session_info: si, entries: sorted, navigated_to: nav }
                && si == session_info && nav == navigated_to && entries_sorted(sorted@)
                && sorted@.to_multiset() == entries@.to_multiset(),
            Err(e) => r matches Msg::ReadingDirFailed(text) && text@ == e@,
        },
{
    match result {
        Ok(entries) => Msg::DirectoryRead {
            session_info,
            entries: sort_entries(entries),
            navigated_to,
        },
        Err(e) => Msg::ReadingDirFailed(e),
    }
}

/// The commands to run once at startup: list the current session's directory.
pub fn initial_commands(model: &Model) -> (r: Vec<Cmd>)
    requires
        model.wf(),
    ensures
        match current(*model) {
            SessionView::Initialized { path, .. } => r@.len() == 1 && is_read_dir(
                r@[0],
                model.current_session_index as int,
                path,
                false,
            ),
            SessionView::Uninitialized => r@.len() == 0,
        },
{
    let mut r: Vec<Cmd> = Vec::new();
    match model.current_session_path() {
        Some(path) => {
            r.push(Cmd::ReadDir((SessionInfo { index: model.current_session_index, path }, false)));
        },
        None => {},
    }
    r
}

} // verus!
