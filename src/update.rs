use crate::cmd::{is_read_dir, Cmd, FSOperation};
use crate::common::{too_small, Pane, SessionInfo, MIN_TERMINAL_HEIGHT, MIN_TERMINAL_WIDTH};
use crate::entry::Entry;
use crate::model::{
    aged, current, directory_under_cursor, entries_post, go_back_post, go_to_session_post,
    next_session_post, only_current_became, parent_of_listing, previous_session_post, same_frame,
    same_settings, stepped, toggle_post, unique_path_infos, views, Model, Step,
};
use crate::msg::Msg;
use crate::session::{
    fresh_msg, synced, user_msg_view, MessageKind, RunningState, UserMsg, UserMsgView,
};
use vstd::prelude::*;

verus! {

/// The values of a sequence of entries.
pub open spec fn entry_views(s: Seq<Entry>) -> Seq<crate::entry::EntryView> {
    s.map_values(|e: Entry| e@)
}

/// Nothing changed but, possibly, the status message.
pub open spec fn unchanged(a: Model, b: Model) -> bool {
    &&& views(b) == views(a)
    &&& b.current_session_index == a.current_session_index
    &&& b.marked_paths@ == a.marked_paths@
    &&& b.last_selections@ == a.last_selections@
    &&& same_settings(a, b)
}

/// The cursor moved by `step` in the explorer pane; nothing happened in help.
pub open spec fn selection_post(a: Model, b: Model, step: Step) -> bool {
    only_current_became(
        a,
        b,
        if a.active_pane == Pane::Explorer {
            stepped(current(a), step)
        } else {
            current(a)
        },
    )
}

/// What a message does to the model, apart from the status message.
pub open spec fn applied(a: Model, msg: Msg, b: Model) -> bool {
    match msg {
        Msg::SelectNext => selection_post(a, b, Step::Next),
        Msg::SelectPrevious => selection_post(a, b, Step::Previous),
        Msg::SelectFirst => selection_post(a, b, Step::First),
        Msg::SelectLast => selection_post(a, b, Step::Last),
        Msg::MarkPath => toggle_post(a, b),
        Msg::GoToNextSession => next_session_post(a, b),
        Msg::GoToPreviousSession => previous_session_post(a, b),
        Msg::GoToSession(index) => go_to_session_post(a, b, index),
        Msg::GoBackOrQuit => go_back_post(a, b),
        Msg::GoToPane(pane) => {
            &&& b.active_pane == pane
            &&& b.last_active_pane == Some(a.active_pane)
            &&& views(b) == views(a)
            &&& b.current_session_index == a.current_session_index
            &&& b.marked_paths@ == a.marked_paths@
            &&& b.last_selections@ == a.last_selections@
            &&& b.running_state == a.running_state
            &&& same_frame(a, b)
        },
        Msg::QuitImmediately => {
            &&& b.running_state == RunningState::Done
            &&& views(b) == views(a)
            &&& b.current_session_index == a.current_session_index
            &&& b.marked_paths@ == a.marked_paths@
            &&& b.last_selections@ == a.last_selections@
            &&& b.active_pane == a.active_pane
            &&& b.last_active_pane == a.last_active_pane
            &&& same_frame(a, b)
        },
        Msg::TerminalResize(w, h) => {
            &&& b.terminal_dimensions.width == w
            &&& b.terminal_dimensions.height == h
            &&& b.terminal_too_small == too_small(w, h)
            &&& views(b) == views(a)
            &&& b.current_session_index == a.current_session_index
            &&& b.marked_paths@ == a.marked_paths@
            &&& b.last_selections@ == a.last_selections@
            &&& b.active_pane == a.active_pane
            &&& b.last_active_pane == a.last_active_pane
            &&& b.running_state == a.running_state
            &&& b.render_counter == a.render_counter
            &&& b.event_counter == a.event_counter
            &&& b.debug == a.debug
            &&& b.help_scroll == a.help_scroll
        },
        Msg::FSOperationFinished(_) => {
            &&& b.marked_paths@.len() == 0
            &&& views(b) == views(a).update(
                a.current_session_index as int,
                synced(current(a), Set::empty()),
            )
            &&& b.current_session_index == a.current_session_index
            &&& b.last_selections@ == a.last_selections@
            &&& same_settings(a, b)
        },
        Msg::DirectoryRead { session_info, entries, navigated_to } => entries_post(
            a,
            b,
            session_info.index,
            session_info.path@,
            entries@,
            navigated_to,
        ),
        _ => unchanged(a, b),
    }
}

/// The copy or move of the marked entries into the current directory.
pub open spec fn is_transfer(c: Cmd, a: Model, copy: bool) -> bool {
    match c {
        Cmd::RunFSOperation(op) => match op {
            FSOperation::Copy { items, destination } => copy && entry_views(items@) == entry_views(
                a.marked_paths@,
            ) && destination@ == current(a)->path,
            FSOperation::Move { items, destination } => !copy && entry_views(items@)
                == entry_views(a.marked_paths@) && destination@ == current(a)->path,
        },
        _ => false,
    }
}

/// The commands that a message asks for.
pub open spec fn commands_for(a: Model, msg: Msg, cmds: Seq<Cmd>) -> bool {
    let cur = a.current_session_index as int;
    match msg {
        Msg::CopyMarkedItems => if a.marked_paths@.len() > 0 && current(a) is Initialized {
            cmds.len() == 1 && is_transfer(cmds[0], a, true)
        } else {
            cmds.len() == 0
        },
        Msg::MoveMarkedItems => if a.marked_paths@.len() > 0 && current(a) is Initialized {
            cmds.len() == 1 && is_transfer(cmds[0], a, false)
        } else {
            cmds.len() == 0
        },
        Msg::NavigateIntoDir => match directory_under_cursor(current(a)) {
            Some(d) => cmds.len() == 1 && is_read_dir(cmds[0], cur, d, true),
            None => cmds.len() == 0,
        },
        Msg::NavigateOutOfDir => match parent_of_listing(current(a)) {
            Some(p) => cmds.len() == 1 && is_read_dir(cmds[0], cur, p, true),
            None => cmds.len() == 0,
        },
        Msg::FSOperationFinished(_) => exists|infos: Seq<SessionInfo>|
            {
                &&& unique_path_infos(views(a), infos)
                &&& cmds.len() == infos.len()
                &&& forall|k: int|
                    0 <= k < cmds.len() ==> is_read_dir(
                        #[trigger] cmds[k],
                        infos[k].index as int,
                        infos[k].path@,
                        false,
                    )
            },
        _ => cmds.len() == 0,
    }
}

/// The status message after a message was handled, before it ages.
pub open spec fn message_after(a: Model, msg: Msg) -> Option<UserMsgView> {
    match msg {
        Msg::NavigateOutOfDir => if parent_of_listing(current(a)) is None {
            Some(fresh_msg("no parent found"@, MessageKind::Error))
        } else {
            user_msg_view(a.user_msg)
        },
        Msg::FSOperationFinished(res) => match res {
            Err(e) => Some(fresh_msg(e@, MessageKind::Error)),
            Ok(_) => user_msg_view(a.user_msg),
        },
        Msg::ReadingDirFailed(e) => Some(
            fresh_msg("reading directory failed: "@ + e@, MessageKind::Error),
        ),
        _ => user_msg_view(a.user_msg),
    }
}

/// The copy or move of the marked entries into the current directory, if
/// anything is marked.
fn transfer(model: &Model, copy: bool) -> (r: Vec<Cmd>)
    requires
        model.wf(),
    ensures
        if model.marked_paths@.len() > 0 && current(*model) is Initialized {
            r@.len() == 1 && is_transfer(r@[0], *model, copy)
        } else {
            r@.len() == 0
        },
{
    let mut cmds: Vec<Cmd> = Vec::new();
    if model.marked_paths.len() > 0 {
        match model.get_session_path() {
            Some(dir) => {
                let mut items: Vec<Entry> = Vec::new();
                let mut i: usize = 0;
                while i < model.marked_paths.len()
                    invariant
                        i <= model.marked_paths@.len(),
                        entry_views(items@) == entry_views(model.marked_paths@).take(i as int),
                    decreases model.marked_paths.len() - i,
                {
                    let e = model.marked_paths[i].clone();
                    let ghost before = items@;
                    items.push(e);
                    proof {
                        assert(entry_views(items@) =~= entry_views(before).push(e@));
                        assert(entry_views(model.marked_paths@).take(i + 1) =~= entry_views(
                            model.marked_paths@,
                        ).take(i as int).push(e@));
                    }
                    i = i + 1;
                }
                assert(entry_views(model.marked_paths@).take(i as int) =~= entry_views(
                    model.marked_paths@,
                ));
                let op = if copy {
                    FSOperation::Copy { items, destination: dir.path }
                } else {
                    FSOperation::Move { items, destination: dir.path }
                };
                cmds.push(Cmd::RunFSOperation(op));
            },
            None => {},
        }
    }
    cmds
}

/// Handles one message: changes the model, ages the status message, and
/// returns the work to start.
pub fn update(model: &mut Model, msg: Msg) -> (cmds: Vec<Cmd>)
    requires
        old(model).wf(),
    ensures
        final(model).wf(),
        applied(*old(model), msg, *final(model)),
        commands_for(*old(model), msg, cmds@),
        user_msg_view(final(model).user_msg) == aged(message_after(*old(model), msg)),
{
    let ghost a = *model;
    let mut cmds: Vec<Cmd> = Vec::new();
    match msg {
        Msg::CopyMarkedItems => {
            cmds = transfer(model, true);
        },
        Msg::MoveMarkedItems => {
            cmds = transfer(model, false);
        },
        Msg::GoBackOrQuit => model.go_back_or_quit(),
        Msg::GoToNextSession => model.go_to_next_session(),
        Msg::GoToPane(pane) => {
            model.last_active_pane = Some(model.active_pane);
            model.active_pane = pane;
        },
        Msg::GoToPreviousSession => model.go_to_previous_session(),
        Msg::GoToSession(index) => model.go_to_session(index),
        Msg::NavigateIntoDir => {
            match model.get_current_directory() {
                Some(address) => {
                    cmds.push(Cmd::ReadDir((SessionInfo::from(address), true)));
                },
                None => {},
            }
        },
        Msg::NavigateOutOfDir => {
            match model.get_parent_directory() {
                Some(address) => {
                    cmds.push(Cmd::ReadDir((SessionInfo::from(address), true)));
                },
                None => {
                    model.user_msg = Some(UserMsg::error(String::from_str("no parent found")));
                },
            }
        },
        Msg::QuitImmediately => model.running_state = RunningState::Done,
        Msg::SelectFirst => model.select_first(),
        Msg::SelectLast => model.select_last(),
        Msg::SelectNext => model.select_next(),
        Msg::SelectPrevious => model.select_previous(),
        Msg::MarkPath => model.toggle_path_marked_status(),
        Msg::TerminalResize(new_width, new_height) => {
            model.terminal_dimensions.update(new_width, new_height);
            model.terminal_too_small = !(new_width >= MIN_TERMINAL_WIDTH && new_height
                >= MIN_TERMINAL_HEIGHT);
        },
        Msg::FSOperationFinished(result) => {
            match result {
                Err(e) => {
                    model.user_msg = Some(UserMsg::error(e));
                },
                Ok(()) => {},
            }
            let infos = model.get_unique_session_paths();
            model.clear_marked_paths();
            let mut i: usize = 0;
            while i < infos.len()
                invariant
                    i <= infos@.len(),
                    cmds@.len() == i,
                    forall|k: int|
                        0 <= k < i ==> is_read_dir(
                            #[trigger] cmds@[k],
                            infos@[k].index as int,
                            infos@[k].path@,
                            false,
                        ),
                decreases infos.len() - i,
            {
                cmds.push(Cmd::ReadDir((infos[i].clone(), false)));
                i = i + 1;
            }
            assert(unique_path_infos(views(a), infos@));
        },
        Msg::DirectoryRead { session_info, entries, navigated_to } => {
            model.update_entries_for_session(session_info, entries, navigated_to);
        },
        Msg::ReadingDirFailed(error) => {
            let text = String::from_str("reading directory failed: ").concat(error.as_str());
            model.user_msg = Some(UserMsg::error(text));
        },
    }
    model.age_user_msg();
    cmds
}

} // verus!
