use crate::common::{too_small, DirectoryAddress, Pane, SessionInfo, TerminalDimensions, MAX_NUM_SESSIONS};
use crate::entry::{Entry, EntryKind};
use crate::memory::{lookup, recall, remember};
use crate::path::FsPath;
use crate::session::{
    fresh_session, restore_selection, session_wf, synced, EntryItem, ItemView, RunningState,
    Session, SessionView, UserMsg, UserMsgView, items_view, user_msg_view, fresh_msg, MessageKind,
};
use crate::entry::EntryView;
use vstd::prelude::*;

verus! {

/// The whole state of the explorer.
pub struct Model {
    pub sessions: Vec<Session>,
    pub current_session_index: usize,
    /// Entries marked for a copy or a move; no two share a path.
    pub marked_paths: Vec<Entry>,
    /// For each directory left, the child that was selected in it.
    pub last_selections: Vec<(FsPath, FsPath)>,
    pub active_pane: Pane,
    pub last_active_pane: Option<Pane>,
    pub running_state: RunningState,
    pub user_msg: Option<UserMsg>,
    pub terminal_dimensions: TerminalDimensions,
    pub terminal_too_small: bool,
    pub render_counter: u64,
    pub event_counter: u64,
    pub debug: bool,
    pub help_scroll: usize,
}

/// The sessions' values, slot by slot.
pub open spec fn views(m: Model) -> Seq<SessionView> {
    m.sessions@.map_values(|s: Session| s@)
}

/// The paths of a sequence of entries.
pub open spec fn path_set(v: Seq<Entry>) -> Set<Seq<Seq<char>>> {
    Set::new(|p: Seq<Seq<char>>| exists|i: int| 0 <= i < v.len() && #[trigger] v[i]@.path == p)
}

/// No two entries share a path.
pub open spec fn unique_paths(v: Seq<Entry>) -> bool {
    forall|i: int, j: int| 0 <= i < j < v.len() ==> #[trigger] v[i]@.path != #[trigger] v[j]@.path
}

/// The paths in the mark set.
pub open spec fn marks(m: Model) -> Set<Seq<Seq<char>>> {
    path_set(m.marked_paths@)
}

/// The current session's value.
pub open spec fn current(m: Model) -> SessionView {
    m.sessions@[m.current_session_index as int]@
}

/// Number of initialized slots among the first four.
pub open spec fn num_initialized(v: Seq<SessionView>) -> nat {
    (if v[0] is Initialized { 1nat } else { 0nat }) + (if v[1] is Initialized { 1nat } else { 0nat })
        + (if v[2] is Initialized { 1nat } else { 0nat }) + (if v[3] is Initialized { 1nat } else { 0nat })
}

/// The first initialized slot after `cur`, going up and wrapping around;
/// `cur` itself when no other slot is initialized.
pub open spec fn next_initialized(v: Seq<SessionView>, cur: int) -> int {
    if v[(cur + 1) % 4] is Initialized {
        (cur + 1) % 4
    } else if v[(cur + 2) % 4] is Initialized {
        (cur + 2) % 4
    } else if v[(cur + 3) % 4] is Initialized {
        (cur + 3) % 4
    } else {
        cur
    }
}

/// The first initialized slot before `cur`, going down and wrapping around;
/// `cur` itself when no other slot is initialized.
pub open spec fn previous_initialized(v: Seq<SessionView>, cur: int) -> int {
    if v[(cur + 3) % 4] is Initialized {
        (cur + 3) % 4
    } else if v[(cur + 2) % 4] is Initialized {
        (cur + 2) % 4
    } else if v[(cur + 1) % 4] is Initialized {
        (cur + 1) % 4
    } else {
        cur
    }
}

/// The slot `e` places after (`forward`) or before `cur`, wrapping around.
pub open spec fn slot_at(cur: int, e: int, forward: bool) -> int {
    if forward {
        (cur + e) % 4
    } else {
        (cur + 4 - e) % 4
    }
}

fn slot_index(cur: usize, e: usize, forward: bool) -> (r: usize)
    requires
        cur < MAX_NUM_SESSIONS,
        e <= MAX_NUM_SESSIONS,
    ensures
        r == slot_at(cur as int, e as int, forward),
        r < MAX_NUM_SESSIONS,
{
    if forward {
        (cur + e) % MAX_NUM_SESSIONS
    } else {
        (cur + MAX_NUM_SESSIONS - e) % MAX_NUM_SESSIONS
    }
}

/// Everything but the sessions, the mark set, the memory and the message.
pub open spec fn same_settings(a: Model, b: Model) -> bool {
    &&& b.active_pane == a.active_pane
    &&& b.last_active_pane == a.last_active_pane
    &&& b.running_state == a.running_state
    &&& same_frame(a, b)
}

/// The terminal, the counters and the display settings are unchanged.
pub open spec fn same_frame(a: Model, b: Model) -> bool {
    &&& b.terminal_dimensions == a.terminal_dimensions
    &&& b.terminal_too_small == a.terminal_too_small
    &&& b.render_counter == a.render_counter
    &&& b.event_counter == a.event_counter
    &&& b.debug == a.debug
    &&& b.help_scroll == a.help_scroll
}

/// `b` is `a` with the current session replaced by `s`.
pub open spec fn only_current_became(a: Model, b: Model, s: SessionView) -> bool {
    &&& views(b) == views(a).update(a.current_session_index as int, s)
    &&& b.current_session_index == a.current_session_index
    &&& b.marked_paths@ == a.marked_paths@
    &&& b.last_selections@ == a.last_selections@
    &&& same_settings(a, b)
}

/// `b` is `a` switched to slot `t`, which now holds `s` with its marks synced.
pub open spec fn switched_to(a: Model, b: Model, t: int, s: SessionView) -> bool {
    &&& views(b) == views(a).update(t, synced(s, marks(a)))
    &&& b.current_session_index == t
    &&& b.marked_paths@ == a.marked_paths@
    &&& b.last_selections@ == a.last_selections@
    &&& same_settings(a, b)
}

/// What going to the next session does.
pub open spec fn next_session_post(a: Model, b: Model) -> bool {
    let v = views(a);
    let cur = a.current_session_index as int;
    if num_initialized(v) == 1 {
        switched_to(a, b, 1, v[cur])
    } else {
        let t = next_initialized(v, cur);
        switched_to(a, b, t, v[t])
    }
}

/// What going to the previous session does.
pub open spec fn previous_session_post(a: Model, b: Model) -> bool {
    let v = views(a);
    let cur = a.current_session_index as int;
    if num_initialized(v) == 1 {
        only_current_became(a, b, v[cur])
    } else {
        let t = previous_initialized(v, cur);
        switched_to(a, b, t, v[t])
    }
}

/// What going to slot `index` does.
pub open spec fn go_to_session_post(a: Model, b: Model, index: usize) -> bool {
    let v = views(a);
    let cur = a.current_session_index as int;
    if index >= MAX_NUM_SESSIONS || index == cur {
        only_current_became(a, b, v[cur])
    } else {
        switched_to(
            a,
            b,
            index as int,
            if v[index as int] is Initialized {
                v[index as int]
            } else {
                v[cur]
            },
        )
    }
}

/// What going back (or quitting) does.
pub open spec fn go_back_post(a: Model, b: Model) -> bool {
    let cur = a.current_session_index as int;
    &&& b.last_selections@ == a.last_selections@
    &&& same_frame(a, b)
    &&& b.last_active_pane == Some(a.active_pane)
    &&& match a.active_pane {
        Pane::Explorer => {
            &&& b.active_pane == Pane::Explorer
            &&& if a.marked_paths@.len() > 0 {
                &&& b.marked_paths@.len() == 0
                &&& views(b) == views(a).update(cur, synced(current(a), Set::empty()))
                &&& b.current_session_index == a.current_session_index
                &&& b.running_state == a.running_state
            } else {
                let v = views(a).update(cur, SessionView::Uninitialized);
                &&& views(b) == v
                &&& b.marked_paths@ == a.marked_paths@
                &&& if num_initialized(v) == 0 {
                    &&& b.running_state == RunningState::Done
                    &&& b.current_session_index == a.current_session_index
                } else {
                    &&& b.running_state == a.running_state
                    &&& b.current_session_index == previous_initialized(v, cur)
                }
            }
        },
        Pane::Help => {
            &&& b.active_pane == match a.last_active_pane {
                Some(p) => p,
                None => Pane::Explorer,
            }
            &&& views(b) == views(a)
            &&& b.current_session_index == a.current_session_index
            &&& b.marked_paths@ == a.marked_paths@
            &&& b.running_state == a.running_state
        },
    }
}

/// What a completed listing of `path` for slot `index` does. On navigation
/// the addressed slot's directory first remembers that slot's selection.
pub open spec fn entries_post(
    a: Model,
    b: Model,
    index: usize,
    path: Seq<Seq<char>>,
    entries: Seq<Entry>,
    navigated_to: bool,
) -> bool {
    &&& b.current_session_index == a.current_session_index
    &&& b.marked_paths@ == a.marked_paths@
    &&& same_settings(a, b)
    &&& if navigated_to && index < MAX_NUM_SESSIONS && views(a)[index as int] is Initialized
        && selected_path(views(a)[index as int]) is Some {
        let out = views(a)[index as int];
        forall|q: Seq<Seq<char>>|
            #[trigger] lookup(b.last_selections@, q) == if q == out->path {
                selected_path(out)
            } else {
                lookup(a.last_selections@, q)
            }
    } else {
        b.last_selections@ == a.last_selections@
    }
    &&& views(b).len() == MAX_NUM_SESSIONS
    &&& forall|j: int|
        0 <= j < MAX_NUM_SESSIONS ==> #[trigger] views(b)[j] == refreshed(
            views(a),
            j,
            index as int,
            path,
            entries,
            navigated_to,
            b.last_selections@,
            marks(a),
        )
}

/// `r` addresses, in slot order, exactly the slots that are the first to
/// show their path.
pub open spec fn unique_path_infos(v: Seq<SessionView>, r: Seq<SessionInfo>) -> bool {
    &&& forall|k: int|
        0 <= k < r.len() ==> {
            &&& #[trigger] r[k].index < MAX_NUM_SESSIONS
            &&& first_slot_with_its_path(v, r[k].index as int)
            &&& r[k].path@ == v[r[k].index as int]->path
        }
    &&& forall|k1: int, k2: int| 0 <= k1 < k2 < r.len() ==> #[trigger] r[k1].index < #[trigger] r[k2].index
    &&& forall|i: int|
        0 <= i < MAX_NUM_SESSIONS && first_slot_with_its_path(v, i) ==> exists|k: int|
            0 <= k < r.len() && #[trigger] r[k].index == i
}

/// A cursor movement.
#[derive(Debug, Clone, Copy, PartialEq, Eq, Structural)]
pub enum Step {
    Next,
    Previous,
    First,
    Last,
}

/// The session with its cursor moved by `step`, saturating at both ends.
pub open spec fn stepped(s: SessionView, step: Step) -> SessionView {
    match s {
        SessionView::Initialized { path, items, selected } => match selected {
            Some(k) => {
                let n = items.len();
                let k2: usize = match step {
                    Step::Next => if k + 1 < n {
                        (k + 1) as usize
                    } else {
                        k
                    },
                    Step::Previous => if k > 0 {
                        (k - 1) as usize
                    } else {
                        k
                    },
                    Step::First => 0,
                    Step::Last => if n > 0 {
                        (n - 1) as usize
                    } else {
                        k
                    },
                };
                SessionView::Initialized { path, items, selected: Some(k2) }
            },
            None => s,
        },
        SessionView::Uninitialized => s,
    }
}

/// The mark set with `p` added if it was absent, removed if it was present.
pub open spec fn toggled(m: Set<Seq<Seq<char>>>, p: Seq<Seq<char>>) -> Set<Seq<Seq<char>>> {
    if m.contains(p) {
        m.remove(p)
    } else {
        m.insert(p)
    }
}

/// The session's cursor points past its items (the listing shrank under it).
pub open spec fn cursor_is_stale(s: SessionView) -> bool {
    s matches SessionView::Initialized { items, selected, .. } && selected matches Some(k) && k
        >= items.len()
}

/// What toggling the mark on the current session's cursor does; nothing
/// changes when the cursor is stale.
pub open spec fn toggle_post(a: Model, b: Model) -> bool {
    match current(a) {
        SessionView::Initialized { path, items, selected } => match selected {
            Some(k) => if k >= items.len() {
                only_current_became(a, b, current(a))
            } else {
                let p = items[k as int].entry.path;
                let item = ItemView { entry: items[k as int].entry, marked: !marks(a).contains(p) };
                let next: usize = if k + 1 < items.len() {
                    (k + 1) as usize
                } else {
                    k
                };
                &&& marks(b) == toggled(marks(a), p)
                &&& views(b) == views(a).update(
                    a.current_session_index as int,
                    SessionView::Initialized {
                        path,
                        items: items.update(k as int, item),
                        selected: Some(next),
                    },
                )
                &&& b.current_session_index == a.current_session_index
                &&& b.last_selections@ == a.last_selections@
                &&& same_settings(a, b)
            },
            None => only_current_became(a, b, current(a)),
        },
        SessionView::Uninitialized => only_current_became(a, b, current(a)),
    }
}

/// A freshly listed session with its mark flags taken from the mark set.
pub open spec fn listed_session(
    path: Seq<Seq<char>>,
    entries: Seq<Entry>,
    marks: Set<Seq<Seq<char>>>,
) -> SessionView {
    synced(fresh_session(path, entries), marks)
}

/// A directory listing's effect on slot `j`: the addressed slot always gets
/// the listing, with the selection remembered in `memory` restored when it
/// navigated there; every other slot showing the same path gets the listing
/// too. Mark flags come from the mark set `marks`.
pub open spec fn refreshed(
    a: Seq<SessionView>,
    j: int,
    index: int,
    path: Seq<Seq<char>>,
    entries: Seq<Entry>,
    navigated_to: bool,
    memory: Seq<(FsPath, FsPath)>,
    marks: Set<Seq<Seq<char>>>,
) -> SessionView {
    let listed = listed_session(path, entries, marks);
    if j == index {
        if navigated_to {
            match lookup(memory, path) {
                Some(c) => restore_selection(listed, c),
                None => listed,
            }
        } else {
            listed
        }
    } else {
        match a[j] {
            SessionView::Initialized { path: p, .. } => if p == path {
                listed
            } else {
                a[j]
            },
            SessionView::Uninitialized => a[j],
        }
    }
}

/// The entry under a session's cursor, if the cursor is on an item.
pub open spec fn cursor_entry(s: SessionView) -> Option<EntryView> {
    match s {
        SessionView::Initialized { items, selected, .. } => match selected {
            Some(k) => if k < items.len() {
                Some(items[k as int].entry)
            } else {
                None
            },
            None => None,
        },
        SessionView::Uninitialized => None,
    }
}

/// The path under a session's cursor.
pub open spec fn selected_path(s: SessionView) -> Option<Seq<Seq<char>>> {
    match cursor_entry(s) {
        Some(e) => Some(e.path),
        None => None,
    }
}

/// The directory under a session's cursor.
pub open spec fn directory_under_cursor(s: SessionView) -> Option<Seq<Seq<char>>> {
    match cursor_entry(s) {
        Some(e) => if e.kind == EntryKind::Directory {
            Some(e.path)
        } else {
            None
        },
        None => None,
    }
}

/// The parent of the directory that a session lists, found as the
/// grandparent of the entry under its cursor.
pub open spec fn parent_of_listing(s: SessionView) -> Option<Seq<Seq<char>>> {
    match cursor_entry(s) {
        Some(e) => if e.path.len() >= 2 {
            Some(e.path.drop_last().drop_last())
        } else {
            None
        },
        None => None,
    }
}

/// Slot `i` is initialized and no earlier initialized slot shows its path.
pub open spec fn first_slot_with_its_path(v: Seq<SessionView>, i: int) -> bool {
    &&& v[i] is Initialized
    &&& forall|j: int| 0 <= j < i && #[trigger] v[j] is Initialized ==> v[j]->path != v[i]->path
}

/// The message aged by one update cycle: one frame less, gone after its last.
pub open spec fn aged(m: Option<UserMsgView>) -> Option<UserMsgView> {
    match m {
        Some(u) => if u.frames_left == 0 {
            None
        } else {
            Some(UserMsgView { frames_left: (u.frames_left - 1) as u16, ..u })
        },
        None => None,
    }
}

impl Model {
    /// Four slots, a valid current index, sessions with valid cursors, no
    /// path marked twice, and a live current session while running.
    pub open spec fn wf(&self) -> bool {
        &&& self.shape_wf()
        &&& forall|i: int| 0 <= i < MAX_NUM_SESSIONS ==> session_wf(#[trigger] self.sessions@[i]@)
    }

    /// `wf` without the condition on the sessions' cursors.
    pub open spec fn shape_wf(&self) -> bool {
        &&& self.sessions@.len() == MAX_NUM_SESSIONS
        &&& self.current_session_index < MAX_NUM_SESSIONS
        &&& unique_paths(self.marked_paths@)
        &&& self.running_state == RunningState::Running ==> current(*self) is Initialized
    }

    pub fn new(root: FsPath, terminal_dimensions: TerminalDimensions, debug: bool) -> (r: Model)
        ensures
            r.wf(),
            views(r) == seq![
                SessionView::Initialized { path: root@, items: Seq::empty(), selected: None },
                SessionView::Uninitialized,
                SessionView::Uninitialized,
                SessionView::Uninitialized,
            ],
            r.current_session_index == 0,
            r.marked_paths@.len() == 0,
            r.last_selections@.len() == 0,
            r.active_pane == Pane::Explorer,
            r.last_active_pane is None,
            r.running_state == RunningState::Running,
            r.user_msg is None,
            r.terminal_dimensions == terminal_dimensions,
            r.terminal_too_small == too_small(terminal_dimensions.width, terminal_dimensions.height),
            r.render_counter == 0,
            r.event_counter == 0,
            r.debug == debug,
            r.help_scroll == 0,
    {
        let terminal_too_small = terminal_dimensions.width < crate::common::MIN_TERMINAL_WIDTH
            || terminal_dimensions.height < crate::common::MIN_TERMINAL_HEIGHT;
        let mut sessions: Vec<Session> = Vec::new();
        sessions.push(Session::new_empty(root));
        let mut i: usize = 1;
        while i < MAX_NUM_SESSIONS
            invariant
                1 <= i <= MAX_NUM_SESSIONS,
                sessions@.len() == i,
                sessions@[0]@ == (SessionView::Initialized {
                    path: root@,
                    items: Seq::empty(),
                    selected: None,
                }),
                forall|k: int| 1 <= k < i ==> sessions@[k]@ is Uninitialized,
            decreases MAX_NUM_SESSIONS - i,
        {
            sessions.push(Session::Uninitialized);
            i = i + 1;
        }
        let r = Model {
            sessions,
            current_session_index: 0,
            marked_paths: Vec::new(),
            last_selections: Vec::new(),
            active_pane: Pane::Explorer,
            last_active_pane: None,
            running_state: RunningState::Running,
            user_msg: None,
            terminal_dimensions,
            terminal_too_small,
            render_counter: 0,
            event_counter: 0,
            debug,
            help_scroll: 0,
        };
        assert(views(r) =~= seq![
            SessionView::Initialized { path: root@, items: Seq::empty(), selected: None },
            SessionView::Uninitialized,
            SessionView::Uninitialized,
            SessionView::Uninitialized,
        ]);
        r
    }

    /// Replaces the session in slot `i`, handing back the one that was there.
    fn swap_session(&mut self, i: usize, s: Session) -> (r: Session)
        requires
            i < old(self).sessions@.len(),
        ensures
            r == old(self).sessions@[i as int],
            final(self).sessions@ == old(self).sessions@.update(i as int, s),
            final(self).current_session_index == old(self).current_session_index,
            final(self).marked_paths == old(self).marked_paths,
            final(self).last_selections == old(self).last_selections,
            final(self).user_msg == old(self).user_msg,
            same_settings(*old(self), *final(self)),
    {
        let r = self.sessions.remove(i);
        self.sessions.insert(i, s);
        assert(self.sessions@ =~= old(self).sessions@.update(i as int, s));
        r
    }

    /// Moves the current session's cursor; nothing happens in the help pane.
    pub fn move_selection(&mut self, step: Step)
        requires
            old(self).wf(),
        ensures
            final(self).wf(),
            final(self).user_msg == old(self).user_msg,
            only_current_became(
                *old(self),
                *final(self),
                if old(self).active_pane == Pane::Explorer {
                    stepped(current(*old(self)), step)
                } else {
                    current(*old(self))
                },
            ),
    {
        let cur = self.current_session_index;
        if self.active_pane != Pane::Explorer {
            assert(views(*self) =~= views(*self).update(cur as int, current(*self)));
            return;
        }
        let s = self.swap_session(cur, Session::Uninitialized);
        let s2 = match s {
            Session::Initialized { path, entries, selected } => {
                let n = entries.len();
                let sel = match selected {
                    Some(k) => Some(
                        match step {
                            Step::Next => if k + 1 < n {
                                k + 1
                            } else {
                                k
                            },
                            Step::Previous => if k > 0 {
                                k - 1
                            } else {
                                k
                            },
                            Step::First => 0,
                            Step::Last => if n > 0 {
                                n - 1
                            } else {
                                k
                            },
                        },
                    ),
                    None => None,
                };
                Session::Initialized { path, entries, selected: sel }
            },
            Session::Uninitialized => Session::Uninitialized,
        };
        self.swap_session(cur, s2);
        assert(views(*self) =~= views(*old(self)).update(cur as int, s2@));
    }

    pub fn select_next(&mut self)
        requires
            old(self).wf(),
        ensures
            final(self).wf(),
            final(self).user_msg == old(self).user_msg,
            only_current_became(
                *old(self),
                *final(self),
                if old(self).active_pane == Pane::Explorer {
                    stepped(current(*old(self)), Step::Next)
                } else {
                    current(*old(self))
                },
            ),
    {
        self.move_selection(Step::Next)
    }

    pub fn select_previous(&mut self)
        requires
            old(self).wf(),
        ensures
            final(self).wf(),
            final(self).user_msg == old(self).user_msg,
            only_current_became(
                *old(self),
                *final(self),
                if old(self).active_pane == Pane::Explorer {
                    stepped(current(*old(self)), Step::Previous)
                } else {
                    current(*old(self))
                },
            ),
    {
        self.move_selection(Step::Previous)
    }

    pub fn select_first(&mut self)
        requires
            old(self).wf(),
        ensures
            final(self).wf(),
            final(self).user_msg == old(self).user_msg,
            only_current_became(
                *old(self),
                *final(self),
                if old(self).active_pane == Pane::Explorer {
                    stepped(current(*old(self)), Step::First)
                } else {
                    current(*old(self))
                },
            ),
    {
        self.move_selection(Step::First)
    }

    pub fn select_last(&mut self)
        requires
            old(self).wf(),
        ensures
            final(self).wf(),
            final(self).user_msg == old(self).user_msg,
            only_current_became(
                *old(self),
                *final(self),
                if old(self).active_pane == Pane::Explorer {
                    stepped(current(*old(self)), Step::Last)
                } else {
                    current(*old(self))
                },
            ),
    {
        self.move_selection(Step::Last)
    }

    /// Sets every item's mark flag in the current session from the mark set.
    fn sync_marked_paths_to_current_session(&mut self)
        requires
            old(self).wf(),
        ensures
            final(self).wf(),
            final(self).user_msg == old(self).user_msg,
            only_current_became(*old(self), *final(self), synced(current(*old(self)), marks(*old(self)))),
    {
        let cur = self.current_session_index;
        let s = self.swap_session(cur, Session::Uninitialized);
        let s2 = with_marks(&self.marked_paths, s);
        self.swap_session(cur, s2);
        assert(views(*self) =~= views(*old(self)).update(cur as int, s2@));
    }
}

/// The session with every item's mark flag set from the marked entries.
fn with_marks(marked: &Vec<Entry>, s: Session) -> (r: Session)
    ensures
        r@ == synced(s@, path_set(marked@)),
        session_wf(s@) ==> session_wf(r@),
{
    let ghost ms = path_set(marked@);
    match s {
        Session::Initialized { path, entries, selected } => {
            let ghost orig = items_view(entries@);
            let mut items = entries;
            let mut i: usize = 0;
            while i < items.len()
                invariant
                    ms == path_set(marked@),
                    items@.len() == orig.len(),
                    i <= orig.len(),
                    forall|k: int|
                        0 <= k < i ==> #[trigger] items@[k]@ == (ItemView {
                            entry: orig[k].entry,
                            marked: ms.contains(orig[k].entry.path),
                        }),
                    forall|k: int| i <= k < orig.len() ==> #[trigger] items@[k]@ == orig[k],
                decreases orig.len() - i,
            {
                let pos = mark_position(marked, &items[i].entry.path);
                let c = pos < marked.len();
                proof {
                    let p = orig[i as int].entry.path;
                    assert(items@[i as int]@ == orig[i as int]);
                    if c {
                        assert(marked@[pos as int]@.path == p);
                    }
                    assert(c == ms.contains(p));
                }
                let ghost before = items@;
                items[i].marked = c;
                assert(items@ == before.update(i as int, EntryItem { marked: c, ..before[i as int] }));
                i = i + 1;
            }
            assert(items_view(items@) =~= orig.map_values(
                |it: ItemView| ItemView { entry: it.entry, marked: ms.contains(it.entry.path) },
            ));
            Session::Initialized { path, entries: items, selected }
        },
        Session::Uninitialized => Session::Uninitialized,
    }
}

/// Whether the session is initialized and lists `p`.
fn shows_path(s: &Session, p: &FsPath) -> (r: bool)
    ensures
        r == (s@ is Initialized && s@->path == p@),
{
    match s {
        Session::Initialized { path, .. } => path.same_as(p),
        Session::Uninitialized => false,
    }
}

/// Position of the marked entry at path `p`, or the number of marked entries.
fn mark_position(marked: &Vec<Entry>, p: &FsPath) -> (r: usize)
    ensures
        r <= marked@.len(),
        r < marked@.len() ==> marked@[r as int]@.path == p@,
        r == marked@.len() ==> forall|i: int| 0 <= i < marked@.len() ==> #[trigger] marked@[i]@.path != p@,
{
    let mut i: usize = 0;
    while i < marked.len() && !marked[i].path.same_as(p)
        invariant
            i <= marked@.len(),
            forall|k: int| 0 <= k < i ==> #[trigger] marked@[k]@.path != p@,
        decreases marked.len() - i,
    {
        i = i + 1;
    }
    i
}

/// Adds `e` to the marked entries if its path is not there, else removes the
/// entry with its path; tells whether `e`'s path is marked afterwards.
fn toggle_mark(marked: &mut Vec<Entry>, e: &Entry) -> (now: bool)
    requires
        unique_paths(old(marked)@),
    ensures
        unique_paths(final(marked)@),
        path_set(final(marked)@) == toggled(path_set(old(marked)@), e@.path),
        now == !path_set(old(marked)@).contains(e@.path),
{
    let ghost a = marked@;
    let ghost p = e@.path;
    let pos = mark_position(marked, &e.path);
    if pos < marked.len() {
        marked.remove(pos);
        let ghost b = marked@;
        assert(b == a.remove(pos as int));
        assert forall|q: Seq<Seq<char>>| path_set(b).contains(q) == path_set(a).remove(p).contains(q) by {
            if path_set(b).contains(q) {
                let i = choose|i: int| 0 <= i < b.len() && #[trigger] b[i]@.path == q;
                if i < pos {
                    assert(a[i]@.path == q);
                    assert(a[i]@.path != a[pos as int]@.path);
                } else {
                    assert(a[i + 1]@.path == q);
                    assert(a[i + 1]@.path != a[pos as int]@.path);
                }
            }
            if path_set(a).remove(p).contains(q) {
                let i = choose|i: int| 0 <= i < a.len() && #[trigger] a[i]@.path == q;
                assert(i != pos);
                if i < pos {
                    assert(b[i]@.path == q);
                } else {
                    assert(b[i - 1]@.path == q);
                }
            }
        }
        assert(path_set(a).contains(p));
        assert(path_set(b) =~= toggled(path_set(a), p));
        assert forall|i: int, j: int| 0 <= i < j < b.len() implies #[trigger] b[i]@.path
            != #[trigger] b[j]@.path by {
            let i2 = if i < pos { i } else { i + 1 };
            let j2 = if j < pos { j } else { j + 1 };
            assert(a[i2]@.path != a[j2]@.path);
        }
        false
    } else {
        marked.push(e.clone());
        let ghost b = marked@;
        assert(b == a.push(b[a.len() as int]));
        assert(b[a.len() as int]@ == e@);
        assert(!path_set(a).contains(p));
        assert forall|q: Seq<Seq<char>>| path_set(b).contains(q) == path_set(a).insert(p).contains(q) by {
            if path_set(b).contains(q) {
                let i = choose|i: int| 0 <= i < b.len() && #[trigger] b[i]@.path == q;
                if i < a.len() {
                    assert(a[i]@.path == q);
                }
            }
            if path_set(a).insert(p).contains(q) {
                if q == p {
                    assert(b[a.len() as int]@.path == q);
                } else {
                    let i = choose|i: int| 0 <= i < a.len() && #[trigger] a[i]@.path == q;
                    assert(b[i]@.path == q);
                }
            }
        }
        assert(path_set(b) =~= toggled(path_set(a), p));
        true
    }
}

impl Model {
    /// Flips the mark of the entry under the cursor, in the mark set and on
    /// the item, then moves the cursor one down unless it is on the last item.
    /// A cursor past the items changes nothing and reports an internal error.
    pub fn toggle_path_marked_status(&mut self)
        requires
            old(self).shape_wf(),
        ensures
            final(self).shape_wf(),
            old(self).wf() ==> final(self).wf(),
            toggle_post(*old(self), *final(self)),
            if cursor_is_stale(current(*old(self))) {
                user_msg_view(final(self).user_msg) == Some(
                    fresh_msg(
                        "something went wrong; please report this as a bug"@,
                        MessageKind::Error,
                    ),
                )
            } else {
                final(self).user_msg == old(self).user_msg
            },
    {
        let cur = self.current_session_index;
        let s = self.swap_session(cur, Session::Uninitialized);
        match s {
            Session::Initialized { path, entries, selected } => match selected {
                Some(k) => {
                    if k >= entries.len() {
                        self.swap_session(cur, Session::Initialized { path, entries, selected });
                        assert(views(*self) =~= views(*old(self)).update(
                            cur as int,
                            current(*old(self)),
                        ));
                        self.user_msg = Some(UserMsg::internal_error());
                        return ;
                    }
                    let ghost items = items_view(entries@);
                    let mut entries = entries;
                    let now_marked = toggle_mark(&mut self.marked_paths, &entries[k].entry);
                    entries[k].marked = now_marked;
                    let next = if k + 1 < entries.len() {
                        k + 1
                    } else {
                        k
                    };
                    let s2 = Session::Initialized { path, entries, selected: Some(next) };
                    proof {
                        assert(items_view(entries@) =~= items.update(
                            k as int,
                            ItemView { entry: items[k as int].entry, marked: now_marked },
                        ));
                    }
                    self.swap_session(cur, s2);
                    assert(views(*self) =~= views(*old(self)).update(cur as int, s2@));
                },
                None => {
                    let s2 = Session::Initialized { path, entries, selected };
                    self.swap_session(cur, s2);
                    assert(views(*self) =~= views(*old(self)).update(cur as int, s2@));
                },
            },
            Session::Uninitialized => {
                self.swap_session(cur, Session::Uninitialized);
                assert(views(*self) =~= views(*old(self)).update(cur as int, current(*old(self))));
            },
        }
    }

    fn num_initialized_sessions(&self) -> (r: usize)
        requires
            self.sessions@.len() == MAX_NUM_SESSIONS,
            self.current_session_index < MAX_NUM_SESSIONS,
        ensures
            r == num_initialized(views(*self)),
    {
        let mut n: usize = 0;
        let mut i: usize = 0;
        while i < MAX_NUM_SESSIONS
            invariant
                self.sessions@.len() == MAX_NUM_SESSIONS,
                i <= MAX_NUM_SESSIONS,
                n == (if i > 0 && views(*self)[0] is Initialized { 1nat } else { 0nat }) + (if i
                    > 1 && views(*self)[1] is Initialized { 1nat } else { 0nat }) + (if i > 2
                    && views(*self)[2] is Initialized { 1nat } else { 0nat }) + (if i > 3
                    && views(*self)[3] is Initialized { 1nat } else { 0nat }),
            decreases MAX_NUM_SESSIONS - i,
        {
            if self.sessions[i].is_initialized() {
                n = n + 1;
            }
            i = i + 1;
        }
        n
    }

    /// The first initialized slot after the current one (`forward`) or
    /// before it, wrapping around; the current one when there is none.
    fn find_initialized(&self, forward: bool) -> (r: usize)
        requires
            self.sessions@.len() == MAX_NUM_SESSIONS,
            self.current_session_index < MAX_NUM_SESSIONS,
        ensures
            r == if forward {
                next_initialized(views(*self), self.current_session_index as int)
            } else {
                previous_initialized(views(*self), self.current_session_index as int)
            },
    {
        let cur = self.current_session_index;
        let mut d: usize = 1;
        while d < MAX_NUM_SESSIONS && !self.sessions[slot_index(cur, d, forward)].is_initialized()
            invariant
                self.sessions@.len() == MAX_NUM_SESSIONS,
                cur < MAX_NUM_SESSIONS,
                cur == self.current_session_index,
                1 <= d <= MAX_NUM_SESSIONS,
                forall|e: int|
                    1 <= e < d ==> !(views(*self)[#[trigger] slot_at(cur as int, e, forward)] is Initialized),
            decreases MAX_NUM_SESSIONS - d,
        {
            d = d + 1;
        }
        proof {
            assert((cur + 4 - 1) % 4 == (cur + 3) % 4);
            assert((cur + 4 - 2) % 4 == (cur + 2) % 4);
            assert((cur + 4 - 3) % 4 == (cur + 1) % 4);
            if d > 1 {
                assert(!(views(*self)[slot_at(cur as int, 1, forward)] is Initialized));
            }
            if d > 2 {
                assert(!(views(*self)[slot_at(cur as int, 2, forward)] is Initialized));
            }
            if d > 3 {
                assert(!(views(*self)[slot_at(cur as int, 3, forward)] is Initialized));
            }
        }
        if d < MAX_NUM_SESSIONS {
            slot_index(cur, d, forward)
        } else {
            cur
        }
    }

    /// Makes slot `t` current, holding `s`, with its marks synced.
    fn switch_to(&mut self, t: usize, s: Session)
        requires
            old(self).wf(),
            t < MAX_NUM_SESSIONS,
            session_wf(s@),
            old(self).running_state == RunningState::Running ==> s@ is Initialized,
        ensures
            final(self).wf(),
            final(self).user_msg == old(self).user_msg,
            switched_to(*old(self), *final(self), t as int, s@),
    {
        self.swap_session(t, s);
        self.current_session_index = t;
        self.sync_marked_paths_to_current_session();
        assert(views(*self) =~= views(*old(self)).update(t as int, synced(s@, marks(*old(self)))));
    }

    /// Cycles to the next initialized session; with a single one, first
    /// duplicates it into the second slot and goes there.
    pub fn go_to_next_session(&mut self)
        requires
            old(self).wf(),
        ensures
            final(self).wf(),
            final(self).user_msg == old(self).user_msg,
            next_session_post(*old(self), *final(self)),
    {
        let cur = self.current_session_index;
        if self.num_initialized_sessions() == 1 {
            let s = self.sessions[cur].clone();
            self.switch_to(1, s);
            return ;
        }
        let t = self.find_initialized(true);
        let s = self.sessions[t].clone();
        self.switch_to(t, s);
    }

    /// Cycles to the previous initialized session; nothing happens when
    /// there is a single one.
    pub fn go_to_previous_session(&mut self)
        requires
            old(self).wf(),
        ensures
            final(self).wf(),
            final(self).user_msg == old(self).user_msg,
            previous_session_post(*old(self), *final(self)),
    {
        if self.num_initialized_sessions() == 1 {
            assert(views(*self) =~= views(*self).update(
                self.current_session_index as int,
                current(*self),
            ));
            return ;
        }
        let t = self.find_initialized(false);
        let s = self.sessions[t].clone();
        self.switch_to(t, s);
    }

    /// Jumps to slot `index`, which first becomes a copy of the current
    /// session if it was empty; nothing happens for a bad or the current index.
    pub fn go_to_session(&mut self, index: usize)
        requires
            old(self).wf(),
        ensures
            final(self).wf(),
            final(self).user_msg == old(self).user_msg,
            go_to_session_post(*old(self), *final(self), index),
    {
        let cur = self.current_session_index;
        if index >= self.sessions.len() || index == cur {
            assert(views(*self) =~= views(*self).update(cur as int, current(*self)));
            return ;
        }
        let s = if self.sessions[index].is_initialized() {
            self.sessions[index].clone()
        } else {
            self.sessions[cur].clone()
        };
        self.switch_to(index, s);
    }
}

impl Model {
    /// Empties the current slot and moves to the previous initialized one;
    /// tells whether none was left.
    fn close_current_session(&mut self) -> (was_last: bool)
        requires
            old(self).wf(),
        ensures
            ({
                let v = views(*old(self)).update(
                    old(self).current_session_index as int,
                    SessionView::Uninitialized,
                );
                &&& views(*final(self)) == v
                &&& was_last == (num_initialized(v) == 0)
                &&& final(self).current_session_index == if was_last {
                    old(self).current_session_index as int
                } else {
                    previous_initialized(v, old(self).current_session_index as int)
                }
            }),
            final(self).marked_paths == old(self).marked_paths,
            final(self).last_selections == old(self).last_selections,
            final(self).user_msg == old(self).user_msg,
            same_settings(*old(self), *final(self)),
            forall|i: int| 0 <= i < MAX_NUM_SESSIONS ==> session_wf(#[trigger] final(self).sessions@[i]@),
            final(self).sessions@.len() == MAX_NUM_SESSIONS,
            final(self).current_session_index < MAX_NUM_SESSIONS,
            !was_last ==> current(*final(self)) is Initialized,
    {
        let cur = self.current_session_index;
        self.swap_session(cur, Session::Uninitialized);
        assert(views(*self) =~= views(*old(self)).update(cur as int, SessionView::Uninitialized));
        if self.num_initialized_sessions() == 0 {
            return true;
        }
        let t = self.find_initialized(false);
        self.current_session_index = t;
        false
    }

    /// In the explorer: drops all marks if there are any, otherwise closes
    /// the current session and stops when it was the last. In the help pane:
    /// goes back to the pane that was active before.
    pub fn go_back_or_quit(&mut self)
        requires
            old(self).wf(),
        ensures
            final(self).wf(),
            final(self).user_msg == old(self).user_msg,
            go_back_post(*old(self), *final(self)),
    {
        let active_pane = self.active_pane;
        match self.active_pane {
            Pane::Explorer => {
                if self.marked_paths.len() == 0 {
                    let was_last_session = self.close_current_session();
                    if was_last_session {
                        self.running_state = RunningState::Done;
                    }
                } else {
                    self.clear_marked_paths();
                }
            },
            Pane::Help => {
                match self.last_active_pane {
                    Some(p) => self.active_pane = p,
                    None => self.active_pane = Pane::Explorer,
                }
            },
        }
        self.last_active_pane = Some(active_pane);
    }

    /// Drops all marks, and the current session's mark flags with them.
    pub fn clear_marked_paths(&mut self)
        requires
            old(self).wf(),
        ensures
            final(self).wf(),
            final(self).user_msg == old(self).user_msg,
            final(self).marked_paths@.len() == 0,
            views(*final(self)) == views(*old(self)).update(
                old(self).current_session_index as int,
                synced(current(*old(self)), Set::empty()),
            ),
            final(self).current_session_index == old(self).current_session_index,
            final(self).last_selections@ == old(self).last_selections@,
            same_settings(*old(self), *final(self)),
    {
        self.marked_paths = Vec::new();
        assert(marks(*self) =~= Set::empty());
        self.sync_marked_paths_to_current_session();
    }
}

impl Model {
    /// The entry under the current session's cursor.
    fn cursor(&self) -> (r: Option<&Entry>)
        requires
            self.wf(),
        ensures
            match r {
                Some(e) => cursor_entry(current(*self)) == Some(e@),
                None => cursor_entry(current(*self)) is None,
            },
    {
        match &self.sessions[self.current_session_index] {
            Session::Initialized { path: _, entries, selected } => match selected {
                Some(k) => if *k < entries.len() {
                    Some(&entries[*k].entry)
                } else {
                    None
                },
                None => None,
            },
            Session::Uninitialized => None,
        }
    }

    /// The path that the current session lists.
    pub fn current_session_path(&self) -> (r: Option<FsPath>)
        requires
            self.wf(),
        ensures
            match current(*self) {
                SessionView::Initialized { path, .. } => r matches Some(p) && p@ == path,
                SessionView::Uninitialized => r is None,
            },
    {
        match &self.sessions[self.current_session_index] {
            Session::Initialized { path, .. } => Some(path.clone()),
            Session::Uninitialized => None,
        }
    }

    /// The path under the current session's cursor.
    pub fn currently_selected_path(&self) -> (r: Option<FsPath>)
        requires
            self.wf(),
        ensures
            match r {
                Some(p) => selected_path(current(*self)) == Some(p@),
                None => selected_path(current(*self)) is None,
            },
    {
        match self.cursor() {
            Some(e) => Some(e.path.clone()),
            None => None,
        }
    }

    /// The directory under the cursor, addressed to the current session.
    pub fn get_current_directory(&self) -> (r: Option<DirectoryAddress>)
        requires
            self.wf(),
        ensures
            match r {
                Some(d) => d.session_index == self.current_session_index && directory_under_cursor(
                    current(*self),
                ) == Some(d.path@),
                None => directory_under_cursor(current(*self)) is None,
            },
    {
        match self.cursor() {
            Some(e) => match e.kind {
                EntryKind::Directory => Some(
                    DirectoryAddress {
                        session_index: self.current_session_index,
                        path: e.path.clone(),
                    },
                ),
                _ => None,
            },
            None => None,
        }
    }

    /// The parent of the listed directory (the grandparent of the entry under
    /// the cursor), addressed to the current session.
    pub fn get_parent_directory(&self) -> (r: Option<DirectoryAddress>)
        requires
            self.wf(),
        ensures
            match r {
                Some(d) => d.session_index == self.current_session_index && parent_of_listing(
                    current(*self),
                ) == Some(d.path@),
                None => parent_of_listing(current(*self)) is None,
            },
    {
        match self.cursor() {
            Some(e) => match e.path.parent() {
                Some(p) => match p.parent() {
                    Some(g) => Some(
                        DirectoryAddress { session_index: self.current_session_index, path: g },
                    ),
                    None => None,
                },
                None => None,
            },
            None => None,
        }
    }

    /// The directory that the current session lists, addressed to it.
    pub fn get_session_path(&self) -> (r: Option<DirectoryAddress>)
        requires
            self.wf(),
        ensures
            match current(*self) {
                SessionView::Initialized { path, .. } => r matches Some(d) && d.path@ == path
                    && d.session_index == self.current_session_index,
                SessionView::Uninitialized => r is None,
            },
    {
        match self.current_session_path() {
            Some(path) => Some(DirectoryAddress { session_index: self.current_session_index, path }),
            None => None,
        }
    }

    /// One address per distinct listed path, for the first slot showing it,
    /// in slot order.
    pub fn get_unique_session_paths(&self) -> (r: Vec<SessionInfo>)
        requires
            self.wf(),
        ensures
            unique_path_infos(views(*self), r@),
    {
        let ghost v = views(*self);
        let mut r: Vec<SessionInfo> = Vec::new();
        let mut i: usize = 0;
        while i < MAX_NUM_SESSIONS
            invariant
                v == views(*self),
                self.wf(),
                i <= MAX_NUM_SESSIONS,
                forall|k: int|
                    0 <= k < r@.len() ==> {
                        &&& #[trigger] r@[k].index < i
                        &&& first_slot_with_its_path(v, r@[k].index as int)
                        &&& r@[k].path@ == v[r@[k].index as int]->path
                    },
                forall|k1: int, k2: int|
                    0 <= k1 < k2 < r@.len() ==> #[trigger] r@[k1].index < #[trigger] r@[k2].index,
                forall|j: int|
                    0 <= j < i && first_slot_with_its_path(v, j) ==> exists|k: int|
                        0 <= k < r@.len() && #[trigger] r@[k].index == j,
            decreases MAX_NUM_SESSIONS - i,
        {
            match &self.sessions[i] {
                Session::Initialized { path, .. } => {
                    let mut j: usize = 0;
                    while j < i && !shows_path(&self.sessions[j], path)
                        invariant
                            v == views(*self),
                            self.wf(),
                            i < MAX_NUM_SESSIONS,
                            j <= i,
                            v[i as int] is Initialized,
                            path@ == v[i as int]->path,
                            forall|j2: int|
                                0 <= j2 < j && #[trigger] v[j2] is Initialized ==> v[j2]->path
                                    != v[i as int]->path,
                        decreases i - j,
                    {
                        j = j + 1;
                    }
                    if j == i {
                        let ghost before = r@;
                        r.push(SessionInfo { index: i, path: path.clone() });
                        assert(r@[r@.len() - 1].index == i);
                        assert forall|j2: int|
                            0 <= j2 < i + 1 && first_slot_with_its_path(v, j2) implies exists|k: int|
                            0 <= k < r@.len() && #[trigger] r@[k].index == j2 by {
                            if j2 < i {
                                let k = choose|k: int| 0 <= k < before.len() && #[trigger] before[k].index == j2;
                                assert(r@[k] == before[k]);
                            } else {
                                assert(r@[r@.len() - 1].index == j2);
                            }
                        }
                    } else {
                        assert(views(*self)[j as int] == self.sessions@[j as int]@);
                        assert(v[j as int] is Initialized && v[j as int]->path == v[i as int]->path);
                        assert(!first_slot_with_its_path(v, i as int));
                    }
                },
                Session::Uninitialized => {},
            }
            i = i + 1;
        }
        r
    }

    /// Ages the status message by one update cycle.
    pub fn age_user_msg(&mut self)
        ensures
            user_msg_view(final(self).user_msg) == aged(user_msg_view(old(self).user_msg)),
            final(self).sessions == old(self).sessions,
            final(self).current_session_index == old(self).current_session_index,
            final(self).marked_paths == old(self).marked_paths,
            final(self).last_selections == old(self).last_selections,
            same_settings(*old(self), *final(self)),
    {
        let mut m: Option<UserMsg> = None;
        core::mem::swap(&mut self.user_msg, &mut m);
        match m {
            Some(u) => {
                if u.frames_left > 0 {
                    let mut u = u;
                    u.frames_left = u.frames_left - 1;
                    self.user_msg = Some(u);
                }
            },
            None => {},
        }
    }

    /// Replaces the listing of slot `session_info.index`, and of every other
    /// slot showing the same path, with `entries`, marked as the mark set says.
    /// On navigation, the addressed slot's selection is remembered first for
    /// the directory it leaves, and the selection remembered for the new path
    /// is restored.
    pub fn update_entries_for_session(
        &mut self,
        session_info: SessionInfo,
        entries: Vec<Entry>,
        navigated_to: bool,
    )
        requires
            old(self).wf(),
        ensures
            final(self).wf(),
            final(self).user_msg == old(self).user_msg,
            entries_post(
                *old(self),
                *final(self),
                session_info.index,
                session_info.path@,
                entries@,
                navigated_to,
            ),
    {
        if navigated_to && session_info.index < self.sessions.len() {
            match &self.sessions[session_info.index] {
                Session::Initialized { path, entries, selected } => match selected {
                    Some(k) => if *k < entries.len() {
                        let dir = path.clone();
                        let child = entries[*k].entry.path.clone();
                        remember(&mut self.last_selections, dir, child);
                    },
                    None => {},
                },
                Session::Uninitialized => {},
            }
        }
        let ghost v = views(*self);
        let ghost mid = *self;
        let mut i: usize = 0;
        while i < MAX_NUM_SESSIONS
            invariant
                i <= MAX_NUM_SESSIONS,
                v == views(*old(self)),
                self.sessions@.len() == MAX_NUM_SESSIONS,
                self.current_session_index == old(self).current_session_index,
                self.current_session_index < MAX_NUM_SESSIONS,
                self.marked_paths == old(self).marked_paths,
                self.last_selections == mid.last_selections,
                self.user_msg == old(self).user_msg,
                same_settings(*old(self), *self),
                forall|j: int|
                    0 <= j < i ==> #[trigger] views(*self)[j] == refreshed(
                        v,
                        j,
                        session_info.index as int,
                        session_info.path@,
                        entries@,
                        navigated_to,
                        self.last_selections@,
                        marks(*old(self)),
                    ),
                forall|j: int| i <= j < MAX_NUM_SESSIONS ==> #[trigger] views(*self)[j] == v[j],
                forall|j: int| 0 <= j < MAX_NUM_SESSIONS ==> session_wf(#[trigger] self.sessions@[j]@),
                forall|j: int| 0 <= j < MAX_NUM_SESSIONS && (#[trigger] v[j]) is Initialized ==> views(*self)[j] is Initialized,
            decreases MAX_NUM_SESSIONS - i,
        {
            if i == session_info.index {
                let mut s = with_marks(
                    &self.marked_paths,
                    Session::new(session_info.path.clone(), &entries),
                );
                if navigated_to {
                    match recall(&self.last_selections, &session_info.path) {
                        Some(c) => {
                            s.select_path(&c);
                        },
                        None => {},
                    }
                }
                self.swap_session(i, s);
            } else if shows_path(&self.sessions[i], &session_info.path) {
                let s = with_marks(
                    &self.marked_paths,
                    Session::new(session_info.path.clone(), &entries),
                );
                self.swap_session(i, s);
            }
            i = i + 1;
        }
        proof {
            let cur = self.current_session_index as int;
            assert(views(*self)[cur] == self.sessions@[cur]@);
            assert(v[cur] == old(self).sessions@[cur]@);
            assert(unique_paths(self.marked_paths@));
        }
    }
}

} // verus!
