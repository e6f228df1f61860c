use crate::common::{too_small, Pane, MAX_NUM_SESSIONS};
use crate::entry::{entries_sorted, Entry, EntryKind};
use crate::memory::lookup;
use crate::model::{
    current, entries_post, listed_session, marks, refreshed, selected_path, stepped, toggled, views,
    Model, Step,
};
use crate::msg::{event_msg, explorer_key_msg, help_key_msg, InputEvent, KeyInput, Msg};
use crate::path::path_lt;
use crate::session::{
    lemma_position_of, restore_selection, session_wf, RunningState, SessionView,
};
use crate::update::applied;
use vstd::prelude::*;

verus! {

/// In a sorted listing every directory comes before every other kind, and
/// entries of one kind come in ascending path order.
pub proof fn lemma_listing_order(s: Seq<Entry>)
    requires
        entries_sorted(s),
    ensures
        forall|i: int, j: int|
            0 <= i < j < s.len() && #[trigger] s[j].kind == EntryKind::Directory ==> #[trigger] s[i].kind
                == EntryKind::Directory,
        forall|i: int, j: int|
            0 <= i < j < s.len() && #[trigger] s[i].kind == #[trigger] s[j].kind ==> !path_lt(
                s[j]@.path,
                s[i]@.path,
            ),
{
    assert forall|i: int, j: int|
        0 <= i < j < s.len() && #[trigger] s[j].kind == EntryKind::Directory implies #[trigger] s[i].kind
        == EntryKind::Directory by {
        assert(!crate::entry::entry_lt(s[j]@, s[i]@));
    }
    assert forall|i: int, j: int|
        0 <= i < j < s.len() && #[trigger] s[i].kind == #[trigger] s[j].kind implies !path_lt(
        s[j]@.path,
        s[i]@.path,
    ) by {
        assert(!crate::entry::entry_lt(s[j]@, s[i]@));
    }
}

/// Toggling the mark of one path twice leaves the mark set as it was.
pub proof fn lemma_toggle_twice(marks: Set<Seq<Seq<char>>>, p: Seq<Seq<char>>)
    ensures
        toggled(toggled(marks, p), p) == marks,
{
    if marks.contains(p) {
        assert(toggled(toggled(marks, p), p) =~= marks);
    } else {
        assert(toggled(toggled(marks, p), p) =~= marks);
    }
}

/// Moving the cursor keeps it on an item, and an empty listing keeps no
/// cursor.
pub proof fn lemma_selection_bounds(s: SessionView, step: Step)
    requires
        session_wf(s),
    ensures
        session_wf(stepped(s, step)),
        s is Initialized && s->items.len() == 0 ==> stepped(s, step)->selected is None,
        s is Initialized && s->items.len() > 0 ==> (stepped(s, step)->selected matches Some(k) && k
            < s->items.len()),
{
}

/// A well-formed model has four slots, a current index among them, and a
/// live current session while it runs.
pub proof fn lemma_current_slot(m: Model)
    requires
        m.wf(),
    ensures
        views(m).len() == MAX_NUM_SESSIONS,
        0 <= m.current_session_index < MAX_NUM_SESSIONS,
        m.running_state == RunningState::Running ==> current(m) is Initialized,
{
}

/// Two sessions showing the same path get the same items from a listing of
/// that path: the listed entries, marked as the mark set says.
pub proof fn lemma_shared_path_refresh(
    a: Model,
    b: Model,
    i: int,
    j: int,
    index: usize,
    path: Seq<Seq<char>>,
    entries: Seq<Entry>,
    navigated_to: bool,
)
    requires
        a.wf(),
        entries_post(a, b, index, path, entries, navigated_to),
        0 <= i < MAX_NUM_SESSIONS,
        0 <= j < MAX_NUM_SESSIONS,
        views(a)[i] is Initialized && views(a)[i]->path == path,
        views(a)[j] is Initialized && views(a)[j]->path == path,
    ensures
        views(b)[i] is Initialized && views(b)[j] is Initialized,
        views(b)[i]->items == listed_session(path, entries, marks(a))->items,
        views(b)[j]->items == views(b)[i]->items,
{
    assert(views(b)[i] == refreshed(views(a), i, index as int, path, entries, navigated_to, b.last_selections@, marks(a)));
    assert(views(b)[j] == refreshed(views(a), j, index as int, path, entries, navigated_to, b.last_selections@, marks(a)));
}

/// Leaving directory `d` with the cursor on `c` for another directory `p`,
/// then listing `d` again in the same session, puts the cursor back on `c`
/// when `d` still holds `c`.
pub proof fn lemma_selection_restored(
    m0: Model,
    m1: Model,
    m2: Model,
    d: Seq<Seq<char>>,
    c: Seq<Seq<char>>,
    p: Seq<Seq<char>>,
    entries_p: Seq<Entry>,
    entries_d: Seq<Entry>,
)
    requires
        m0.wf(),
        current(m0) is Initialized,
        current(m0)->path == d,
        selected_path(current(m0)) == Some(c),
        p != d,
        entries_post(m0, m1, m0.current_session_index, p, entries_p, true),
        entries_post(m1, m2, m1.current_session_index, d, entries_d, true),
        exists|k: int| 0 <= k < entries_d.len() && #[trigger] entries_d[k]@.path == c,
        entries_d.len() <= usize::MAX,
    ensures
        selected_path(current(m2)) == Some(c),
{
    let cur = m0.current_session_index as int;
    assert(lookup(m1.last_selections@, d) == Some(c));
    assert(views(m1)[cur] == refreshed(views(m0), cur, cur, p, entries_p, true, m1.last_selections@, marks(m0)));
    assert(lookup(m2.last_selections@, d) == Some(c));
    assert(views(m2)[cur] == refreshed(views(m1), cur, cur, d, entries_d, true, m2.last_selections@, marks(m1)));
    let fresh = listed_session(d, entries_d, marks(m1));
    let k = choose|k: int| 0 <= k < entries_d.len() && #[trigger] entries_d[k]@.path == c;
    assert(fresh->items[k].entry.path == c);
    lemma_position_of(fresh->items, c, 0);
    assert(views(m2)[cur] == restore_selection(fresh, c));
    assert(current(m2) == views(m2)[cur]);
}

/// After a resize below the minimum size only quitting keys mean anything;
/// after one back above it, keys map as usual for the active pane.
pub proof fn lemma_small_terminal_gates_keys(a: Model, b: Model, w: u16, h: u16, k: KeyInput)
    requires
        applied(a, Msg::TerminalResize(w, h), b),
    ensures
        too_small(w, h) ==> match event_msg(
            b.terminal_too_small,
            b.active_pane,
            b.marked_paths@.len() > 0,
            InputEvent::Key(k),
        ) {
            Some(m) => m is GoBackOrQuit,
            None => true,
        },
        !too_small(w, h) && k.is_press ==> event_msg(
            b.terminal_too_small,
            b.active_pane,
            b.marked_paths@.len() > 0,
            InputEvent::Key(k),
        ) == match b.active_pane {
            Pane::Explorer => explorer_key_msg(k.code, k.control_only, b.marked_paths@.len() > 0),
            Pane::Help => help_key_msg(k.code, k.control_only),
        },
{
}

} // verus!
