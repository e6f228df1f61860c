
use crate::entry::{Entry, EntryView};
use crate::path::FsPath;
use vstd::prelude::*;

verus! {

/// How many update cycles a new user message stays visible.
pub const USER_MESSAGE_DEFAULT_FRAMES: u16 = 4;

#[derive(Debug, Clone, Copy, PartialEq, Eq, Structural)]
pub enum RunningState {
    Running,
    Done,
}

#[derive(Debug, Clone, Copy, PartialEq, Eq, Structural)]
pub enum MessageKind {
    Info,
    Error,
}

/// A transient status line message.
#[derive(Debug)]
pub struct UserMsg {
    pub frames_left: u16,
    pub value: String,
    pub kind: MessageKind,
}

pub struct UserMsgView {
    pub frames_left: u16,
    pub text: Seq<char>,
    pub kind: MessageKind,
}

impl View for UserMsg {
    type V = UserMsgView;

    open spec fn view(&self) -> UserMsgView {
        UserMsgView { frames_left: self.frames_left, text: self.value@, kind: self.kind }
    }
}

pub open spec fn user_msg_view(m: Option<UserMsg>) -> Option<UserMsgView> {
    match m {
        Some(u) => Some(u@),
        None => None,
    }
}

/// A fresh message with the given text and severity.
pub open spec fn fresh_msg(text: Seq<char>, kind: MessageKind) -> UserMsgView {
    UserMsgView { frames_left: USER_MESSAGE_DEFAULT_FRAMES, text, kind }
}

impl UserMsg {
    pub fn info(message: String) -> (r: UserMsg)
        ensures
            r@ == fresh_msg(message@, MessageKind::Info),
    {
        UserMsg { frames_left: USER_MESSAGE_DEFAULT_FRAMES, value: message, kind: MessageKind::Info }
    }

    pub fn error(message: String) -> (r: UserMsg)
        ensures
            r@ == fresh_msg(message@, MessageKind::Error),
    {
        UserMsg {
            frames_left: USER_MESSAGE_DEFAULT_FRAMES,
            value: message,
            kind: MessageKind::Error,
        }
    }

    pub fn with_frames_left(self, frames_left: u16) -> (r: UserMsg)
        ensures
            r@ == (UserMsgView { frames_left, ..self@ }),
    {
        let mut m = self;
        m.frames_left = frames_left;
        m
    }

    /// The message shown when the state turned out inconsistent.
    pub fn internal_error() -> (r: UserMsg)
        ensures
            r@ == fresh_msg("something went wrong; please report this as a bug"@, MessageKind::Error),
    {
        UserMsg::error(String::from_str("something went wrong; please report this as a bug"))
    }
}

/// An entry as listed in a session, with its mark flag.
#[derive(Debug)]
pub struct EntryItem {
    pub entry: Entry,
    pub marked: bool,
}

pub struct ItemView {
    pub entry: EntryView,
    pub marked: bool,
}

impl View for EntryItem {
    type V = ItemView;

    open spec fn view(&self) -> ItemView {
        ItemView { entry: self.entry@, marked: self.marked }
    }
}

impl Clone for EntryItem {
    fn clone(&self) -> (r: Self)
        ensures
            r@ == self@,
    {
        EntryItem { entry: self.entry.clone(), marked: self.marked }
    }
}

/// One browsing view: empty slot, or a directory with its listed items and
/// the cursor.
#[derive(Debug)]
pub enum Session {
    Uninitialized,
    Initialized { path: FsPath, entries: Vec<EntryItem>, selected: Option<usize> },
}

pub enum SessionView {
    Uninitialized,
    Initialized { path: Seq<Seq<char>>, items: Seq<ItemView>, selected: Option<usize> },
}

pub open spec fn items_view(v: Seq<EntryItem>) -> Seq<ItemView> {
    v.map_values(|it: EntryItem| it@)
}

impl View for Session {
    type V = SessionView;

    open spec fn view(&self) -> SessionView {
        match self {
            Session::Uninitialized => SessionView::Uninitialized,
            Session::Initialized { path, entries, selected } => SessionView::Initialized {
                path: path@,
                items: items_view(entries@),
                selected: *selected,
            },
        }
    }
}

/// The cursor of a session is absent exactly when it lists nothing, and
/// otherwise points at one of its items.
pub open spec fn session_wf(s: SessionView) -> bool {
    match s {
        SessionView::Uninitialized => true,
        SessionView::Initialized { items, selected, .. } => {
            &&& (selected is None <==> items.len() == 0)
            &&& (selected matches Some(k) ==> k < items.len())
        },
    }
}

/// Freshly listed items: nothing marked.
pub open spec fn fresh_items(entries: Seq<Entry>) -> Seq<ItemView> {
    entries.map_values(|e: Entry| ItemView { entry: e@, marked: false })
}

/// A session that has just listed `entries` at `path`: cursor on the first
/// item, if any.
pub open spec fn fresh_session(path: Seq<Seq<char>>, entries: Seq<Entry>) -> SessionView {
    SessionView::Initialized {
        path,
        items: fresh_items(entries),
        selected: if entries.len() == 0 {
            None
        } else {
            Some(0)
        },
    }
}

/// Position of the first item at or after `i` whose path is `p`, or the
/// number of items when there is none.
pub open spec fn position_of(items: Seq<ItemView>, p: Seq<Seq<char>>, i: nat) -> nat
    decreases items.len() - i,
{
    if i >= items.len() {
        items.len()
    } else if items[i as int].entry.path == p {
        i
    } else {
        position_of(items, p, i + 1)
    }
}

/// The session with its cursor moved onto the first item whose path is `p`,
/// if there is one.
pub open spec fn restore_selection(s: SessionView, p: Seq<Seq<char>>) -> SessionView {
    match s {
        SessionView::Initialized { path, items, selected } => {
            let k = position_of(items, p, 0);
            if k < items.len() {
                SessionView::Initialized { path, items, selected: Some(k as usize) }
            } else {
                s
            }
        },
        SessionView::Uninitialized => s,
    }
}

/// `position_of` finds the first matching item.
pub proof fn lemma_position_of(items: Seq<ItemView>, p: Seq<Seq<char>>, i: nat)
    ensures
        position_of(items, p, i) <= items.len(),
        i <= items.len() ==> i <= position_of(items, p, i),
        position_of(items, p, i) < items.len() ==> items[position_of(items, p, i) as int].entry.path
            == p,
        forall|j: int| i <= j < items.len() && items[j].entry.path == p ==> position_of(items, p, i) <= j,
    decreases items.len() - i,
{
    if i < items.len() && items[i as int].entry.path != p {
        lemma_position_of(items, p, i + 1);
    }
}

/// The session with every item's mark flag set from the mark set `marks`.
pub open spec fn synced(s: SessionView, marks: Set<Seq<Seq<char>>>) -> SessionView {
    match s {
        SessionView::Initialized { path, items, selected } => SessionView::Initialized {
            path,
            items: items.map_values(
                |it: ItemView| ItemView { entry: it.entry, marked: marks.contains(it.entry.path) },
            ),
            selected,
        },
        SessionView::Uninitialized => s,
    }
}

fn clone_items(v: &Vec<EntryItem>) -> (r: Vec<EntryItem>)
    ensures
        items_view(r@) == items_view(v@),
{
    let mut r: Vec<EntryItem> = Vec::new();
    let mut i: usize = 0;
    while i < v.len()
        invariant
            i <= v@.len(),
            items_view(r@) == items_view(v@).take(i as int),
        decreases v.len() - i,
    {
        let it = v[i].clone();
        let ghost before = r@;
        r.push(it);
        proof {
            assert(r@ == before.push(it));
            assert(items_view(r@) =~= items_view(before).push(v@[i as int]@));
            assert(items_view(v@).take(i + 1) =~= items_view(v@).take(i as int).push(v@[i as int]@));
        }
        i = i + 1;
    }
    assert(items_view(v@).take(i as int) =~= items_view(v@));
    r
}

/// Position of the first item whose path is `p`, or the number of items.
fn find_path(entries: &Vec<EntryItem>, p: &FsPath) -> (r: usize)
    ensures
        r == position_of(items_view(entries@), p@, 0),
{
    let ghost items = items_view(entries@);
    let mut i: usize = 0;
    while i < entries.len()
        invariant
            items == items_view(entries@),
            i <= entries@.len(),
            position_of(items, p@, 0) == position_of(items, p@, i as nat),
        decreases entries.len() - i,
    {
        if entries[i].entry.path.same_as(p) {
            return i;
        }
        i = i + 1;
    }
    i
}

impl Clone for Session {
    fn clone(&self) -> (r: Self)
        ensures
            r@ == self@,
    {
        match self {
            Session::Uninitialized => Session::Uninitialized,
            Session::Initialized { path, entries, selected } => Session::Initialized {
                path: path.clone(),
                entries: clone_items(entries),
                selected: *selected,
            },
        }
    }
}

impl Session {
    pub fn new_empty(path: FsPath) -> (r: Session)
        ensures
            r@ == (SessionView::Initialized { path: path@, items: Seq::empty(), selected: None }),
    {
        let r = Session::Initialized { path, entries: Vec::new(), selected: None };
        assert(items_view(Seq::<EntryItem>::empty()) =~= Seq::empty());
        r
    }

    pub fn new(path: FsPath, entries: &Vec<Entry>) -> (r: Session)
        ensures
            r@ == fresh_session(path@, entries@),
    {
        let mut items: Vec<EntryItem> = Vec::new();
        let mut i: usize = 0;
        while i < entries.len()
            invariant
                i <= entries@.len(),
                items_view(items@) == fresh_items(entries@).take(i as int),
            decreases entries.len() - i,
        {
            let it = EntryItem { entry: entries[i].clone(), marked: false };
            let ghost before = items@;
            items.push(it);
            proof {
                assert(items_view(items@) =~= items_view(before).push(it@));
                assert(fresh_items(entries@).take(i + 1) =~= fresh_items(entries@).take(
                    i as int,
                ).push(it@));
            }
            i = i + 1;
        }
        assert(fresh_items(entries@).take(i as int) =~= fresh_items(entries@));
        let selected = if entries.len() == 0 {
            None
        } else {
            Some(0)
        };
        Session::Initialized { path, entries: items, selected }
    }

    /// Moves the cursor onto the first item at `path_to_select`; tells
    /// whether there was one.
    pub fn select_path(&mut self, path_to_select: &FsPath) -> (r: bool)
        ensures
            final(self)@ == restore_selection(old(self)@, path_to_select@),
            r == (match old(self)@ {
                SessionView::Initialized { items, .. } => position_of(items, path_to_select@, 0)
                    < items.len(),
                SessionView::Uninitialized => false,
            }),
    {
        let mut taken = Session::Uninitialized;
        core::mem::swap(self, &mut taken);
        let (r, back) = match taken {
            Session::Uninitialized => (false, Session::Uninitialized),
            Session::Initialized { path, entries, selected } => {
                let k = find_path(&entries, path_to_select);
                if k < entries.len() {
                    (true, Session::Initialized { path, entries, selected: Some(k) })
                } else {
                    (false, Session::Initialized { path, entries, selected })
                }
            },
        };
        *self = back;
        r
    }

    pub fn is_initialized(&self) -> (r: bool)
        ensures
            r == (self@ is Initialized),
    {
        match self {
            Session::Uninitialized => false,
            Session::Initialized { .. } => true,
        }
    }
}

} // verus!
