use crate::path::{lemma_path_order, path_lt, FsPath};
use vstd::multiset::Multiset;
use vstd::prelude::*;
use vstd::seq_lib::{to_multiset_build, to_multiset_insert};

verus! {

/// What a filesystem child is, as told by a metadata probe that does not
/// follow symbolic links.
#[derive(Debug, Clone, Copy, PartialEq, Eq, Structural, Hash)]
pub enum EntryKind {
    Directory,
    File,
    Symlink,
    Unknown,
}

/// Rank of a kind in the listing order: directories, then symbolic links,
/// then files, then the rest.
pub open spec fn kind_rank(k: EntryKind) -> nat {
    match k {
        EntryKind::Directory => 0,
        EntryKind::Symlink => 1,
        EntryKind::File => 2,
        EntryKind::Unknown => 3,
    }
}

/// Maps the answers of a metadata probe to a kind; a regular file wins over
/// a directory, which wins over a symbolic link.
pub fn kind_from_metadata(is_file: bool, is_dir: bool, is_symlink: bool) -> (r: EntryKind)
    ensures
        r == (if is_file {
            EntryKind::File
        } else if is_dir {
            EntryKind::Directory
        } else if is_symlink {
            EntryKind::Symlink
        } else {
            EntryKind::Unknown
        }),
{
    if is_file {
        EntryKind::File
    } else if is_dir {
        EntryKind::Directory
    } else if is_symlink {
        EntryKind::Symlink
    } else {
        EntryKind::Unknown
    }
}

/// One child of a directory: its absolute path and its kind.
#[derive(Debug)]
pub struct Entry {
    pub path: FsPath,
    pub kind: EntryKind,
}

/// The mathematical value of an entry.
pub struct EntryView {
    pub path: Seq<Seq<char>>,
    pub kind: EntryKind,
}

impl View for Entry {
    type V = EntryView;

    open spec fn view(&self) -> EntryView {
        EntryView { path: self.path@, kind: self.kind }
    }
}

/// Listing order: by kind rank first, then by path.
pub open spec fn entry_lt(a: EntryView, b: EntryView) -> bool {
    ||| kind_rank(a.kind) < kind_rank(b.kind)
    ||| (a.kind == b.kind && path_lt(a.path, b.path))
}

/// No entry of `s` comes after one that it precedes in listing order.
pub open spec fn entries_sorted(s: Seq<Entry>) -> bool {
    forall|i: int, j: int| 0 <= i < j < s.len() ==> !entry_lt(#[trigger] s[j]@, #[trigger] s[i]@)
}

/// The name shown for an entry: its last path component, with a `/` after a
/// directory's; the root has no name and shows as `unknown`.
pub open spec fn display_name(e: EntryView) -> Seq<char> {
    let base = if e.path.len() == 0 {
        "unknown"@
    } else {
        e.path.last()
    };
    if e.kind == EntryKind::Directory {
        base + "/"@
    } else {
        base
    }
}

/// Listing order is irreflexive and transitive.
pub proof fn lemma_entry_order()
    ensures
        forall|a: EntryView| !#[trigger] entry_lt(a, a),
        forall|a: EntryView, b: EntryView, c: EntryView|
            #[trigger] entry_lt(a, b) && #[trigger] entry_lt(b, c) ==> entry_lt(a, c),
{
    lemma_path_order();
}

impl Entry {
    pub fn new(path: FsPath, kind: EntryKind) -> (r: Entry)
        ensures
            r@ == (EntryView { path: path@, kind }),
    {
        Entry { path, kind }
    }

    /// The name to show for this entry (see `display_name`).
    pub fn path_str(&self) -> (r: String)
        ensures
            r@ == display_name(self@),
    {
        let base = match self.path.file_name() {
            Some(n) => n,
            None => String::from_str("unknown"),
        };
        match self.kind {
            EntryKind::Directory => base.concat("/"),
            _ => base,
        }
    }

    pub fn kind(&self) -> (r: EntryKind)
        ensures
            r == self.kind,
    {
        self.kind
    }

    pub fn path(&self) -> (r: &FsPath)
        ensures
            r == &self.path,
    {
        &self.path
    }

    /// Whether `self` comes strictly before `other` in listing order.
    pub fn precedes(&self, other: &Entry) -> (r: bool)
        ensures
            r == entry_lt(self@, other@),
    {
        let (a, b) = (rank_of(self.kind), rank_of(other.kind));
        if a != b {
            a < b
        } else {
            match self.path.compare(&other.path) {
                core::cmp::Ordering::Less => true,
                _ => false,
            }
        }
    }

    /// Whether both entries name the same path.
    pub fn same_path(&self, other: &Entry) -> (r: bool)
        ensures
            r == (self@.path == other@.path),
    {
        self.path.same_as(&other.path)
    }
}

fn rank_of(k: EntryKind) -> (r: u8)
    ensures
        r == kind_rank(k),
{
    match k {
        EntryKind::Directory => 0,
        EntryKind::Symlink => 1,
        EntryKind::File => 2,
        EntryKind::Unknown => 3,
    }
}

impl Clone for Entry {
    fn clone(&self) -> (r: Self)
        ensures
            r@ == self@,
    {
        Entry { path: self.path.clone(), kind: self.kind }
    }
}

impl PartialEq for Entry {
    fn eq(&self, other: &Entry) -> (r: bool) {
        self.same_path(other)
    }
}

impl vstd::std_specs::cmp::PartialEqSpecImpl for Entry {
    open spec fn obeys_eq_spec() -> bool {
        true
    }

    open spec fn eq_spec(&self, other: &Entry) -> bool {
        self@.path == other@.path
    }
}

/// Sorts entries into listing order: directories, symbolic links, files,
/// other kinds, and by path within one kind. The result holds the same entries.
pub fn sort_entries(entries: Vec<Entry>) -> (r: Vec<Entry>)
    ensures
        entries_sorted(r@),
        r@.to_multiset() == entries@.to_multiset(),
{
    broadcast use vstd::seq_lib::group_to_multiset_ensures, vstd::multiset::group_multiset_properties;

    let mut rest = entries;
    let mut out: Vec<Entry> = Vec::new();
    assert(out@.to_multiset() =~= Multiset::empty());
    while rest.len() > 0
        invariant
            entries_sorted(out@),
            out@.to_multiset().add(rest@.to_multiset()) == entries@.to_multiset(),
        decreases rest.len(),
    {
        let ghost before = rest@;
        let x = rest.pop().unwrap();
        proof {
            assert(before =~= rest@.push(x));
            to_multiset_build(rest@, x);
        }
        let mut p: usize = 0;
        while p < out.len() && !x.precedes(&out[p])
            invariant
                entries_sorted(out@),
                out@.to_multiset().add(rest@.to_multiset().insert(x)) == entries@.to_multiset(),
                p <= out@.len(),
                forall|k: int| 0 <= k < p ==> !entry_lt(x@, #[trigger] out@[k]@),
            decreases out.len() - p,
        {
            p = p + 1;
        }
        let ghost old_out = out@;
        out.insert(p, x);
        proof {
            lemma_entry_order();
            to_multiset_insert(old_out, p as int, x);
            assert(out@.to_multiset().add(rest@.to_multiset()) =~= entries@.to_multiset());
            assert forall|i: int, j: int| 0 <= i < j < out@.len() implies !entry_lt(
                #[trigger] out@[j]@,
                #[trigger] out@[i]@,
            ) by {
                if i < p && j > p {
                    assert(out@[i] == old_out[i]);
                    assert(out@[j] == old_out[j - 1]);
                } else if i < p && j == p {
                    assert(out@[i] == old_out[i]);
                } else if i == p {
                    assert(out@[j] == old_out[j - 1]);
                    assert(p < old_out.len());
                    assert(entry_lt(x@, old_out[p as int]@));
                    if entry_lt(old_out[j - 1]@, x@) {
                        assert(entry_lt(old_out[j - 1]@, old_out[p as int]@));
                    }
                } else if i > p {
                    assert(out@[i] == old_out[i - 1]);
                    assert(out@[j] == old_out[j - 1]);
                } else {
                    assert(out@[i] == old_out[i]);
                    assert(out@[j] == old_out[j]);
                }
            }
        }
    }
    assert(rest@.to_multiset() =~= Multiset::empty());
    assert(out@.to_multiset() =~= entries@.to_multiset());
    out
}

} // verus!
