use crate::path::FsPath;
use vstd::prelude::*;

verus! {

/// The child remembered for directory `dir` in a list of (directory, child)
/// pairs, looking from position `i` on: the first pair for `dir` counts.
pub open spec fn lookup_from(pairs: Seq<(FsPath, FsPath)>, dir: Seq<Seq<char>>, i: nat) -> Option<
    Seq<Seq<char>>,
>
    decreases pairs.len() - i,
{
    if i >= pairs.len() {
        None
    } else if pairs[i as int].0@ == dir {
        Some(pairs[i as int].1@)
    } else {
        lookup_from(pairs, dir, i + 1)
    }
}

/// The child remembered for directory `dir`.
pub open spec fn lookup(pairs: Seq<(FsPath, FsPath)>, dir: Seq<Seq<char>>) -> Option<Seq<Seq<char>>> {
    lookup_from(pairs, dir, 0)
}

/// Position of the first pair for `dir` at or after `i`, or the length.
pub open spec fn key_position(pairs: Seq<(FsPath, FsPath)>, dir: Seq<Seq<char>>, i: nat) -> nat
    decreases pairs.len() - i,
{
    if i >= pairs.len() {
        pairs.len()
    } else if pairs[i as int].0@ == dir {
        i
    } else {
        key_position(pairs, dir, i + 1)
    }
}

proof fn lemma_key_position(pairs: Seq<(FsPath, FsPath)>, dir: Seq<Seq<char>>, i: nat)
    requires
        i <= pairs.len(),
    ensures
        i <= key_position(pairs, dir, i) <= pairs.len(),
        key_position(pairs, dir, i) < pairs.len() ==> pairs[key_position(pairs, dir, i) as int].0@
            == dir,
    decreases pairs.len() - i,
{
    if i < pairs.len() && pairs[i as int].0@ != dir {
        lemma_key_position(pairs, dir, i + 1);
    }
}

proof fn lemma_lookup_push(
    pairs: Seq<(FsPath, FsPath)>,
    x: (FsPath, FsPath),
    q: Seq<Seq<char>>,
    i: nat,
)
    requires
        i <= pairs.len(),
        key_position(pairs, x.0@, i) == pairs.len(),
    ensures
        lookup_from(pairs.push(x), q, i) == if q == x.0@ {
            Some(x.1@)
        } else {
            lookup_from(pairs, q, i)
        },
    decreases pairs.len() - i,
{
    let ext = pairs.push(x);
    if i < pairs.len() {
        assert(ext[i as int] == pairs[i as int]);
        assert(pairs[i as int].0@ != x.0@);
        lemma_lookup_push(pairs, x, q, i + 1);
    } else {
        assert(ext[i as int] == x);
        assert(lookup_from(ext, q, i + 1) is None);
    }
}

proof fn lemma_lookup_suffix(
    pairs: Seq<(FsPath, FsPath)>,
    p: int,
    x: (FsPath, FsPath),
    q: Seq<Seq<char>>,
    j: nat,
)
    requires
        0 <= p < j,
        p < pairs.len(),
    ensures
        lookup_from(pairs.update(p, x), q, j) == lookup_from(pairs, q, j),
    decreases pairs.len() - j,
{
    if j < pairs.len() {
        lemma_lookup_suffix(pairs, p, x, q, j + 1);
    }
}

proof fn lemma_lookup_set(
    pairs: Seq<(FsPath, FsPath)>,
    x: (FsPath, FsPath),
    q: Seq<Seq<char>>,
    i: nat,
)
    requires
        i <= key_position(pairs, x.0@, i) < pairs.len(),
    ensures
        lookup_from(pairs.update(key_position(pairs, x.0@, i) as int, x), q, i) == if q == x.0@ {
            Some(x.1@)
        } else {
            lookup_from(pairs, q, i)
        },
    decreases pairs.len() - i,
{
    let p = key_position(pairs, x.0@, i);
    lemma_key_position(pairs, x.0@, i);
    let upd = pairs.update(p as int, x);
    if i < p {
        assert(key_position(pairs, x.0@, i + 1) == p);
        assert(upd[i as int] == pairs[i as int]);
        assert(pairs[i as int].0@ != x.0@);
        lemma_lookup_set(pairs, x, q, i + 1);
    } else {
        assert(upd[i as int] == x);
        assert(pairs[i as int].0@ == x.0@);
        lemma_lookup_suffix(pairs, p as int, x, q, i + 1);
    }
}

/// Remembers `child` as the selection in `dir`, replacing what was
/// remembered for `dir` before.
pub fn remember(pairs: &mut Vec<(FsPath, FsPath)>, dir: FsPath, child: FsPath)
    ensures
        forall|q: Seq<Seq<char>>|
            #[trigger] lookup(final(pairs)@, q) == if q == dir@ {
                Some(child@)
            } else {
                lookup(old(pairs)@, q)
            },
{
    let ghost old_pairs = pairs@;
    let ghost key = dir@;
    let mut i: usize = 0;
    while i < pairs.len() && !pairs[i].0.same_as(&dir)
        invariant
            pairs@ == old_pairs,
            i <= pairs@.len(),
            key == dir@,
            key_position(old_pairs, key, 0) == key_position(old_pairs, key, i as nat),
        decreases pairs.len() - i,
    {
        i = i + 1;
    }
    let x = (dir, child);
    let ghost xv = x;
    if i < pairs.len() {
        assert(key_position(old_pairs, key, i as nat) == i);
        pairs.set(i, x);
        assert forall|q: Seq<Seq<char>>|
            #[trigger] lookup(pairs@, q) == if q == key {
                Some(xv.1@)
            } else {
                lookup(old_pairs, q)
            } by {
            lemma_lookup_set(old_pairs, xv, q, 0);
        }
    } else {
        pairs.push(x);
        assert forall|q: Seq<Seq<char>>|
            #[trigger] lookup(pairs@, q) == if q == key {
                Some(xv.1@)
            } else {
                lookup(old_pairs, q)
            } by {
            lemma_lookup_push(old_pairs, xv, q, 0);
        }
    }
}

/// The child remembered for `dir`, if any.
pub fn recall(pairs: &Vec<(FsPath, FsPath)>, dir: &FsPath) -> (r: Option<FsPath>)
    ensures
        match r {
            Some(c) => lookup(pairs@, dir@) == Some(c@),
            None => lookup(pairs@, dir@) is None,
        },
{
    let mut i: usize = 0;
    while i < pairs.len()
        invariant
            i <= pairs@.len(),
            lookup(pairs@, dir@) == lookup_from(pairs@, dir@, i as nat),
        decreases pairs.len() - i,
    {
        if pairs[i].0.same_as(dir) {
            return Some(pairs[i].1.clone());
        }
        i = i + 1;
    }
    None
}

} // verus!
