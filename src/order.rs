use vstd::prelude::*;

verus! {

/// `lt` is a strict total order: irreflexive, transitive, and any two distinct
/// values are related one way or the other.
pub open spec fn is_strict_total<A>(lt: spec_fn(A, A) -> bool) -> bool {
    &&& forall|x: A| !#[trigger] lt(x, x)
    &&& forall|x: A, y: A, z: A| #[trigger] lt(x, y) && #[trigger] lt(y, z) ==> lt(x, z)
    &&& forall|x: A, y: A| x != y ==> #[trigger] lt(x, y) || #[trigger] lt(y, x)
}

/// Lexicographic comparison of `a` and `b`, looking from position `i` on.
pub open spec fn lex_lt_from<A>(a: Seq<A>, b: Seq<A>, lt: spec_fn(A, A) -> bool, i: nat) -> bool
    decreases a.len() - i,
{
    if i >= a.len() {
        i < b.len()
    } else if i >= b.len() {
        false
    } else if a[i as int] == b[i as int] {
        lex_lt_from(a, b, lt, i + 1)
    } else {
        lt(a[i as int], b[i as int])
    }
}

/// Lexicographic order on sequences induced by the element order `lt`:
/// a proper prefix comes first, otherwise the first differing element decides.
pub open spec fn lex_lt<A>(a: Seq<A>, b: Seq<A>, lt: spec_fn(A, A) -> bool) -> bool {
    lex_lt_from(a, b, lt, 0)
}

proof fn lemma_lex_from_irreflexive<A>(a: Seq<A>, lt: spec_fn(A, A) -> bool, i: nat)
    ensures
        !lex_lt_from(a, a, lt, i),
    decreases a.len() - i,
{
    if i < a.len() {
        lemma_lex_from_irreflexive(a, lt, i + 1);
    }
}

proof fn lemma_lex_from_transitive<A>(
    a: Seq<A>,
    b: Seq<A>,
    c: Seq<A>,
    lt: spec_fn(A, A) -> bool,
    i: nat,
)
    requires
        is_strict_total(lt),
        lex_lt_from(a, b, lt, i),
        lex_lt_from(b, c, lt, i),
    ensures
        lex_lt_from(a, c, lt, i),
    decreases a.len() - i,
{
    if i < a.len() && i < b.len() && i < c.len() {
        let (x, y, z) = (a[i as int], b[i as int], c[i as int]);
        if x == y && y == z {
            lemma_lex_from_transitive(a, b, c, lt, i + 1);
        } else if x == y {
            assert(lt(y, z));
        } else if y == z {
            assert(lt(x, y));
        } else {
            assert(lt(x, y) && lt(y, z));
            assert(lt(x, z));
            if x == z {
                assert(lt(x, x));
            }
        }
    }
}

proof fn lemma_lex_from_total<A>(a: Seq<A>, b: Seq<A>, lt: spec_fn(A, A) -> bool, i: nat)
    requires
        is_strict_total(lt),
        a != b,
        i <= a.len(),
        i <= b.len(),
        forall|j: int| 0 <= j < i ==> a[j] == b[j],
    ensures
        lex_lt_from(a, b, lt, i) || lex_lt_from(b, a, lt, i),
    decreases a.len() - i,
{
    if i >= a.len() && i >= b.len() {
        assert(a =~= b);
    } else if i < a.len() && i < b.len() {
        if a[i as int] == b[i as int] {
            lemma_lex_from_total(a, b, lt, i + 1);
        } else {
            assert(lt(a[i as int], b[i as int]) || lt(b[i as int], a[i as int]));
        }
    }
}

/// The lexicographic extension of a strict total order is a strict total order.
pub proof fn lemma_lex_strict_total<A>(lt: spec_fn(A, A) -> bool)
    requires
        is_strict_total(lt),
    ensures
        forall|a: Seq<A>| !#[trigger] lex_lt(a, a, lt),
        forall|a: Seq<A>, b: Seq<A>, c: Seq<A>|
            #[trigger] lex_lt(a, b, lt) && #[trigger] lex_lt(b, c, lt) ==> lex_lt(a, c, lt),
        forall|a: Seq<A>, b: Seq<A>|
            a != b ==> #[trigger] lex_lt(a, b, lt) || #[trigger] lex_lt(b, a, lt),
{
    assert forall|a: Seq<A>| !#[trigger] lex_lt(a, a, lt) by {
        lemma_lex_from_irreflexive(a, lt, 0);
    }
    assert forall|a: Seq<A>, b: Seq<A>, c: Seq<A>|
        #[trigger] lex_lt(a, b, lt) && #[trigger] lex_lt(b, c, lt) implies lex_lt(a, c, lt) by {
        lemma_lex_from_transitive(a, b, c, lt, 0);
    }
    assert forall|a: Seq<A>, b: Seq<A>| a != b implies #[trigger] lex_lt(a, b, lt) || #[trigger] lex_lt(
        b,
        a,
        lt,
    ) by {
        lemma_lex_from_total(a, b, lt, 0);
    }
}

/// The numeric order on bytes.
pub open spec fn byte_order() -> spec_fn(u8, u8) -> bool {
    |x: u8, y: u8| x < y
}

/// Lexicographic order on byte strings.
pub open spec fn bytes_lt(a: Seq<u8>, b: Seq<u8>) -> bool {
    lex_lt(a, b, byte_order())
}

/// Compares two byte strings lexicographically.
pub fn compare_bytes(a: &[u8], b: &[u8]) -> (r: core::cmp::Ordering)
    ensures
        (r == core::cmp::Ordering::Less) == bytes_lt(a@, b@),
        (r == core::cmp::Ordering::Equal) == (a@ == b@),
        (r == core::cmp::Ordering::Greater) == bytes_lt(b@, a@),
{
    let ghost lt = byte_order();
    proof {
        lemma_lex_strict_total(lt);
    }
    let mut i: usize = 0;
    while i < a.len() && i < b.len()
        invariant
            lt == byte_order(),
            i <= a@.len(),
            i <= b@.len(),
            forall|j: int| 0 <= j < i ==> a@[j] == b@[j],
            bytes_lt(a@, b@) == lex_lt_from(a@, b@, lt, i as nat),
            bytes_lt(b@, a@) == lex_lt_from(b@, a@, lt, i as nat),
        decreases a.len() - i,
    {
        assert(lex_lt_from(a@, b@, lt, i as nat) == if a@[i as int] == b@[i as int] {
            lex_lt_from(a@, b@, lt, (i + 1) as nat)
        } else {
            a@[i as int] < b@[i as int]
        });
        assert(lex_lt_from(b@, a@, lt, i as nat) == if a@[i as int] == b@[i as int] {
            lex_lt_from(b@, a@, lt, (i + 1) as nat)
        } else {
            b@[i as int] < a@[i as int]
        });
        if a[i] < b[i] {
            assert(a@ != b@);
            return core::cmp::Ordering::Less;
        } else if a[i] > b[i] {
            assert(a@ != b@);
            return core::cmp::Ordering::Greater;
        }
        i = i + 1;
    }
    if a.len() < b.len() {
        assert(a@.len() != b@.len());
        core::cmp::Ordering::Less
    } else if a.len() > b.len() {
        assert(a@.len() != b@.len());
        core::cmp::Ordering::Greater
    } else {
        assert(a@ =~= b@);
        proof {
            lemma_lex_from_irreflexive(a@, lt, 0);
        }
        core::cmp::Ordering::Equal
    }
}

} // verus!
