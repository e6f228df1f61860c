use crate::order::{bytes_lt, compare_bytes, is_strict_total, lemma_lex_strict_total, lex_lt};
use vstd::prelude::*;
use vstd::utf8::{encode_utf8, encode_utf8_decode_utf8};

verus! {

/// Order on file names: byte-wise on their UTF-8 encoding.
pub open spec fn name_order() -> spec_fn(Seq<char>, Seq<char>) -> bool {
    |x: Seq<char>, y: Seq<char>| bytes_lt(encode_utf8(x), encode_utf8(y))
}

/// Order on paths: component by component, each compared as a file name.
pub open spec fn path_lt(a: Seq<Seq<char>>, b: Seq<Seq<char>>) -> bool {
    lex_lt(a, b, name_order())
}

/// The name order is a strict total order.
pub proof fn lemma_name_order_strict_total()
    ensures
        is_strict_total(name_order()),
{
    let bo = crate::order::byte_order();
    lemma_lex_strict_total(bo);
    let n = name_order();
    assert forall|x: Seq<char>, y: Seq<char>| x != y implies #[trigger] n(x, y) || #[trigger] n(
        y,
        x,
    ) by {
        encode_utf8_decode_utf8(x);
        encode_utf8_decode_utf8(y);
        assert(encode_utf8(x) != encode_utf8(y));
    }
}

/// The path order is a strict total order.
pub proof fn lemma_path_order()
    ensures
        forall|a: Seq<Seq<char>>| !#[trigger] path_lt(a, a),
        forall|a: Seq<Seq<char>>, b: Seq<Seq<char>>, c: Seq<Seq<char>>|
            #[trigger] path_lt(a, b) && #[trigger] path_lt(b, c) ==> path_lt(a, c),
        forall|a: Seq<Seq<char>>, b: Seq<Seq<char>>|
            a != b ==> #[trigger] path_lt(a, b) || #[trigger] path_lt(b, a),
{
    lemma_name_order_strict_total();
    lemma_lex_strict_total(name_order());
}

/// An absolute filesystem path, held as the sequence of its components below
/// the root (the root itself has none).
#[derive(Debug)]
pub struct FsPath {
    pub components: Vec<String>,
}

impl View for FsPath {
    type V = Seq<Seq<char>>;

    open spec fn view(&self) -> Seq<Seq<char>> {
        self.components@.map_values(|c: String| c@)
    }
}

/// Compares two file names byte-wise.
pub fn compare_names(a: &String, b: &String) -> (r: core::cmp::Ordering)
    ensures
        (r == core::cmp::Ordering::Less) == name_order()(a@, b@),
        (r == core::cmp::Ordering::Equal) == (a@ == b@),
        (r == core::cmp::Ordering::Greater) == name_order()(b@, a@),
{
    let r = compare_bytes(a.as_str().as_bytes(), b.as_str().as_bytes());
    proof {
        encode_utf8_decode_utf8(a@);
        encode_utf8_decode_utf8(b@);
    }
    r
}

impl FsPath {
    /// The root directory.
    pub fn root() -> (r: FsPath)
        ensures
            r@ == Seq::<Seq<char>>::empty(),
    {
        let r = FsPath { components: Vec::new() };
        assert(r@ =~= Seq::<Seq<char>>::empty());
        r
    }

    /// The path made of the given components.
    pub fn from_components(components: Vec<String>) -> (r: FsPath)
        ensures
            r.components == components,
    {
        FsPath { components }
    }

    /// This path with one more component `name` at its end.
    pub fn join(&self, name: &str) -> (r: FsPath)
        ensures
            r@ == self@.push(name@),
    {
        let mut components = self.components.clone();
        assert(components@ =~= self.components@);
        components.push(String::from_str(name));
        let r = FsPath { components };
        assert(r@ =~= self@.push(name@));
        r
    }

    /// The last component, unless this is the root.
    pub fn file_name(&self) -> (r: Option<String>)
        ensures
            self@.len() == 0 ==> r is None,
            self@.len() > 0 ==> (r matches Some(n) && n@ == self@.last()),
    {
        let n = self.components.len();
        if n == 0 {
            None
        } else {
            Some(self.components[n - 1].clone())
        }
    }

    /// The path without its last component, unless this is the root.
    pub fn parent(&self) -> (r: Option<FsPath>)
        ensures
            self@.len() == 0 ==> r is None,
            self@.len() > 0 ==> (r matches Some(p) && p@ == self@.drop_last()),
    {
        let n = self.components.len();
        if n == 0 {
            return None;
        }
        let mut components: Vec<String> = Vec::new();
        let mut i: usize = 0;
        while i < n - 1
            invariant
                n == self.components@.len(),
                0 < n,
                i <= n - 1,
                components@.len() == i,
                forall|k: int| 0 <= k < i ==> components@[k]@ == self.components@[k]@,
            decreases n - 1 - i,
        {
            components.push(self.components[i].clone());
            i = i + 1;
        }
        let p = FsPath { components };
        assert(p@ =~= self@.drop_last());
        Some(p)
    }

    /// Whether two paths have the same components.
    pub fn same_as(&self, other: &FsPath) -> (r: bool)
        ensures
            r == (self@ == other@),
    {
        let n = self.components.len();
        if n != other.components.len() {
            assert(self@.len() != other@.len());
            return false;
        }
        let mut i: usize = 0;
        while i < n
            invariant
                n == self.components@.len(),
                n == other.components@.len(),
                i <= n,
                forall|k: int| 0 <= k < i ==> self@[k] == other@[k],
            decreases n - i,
        {
            if self.components[i] != other.components[i] {
                assert(self@[i as int] != other@[i as int]);
                return false;
            }
            i = i + 1;
        }
        assert(self@ =~= other@);
        true
    }

    /// Compares two paths component by component.
    pub fn compare(&self, other: &FsPath) -> (r: core::cmp::Ordering)
        ensures
            (r == core::cmp::Ordering::Less) == path_lt(self@, other@),
            (r == core::cmp::Ordering::Equal) == (self@ == other@),
            (r == core::cmp::Ordering::Greater) == path_lt(other@, self@),
    {
        let ghost lt = name_order();
        proof {
            lemma_path_order();
        }
        let a = &self.components;
        let b = &other.components;
        let mut i: usize = 0;
        while i < a.len() && i < b.len()
            invariant
                lt == name_order(),
                a == self.components,
                b == other.components,
                i <= self@.len(),
                i <= other@.len(),
                forall|j: int| 0 <= j < i ==> self@[j] == other@[j],
                path_lt(self@, other@) == crate::order::lex_lt_from(self@, other@, lt, i as nat),
                path_lt(other@, self@) == crate::order::lex_lt_from(other@, self@, lt, i as nat),
            decreases a.len() - i,
        {
            let c = compare_names(&a[i], &b[i]);
            match c {
                core::cmp::Ordering::Equal => {},
                _ => {
                    assert(self@[i as int] != other@[i as int]);
                    assert(self@ != other@);
                    return c;
                },
            }
            i = i + 1;
        }
        if a.len() < b.len() {
            assert(self@.len() != other@.len());
            core::cmp::Ordering::Less
        } else if a.len() > b.len() {
            assert(self@.len() != other@.len());
            core::cmp::Ordering::Greater
        } else {
            assert(self@ =~= other@);
            core::cmp::Ordering::Equal
        }
    }
}

impl Clone for FsPath {
    fn clone(&self) -> (r: Self)
        ensures
            r@ == self@,
    {
        let components = self.components.clone();
        assert(components@ =~= self.components@);
        FsPath { components }
    }
}

impl PartialEq for FsPath {
    fn eq(&self, other: &FsPath) -> (r: bool) {
        self.same_as(other)
    }
}

impl vstd::std_specs::cmp::PartialEqSpecImpl for FsPath {
    open spec fn obeys_eq_spec() -> bool {
        true
    }

    open spec fn eq_spec(&self, other: &FsPath) -> bool {
        self@ == other@
    }
}

} // verus!
