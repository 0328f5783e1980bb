//! Listing orders: the `ORDER BY` of each table's listing, and the sort that
//! brings rows into it.
use vstd::prelude::*;
use crate::common::{Article, Page, Tag, Category, Setting};
use crate::text::{text_lt, text_less, lemma_text_order};

verus! {

/// Rows with a strict listing order in which rows of different keys are
/// always comparable.
pub trait Listed: Sized {
    /// Whether `self` comes before `other` in the listing.
    spec fn before(self, other: Self) -> bool;

    /// Whether two rows have the same key (the same id, or the same setting
    /// key), so that the listing cannot tell them apart.
    spec fn same_key(self, other: Self) -> bool;

    fn precedes(&self, other: &Self) -> (r: bool)
        ensures
            r == self.before(*other),
    ;

    fn copy_item(&self) -> (r: Self)
        ensures
            r == *self,
    ;

    /// The listing order is irreflexive, transitive, and total on rows of
    /// different keys.
    proof fn lemma_order(a: Self, b: Self, c: Self)
        ensures
            !a.before(a),
            a.before(b) && b.before(c) ==> a.before(c),
            !a.same_key(b) ==> a.before(b) || b.before(a),
    ;
}

/// No two rows of `s` have the same key.
pub open spec fn keys_distinct<T: Listed>(s: Seq<T>) -> bool {
    forall|i: int, j: int| 0 <= i < s.len() && 0 <= j < s.len() && i != j ==> !(#[trigger] s[i]).same_key(
        #[trigger] s[j],
    )
}

/// Every row of `s` comes before every later row.
pub open spec fn in_order<T: Listed>(s: Seq<T>) -> bool {
    forall|i: int, j: int| 0 <= i < j < s.len() ==> (#[trigger] s[i]).before(#[trigger] s[j])
}

/// `r` holds the rows of `s`, each once, in listing order.
pub open spec fn is_listing<T: Listed>(s: Seq<T>, r: Seq<T>) -> bool {
    &&& r.len() == s.len()
    &&& in_order(r)
    &&& forall|x: T| r.contains(x) <==> s.contains(x)
}

/// The rows of `s` in listing order (for rows of distinct keys there is
/// exactly one such sequence; see `lemma_listing_unique`).
pub open spec fn listing<T: Listed>(s: Seq<T>) -> Seq<T> {
    choose|r: Seq<T>| is_listing(s, r)
}

proof fn lemma_ordered_same_rows_equal<T: Listed>(a: Seq<T>, b: Seq<T>)
    requires
        a.len() == b.len(),
        in_order(a),
        in_order(b),
        forall|x: T| a.contains(x) <==> b.contains(x),
    ensures
        a == b,
    decreases a.len(),
{
    if a.len() > 0 {
        assert(a.contains(a[0]));
        assert(b.contains(b[0]));
        let j = choose|j: int| 0 <= j < b.len() && b[j] == a[0];
        let i = choose|i: int| 0 <= i < a.len() && a[i] == b[0];
        if j > 0 {
            T::lemma_order(b[0], b[j], b[0]);
            if i == 0 {
                assert(b[0].before(b[j]));
            } else {
                assert(a[0].before(a[i]));
                T::lemma_order(a[0], b[0], a[0]);
            }
        }
        assert(a[0] == b[0]);
        let a1 = a.drop_first();
        let b1 = b.drop_first();
        assert forall|x: T| a1.contains(x) implies b1.contains(x) by {
            let k = choose|k: int| 0 <= k < a1.len() && a1[k] == x;
            assert(a[k + 1] == x);
            assert(a.contains(x));
            let m = choose|m: int| 0 <= m < b.len() && b[m] == x;
            if m == 0 {
                T::lemma_order(x, x, x);
                assert(a[0].before(a[k + 1]));
            }
            assert(b1[m - 1] == x);
        }
        assert forall|x: T| b1.contains(x) implies a1.contains(x) by {
            let k = choose|k: int| 0 <= k < b1.len() && b1[k] == x;
            assert(b[k + 1] == x);
            assert(b.contains(x));
            let m = choose|m: int| 0 <= m < a.len() && a[m] == x;
            if m == 0 {
                T::lemma_order(x, x, x);
                assert(b[0].before(b[k + 1]));
            }
            assert(a1[m - 1] == x);
        }
        assert(in_order(a1)) by {
            assert forall|p: int, q: int| 0 <= p < q < a1.len() implies (#[trigger] a1[p]).before(
                #[trigger] a1[q],
            ) by {
                assert(a[p + 1].before(a[q + 1]));
            }
        }
        assert(in_order(b1)) by {
            assert forall|p: int, q: int| 0 <= p < q < b1.len() implies (#[trigger] b1[p]).before(
                #[trigger] b1[q],
            ) by {
                assert(b[p + 1].before(b[q + 1]));
            }
        }
        lemma_ordered_same_rows_equal(a1, b1);
        assert(a =~= b) by {
            assert forall|k: int| 0 <= k < a.len() implies a[k] == b[k] by {
                if k > 0 {
                    assert(a[k] == a1[k - 1]);
                    assert(b[k] == b1[k - 1]);
                }
            }
        }
    }
}

/// There is only one way to list a set of rows: two listings of the same
/// rows are equal.
pub proof fn lemma_listing_unique<T: Listed>(s: Seq<T>, a: Seq<T>, b: Seq<T>)
    requires
        is_listing(s, a),
        is_listing(s, b),
    ensures
        a == b,
{
    lemma_ordered_same_rows_equal(a, b);
}

/// A listing that was computed is the listing.
pub proof fn lemma_is_the_listing<T: Listed>(s: Seq<T>, r: Seq<T>)
    requires
        is_listing(s, r),
    ensures
        listing(s) == r,
{
    lemma_listing_unique(s, listing(s), r);
}

/// Where `x` goes in the ordered rows `r`: before the first row that it
/// comes before, else at the end.
pub open spec fn insert_position<T: Listed>(r: Seq<T>, x: T) -> int {
    let i = super::table::first_match(r, |y: T| x.before(y));
    if i < 0 {
        r.len() as int
    } else {
        i
    }
}

/// Rows of distinct keys have a listing: `listing(s)` holds the rows of `s`,
/// each once, in listing order.
pub proof fn lemma_listing_exists<T: Listed>(s: Seq<T>)
    requires
        keys_distinct(s),
    ensures
        is_listing(s, listing(s)),
    decreases s.len(),
{
    if s.len() == 0 {
        let e = Seq::<T>::empty();
        assert(is_listing(s, e));
    } else {
        let s0 = s.drop_last();
        let x = s.last();
        assert(keys_distinct(s0)) by {
            assert forall|i: int, j: int| 0 <= i < s0.len() && 0 <= j < s0.len() && i != j implies !(
            #[trigger] s0[i]).same_key(#[trigger] s0[j]) by {
                assert(s0[i] == s[i] && s0[j] == s[j]);
            }
        }
        lemma_listing_exists(s0);
        let r0 = listing(s0);
        let pr = |y: T| x.before(y);
        super::table::lemma_first_match(r0, pr);
        let p = insert_position(r0, x);
        let r = r0.insert(p, x);
        assert forall|k: int| 0 <= k < r0.len() implies !x.same_key(#[trigger] r0[k]) by {
            assert(r0.contains(r0[k]));
            assert(s0.contains(r0[k]));
            let m = choose|m: int| 0 <= m < s0.len() && s0[m] == r0[k];
            assert(s[m] == r0[k]);
            assert(!s[s.len() - 1].same_key(s[m]));
        }
        assert forall|k: int| 0 <= k < p implies !x.before(#[trigger] r0[k]) by {}
        assert forall|a: int, b: int| 0 <= a < b < r.len() implies (#[trigger] r[a]).before(#[trigger] r[b]) by {
            if b < p {
                assert(r[a] == r0[a] && r[b] == r0[b]);
            } else if a > p {
                assert(r[a] == r0[a - 1] && r[b] == r0[b - 1]);
            } else if a == p {
                assert(r[b] == r0[b - 1]);
                assert(x.before(r0[p]));
                if b - 1 > p {
                    assert(r0[p].before(r0[b - 1]));
                    T::lemma_order(x, r0[p], r0[b - 1]);
                }
            } else {
                assert(r[a] == r0[a]);
                assert(!pr(r0[a]));
                assert(!x.same_key(r0[a]));
                T::lemma_order(x, r0[a], x);
                assert(r0[a].before(x));
                if b > p {
                    assert(r[b] == r0[b - 1]);
                    assert(x.before(r0[p]));
                    if b - 1 > p {
                        assert(r0[p].before(r0[b - 1]));
                        T::lemma_order(x, r0[p], r0[b - 1]);
                    }
                    T::lemma_order(r0[a], x, r0[b - 1]);
                }
            }
        }
        assert forall|y: T| r.contains(y) <==> s.contains(y) by {
            if r.contains(y) {
                let k = choose|k: int| 0 <= k < r.len() && r[k] == y;
                if k == p {
                    assert(s[s.len() - 1] == y);
                } else {
                    let k0 = if k < p { k } else { k - 1 };
                    assert(r0[k0] == y);
                    assert(r0.contains(y));
                    assert(s0.contains(y));
                    let m = choose|m: int| 0 <= m < s0.len() && s0[m] == y;
                    assert(s[m] == y);
                }
            }
            if s.contains(y) {
                let m = choose|m: int| 0 <= m < s.len() && s[m] == y;
                if m == s.len() - 1 {
                    assert(r[p] == y);
                } else {
                    assert(s0[m] == y);
                    assert(s0.contains(y));
                    assert(r0.contains(y));
                    let k = choose|k: int| 0 <= k < r0.len() && r0[k] == y;
                    if k < p {
                        assert(r[k] == y);
                    } else {
                        assert(r[k + 1] == y);
                    }
                }
            }
        }
        assert(is_listing(s, r));
        lemma_is_the_listing(s, r);
    }
}

/// Copies the rows of `rows` into listing order (an insertion sort).
pub fn sort_rows<T: Listed>(rows: &Vec<T>) -> (r: Vec<T>)
    requires
        keys_distinct(rows@),
    ensures
        is_listing(rows@, r@),
        r@ == listing(rows@),
{
    let mut out: Vec<T> = Vec::new();
    let n = rows.len();
    let mut i: usize = 0;
    while i < n
        invariant
            n == rows.len(),
            i <= n,
            keys_distinct(rows@),
            out.len() == i,
            in_order(out@),
            forall|k: int| 0 <= k < out.len() ==> exists|m: int| 0 <= m < i && #[trigger] out@[k] == rows@[m],
            forall|m: int| 0 <= m < i ==> out@.contains(#[trigger] rows@[m]),
        decreases n - i,
    {
        let x = rows[i].copy_item();
        let mut p: usize = 0;
        while p < out.len() && !x.precedes(&out[p])
            invariant
                p <= out.len(),
                forall|q: int| 0 <= q < p ==> !x.before(#[trigger] out@[q]),
            decreases out.len() - p,
        {
            p = p + 1;
        }
        let ghost old_out = out@;
        out.insert(p, x);
        proof {
            assert(out@ == old_out.insert(p as int, x));
            assert forall|a: int, b: int| 0 <= a < b < out.len() implies (#[trigger] out@[a]).before(
                #[trigger] out@[b],
            ) by {
                if b < p {
                    assert(out@[a] == old_out[a] && out@[b] == old_out[b]);
                } else if a > p {
                    assert(out@[a] == old_out[a - 1] && out@[b] == old_out[b - 1]);
                } else if a == p {
                    assert(out@[b] == old_out[b - 1]);
                    assert(x.before(old_out[p as int]));
                    if b - 1 > p {
                        assert(old_out[p as int].before(old_out[b - 1]));
                        T::lemma_order(x, old_out[p as int], old_out[b - 1]);
                    }
                } else {
                    // a < p == b, or a < p < b
                    assert(out@[a] == old_out[a]);
                    let m = choose|m: int| 0 <= m < i && old_out[a] == rows@[m];
                    assert(!rows@[m].same_key(rows@[i as int]));
                    T::lemma_order(old_out[a], x, x);
                    assert(old_out[a].before(x));
                    if b > p {
                        assert(out@[b] == old_out[b - 1]);
                        assert(x.before(old_out[p as int]));
                        if b - 1 > p {
                            assert(old_out[p as int].before(old_out[b - 1]));
                            T::lemma_order(x, old_out[p as int], old_out[b - 1]);
                        }
                        T::lemma_order(old_out[a], x, old_out[b - 1]);
                    }
                }
            }
            assert forall|k: int| 0 <= k < out.len() implies exists|m: int| 0 <= m < i + 1 && #[trigger] out@[k] == rows@[m] by {
                if k < p {
                    assert(out@[k] == old_out[k]);
                } else if k > p {
                    assert(out@[k] == old_out[k - 1]);
                } else {
                    assert(out@[k] == rows@[i as int]);
                }
            }
            assert forall|m: int| 0 <= m < i + 1 implies out@.contains(#[trigger] rows@[m]) by {
                if m == i {
                    assert(out@[p as int] == rows@[m]);
                } else {
                    assert(old_out.contains(rows@[m]));
                    let k = choose|k: int| 0 <= k < old_out.len() && old_out[k] == rows@[m];
                    if k < p {
                        assert(out@[k] == old_out[k]);
                    } else {
                        assert(out@[k + 1] == old_out[k]);
                    }
                }
            }
        }
        i = i + 1;
    }
    proof {
        assert forall|x: T| out@.contains(x) <==> rows@.contains(x) by {
            if out@.contains(x) {
                let k = choose|k: int| 0 <= k < out.len() && out@[k] == x;
                let m = choose|m: int| 0 <= m < n && #[trigger] out@[k] == rows@[m];
                assert(rows@[m] == x);
            }
            if rows@.contains(x) {
                let m = choose|m: int| 0 <= m < rows.len() && rows@[m] == x;
                assert(out@.contains(rows@[m]));
            }
        }
        lemma_is_the_listing(rows@, out@);
    }
    out
}

/// `ORDER BY published_at DESC`: a publication time comes before none, a
/// later time before an earlier one.
pub open spec fn published_before(a: Option<i64>, b: Option<i64>) -> bool {
    match (a, b) {
        (Some(x), None) => true,
        (Some(x), Some(y)) => x > y,
        _ => false,
    }
}

/// Article listing: latest publication first (unpublished last), then latest
/// creation first; rows equal on both keep their id order.
impl Listed for Article {
    open spec fn before(self, other: Self) -> bool {
        ||| published_before(self.published_at, other.published_at)
        ||| self.published_at == other.published_at && self.created_at > other.created_at
        ||| self.published_at == other.published_at && self.created_at == other.created_at
            && self.id < other.id
    }

    open spec fn same_key(self, other: Self) -> bool {
        self.id == other.id
    }

    fn precedes(&self, other: &Self) -> (r: bool) {
        let pb = match (self.published_at, other.published_at) {
            (Some(x), None) => true,
            (Some(x), Some(y)) => x > y,
            _ => false,
        };
        let same_pub = match (self.published_at, other.published_at) {
            (Some(x), Some(y)) => x == y,
            (None, None) => true,
            _ => false,
        };
        pb || (same_pub && self.created_at > other.created_at) || (same_pub && self.created_at
            == other.created_at && self.id < other.id)
    }

    fn copy_item(&self) -> (r: Self) {
        self.copy()
    }

    proof fn lemma_order(a: Self, b: Self, c: Self) {
    }
}

/// Page listing: latest creation first; pages created together keep their
/// id order.
impl Listed for Page {
    open spec fn before(self, other: Self) -> bool {
        ||| self.created_at > other.created_at
        ||| self.created_at == other.created_at && self.id < other.id
    }

    open spec fn same_key(self, other: Self) -> bool {
        self.id == other.id
    }

    fn precedes(&self, other: &Self) -> (r: bool) {
        self.created_at > other.created_at || (self.created_at == other.created_at && self.id
            < other.id)
    }

    fn copy_item(&self) -> (r: Self) {
        self.copy()
    }

    proof fn lemma_order(a: Self, b: Self, c: Self) {
    }
}

/// Tag listing: by name in text order; tags of one name keep their id order.
impl Listed for Tag {
    open spec fn before(self, other: Self) -> bool {
        ||| text_lt(self.name@, other.name@)
        ||| self.name@ == other.name@ && self.id < other.id
    }

    open spec fn same_key(self, other: Self) -> bool {
        self.id == other.id
    }

    fn precedes(&self, other: &Self) -> (r: bool) {
        let lt = text_less(self.name.as_str(), other.name.as_str());
        let gt = text_less(other.name.as_str(), self.name.as_str());
        proof {
            lemma_text_order(self.name@, other.name@, self.name@);
        }
        lt || (!gt && self.id < other.id)
    }

    fn copy_item(&self) -> (r: Self) {
        self.copy()
    }

    proof fn lemma_order(a: Self, b: Self, c: Self) {
        lemma_text_order(a.name@, b.name@, c.name@);
        lemma_text_order(b.name@, a.name@, c.name@);
    }
}

/// Category listing: by name in text order; categories of one name keep
/// their id order.
impl Listed for Category {
    open spec fn before(self, other: Self) -> bool {
        ||| text_lt(self.name@, other.name@)
        ||| self.name@ == other.name@ && self.id < other.id
    }

    open spec fn same_key(self, other: Self) -> bool {
        self.id == other.id
    }

    fn precedes(&self, other: &Self) -> (r: bool) {
        let lt = text_less(self.name.as_str(), other.name.as_str());
        let gt = text_less(other.name.as_str(), self.name.as_str());
        proof {
            lemma_text_order(self.name@, other.name@, self.name@);
        }
        lt || (!gt && self.id < other.id)
    }

    fn copy_item(&self) -> (r: Self) {
        self.copy()
    }

    proof fn lemma_order(a: Self, b: Self, c: Self) {
        lemma_text_order(a.name@, b.name@, c.name@);
        lemma_text_order(b.name@, a.name@, c.name@);
    }
}

/// Setting listing: by key in text order.
impl Listed for Setting {
    open spec fn before(self, other: Self) -> bool {
        text_lt(self.key@, other.key@)
    }

    open spec fn same_key(self, other: Self) -> bool {
        self.key@ == other.key@
    }

    fn precedes(&self, other: &Self) -> (r: bool) {
        text_less(self.key.as_str(), other.key.as_str())
    }

    fn copy_item(&self) -> (r: Self) {
        self.copy()
    }

    proof fn lemma_order(a: Self, b: Self, c: Self) {
        lemma_text_order(a.key@, b.key@, c.key@);
    }
}

} // verus!
