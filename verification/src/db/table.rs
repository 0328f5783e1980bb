//! Rows of a table, found by id or by slug, and brought into a listing order.
use vstd::prelude::*;
use crate::common::{Article, Page, Tag, Category, Setting};
use crate::text::str_eq;

verus! {

/// The index of the first element of `s` that satisfies `p`, or -1.
pub open spec fn first_match<T>(s: Seq<T>, p: spec_fn(T) -> bool) -> int
    decreases s.len(),
{
    if s.len() == 0 {
        -1
    } else if p(s[0]) {
        0
    } else {
        let r = first_match(s.drop_first(), p);
        if r < 0 {
            -1
        } else {
            r + 1
        }
    }
}

/// `first_match` finds the first satisfying element, and -1 means there is none.
pub proof fn lemma_first_match<T>(s: Seq<T>, p: spec_fn(T) -> bool)
    ensures
        -1 <= first_match(s, p) < s.len(),
        first_match(s, p) == -1 <==> (forall|i: int| 0 <= i < s.len() ==> !p(#[trigger] s[i])),
        first_match(s, p) >= 0 ==> p(s[first_match(s, p)]),
        forall|j: int| 0 <= j < first_match(s, p) ==> !p(#[trigger] s[j]),
    decreases s.len(),
{
    if s.len() > 0 {
        lemma_first_match(s.drop_first(), p);
        let r = first_match(s.drop_first(), p);
        if !p(s[0]) {
            if r == -1 {
                assert forall|i: int| 0 <= i < s.len() implies !p(#[trigger] s[i]) by {
                    if i > 0 {
                        assert(s[i] == s.drop_first()[i - 1]);
                    }
                }
            } else {
                assert(s[r + 1] == s.drop_first()[r]);
                assert forall|j: int| 0 <= j < r + 1 implies !p(#[trigger] s[j]) by {
                    if j > 0 {
                        assert(s[j] == s.drop_first()[j - 1]);
                    }
                }
            }
        }
    }
}

/// An index found by a left-to-right scan is the first match.
pub proof fn lemma_first_match_is<T>(s: Seq<T>, p: spec_fn(T) -> bool, i: int)
    requires
        0 <= i < s.len(),
        p(s[i]),
        forall|j: int| 0 <= j < i ==> !p(#[trigger] s[j]),
    ensures
        first_match(s, p) == i,
{
    lemma_first_match(s, p);
}

/// A scan that found nothing.
pub proof fn lemma_first_match_none<T>(s: Seq<T>, p: spec_fn(T) -> bool)
    requires
        forall|j: int| 0 <= j < s.len() ==> !p(#[trigger] s[j]),
    ensures
        first_match(s, p) == -1,
{
    lemma_first_match(s, p);
}

/// A row of a table that has an integer id and a unique slug.
pub trait Row: Sized {
    spec fn row_id(&self) -> i64;

    spec fn row_slug(&self) -> Seq<char>;

    fn id(&self) -> (r: i64)
        ensures
            r == self.row_id(),
    ;

    fn slug_str(&self) -> (r: &str)
        ensures
            r@ == self.row_slug(),
    ;

    fn copy_row(&self) -> (r: Self)
        ensures
            r == *self,
    ;
}

impl Row for Article {
    open spec fn row_id(&self) -> i64 {
        self.id
    }

    open spec fn row_slug(&self) -> Seq<char> {
        self.slug@
    }

    fn id(&self) -> (r: i64) {
        self.id
    }

    fn slug_str(&self) -> (r: &str) {
        self.slug.as_str()
    }

    fn copy_row(&self) -> (r: Self) {
        self.copy()
    }
}

impl Row for Page {
    open spec fn row_id(&self) -> i64 {
        self.id
    }

    open spec fn row_slug(&self) -> Seq<char> {
        self.slug@
    }

    fn id(&self) -> (r: i64) {
        self.id
    }

    fn slug_str(&self) -> (r: &str) {
        self.slug.as_str()
    }

    fn copy_row(&self) -> (r: Self) {
        self.copy()
    }
}

impl Row for Tag {
    open spec fn row_id(&self) -> i64 {
        self.id
    }

    open spec fn row_slug(&self) -> Seq<char> {
        self.slug@
    }

    fn id(&self) -> (r: i64) {
        self.id
    }

    fn slug_str(&self) -> (r: &str) {
        self.slug.as_str()
    }

    fn copy_row(&self) -> (r: Self) {
        self.copy()
    }
}

impl Row for Category {
    open spec fn row_id(&self) -> i64 {
        self.id
    }

    open spec fn row_slug(&self) -> Seq<char> {
        self.slug@
    }

    fn id(&self) -> (r: i64) {
        self.id
    }

    fn slug_str(&self) -> (r: &str) {
        self.slug.as_str()
    }

    fn copy_row(&self) -> (r: Self) {
        self.copy()
    }
}

/// Whether a row has id `id`.
pub open spec fn id_is<T: Row>(id: i64) -> spec_fn(T) -> bool {
    |r: T| r.row_id() == id
}

/// Whether a row has slug `slug`.
pub open spec fn slug_is<T: Row>(slug: Seq<char>) -> spec_fn(T) -> bool {
    |r: T| r.row_slug() == slug
}

/// The index of the row with id `id`, or -1.
pub open spec fn index_of_id<T: Row>(s: Seq<T>, id: i64) -> int {
    first_match(s, id_is::<T>(id))
}

/// The index of the first row with slug `slug`, or -1.
pub open spec fn index_of_slug<T: Row>(s: Seq<T>, slug: Seq<char>) -> int {
    first_match(s, slug_is::<T>(slug))
}

/// The row with id `id`, if there is one.
pub open spec fn row_with_id<T: Row>(s: Seq<T>, id: i64) -> Option<T> {
    let i = index_of_id(s, id);
    if i >= 0 {
        Some(s[i])
    } else {
        None
    }
}

/// The first row with slug `slug`, if there is one.
pub open spec fn row_with_slug<T: Row>(s: Seq<T>, slug: Seq<char>) -> Option<T> {
    let i = index_of_slug(s, slug);
    if i >= 0 {
        Some(s[i])
    } else {
        None
    }
}

/// Whether some row has slug `slug`.
pub open spec fn has_slug<T: Row>(s: Seq<T>, slug: Seq<char>) -> bool {
    exists|i: int| 0 <= i < s.len() && (#[trigger] s[i]).row_slug() == slug
}

/// Whether some row has id `id`.
pub open spec fn has_id<T: Row>(s: Seq<T>, id: i64) -> bool {
    exists|i: int| 0 <= i < s.len() && (#[trigger] s[i]).row_id() == id
}

/// The rows' ids rise strictly and lie in `1..=last`.
pub open spec fn ids_rising<T: Row>(s: Seq<T>, last: i64) -> bool {
    &&& forall|i: int, j: int| 0 <= i < j < s.len() ==> #[trigger] s[i].row_id() < #[trigger] s[j].row_id()
    &&& forall|i: int| 0 <= i < s.len() ==> 1 <= #[trigger] s[i].row_id() <= last
}

/// No two rows share a slug.
pub open spec fn slugs_unique<T: Row>(s: Seq<T>) -> bool {
    forall|i: int, j: int| 0 <= i < s.len() && 0 <= j < s.len() && i != j ==>
        #[trigger] s[i].row_slug() != #[trigger] s[j].row_slug()
}

/// Finds the row with id `id` by a scan.
pub fn find_id<T: Row>(rows: &Vec<T>, id: i64) -> (r: Option<usize>)
    ensures
        match r {
            Some(i) => i as int == index_of_id(rows@, id) && i < rows.len() && rows@[i as int].row_id() == id,
            None => index_of_id(rows@, id) == -1,
        },
        r is Some <==> has_id(rows@, id),
{
    let ghost p = id_is::<T>(id);
    let mut i: usize = 0;
    while i < rows.len()
        invariant
            i <= rows.len(),
            p == id_is::<T>(id),
            forall|j: int| 0 <= j < i ==> !p(#[trigger] rows@[j]),
        decreases rows.len() - i,
    {
        if rows[i].id() == id {
            proof {
                lemma_first_match_is(rows@, p, i as int);
            }
            return Some(i);
        }
        i = i + 1;
    }
    proof {
        lemma_first_match_none(rows@, p);
    }
    None
}

/// Finds the first row with slug `slug` by a scan.
pub fn find_slug<T: Row>(rows: &Vec<T>, slug: &str) -> (r: Option<usize>)
    ensures
        match r {
            Some(i) => i as int == index_of_slug(rows@, slug@) && i < rows.len() && rows@[i as int].row_slug() == slug@,
            None => index_of_slug(rows@, slug@) == -1,
        },
        r is Some <==> has_slug(rows@, slug@),
{
    let ghost p = slug_is::<T>(slug@);
    let mut i: usize = 0;
    while i < rows.len()
        invariant
            i <= rows.len(),
            p == slug_is::<T>(slug@),
            forall|j: int| 0 <= j < i ==> !p(#[trigger] rows@[j]),
        decreases rows.len() - i,
    {
        if str_eq(rows[i].slug_str(), slug) {
            proof {
                lemma_first_match_is(rows@, p, i as int);
            }
            return Some(i);
        }
        i = i + 1;
    }
    proof {
        lemma_first_match_none(rows@, p);
    }
    None
}

} // verus!

verus! {

/// A table with rising ids in `1..=last` has at most `last` rows.
pub proof fn lemma_ids_rising_len<T: Row>(s: Seq<T>, last: i64)
    requires
        ids_rising(s, last),
        0 <= last,
    ensures
        s.len() <= last,
{
    assert forall|i: int| 0 <= i < s.len() implies (#[trigger] s[i]).row_id() >= i + 1 by {
        lemma_ids_rising_index(s, last, i);
    }
    if s.len() > 0 {
        assert(s[s.len() - 1].row_id() >= s.len());
        assert(1 <= s[s.len() - 1].row_id() <= last);
    }
}

proof fn lemma_ids_rising_index<T: Row>(s: Seq<T>, last: i64, i: int)
    requires
        ids_rising(s, last),
        0 <= i < s.len(),
    ensures
        s[i].row_id() >= i + 1,
    decreases i,
{
    if i > 0 {
        lemma_ids_rising_index(s, last, i - 1);
        assert(s[i - 1].row_id() < s[i].row_id());
    }
}

} // verus!

verus! {

/// A row with the next id and a new slug keeps the table's rules.
pub proof fn lemma_push_row<T: Row>(s: Seq<T>, r: T, last: i64)
    requires
        ids_rising(s, last),
        slugs_unique(s),
        0 <= last,
        r.row_id() == last + 1,
        !has_slug(s, r.row_slug()),
    ensures
        ids_rising(s.push(r), r.row_id()),
        slugs_unique(s.push(r)),
        forall|x: i64| has_id(s, x) ==> has_id(s.push(r), x),
        has_id(s.push(r), r.row_id()),
{
    let w = s.push(r);
    assert forall|i: int, j: int| 0 <= i < j < w.len() implies #[trigger] w[i].row_id() < #[trigger] w[j].row_id() by {
        assert(w[i] == s[i]);
        if j < s.len() {
            assert(w[j] == s[j]);
        }
    }
    assert forall|i: int| 0 <= i < w.len() implies 1 <= #[trigger] w[i].row_id() <= r.row_id() by {
        if i < s.len() {
            assert(w[i] == s[i]);
        }
    }
    assert forall|i: int, j: int| 0 <= i < w.len() && 0 <= j < w.len() && i != j implies #[trigger] w[i].row_slug()
        != #[trigger] w[j].row_slug() by {
        if i < s.len() {
            assert(w[i] == s[i]);
        }
        if j < s.len() {
            assert(w[j] == s[j]);
        }
    }
    assert forall|x: i64| has_id(s, x) implies has_id(s.push(r), x) by {
        let j = choose|j: int| 0 <= j < s.len() && (#[trigger] s[j]).row_id() == x;
        assert(w[j] == s[j]);
    }
    assert(w[s.len() as int] == r);
}

/// A row replaced by one with the same id and slug keeps the table's rules.
pub proof fn lemma_update_row<T: Row>(s: Seq<T>, i: int, r: T, last: i64)
    requires
        ids_rising(s, last),
        slugs_unique(s),
        0 <= i < s.len(),
        r.row_id() == s[i].row_id(),
        r.row_slug() == s[i].row_slug(),
    ensures
        ids_rising(s.update(i, r), last),
        slugs_unique(s.update(i, r)),
        forall|x: i64| has_id(s, x) ==> has_id(s.update(i, r), x),
{
    let w = s.update(i, r);
    assert forall|a: int| 0 <= a < w.len() implies (#[trigger] w[a]).row_id() == s[a].row_id() && w[a].row_slug()
        == s[a].row_slug() by {
    }
    assert forall|a: int, b: int| 0 <= a < b < w.len() implies #[trigger] w[a].row_id() < #[trigger] w[b].row_id() by {
        assert(w[a].row_id() == s[a].row_id() && w[b].row_id() == s[b].row_id());
    }
    assert forall|a: int| 0 <= a < w.len() implies 1 <= #[trigger] w[a].row_id() <= last by {
        assert(w[a].row_id() == s[a].row_id());
    }
    assert forall|a: int, b: int| 0 <= a < w.len() && 0 <= b < w.len() && a != b implies #[trigger] w[a].row_slug()
        != #[trigger] w[b].row_slug() by {
        assert(w[a].row_slug() == s[a].row_slug() && w[b].row_slug() == s[b].row_slug());
    }
    assert forall|x: i64| has_id(s, x) implies has_id(w, x) by {
        let j = choose|j: int| 0 <= j < s.len() && (#[trigger] s[j]).row_id() == x;
        assert(w[j].row_id() == s[j].row_id());
    }
}

/// Removing a row keeps the table's rules, and every other id stays.
pub proof fn lemma_remove_row<T: Row>(s: Seq<T>, i: int, last: i64)
    requires
        ids_rising(s, last),
        slugs_unique(s),
        0 <= i < s.len(),
    ensures
        ids_rising(s.remove(i), last),
        slugs_unique(s.remove(i)),
        forall|x: i64| has_id(s, x) && x != s[i].row_id() ==> has_id(s.remove(i), x),
        !has_id(s.remove(i), s[i].row_id()),
{
    let w = s.remove(i);
    assert forall|a: int| 0 <= a < w.len() implies #[trigger] w[a] == s[if a < i { a } else { a + 1 }] by {
    }
    assert forall|a: int, b: int| 0 <= a < b < w.len() implies #[trigger] w[a].row_id() < #[trigger] w[b].row_id() by {
        assert(w[a] == s[if a < i { a } else { a + 1 }]);
        assert(w[b] == s[if b < i { b } else { b + 1 }]);
    }
    assert forall|a: int| 0 <= a < w.len() implies 1 <= #[trigger] w[a].row_id() <= last by {
        assert(w[a] == s[if a < i { a } else { a + 1 }]);
    }
    assert forall|a: int, b: int| 0 <= a < w.len() && 0 <= b < w.len() && a != b implies #[trigger] w[a].row_slug()
        != #[trigger] w[b].row_slug() by {
        assert(w[a] == s[if a < i { a } else { a + 1 }]);
        assert(w[b] == s[if b < i { b } else { b + 1 }]);
    }
    assert forall|x: i64| has_id(s, x) && x != s[i].row_id() implies has_id(w, x) by {
        let j = choose|j: int| 0 <= j < s.len() && (#[trigger] s[j]).row_id() == x;
        assert(j != i);
        if j < i {
            assert(w[j] == s[j]);
        } else {
            assert(w[j - 1] == s[j]);
        }
    }
    assert(!has_id(w, s[i].row_id())) by {
        if has_id(w, s[i].row_id()) {
            let j = choose|j: int| 0 <= j < w.len() && (#[trigger] w[j]).row_id() == s[i].row_id();
            assert(w[j] == s[if j < i { j } else { j + 1 }]);
        }
    }
}

} // verus!

verus! {

/// Rows with rising ids have distinct ids.
pub proof fn lemma_ids_distinct<T: Row>(s: Seq<T>, last: i64)
    requires
        ids_rising(s, last),
    ensures
        forall|a: int, b: int| 0 <= a < s.len() && 0 <= b < s.len() && a != b ==> (#[trigger] s[a]).row_id() != (#[trigger] s[b]).row_id(),
{
    assert forall|a: int, b: int| 0 <= a < s.len() && 0 <= b < s.len() && a != b implies (#[trigger] s[a]).row_id() != (#[trigger] s[b]).row_id() by {
        if a < b {
            assert(s[a].row_id() < s[b].row_id());
        } else {
            assert(s[b].row_id() < s[a].row_id());
        }
    }
}

} // verus!
