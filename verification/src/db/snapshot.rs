//! The store as plain tables, to be saved and loaded again: a store gives
//! its tables, and tables become a store only when they keep the rules of
//! the schema.
use vstd::prelude::*;
use crate::common::{Article, Page, Tag, Category, Setting};
use crate::text::str_eq;
use super::{Store, StoreView, setting_keys_unique, links_valid, categories_valid};
use super::table::{Row, ids_rising, slugs_unique, has_id, find_id};

verus! {

/// A store's tables and sequences, as plain values.
#[derive(Debug)]
pub struct Tables {
    pub articles: Vec<Article>,
    pub pages: Vec<Page>,
    pub tags: Vec<Tag>,
    pub categories: Vec<Category>,
    pub links: Vec<(i64, i64)>,
    pub settings: Vec<Setting>,
    pub article_seq: i64,
    pub page_seq: i64,
    pub tag_seq: i64,
    pub category_seq: i64,
}

impl Tables {
    /// The store that these tables make.
    pub open spec fn as_view(&self) -> StoreView {
        StoreView {
            articles: self.articles@,
            pages: self.pages@,
            tags: self.tags@,
            categories: self.categories@,
            links: self.links@,
            settings: self.settings@,
            article_seq: self.article_seq,
            page_seq: self.page_seq,
            tag_seq: self.tag_seq,
            category_seq: self.category_seq,
        }
    }
}

fn copy_rows<T: Row>(rows: &Vec<T>) -> (r: Vec<T>)
    ensures
        r@ == rows@,
{
    let mut out: Vec<T> = Vec::new();
    let mut i: usize = 0;
    while i < rows.len()
        invariant
            i <= rows.len(),
            out@ == rows@.take(i as int),
        decreases rows.len() - i,
    {
        out.push(rows[i].copy_row());
        proof {
            assert(rows@.take(i + 1) =~= rows@.take(i as int).push(rows@[i as int]));
        }
        i = i + 1;
    }
    assert(rows@.take(rows.len() as int) =~= rows@);
    out
}

fn copy_links(links: &Vec<(i64, i64)>) -> (r: Vec<(i64, i64)>)
    ensures
        r@ == links@,
{
    let mut out: Vec<(i64, i64)> = Vec::new();
    let mut i: usize = 0;
    while i < links.len()
        invariant
            i <= links.len(),
            out@ == links@.take(i as int),
        decreases links.len() - i,
    {
        out.push(links[i]);
        proof {
            assert(links@.take(i + 1) =~= links@.take(i as int).push(links@[i as int]));
        }
        i = i + 1;
    }
    assert(links@.take(links.len() as int) =~= links@);
    out
}

fn copy_settings(settings: &Vec<Setting>) -> (r: Vec<Setting>)
    ensures
        r@ == settings@,
{
    let mut out: Vec<Setting> = Vec::new();
    let mut i: usize = 0;
    while i < settings.len()
        invariant
            i <= settings.len(),
            out@ == settings@.take(i as int),
        decreases settings.len() - i,
    {
        out.push(settings[i].copy());
        proof {
            assert(settings@.take(i + 1) =~= settings@.take(i as int).push(settings@[i as int]));
        }
        i = i + 1;
    }
    assert(settings@.take(settings.len() as int) =~= settings@);
    out
}

/// Whether the rows' ids rise and lie in `1..=last`.
fn check_ids_rising<T: Row>(rows: &Vec<T>, last: i64) -> (r: bool)
    ensures
        r == ids_rising(rows@, last),
{
    let s = Ghost(rows@);
    let mut i: usize = 0;
    while i < rows.len()
        invariant
            s@ == rows@,
            i <= rows.len(),
            forall|a: int, b: int| 0 <= a < b < i ==> #[trigger] s@[a].row_id() < #[trigger] s@[b].row_id(),
            forall|a: int| 0 <= a < i ==> 1 <= #[trigger] s@[a].row_id() <= last,
        decreases rows.len() - i,
    {
        let id = rows[i].id();
        if id < 1 || id > last {
            return false;
        }
        if i > 0 {
            let prev = rows[i - 1].id();
            if prev >= id {
                proof {
                    assert(!(s@[i - 1].row_id() < s@[i as int].row_id()));
                }
                return false;
            }
            proof {
                assert forall|a: int| 0 <= a < i implies #[trigger] s@[a].row_id() < s@[i as int].row_id() by {
                    if a < i - 1 {
                        assert(s@[a].row_id() < s@[i - 1].row_id());
                    }
                }
            }
        }
        i = i + 1;
    }
    true
}

/// Whether no two rows share a slug.
fn check_slugs_unique<T: Row>(rows: &Vec<T>) -> (r: bool)
    ensures
        r == slugs_unique(rows@),
{
    let s = Ghost(rows@);
    let mut i: usize = 0;
    while i < rows.len()
        invariant
            s@ == rows@,
            i <= rows.len(),
            forall|a: int, b: int| 0 <= a < i && 0 <= b < rows.len() && a != b ==> #[trigger] s@[a].row_slug()
                != #[trigger] s@[b].row_slug(),
        decreases rows.len() - i,
    {
        let mut j: usize = 0;
        while j < rows.len()
            invariant
                s@ == rows@,
                i < rows.len(),
                j <= rows.len(),
                forall|a: int, b: int| 0 <= a < i && 0 <= b < rows.len() && a != b ==> #[trigger] s@[a].row_slug()
                    != #[trigger] s@[b].row_slug(),
                forall|b: int| 0 <= b < j && b != i ==> s@[i as int].row_slug() != #[trigger] s@[b].row_slug(),
            decreases rows.len() - j,
        {
            if j != i && str_eq(rows[i].slug_str(), rows[j].slug_str()) {
                return false;
            }
            j = j + 1;
        }
        i = i + 1;
    }
    true
}

/// Whether no two settings share a key.
fn check_keys_unique(settings: &Vec<Setting>) -> (r: bool)
    ensures
        r == setting_keys_unique(settings@),
{
    let s = Ghost(settings@);
    let mut i: usize = 0;
    while i < settings.len()
        invariant
            s@ == settings@,
            i <= settings.len(),
            forall|a: int, b: int| 0 <= a < i && 0 <= b < settings.len() && a != b ==> #[trigger] s@[a].key@
                != #[trigger] s@[b].key@,
        decreases settings.len() - i,
    {
        let mut j: usize = 0;
        while j < settings.len()
            invariant
                s@ == settings@,
                i < settings.len(),
                j <= settings.len(),
                forall|a: int, b: int| 0 <= a < i && 0 <= b < settings.len() && a != b ==> #[trigger] s@[a].key@
                    != #[trigger] s@[b].key@,
                forall|b: int| 0 <= b < j && b != i ==> s@[i as int].key@ != #[trigger] s@[b].key@,
            decreases settings.len() - j,
        {
            if j != i && str_eq(settings[i].key.as_str(), settings[j].key.as_str()) {
                return false;
            }
            j = j + 1;
        }
        i = i + 1;
    }
    true
}

/// Whether every link joins a live article to a live tag, and no link is
/// there twice.
fn check_links(links: &Vec<(i64, i64)>, articles: &Vec<Article>, tags: &Vec<Tag>) -> (r: bool)
    ensures
        r == links_valid(links@, articles@, tags@),
{
    let s = Ghost(links@);
    let mut i: usize = 0;
    while i < links.len()
        invariant
            s@ == links@,
            i <= links.len(),
            forall|k: int| 0 <= k < i ==> has_id(articles@, (#[trigger] s@[k]).0),
            forall|k: int| 0 <= k < i ==> has_id(tags@, (#[trigger] s@[k]).1),
            forall|a: int, b: int| 0 <= a < i && 0 <= b < links.len() && a != b ==> #[trigger] s@[a]
                != #[trigger] s@[b],
        decreases links.len() - i,
    {
        let (aid, tid) = links[i];
        if find_id(articles, aid).is_none() || find_id(tags, tid).is_none() {
            return false;
        }
        let mut j: usize = 0;
        while j < links.len()
            invariant
                s@ == links@,
                i < links.len(),
                j <= links.len(),
                (aid, tid) == s@[i as int],
                forall|a: int, b: int| 0 <= a < i && 0 <= b < links.len() && a != b ==> #[trigger] s@[a]
                    != #[trigger] s@[b],
                forall|b: int| 0 <= b < j && b != i ==> s@[i as int] != #[trigger] s@[b],
            decreases links.len() - j,
        {
            let (a2, t2) = links[j];
            if j != i && a2 == aid && t2 == tid {
                return false;
            }
            j = j + 1;
        }
        i = i + 1;
    }
    true
}

/// Whether every article's category, when it has one, is a live category.
fn check_categories(articles: &Vec<Article>, categories: &Vec<Category>) -> (r: bool)
    ensures
        r == categories_valid(articles@, categories@),
{
    let mut i: usize = 0;
    while i < articles.len()
        invariant
            i <= articles.len(),
            forall|k: int| 0 <= k < i ==> ((#[trigger] articles@[k]).category_id matches Some(c) ==> has_id(
                categories@,
                c,
            )),
        decreases articles.len() - i,
    {
        if let Some(c) = articles[i].category_id {
            if find_id(categories, c).is_none() {
                return false;
            }
        }
        i = i + 1;
    }
    true
}

impl Store {
    /// The store's tables and sequences.
    pub fn tables(&self) -> (r: Tables)
        ensures
            r.as_view() == self@,
    {
        Tables {
            articles: copy_rows(&self.articles),
            pages: copy_rows(&self.pages),
            tags: copy_rows(&self.tags),
            categories: copy_rows(&self.categories),
            links: copy_links(&self.article_tags),
            settings: copy_settings(&self.settings),
            article_seq: self.article_seq,
            page_seq: self.page_seq,
            tag_seq: self.tag_seq,
            category_seq: self.category_seq,
        }
    }

    /// The store that the tables make, when they keep the rules of the
    /// schema; `None` when they break one.
    pub fn from_tables(t: Tables) -> (r: Option<Store>)
        ensures
            r is Some <==> t.as_view().wf(),
            r matches Some(s) ==> s@ == t.as_view() && s.wf(),
    {
        let ok = 0 <= t.article_seq && 0 <= t.page_seq && 0 <= t.tag_seq && 0 <= t.category_seq
            && check_ids_rising(&t.articles, t.article_seq) && check_ids_rising(&t.pages, t.page_seq)
            && check_ids_rising(&t.tags, t.tag_seq) && check_ids_rising(&t.categories, t.category_seq)
            && check_slugs_unique(&t.articles) && check_slugs_unique(&t.pages) && check_slugs_unique(&t.tags)
            && check_slugs_unique(&t.categories) && check_keys_unique(&t.settings) && check_links(
            &t.links,
            &t.articles,
            &t.tags,
        ) && check_categories(&t.articles, &t.categories);
        if !ok {
            return None;
        }
        Some(
            Store {
                articles: t.articles,
                pages: t.pages,
                tags: t.tags,
                categories: t.categories,
                article_tags: t.links,
                settings: t.settings,
                article_seq: t.article_seq,
                page_seq: t.page_seq,
                tag_seq: t.tag_seq,
                category_seq: t.category_seq,
            },
        )
    }
}


/// Saved tables load back: the tables that a store gives keep the rules of
/// the schema, so `from_tables` makes of them a store equal to the first.
pub proof fn law_saved_tables_load_back(s: Store, t: Tables)
    requires
        s.wf(),
        t.as_view() == s@,
    ensures
        t.as_view().wf(),
{
}

} // verus!
