//! The content store: the site's tables and the rules that hold between them.
//!
//! The tables are those of the site's schema: articles, pages, tags,
//! categories, the links between articles and tags, and settings. Ids are
//! handed out from a per-table sequence that never goes back, slugs are
//! unique per table, a link joins a live article to a live tag, and an
//! article's category, when it has one, is a live category.
pub mod table;
pub mod order;

use vstd::prelude::*;
use crate::common::{Article, Page, Tag, Category, Setting};
use self::table::{Row, ids_rising, slugs_unique, has_id, has_slug, row_with_id, find_id, lemma_push_row, lemma_update_row, lemma_remove_row};

verus! {

pub struct Store {
    articles: Vec<Article>,
    pages: Vec<Page>,
    tags: Vec<Tag>,
    categories: Vec<Category>,
    article_tags: Vec<(i64, i64)>,
    settings: Vec<Setting>,
    article_seq: i64,
    page_seq: i64,
    tag_seq: i64,
    category_seq: i64,
}

/// The store as tables: each table's rows in id order (settings in the order
/// they were first set), the article-tag links, and the last id each table
/// handed out.
pub struct StoreView {
    pub articles: Seq<Article>,
    pub pages: Seq<Page>,
    pub tags: Seq<Tag>,
    pub categories: Seq<Category>,
    pub links: Seq<(i64, i64)>,
    pub settings: Seq<Setting>,
    pub article_seq: i64,
    pub page_seq: i64,
    pub tag_seq: i64,
    pub category_seq: i64,
}

impl View for Store {
    type V = StoreView;

    closed spec fn view(&self) -> StoreView {
        StoreView {
            articles: self.articles@,
            pages: self.pages@,
            tags: self.tags@,
            categories: self.categories@,
            links: self.article_tags@,
            settings: self.settings@,
            article_seq: self.article_seq,
            page_seq: self.page_seq,
            tag_seq: self.tag_seq,
            category_seq: self.category_seq,
        }
    }
}

/// No two settings share a key.
pub open spec fn setting_keys_unique(s: Seq<Setting>) -> bool {
    forall|i: int, j: int| 0 <= i < s.len() && 0 <= j < s.len() && i != j ==> #[trigger] s[i].key@
        != #[trigger] s[j].key@
}

/// Every link joins a live article to a live tag, and no link is there twice.
pub open spec fn links_valid(links: Seq<(i64, i64)>, articles: Seq<Article>, tags: Seq<Tag>) -> bool {
    &&& forall|k: int| 0 <= k < links.len() ==> has_id(articles, (#[trigger] links[k]).0)
    &&& forall|k: int| 0 <= k < links.len() ==> has_id(tags, (#[trigger] links[k]).1)
    &&& forall|i: int, j: int| 0 <= i < links.len() && 0 <= j < links.len() && i != j ==> #[trigger] links[i]
        != #[trigger] links[j]
}

/// Every article's category, when it has one, is a live category.
pub open spec fn categories_valid(articles: Seq<Article>, categories: Seq<Category>) -> bool {
    forall|i: int| 0 <= i < articles.len() ==> ((#[trigger] articles[i]).category_id matches Some(c)
        ==> has_id(categories, c))
}

impl StoreView {
    pub open spec fn with_links(self, links: Seq<(i64, i64)>) -> StoreView {
        StoreView { links, ..self }
    }

    pub open spec fn with_articles(self, articles: Seq<Article>) -> StoreView {
        StoreView { articles, ..self }
    }

    pub open spec fn with_pages(self, pages: Seq<Page>) -> StoreView {
        StoreView { pages, ..self }
    }

    pub open spec fn with_tags(self, tags: Seq<Tag>) -> StoreView {
        StoreView { tags, ..self }
    }

    pub open spec fn with_categories(self, categories: Seq<Category>) -> StoreView {
        StoreView { categories, ..self }
    }

    pub open spec fn with_settings(self, settings: Seq<Setting>) -> StoreView {
        StoreView { settings, ..self }
    }

    /// The rules of the schema.
    pub open spec fn wf(self) -> bool {
        &&& 0 <= self.article_seq && 0 <= self.page_seq && 0 <= self.tag_seq && 0 <= self.category_seq
        &&& ids_rising(self.articles, self.article_seq)
        &&& ids_rising(self.pages, self.page_seq)
        &&& ids_rising(self.tags, self.tag_seq)
        &&& ids_rising(self.categories, self.category_seq)
        &&& slugs_unique(self.articles)
        &&& slugs_unique(self.pages)
        &&& slugs_unique(self.tags)
        &&& slugs_unique(self.categories)
        &&& setting_keys_unique(self.settings)
        &&& links_valid(self.links, self.articles, self.tags)
        &&& categories_valid(self.articles, self.categories)
    }
}

/// Whether a tag is linked to article `aid`.
pub open spec fn linked_to(links: Seq<(i64, i64)>, aid: i64) -> spec_fn(Tag) -> bool {
    |t: Tag| links.contains((aid, t.id))
}

/// The tags of article `aid`, in tag id order.
pub open spec fn tags_of(v: StoreView, aid: i64) -> Seq<Tag> {
    v.tags.filter(linked_to(v.links, aid))
}

/// The category that an article's `category_id` names, when there is one.
pub open spec fn category_of(v: StoreView, cid: Option<i64>) -> Option<Category> {
    match cid {
        Some(c) => row_with_id(v.categories, c),
        None => None,
    }
}

/// Whether a link stays when the links of a tag (`by_tag`) or of an article
/// with id `id` go.
pub open spec fn link_kept(by_tag: bool, id: i64) -> spec_fn((i64, i64)) -> bool {
    |l: (i64, i64)|
        if by_tag {
            l.1 != id
        } else {
            l.0 != id
        }
}

/// The links that are left when article `aid` loses all its links.
pub open spec fn links_without(links: Seq<(i64, i64)>, aid: i64) -> Seq<(i64, i64)> {
    links.filter(link_kept(false, aid))
}

/// The links that are left when tag `tid` loses all its links.
pub open spec fn links_without_tag(links: Seq<(i64, i64)>, tid: i64) -> Seq<(i64, i64)> {
    links.filter(link_kept(true, tid))
}

/// An article as it is after its category `cid` went (`ON DELETE SET NULL`).
pub open spec fn without_category(cid: i64) -> spec_fn(Article) -> Article {
    |a: Article|
        if a.category_id == Some(cid) {
            Article { category_id: None, ..a }
        } else {
            a
        }
}

/// Linking article `aid` to the tags `tids`, one after the other, as
/// `INSERT OR IGNORE` does: a link that is there already is skipped, and a
/// tag id that names no tag stops the linking with a failure. The links
/// made before the failure stay. The flag tells whether all went through.
pub open spec fn link_tags(links: Seq<(i64, i64)>, aid: i64, tids: Seq<i64>, tags: Seq<Tag>) -> (
    Seq<(i64, i64)>,
    bool,
)
    decreases tids.len(),
{
    if tids.len() == 0 {
        (links, true)
    } else if !has_id(tags, tids[0]) {
        (links, false)
    } else if links.contains((aid, tids[0])) {
        link_tags(links, aid, tids.drop_first(), tags)
    } else {
        link_tags(links.push((aid, tids[0])), aid, tids.drop_first(), tags)
    }
}

/// Whether a setting has key `key`.
pub open spec fn key_is(key: Seq<char>) -> spec_fn(Setting) -> bool {
    |s: Setting| s.key@ == key
}

/// The index of setting `key`, or -1.
pub open spec fn setting_index(s: Seq<Setting>, key: Seq<char>) -> int {
    table::first_match(s, key_is(key))
}

/// Filtering a sequence that grew by one element.
pub proof fn lemma_filter_push<A>(s: Seq<A>, e: A, p: spec_fn(A) -> bool)
    ensures
        s.push(e).filter(p) == (if p(e) {
            s.filter(p).push(e)
        } else {
            s.filter(p)
        }),
{
    reveal_with_fuel(Seq::<_>::filter, 1);
    assert(s.push(e).drop_last() =~= s);
}

/// Filtering a prefix one element longer.
pub proof fn lemma_filter_take<A>(s: Seq<A>, i: int, p: spec_fn(A) -> bool)
    requires
        0 <= i < s.len(),
    ensures
        s.take(i + 1).filter(p) == (if p(s[i]) {
            s.take(i).filter(p).push(s[i])
        } else {
            s.take(i).filter(p)
        }),
{
    assert(s.take(i + 1) =~= s.take(i).push(s[i]));
    lemma_filter_push(s.take(i), s[i], p);
}

impl Store {
    /// The rules of the schema hold.
    pub open spec fn wf(&self) -> bool {
        self@.wf()
    }

    /// A fresh store: empty tables but for the three settings that the schema
    /// starts with.
    pub fn new() -> (s: Store)
        ensures
            s.wf(),
            s@.articles.len() == 0,
            s@.pages.len() == 0,
            s@.tags.len() == 0,
            s@.categories.len() == 0,
            s@.links.len() == 0,
            s@.article_seq == 0 && s@.page_seq == 0 && s@.tag_seq == 0 && s@.category_seq == 0,
            s@.settings.len() == 3,
            s@.settings[0].key@ == "site_name"@,
            s@.settings[0].value@ == "My News Site"@,
            s@.settings[1].key@ == "site_description"@,
            s@.settings[1].value@ == ""@,
            s@.settings[2].key@ == "site_url"@,
            s@.settings[2].value@ == "http://localhost:3000"@,
    {
        let mut settings: Vec<Setting> = Vec::new();
        settings.push(
            Setting { key: String::from_str("site_name"), value: String::from_str("My News Site") },
        );
        settings.push(Setting { key: String::from_str("site_description"), value: String::new() });
        settings.push(
            Setting {
                key: String::from_str("site_url"),
                value: String::from_str("http://localhost:3000"),
            },
        );
        proof {
            reveal_strlit("site_name");
            reveal_strlit("site_description");
            reveal_strlit("site_url");
            reveal_strlit("");
            assert(settings@[0].key@.len() != settings@[1].key@.len());
            assert(settings@[0].key@[5] != settings@[2].key@[5]);
            assert(settings@[1].key@.len() != settings@[2].key@.len());
        }
        Store {
            articles: Vec::new(),
            pages: Vec::new(),
            tags: Vec::new(),
            categories: Vec::new(),
            article_tags: Vec::new(),
            settings,
            article_seq: 0,
            page_seq: 0,
            tag_seq: 0,
            category_seq: 0,
        }
    }

    /// Whether article `aid` is linked to tag `tid`.
    pub fn has_link(&self, aid: i64, tid: i64) -> (r: bool)
        ensures
            r == self@.links.contains((aid, tid)),
    {
        let mut i: usize = 0;
        while i < self.article_tags.len()
            invariant
                i <= self.article_tags.len(),
                forall|j: int| 0 <= j < i ==> self.article_tags@[j] != (aid, tid),
            decreases self.article_tags.len() - i,
        {
            let (a, t) = self.article_tags[i];
            if a == aid && t == tid {
                assert(self.article_tags@[i as int] == (aid, tid));
                return true;
            }
            i = i + 1;
        }
        false
    }

    /// The tags of article `aid`, in tag id order.
    pub fn tags_of(&self, aid: i64) -> (r: Vec<Tag>)
        ensures
            r@ == tags_of(self@, aid),
    {
        let ghost p = linked_to(self@.links, aid);
        let mut out: Vec<Tag> = Vec::new();
        let mut i: usize = 0;
        while i < self.tags.len()
            invariant
                i <= self.tags.len(),
                p == linked_to(self@.links, aid),
                out@ == self.tags@.take(i as int).filter(p),
            decreases self.tags.len() - i,
        {
            proof {
                lemma_filter_take(self.tags@, i as int, p);
            }
            if self.has_link(aid, self.tags[i].id) {
                out.push(self.tags[i].copy());
            }
            i = i + 1;
        }
        assert(self.tags@.take(self.tags.len() as int) =~= self.tags@);
        out
    }

    /// Links article `aid` to the tags `tids` (see `link_tags`).
    fn add_tag_links(&mut self, aid: i64, tids: &Vec<i64>) -> (ok: bool)
        requires
            old(self).wf(),
            has_id(old(self)@.articles, aid),
        ensures
            final(self).wf(),
            final(self)@ == old(self)@.with_links(link_tags(old(self)@.links, aid, tids@, old(self)@.tags).0),
            ok == link_tags(old(self)@.links, aid, tids@, old(self)@.tags).1,
    {
        let ghost goal = link_tags(old(self)@.links, aid, tids@, old(self)@.tags);
        let ghost v0 = self@;
        let n = tids.len();
        let mut i: usize = 0;
        assert(tids@.skip(0) =~= tids@);
        while i < n
            invariant
                n == tids.len(),
                i <= n,
                self.wf(),
                has_id(self@.articles, aid),
                self@ == v0.with_links(self@.links),
                goal == link_tags(old(self)@.links, aid, tids@, old(self)@.tags),
                v0 == old(self)@,
                link_tags(self@.links, aid, tids@.skip(i as int), v0.tags) == goal,
            decreases n - i,
        {
            let t = tids[i];
            assert(tids@.skip(i as int)[0] == t);
            assert(tids@.skip(i as int).drop_first() =~= tids@.skip(i + 1));
            match find_id(&self.tags, t) {
                None => {
                    return false;
                },
                Some(_) => {},
            }
            if !self.has_link(aid, t) {
                let ghost before = self@;
                self.article_tags.push((aid, t));
                proof {
                    assert(self@.links == before.links.push((aid, t)));
                    assert forall|k: int| 0 <= k < self@.links.len() implies has_id(
                        self@.articles,
                        (#[trigger] self@.links[k]).0,
                    ) by {
                        if k < before.links.len() {
                            assert(self@.links[k] == before.links[k]);
                        }
                    }
                    assert forall|k: int| 0 <= k < self@.links.len() implies has_id(
                        self@.tags,
                        (#[trigger] self@.links[k]).1,
                    ) by {
                        if k < before.links.len() {
                            assert(self@.links[k] == before.links[k]);
                        }
                    }
                    assert forall|a: int, b: int|
                        0 <= a < self@.links.len() && 0 <= b < self@.links.len() && a != b implies #[trigger] self@.links[a]
                        != #[trigger] self@.links[b] by {
                        if a == before.links.len() {
                            assert(self@.links[b] == before.links[b]);
                            assert(before.links.contains(before.links[b]));
                        } else if b == before.links.len() {
                            assert(self@.links[a] == before.links[a]);
                            assert(before.links.contains(before.links[a]));
                        } else {
                            assert(self@.links[a] == before.links[a]);
                            assert(self@.links[b] == before.links[b]);
                        }
                    }
                }
            }
            i = i + 1;
        }
        true
    }

    /// Removes every link of article `aid`.
    fn remove_links_of(&mut self, aid: i64)
        requires
            old(self).wf(),
        ensures
            final(self).wf(),
            final(self)@ == old(self)@.with_links(links_without(old(self)@.links, aid)),
    {
        self.drop_links(false, aid);
    }

    /// Removes every link of tag (`by_tag`) or article `id`.
    fn drop_links(&mut self, by_tag: bool, id: i64)
        requires
            old(self).wf(),
        ensures
            final(self).wf(),
            final(self)@ == old(self)@.with_links(old(self)@.links.filter(link_kept(by_tag, id))),
    {
        let ghost p = link_kept(by_tag, id);
        let mut kept: Vec<(i64, i64)> = Vec::new();
        let mut i: usize = 0;
        while i < self.article_tags.len()
            invariant
                i <= self.article_tags.len(),
                self.wf(),
                p == link_kept(by_tag, id),
                kept@ == self.article_tags@.take(i as int).filter(p),
                forall|k: int| 0 <= k < kept.len() ==> self.article_tags@.take(i as int).contains(#[trigger] kept@[k]),
                forall|a: int, b: int| 0 <= a < kept.len() && 0 <= b < kept.len() && a != b ==> #[trigger] kept@[a]
                    != #[trigger] kept@[b],
            decreases self.article_tags.len() - i,
        {
            proof {
                lemma_filter_take(self.article_tags@, i as int, p);
            }
            let (a, t) = self.article_tags[i];
            let keep = if by_tag {
                t != id
            } else {
                a != id
            };
            if keep {
                let ghost before = kept@;
                proof {
                    assert(!before.contains(self.article_tags@[i as int])) by {
                        if before.contains(self.article_tags@[i as int]) {
                            let k = choose|k: int| 0 <= k < before.len() && before[k] == self.article_tags@[i as int];
                            assert(self.article_tags@.take(i as int).contains(before[k]));
                            let m = choose|m: int| 0 <= m < i && self.article_tags@.take(i as int)[m] == before[k];
                            assert(self.article_tags@.take(i as int)[m] == self.article_tags@[m]);
                            assert(self@.links[m] != self@.links[i as int]);
                        }
                    }
                }
                kept.push((a, t));
                proof {
                    assert forall|k: int| 0 <= k < kept.len() implies self.article_tags@.take(i + 1).contains(
                        #[trigger] kept@[k],
                    ) by {
                        if k < before.len() {
                            assert(kept@[k] == before[k]);
                            let m = choose|m: int| 0 <= m < i && self.article_tags@.take(i as int)[m] == before[k];
                            assert(self.article_tags@.take(i + 1)[m] == before[k]);
                        } else {
                            assert(self.article_tags@.take(i + 1)[i as int] == kept@[k]);
                        }
                    }
                    assert forall|x: int, y: int| 0 <= x < kept.len() && 0 <= y < kept.len() && x != y implies #[trigger] kept@[x]
                        != #[trigger] kept@[y] by {
                        if x < before.len() && y < before.len() {
                            assert(kept@[x] == before[x] && kept@[y] == before[y]);
                        } else if x < before.len() {
                            assert(kept@[x] == before[x]);
                            assert(before.contains(before[x]));
                        } else if y < before.len() {
                            assert(kept@[y] == before[y]);
                            assert(before.contains(before[y]));
                        }
                    }
                }
            } else {
                proof {
                    assert forall|k: int| 0 <= k < kept.len() implies self.article_tags@.take(i + 1).contains(
                        #[trigger] kept@[k],
                    ) by {
                        let m = choose|m: int| 0 <= m < i && self.article_tags@.take(i as int)[m] == kept@[k];
                        assert(self.article_tags@.take(i + 1)[m] == kept@[k]);
                    }
                }
            }
            i = i + 1;
        }
        proof {
            assert(self.article_tags@.take(self.article_tags.len() as int) =~= self.article_tags@);
        }
        let ghost v_before = self@;
        self.article_tags = kept;
        proof {
            assert forall|k: int| 0 <= k < self@.links.len() implies has_id(self@.articles, (#[trigger] self@.links[k]).0)
                && has_id(self@.tags, self@.links[k].1) by {
                assert(v_before.links.take(v_before.links.len() as int).contains(kept@[k]));
                let m = choose|m: int| 0 <= m < v_before.links.len() && v_before.links.take(v_before.links.len() as int)[m] == kept@[k];
                assert(v_before.links[m] == self@.links[k]);
                assert(has_id(v_before.articles, v_before.links[m].0));
                assert(has_id(v_before.tags, v_before.links[m].1));
            }
        }
    }

    /// Adds a new article row with the next id of the article sequence.
    fn insert_article(&mut self, a: Article)
        requires
            old(self).wf(),
            old(self)@.article_seq < i64::MAX,
            a.id == old(self)@.article_seq + 1,
            !has_slug(old(self)@.articles, a.slug@),
            a.category_id matches Some(c) ==> has_id(old(self)@.categories, c),
        ensures
            final(self).wf(),
            final(self)@ == (StoreView {
                articles: old(self)@.articles.push(a),
                article_seq: a.id,
                ..old(self)@
            }),
    {
        let ghost v = self@;
        let id = a.id;
        self.articles.push(a);
        self.article_seq = id;
        proof {
            let w = self@;
            assert(w.articles == v.articles.push(a));
            assert forall|i: int| 0 <= i < w.articles.len() implies ((#[trigger] w.articles[i]).category_id matches Some(c)
                ==> has_id(w.categories, c)) by {
                if i < v.articles.len() {
                    assert(w.articles[i] == v.articles[i]);
                }
            }
            assert forall|k: int| 0 <= k < w.links.len() implies has_id(w.articles, (#[trigger] w.links[k]).0) by {
                let j = choose|j: int| 0 <= j < v.articles.len() && (#[trigger] v.articles[j]).row_id() == w.links[k].0;
                assert(w.articles[j] == v.articles[j]);
            }
            assert forall|i: int, j: int| 0 <= i < w.articles.len() && 0 <= j < w.articles.len() && i != j implies #[trigger] w.articles[i].row_slug()
                != #[trigger] w.articles[j].row_slug() by {
                if i < v.articles.len() && j < v.articles.len() {
                    assert(w.articles[i] == v.articles[i] && w.articles[j] == v.articles[j]);
                } else if i < v.articles.len() {
                    assert(w.articles[i] == v.articles[i]);
                } else {
                    assert(w.articles[j] == v.articles[j]);
                }
            }
            assert forall|i: int, j: int| 0 <= i < j < w.articles.len() implies #[trigger] w.articles[i].row_id()
                < #[trigger] w.articles[j].row_id() by {
                assert(w.articles[i] == v.articles[i]);
                if j < v.articles.len() {
                    assert(w.articles[j] == v.articles[j]);
                }
            }
            assert forall|i: int| 0 <= i < w.articles.len() implies 1 <= #[trigger] w.articles[i].row_id() <= w.article_seq by {
                if i < v.articles.len() {
                    assert(w.articles[i] == v.articles[i]);
                }
            }
        }
    }

    /// Replaces the article row at `idx` by a row with the same id and slug.
    fn replace_article(&mut self, idx: usize, a: Article)
        requires
            old(self).wf(),
            idx < old(self)@.articles.len(),
            a.id == old(self)@.articles[idx as int].id,
            a.slug@ == old(self)@.articles[idx as int].slug@,
            a.category_id matches Some(c) ==> has_id(old(self)@.categories, c),
        ensures
            final(self).wf(),
            final(self)@ == old(self)@.with_articles(old(self)@.articles.update(idx as int, a)),
    {
        let ghost v = self@;
        self.articles.set(idx, a);
        proof {
            let w = self@;
            assert(w.articles == v.articles.update(idx as int, a));
            assert forall|i: int| 0 <= i < w.articles.len() implies ((#[trigger] w.articles[i]).category_id matches Some(c)
                ==> has_id(w.categories, c)) by {
                if i != idx {
                    assert(w.articles[i] == v.articles[i]);
                }
            }
            assert forall|k: int| 0 <= k < w.links.len() implies has_id(w.articles, (#[trigger] w.links[k]).0) by {
                assert(w.links[k] == v.links[k]);
                assert(has_id(v.articles, v.links[k].0));
                let j = choose|j: int| 0 <= j < v.articles.len() && (#[trigger] v.articles[j]).row_id() == w.links[k].0;
                assert(w.articles[j].row_id() == v.articles[j].row_id());
            }
            assert forall|i: int, j: int| 0 <= i < w.articles.len() && 0 <= j < w.articles.len() && i != j implies #[trigger] w.articles[i].row_slug()
                != #[trigger] w.articles[j].row_slug() by {
                assert(w.articles[i].row_slug() == v.articles[i].row_slug());
                assert(w.articles[j].row_slug() == v.articles[j].row_slug());
            }
            assert forall|i: int, j: int| 0 <= i < j < w.articles.len() implies #[trigger] w.articles[i].row_id()
                < #[trigger] w.articles[j].row_id() by {
                assert(w.articles[i].row_id() == v.articles[i].row_id());
                assert(w.articles[j].row_id() == v.articles[j].row_id());
            }
            assert forall|i: int| 0 <= i < w.articles.len() implies 1 <= #[trigger] w.articles[i].row_id() <= w.article_seq by {
                assert(w.articles[i].row_id() == v.articles[i].row_id());
            }
            assert(w.links == v.links && w.tags == v.tags);
            assert forall|k: int| 0 <= k < w.links.len() implies has_id(w.tags, (#[trigger] w.links[k]).1) by {
                assert(w.links[k] == v.links[k]);
            }
            assert(links_valid(w.links, w.articles, w.tags));
            assert(categories_valid(w.articles, w.categories));
            assert(slugs_unique(w.articles));
            assert(ids_rising(w.articles, w.article_seq));
        }
    }

    /// Removes the article row at `idx` with all its links.
    fn remove_article(&mut self, idx: usize)
        requires
            old(self).wf(),
            idx < old(self)@.articles.len(),
        ensures
            final(self).wf(),
            final(self)@ == old(self)@.with_articles(old(self)@.articles.remove(idx as int)).with_links(
                links_without(old(self)@.links, old(self)@.articles[idx as int].id),
            ),
    {
        let ghost v = self@;
        let id = self.articles[idx].id;
        self.remove_links_of(id);
        let ghost v1 = self@;
        self.articles.remove(idx);
        proof {
            let w = self@;
            let p = link_kept(false, id);
            assert(w.articles == v.articles.remove(idx as int));
            assert forall|i: int| 0 <= i < w.articles.len() implies ((#[trigger] w.articles[i]).category_id matches Some(c)
                ==> has_id(w.categories, c)) by {
                if i < idx {
                    assert(w.articles[i] == v.articles[i]);
                } else {
                    assert(w.articles[i] == v.articles[i + 1]);
                }
            }
            assert forall|k: int| 0 <= k < w.links.len() implies has_id(w.articles, (#[trigger] w.links[k]).0) by {
                v.links.lemma_filter_pred(p, k);
                assert(w.links[k].0 != id);
                assert(w.links[k] == v1.links[k]);
                assert(has_id(v1.articles, v1.links[k].0));
                let j = choose|j: int| 0 <= j < v.articles.len() && (#[trigger] v.articles[j]).row_id() == w.links[k].0;
                assert(j != idx);
                if j < idx {
                    assert(w.articles[j] == v.articles[j]);
                } else {
                    assert(w.articles[j - 1] == v.articles[j]);
                }
            }
            assert forall|i: int, j: int| 0 <= i < w.articles.len() && 0 <= j < w.articles.len() && i != j implies #[trigger] w.articles[i].row_slug()
                != #[trigger] w.articles[j].row_slug() by {
                let i1 = if i < idx { i } else { i + 1 };
                let j1 = if j < idx { j } else { j + 1 };
                assert(w.articles[i] == v.articles[i1]);
                assert(w.articles[j] == v.articles[j1]);
            }
            assert forall|i: int, j: int| 0 <= i < j < w.articles.len() implies #[trigger] w.articles[i].row_id()
                < #[trigger] w.articles[j].row_id() by {
                let i1 = if i < idx { i } else { i + 1 };
                let j1 = if j < idx { j } else { j + 1 };
                assert(w.articles[i] == v.articles[i1]);
                assert(w.articles[j] == v.articles[j1]);
            }
            assert forall|i: int| 0 <= i < w.articles.len() implies 1 <= #[trigger] w.articles[i].row_id() <= w.article_seq by {
                let i1 = if i < idx { i } else { i + 1 };
                assert(w.articles[i] == v.articles[i1]);
            }
            assert(w.links == v1.links && w.tags == v1.tags);
            assert forall|k: int| 0 <= k < w.links.len() implies has_id(w.tags, (#[trigger] w.links[k]).1) by {
                assert(w.links[k] == v1.links[k]);
            }
            assert(links_valid(w.links, w.articles, w.tags));
            assert(categories_valid(w.articles, w.categories));
            assert(slugs_unique(w.articles));
            assert(ids_rising(w.articles, w.article_seq));
        }
    }

    /// Adds a new page row with the next id of the page sequence.
    fn insert_page(&mut self, p: Page)
        requires
            old(self).wf(),
            old(self)@.page_seq < i64::MAX,
            p.id == old(self)@.page_seq + 1,
            !has_slug(old(self)@.pages, p.slug@),
        ensures
            final(self).wf(),
            final(self)@ == (StoreView { pages: old(self)@.pages.push(p), page_seq: p.id, ..old(self)@ }),
    {
        proof {
            lemma_push_row(self@.pages, p, self@.page_seq);
        }
        let id = p.id;
        self.pages.push(p);
        self.page_seq = id;
    }

    /// Replaces the page row at `idx` by a row with the same id and slug.
    fn replace_page(&mut self, idx: usize, p: Page)
        requires
            old(self).wf(),
            idx < old(self)@.pages.len(),
            p.id == old(self)@.pages[idx as int].id,
            p.slug@ == old(self)@.pages[idx as int].slug@,
        ensures
            final(self).wf(),
            final(self)@ == old(self)@.with_pages(old(self)@.pages.update(idx as int, p)),
    {
        proof {
            lemma_update_row(self@.pages, idx as int, p, self@.page_seq);
        }
        self.pages.set(idx, p);
    }

    /// Removes the page row at `idx`.
    fn remove_page(&mut self, idx: usize)
        requires
            old(self).wf(),
            idx < old(self)@.pages.len(),
        ensures
            final(self).wf(),
            final(self)@ == old(self)@.with_pages(old(self)@.pages.remove(idx as int)),
    {
        proof {
            lemma_remove_row(self@.pages, idx as int, self@.page_seq);
        }
        self.pages.remove(idx);
    }

    /// Adds a new tag row with the next id of the tag sequence.
    fn insert_tag(&mut self, t: Tag)
        requires
            old(self).wf(),
            old(self)@.tag_seq < i64::MAX,
            t.id == old(self)@.tag_seq + 1,
            !has_slug(old(self)@.tags, t.slug@),
        ensures
            final(self).wf(),
            final(self)@ == (StoreView { tags: old(self)@.tags.push(t), tag_seq: t.id, ..old(self)@ }),
    {
        let ghost v = self@;
        proof {
            lemma_push_row(self@.tags, t, self@.tag_seq);
        }
        let id = t.id;
        self.tags.push(t);
        self.tag_seq = id;
        proof {
            let w = self@;
            assert forall|k: int| 0 <= k < w.links.len() implies has_id(w.tags, (#[trigger] w.links[k]).1) by {
                assert(w.links[k] == v.links[k]);
                assert(has_id(v.tags, v.links[k].1));
            }
        }
    }

    /// Removes the tag row at `idx` with all its links.
    fn remove_tag(&mut self, idx: usize)
        requires
            old(self).wf(),
            idx < old(self)@.tags.len(),
        ensures
            final(self).wf(),
            final(self)@ == old(self)@.with_tags(old(self)@.tags.remove(idx as int)).with_links(
                links_without_tag(old(self)@.links, old(self)@.tags[idx as int].id),
            ),
    {
        let ghost v = self@;
        let id = self.tags[idx].id;
        self.drop_links(true, id);
        let ghost v1 = self@;
        proof {
            lemma_remove_row(self@.tags, idx as int, self@.tag_seq);
        }
        self.tags.remove(idx);
        proof {
            let w = self@;
            let p = link_kept(true, id);
            assert forall|k: int| 0 <= k < w.links.len() implies has_id(w.tags, (#[trigger] w.links[k]).1)
                && has_id(w.articles, w.links[k].0) by {
                v.links.lemma_filter_pred(p, k);
                assert(w.links[k] == v1.links[k]);
                assert(has_id(v1.tags, v1.links[k].1));
                assert(has_id(v1.articles, v1.links[k].0));
            }
            assert forall|i: int, j: int| 0 <= i < w.links.len() && 0 <= j < w.links.len() && i != j implies #[trigger] w.links[i]
                != #[trigger] w.links[j] by {
                assert(w.links[i] == v1.links[i] && w.links[j] == v1.links[j]);
            }
            assert(categories_valid(w.articles, w.categories)) by {
                assert forall|i: int| 0 <= i < w.articles.len() implies ((#[trigger] w.articles[i]).category_id matches Some(c)
                    ==> has_id(w.categories, c)) by {
                    assert(w.articles[i] == v1.articles[i]);
                }
            }
        }
    }

    /// Adds a new category row with the next id of the category sequence.
    fn insert_category(&mut self, c: Category)
        requires
            old(self).wf(),
            old(self)@.category_seq < i64::MAX,
            c.id == old(self)@.category_seq + 1,
            !has_slug(old(self)@.categories, c.slug@),
        ensures
            final(self).wf(),
            final(self)@ == (StoreView {
                categories: old(self)@.categories.push(c),
                category_seq: c.id,
                ..old(self)@
            }),
    {
        let ghost v = self@;
        proof {
            lemma_push_row(self@.categories, c, self@.category_seq);
        }
        let id = c.id;
        self.categories.push(c);
        self.category_seq = id;
        proof {
            let w = self@;
            assert forall|i: int| 0 <= i < w.articles.len() implies ((#[trigger] w.articles[i]).category_id matches Some(x)
                ==> has_id(w.categories, x)) by {
                assert(w.articles[i] == v.articles[i]);
            }
        }
    }

    /// Replaces the category row at `idx` by a row with the same id and slug.
    fn replace_category(&mut self, idx: usize, c: Category)
        requires
            old(self).wf(),
            idx < old(self)@.categories.len(),
            c.id == old(self)@.categories[idx as int].id,
            c.slug@ == old(self)@.categories[idx as int].slug@,
        ensures
            final(self).wf(),
            final(self)@ == old(self)@.with_categories(old(self)@.categories.update(idx as int, c)),
    {
        let ghost v = self@;
        proof {
            lemma_update_row(self@.categories, idx as int, c, self@.category_seq);
        }
        self.categories.set(idx, c);
        proof {
            let w = self@;
            assert forall|i: int| 0 <= i < w.articles.len() implies ((#[trigger] w.articles[i]).category_id matches Some(x)
                ==> has_id(w.categories, x)) by {
                assert(w.articles[i] == v.articles[i]);
            }
        }
    }

    /// Removes the category row at `idx`; its articles lose their category.
    fn remove_category(&mut self, idx: usize)
        requires
            old(self).wf(),
            idx < old(self)@.categories.len(),
        ensures
            final(self).wf(),
            final(self)@ == old(self)@.with_categories(old(self)@.categories.remove(idx as int)).with_articles(
                old(self)@.articles.map_values(without_category(old(self)@.categories[idx as int].id)),
            ),
    {
        let ghost v = self@;
        let cid = self.categories[idx].id;
        let ghost f = without_category(cid);
        let mut i: usize = 0;
        while i < self.articles.len()
            invariant
                0 <= i <= self.articles.len(),
                self.articles.len() == v.articles.len(),
                f == without_category(cid),
                forall|k: int| 0 <= k < i ==> #[trigger] self.articles@[k] == f(v.articles[k]),
                forall|k: int| i <= k < self.articles.len() ==> #[trigger] self.articles@[k] == v.articles[k],
                self@ == v.with_articles(self.articles@),
            decreases self.articles.len() - i,
        {
            if self.articles[i].category_id == Some(cid) {
                let mut a = self.articles[i].copy();
                a.category_id = None;
                self.articles.set(i, a);
            }
            i = i + 1;
        }
        proof {
            lemma_remove_row(v.categories, idx as int, v.category_seq);
        }
        self.categories.remove(idx);
        proof {
            let w = self@;
            assert(w.articles =~= v.articles.map_values(f));
            assert forall|k: int| 0 <= k < w.articles.len() implies (#[trigger] w.articles[k]).row_id() == v.articles[k].row_id()
                && w.articles[k].row_slug() == v.articles[k].row_slug() by {
                assert(w.articles[k] == f(v.articles[k]));
            }
            assert forall|a: int, b: int| 0 <= a < b < w.articles.len() implies #[trigger] w.articles[a].row_id()
                < #[trigger] w.articles[b].row_id() by {
                assert(w.articles[a].row_id() == v.articles[a].row_id());
                assert(w.articles[b].row_id() == v.articles[b].row_id());
            }
            assert forall|a: int| 0 <= a < w.articles.len() implies 1 <= #[trigger] w.articles[a].row_id() <= w.article_seq by {
                assert(w.articles[a].row_id() == v.articles[a].row_id());
            }
            assert forall|a: int, b: int| 0 <= a < w.articles.len() && 0 <= b < w.articles.len() && a != b implies #[trigger] w.articles[a].row_slug()
                != #[trigger] w.articles[b].row_slug() by {
                assert(w.articles[a].row_slug() == v.articles[a].row_slug());
                assert(w.articles[b].row_slug() == v.articles[b].row_slug());
            }
            assert forall|k: int| 0 <= k < w.links.len() implies has_id(w.articles, (#[trigger] w.links[k]).0)
                && has_id(w.tags, w.links[k].1) by {
                assert(w.links[k] == v.links[k]);
                assert(has_id(v.articles, v.links[k].0));
                assert(has_id(v.tags, v.links[k].1));
                let j = choose|j: int| 0 <= j < v.articles.len() && (#[trigger] v.articles[j]).row_id() == w.links[k].0;
                assert(w.articles[j].row_id() == v.articles[j].row_id());
            }
            assert forall|i: int, j: int| 0 <= i < w.links.len() && 0 <= j < w.links.len() && i != j implies #[trigger] w.links[i]
                != #[trigger] w.links[j] by {
                assert(w.links[i] == v.links[i] && w.links[j] == v.links[j]);
            }
            assert forall|k: int| 0 <= k < w.articles.len() implies ((#[trigger] w.articles[k]).category_id matches Some(x)
                ==> has_id(w.categories, x)) by {
                assert(w.articles[k] == f(v.articles[k]));
                if v.articles[k].category_id != Some(cid) {
                    assert(w.articles[k] == v.articles[k]);
                    assert(categories_valid(v.articles, v.categories));
                    if let Some(x) = v.articles[k].category_id {
                        assert(has_id(v.categories, x));
                        assert(x != v.categories[idx as int].row_id());
                    }
                }
            }
        }
    }

    /// Sets the value of setting `key`, adding the setting when it is new.
    fn put_setting(&mut self, key: &str, value: &str) -> (r: Setting)
        requires
            old(self).wf(),
        ensures
            final(self).wf(),
            r.key@ == key@,
            r.value@ == value@,
            ({
                let v = old(self)@;
                let i = setting_index(v.settings, key@);
                if i >= 0 {
                    final(self)@ == v.with_settings(v.settings.update(i, r))
                } else {
                    final(self)@ == v.with_settings(v.settings.push(r))
                }
            }),
    {
        let ghost v = self@;
        let ghost p = key_is(key@);
        let mut i: usize = 0;
        while i < self.settings.len()
            invariant
                i <= self.settings.len(),
                self@ == v,
                v == old(self)@,
                v.wf(),
                p == key_is(key@),
                forall|j: int| 0 <= j < i ==> !p(#[trigger] self.settings@[j]),
            decreases self.settings.len() - i,
        {
            if crate::text::str_eq(self.settings[i].key.as_str(), key) {
                proof {
                    table::lemma_first_match_is(self.settings@, p, i as int);
                }
                let ghost i0 = i as int;
                let s = Setting { key: String::from_str(key), value: String::from_str(value) };
                let r = s.copy();
                self.settings.set(i, s);
                proof {
                    let w = self@;
                    assert(v.settings[i0].key@ == key@);
                    assert forall|a: int| 0 <= a < w.settings.len() implies (#[trigger] w.settings[a]).key@
                        == v.settings[a].key@ by {
                        if a == i0 {
                            assert(w.settings[a].key@ == key@);
                        } else {
                            assert(w.settings[a] == v.settings[a]);
                        }
                    }
                    assert forall|a: int, b: int| 0 <= a < w.settings.len() && 0 <= b < w.settings.len() && a != b implies #[trigger] w.settings[a].key@
                        != #[trigger] w.settings[b].key@ by {
                        assert(w.settings[a].key@ == v.settings[a].key@);
                        assert(w.settings[b].key@ == v.settings[b].key@);
                    }
                }
                return r;
            }
            i = i + 1;
        }
        proof {
            table::lemma_first_match_none(self.settings@, p);
        }
        let s = Setting { key: String::from_str(key), value: String::from_str(value) };
        let r = s.copy();
        self.settings.push(s);
        proof {
            let w = self@;
            assert forall|a: int, b: int| 0 <= a < w.settings.len() && 0 <= b < w.settings.len() && a != b implies #[trigger] w.settings[a].key@
                != #[trigger] w.settings[b].key@ by {
                if a < v.settings.len() {
                    assert(w.settings[a] == v.settings[a]);
                    assert(!p(v.settings[a]));
                }
                if b < v.settings.len() {
                    assert(w.settings[b] == v.settings[b]);
                    assert(!p(v.settings[b]));
                }
            }
        }
        r
    }

    /// Finds setting `key`.
    fn find_setting(&self, key: &str) -> (r: Option<usize>)
        ensures
            match r {
                Some(i) => i as int == setting_index(self@.settings, key@) && i < self@.settings.len(),
                None => setting_index(self@.settings, key@) == -1,
            },
    {
        let ghost p = key_is(key@);
        let mut i: usize = 0;
        while i < self.settings.len()
            invariant
                i <= self.settings.len(),
                p == key_is(key@),
                forall|j: int| 0 <= j < i ==> !p(#[trigger] self.settings@[j]),
            decreases self.settings.len() - i,
        {
            if crate::text::str_eq(self.settings[i].key.as_str(), key) {
                proof {
                    table::lemma_first_match_is(self.settings@, p, i as int);
                }
                return Some(i);
            }
            i = i + 1;
        }
        proof {
            table::lemma_first_match_none(self.settings@, p);
        }
        None
    }

    /// Removes the setting at `idx`.
    fn remove_setting(&mut self, idx: usize)
        requires
            old(self).wf(),
            idx < old(self)@.settings.len(),
        ensures
            final(self).wf(),
            final(self)@ == old(self)@.with_settings(old(self)@.settings.remove(idx as int)),
    {
        let ghost v = self@;
        self.settings.remove(idx);
        proof {
            let w = self@;
            assert forall|a: int, b: int| 0 <= a < w.settings.len() && 0 <= b < w.settings.len() && a != b implies #[trigger] w.settings[a].key@
                != #[trigger] w.settings[b].key@ by {
                assert(w.settings[a] == v.settings[if a < idx { a } else { a + 1 }]);
                assert(w.settings[b] == v.settings[if b < idx { b } else { b + 1 }]);
            }
        }
    }

    /// The category that `cid` names, when there is one.
    pub fn category_of(&self, cid: Option<i64>) -> (r: Option<Category>)
        ensures
            r == category_of(self@, cid),
    {
        match cid {
            Some(c) => match find_id(&self.categories, c) {
                Some(i) => Some(self.categories[i].copy()),
                None => None,
            },
            None => None,
        }
    }
}

} // verus!
pub mod articles;
pub mod pages;
pub mod tags;
pub mod categories;
pub mod settings;
pub mod db;
pub mod laws;
pub mod snapshot;
