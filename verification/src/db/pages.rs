//! Pages: the site's standing pages (about, contact and the like).
use vstd::prelude::*;
use crate::common::{Page, PageStatus, CreatePage, UpdatePage};
use crate::error::{AppError, id_missing, name_missing, slug_taken, store_full, id_missing_msg, name_missing_msg, slug_taken_msg, store_full_msg};
use super::{Store, StoreView};
use super::articles::text_or_empty;
use super::order::{listing, sort_rows, keys_distinct};
use super::table::{lemma_ids_distinct, has_slug, index_of_id, row_with_id, row_with_slug, find_id, find_slug};

verus! {

/// `p` is the page that `create` makes from `input`: a draft with id `id`,
/// created and updated at `now`.
pub open spec fn created_page(p: Page, input: CreatePage, id: i64, now: i64) -> bool {
    &&& p.id == id
    &&& p.slug == input.slug
    &&& p.title == input.title
    &&& p.body@ == text_or_empty(input.body)
    &&& p.status == PageStatus::Draft
    &&& p.created_at == now
    &&& p.updated_at == now
}

/// What `create` does: the store `v` becomes `w` and the answer is `r`.
pub open spec fn page_created(v: StoreView, input: CreatePage, now: i64, w: StoreView, r: Result<Page, AppError>) -> bool {
    if has_slug(v.pages, input.slug@) {
        &&& r matches Err(AppError::Conflict(m)) && m@ == slug_taken(input.slug@)
        &&& w == v
    } else if v.page_seq == i64::MAX {
        &&& r matches Err(AppError::Internal(m)) && m@ == store_full()
        &&& w == v
    } else {
        let p = w.pages.last();
        &&& created_page(p, input, (v.page_seq + 1) as i64, now)
        &&& w == (StoreView { pages: v.pages.push(p), page_seq: p.id, ..v })
        &&& r == Ok::<Page, AppError>(p)
    }
}

/// Writes a new draft page under the slug it is given; a slug that a page
/// has already is refused with `Conflict`.
pub fn create(store: &mut Store, input: CreatePage, now: i64) -> (r: Result<Page, AppError>)
    requires
        old(store).wf(),
    ensures
        final(store).wf(),
        page_created(old(store)@, input, now, final(store)@, r),
{
    if find_slug(&store.pages, input.slug.as_str()).is_some() {
        return Err(AppError::Conflict(slug_taken_msg(input.slug.as_str())));
    }
    if store.page_seq == i64::MAX {
        return Err(AppError::Internal(store_full_msg()));
    }
    let id = store.page_seq + 1;
    let body = match input.body {
        Some(b) => b,
        None => String::new(),
    };
    let p = Page {
        id,
        slug: input.slug,
        title: input.title,
        body,
        status: PageStatus::Draft,
        created_at: now,
        updated_at: now,
    };
    let result = p.copy();
    store.insert_page(p);
    Ok(result)
}

/// Reads page `id`.
pub fn get_by_id(store: &Store, id: i64) -> (r: Result<Page, AppError>)
    ensures
        match row_with_id(store@.pages, id) {
            Some(p) => r == Ok::<Page, AppError>(p),
            None => r matches Err(AppError::NotFound(m)) && m@ == id_missing("page"@, id),
        },
{
    match find_id(&store.pages, id) {
        Some(i) => Ok(store.pages[i].copy()),
        None => Err(AppError::NotFound(id_missing_msg("page", id))),
    }
}

/// Reads the page with slug `slug`.
pub fn get_by_slug(store: &Store, slug: &str) -> (r: Result<Page, AppError>)
    ensures
        match row_with_slug(store@.pages, slug@) {
            Some(p) => r == Ok::<Page, AppError>(p),
            None => r matches Err(AppError::NotFound(m)) && m@ == name_missing("page"@, slug@),
        },
{
    match find_slug(&store.pages, slug) {
        Some(i) => Ok(store.pages[i].copy()),
        None => Err(AppError::NotFound(name_missing_msg("page", slug))),
    }
}

/// Lists all pages, latest created first.
pub fn list(store: &Store) -> (r: Result<Vec<Page>, AppError>)
    requires
        store.wf(),
    ensures
        r matches Ok(pages) && pages@ == listing(store@.pages),
{
    proof {
        lemma_ids_distinct(store@.pages, store@.page_seq);
    }
    Ok(sort_rows(&store.pages))
}

/// What `update` does.
pub open spec fn page_updated(v: StoreView, id: i64, input: UpdatePage, now: i64, w: StoreView, r: Result<Page, AppError>) -> bool {
    let i = index_of_id(v.pages, id);
    if i < 0 {
        &&& r matches Err(AppError::NotFound(m)) && m@ == id_missing("page"@, id)
        &&& w == v
    } else {
        let old_p = v.pages[i];
        let p = (Page {
            title: match input.title { Some(t) => t, None => old_p.title },
            body: match input.body { Some(b) => b, None => old_p.body },
            updated_at: now,
            ..old_p
        });
        &&& w == v.with_pages(v.pages.update(i, p))
        &&& r == Ok::<Page, AppError>(p)
    }
}

/// Changes page `id`: each field that `input` gives replaces the stored one;
/// the page is updated at `now`.
pub fn update(store: &mut Store, id: i64, input: UpdatePage, now: i64) -> (r: Result<Page, AppError>)
    requires
        old(store).wf(),
    ensures
        final(store).wf(),
        page_updated(old(store)@, id, input, now, final(store)@, r),
{
    match find_id(&store.pages, id) {
        Some(idx) => {
            let mut p = store.pages[idx].copy();
            match input.title {
                Some(t) => {
                    p.title = t;
                },
                None => {},
            }
            match input.body {
                Some(b) => {
                    p.body = b;
                },
                None => {},
            }
            p.updated_at = now;
            let result = p.copy();
            store.replace_page(idx, p);
            Ok(result)
        },
        None => Err(AppError::NotFound(id_missing_msg("page", id))),
    }
}

/// What `publish` does.
pub open spec fn page_published(v: StoreView, id: i64, now: i64, w: StoreView, r: Result<Page, AppError>) -> bool {
    let i = index_of_id(v.pages, id);
    if i < 0 {
        &&& r matches Err(AppError::NotFound(m)) && m@ == id_missing("page"@, id)
        &&& w == v
    } else {
        let p = (Page { status: PageStatus::Published, updated_at: now, ..v.pages[i] });
        &&& w == v.with_pages(v.pages.update(i, p))
        &&& r == Ok::<Page, AppError>(p)
    }
}

/// Publishes page `id`, updated at `now`.
pub fn publish(store: &mut Store, id: i64, now: i64) -> (r: Result<Page, AppError>)
    requires
        old(store).wf(),
    ensures
        final(store).wf(),
        page_published(old(store)@, id, now, final(store)@, r),
{
    match find_id(&store.pages, id) {
        Some(idx) => {
            let mut p = store.pages[idx].copy();
            p.status = PageStatus::Published;
            p.updated_at = now;
            let result = p.copy();
            store.replace_page(idx, p);
            Ok(result)
        },
        None => Err(AppError::NotFound(id_missing_msg("page", id))),
    }
}

/// What `delete` does.
pub open spec fn page_deleted(v: StoreView, id: i64, w: StoreView, r: Result<(), AppError>) -> bool {
    let i = index_of_id(v.pages, id);
    if i < 0 {
        &&& r matches Err(AppError::NotFound(m)) && m@ == id_missing("page"@, id)
        &&& w == v
    } else {
        &&& w == v.with_pages(v.pages.remove(i))
        &&& r is Ok
    }
}

/// Removes page `id`.
pub fn delete(store: &mut Store, id: i64) -> (r: Result<(), AppError>)
    requires
        old(store).wf(),
    ensures
        final(store).wf(),
        page_deleted(old(store)@, id, final(store)@, r),
{
    match find_id(&store.pages, id) {
        Some(idx) => {
            store.remove_page(idx);
            Ok(())
        },
        None => Err(AppError::NotFound(id_missing_msg("page", id))),
    }
}

} // verus!
