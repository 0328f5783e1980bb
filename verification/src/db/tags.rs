//! Tags: the labels that articles carry.
use vstd::prelude::*;
use crate::common::{Tag, CreateTag};
use crate::error::{AppError, name_missing, unique_failed, store_full, name_missing_msg, unique_failed_msg, store_full_msg};
use crate::slugs::{slugify, slugify_result};
use super::{Store, StoreView, links_without_tag};
use super::order::{listing, sort_rows};
use super::table::{lemma_ids_distinct, has_slug, index_of_slug, find_slug};

verus! {

/// What `create` does: the store `v` becomes `w` and the answer is `r`.
pub open spec fn tag_created(v: StoreView, input: CreateTag, w: StoreView, r: Result<Tag, AppError>) -> bool {
    let slug = slugify_result(input.name@);
    if has_slug(v.tags, slug) {
        &&& r matches Err(AppError::Internal(m)) && m@ == unique_failed("tags.slug"@)
        &&& w == v
    } else if v.tag_seq == i64::MAX {
        &&& r matches Err(AppError::Internal(m)) && m@ == store_full()
        &&& w == v
    } else {
        let t = w.tags.last();
        &&& t.id == v.tag_seq + 1
        &&& t.slug@ == slug
        &&& t.name == input.name
        &&& w == (StoreView { tags: v.tags.push(t), tag_seq: t.id, ..v })
        &&& r == Ok::<Tag, AppError>(t)
    }
}

/// Writes a new tag named `input.name`, under the slug of its name. A name
/// whose slug a tag has already fails: the slug column is unique.
pub fn create(store: &mut Store, input: CreateTag) -> (r: Result<Tag, AppError>)
    requires
        old(store).wf(),
    ensures
        final(store).wf(),
        tag_created(old(store)@, input, final(store)@, r),
{
    let slug = slugify(input.name.as_str());
    if find_slug(&store.tags, slug.as_str()).is_some() {
        return Err(AppError::Internal(unique_failed_msg("tags.slug")));
    }
    if store.tag_seq == i64::MAX {
        return Err(AppError::Internal(store_full_msg()));
    }
    let t = Tag { id: store.tag_seq + 1, slug, name: input.name };
    let result = t.copy();
    store.insert_tag(t);
    Ok(result)
}

/// Lists all tags by name.
pub fn list(store: &Store) -> (r: Result<Vec<Tag>, AppError>)
    requires
        store.wf(),
    ensures
        r matches Ok(tags) && tags@ == listing(store@.tags),
{
    proof {
        lemma_ids_distinct(store@.tags, store@.tag_seq);
    }
    Ok(sort_rows(&store.tags))
}

/// What `delete` does.
pub open spec fn tag_deleted(v: StoreView, slug: Seq<char>, w: StoreView, r: Result<(), AppError>) -> bool {
    let i = index_of_slug(v.tags, slug);
    if i < 0 {
        &&& r matches Err(AppError::NotFound(m)) && m@ == name_missing("tag"@, slug)
        &&& w == v
    } else {
        &&& w == v.with_tags(v.tags.remove(i)).with_links(links_without_tag(v.links, v.tags[i].id))
        &&& r is Ok
    }
}

/// Removes the tag with slug `slug`, and its links to articles.
pub fn delete(store: &mut Store, slug: &str) -> (r: Result<(), AppError>)
    requires
        old(store).wf(),
    ensures
        final(store).wf(),
        tag_deleted(old(store)@, slug@, final(store)@, r),
{
    match find_slug(&store.tags, slug) {
        Some(idx) => {
            store.remove_tag(idx);
            Ok(())
        },
        None => Err(AppError::NotFound(name_missing_msg("tag", slug))),
    }
}

} // verus!
