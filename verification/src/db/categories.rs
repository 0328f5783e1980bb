//! Categories: the sections that articles are filed under.
use vstd::prelude::*;
use crate::common::{Category, CreateCategory, UpdateCategory};
use crate::error::{AppError, id_missing, name_missing, unique_failed, store_full, id_missing_msg, name_missing_msg, unique_failed_msg, store_full_msg};
use crate::slugs::{slugify, slugify_result};
use super::{Store, StoreView, without_category};
use super::articles::text_or_empty;
use crate::text::{int_decimal, i64_to_string, str_eq};
use super::order::{listing, sort_rows};
use super::table::{first_match, lemma_first_match_is, lemma_first_match_none, lemma_ids_distinct, has_slug, index_of_id, index_of_slug, row_with_slug, find_id, find_slug};

verus! {

/// The slug a new category gets: the one it is given, else the slug of its
/// name.
pub open spec fn category_slug(input: CreateCategory) -> Seq<char> {
    match input.slug {
        Some(s) => s@,
        None => slugify_result(input.name@),
    }
}

/// What `create` does: the store `v` becomes `w` and the answer is `r`.
pub open spec fn category_created(v: StoreView, input: CreateCategory, w: StoreView, r: Result<Category, AppError>) -> bool {
    let slug = category_slug(input);
    if has_slug(v.categories, slug) {
        &&& r matches Err(AppError::Internal(m)) && m@ == unique_failed("categories.slug"@)
        &&& w == v
    } else if v.category_seq == i64::MAX {
        &&& r matches Err(AppError::Internal(m)) && m@ == store_full()
        &&& w == v
    } else {
        let c = w.categories.last();
        &&& c.id == v.category_seq + 1
        &&& c.slug@ == slug
        &&& c.name == input.name
        &&& c.description@ == text_or_empty(input.description)
        &&& w == (StoreView { categories: v.categories.push(c), category_seq: c.id, ..v })
        &&& r == Ok::<Category, AppError>(c)
    }
}

/// Writes a new category. A slug that a category has already fails: the
/// slug column is unique.
pub fn create(store: &mut Store, input: CreateCategory) -> (r: Result<Category, AppError>)
    requires
        old(store).wf(),
    ensures
        final(store).wf(),
        category_created(old(store)@, input, final(store)@, r),
{
    let slug = match input.slug {
        Some(s) => s,
        None => slugify(input.name.as_str()),
    };
    if find_slug(&store.categories, slug.as_str()).is_some() {
        return Err(AppError::Internal(unique_failed_msg("categories.slug")));
    }
    if store.category_seq == i64::MAX {
        return Err(AppError::Internal(store_full_msg()));
    }
    let description = match input.description {
        Some(d) => d,
        None => String::new(),
    };
    let c = Category { id: store.category_seq + 1, slug, name: input.name, description };
    let result = c.copy();
    store.insert_category(c);
    Ok(result)
}

/// Lists all categories by name.
pub fn list(store: &Store) -> (r: Result<Vec<Category>, AppError>)
    requires
        store.wf(),
    ensures
        r matches Ok(cats) && cats@ == listing(store@.categories),
{
    proof {
        lemma_ids_distinct(store@.categories, store@.category_seq);
    }
    Ok(sort_rows(&store.categories))
}

/// Reads the category with slug `slug`.
pub fn get_by_slug(store: &Store, slug: &str) -> (r: Result<Category, AppError>)
    ensures
        match row_with_slug(store@.categories, slug@) {
            Some(c) => r == Ok::<Category, AppError>(c),
            None => r matches Err(AppError::NotFound(m)) && m@ == name_missing("category"@, slug@),
        },
{
    match find_slug(&store.categories, slug) {
        Some(i) => Ok(store.categories[i].copy()),
        None => Err(AppError::NotFound(name_missing_msg("category", slug))),
    }
}

/// Whether a category's id, written in decimal, is `key`.
pub open spec fn decimal_id_is(key: Seq<char>) -> spec_fn(Category) -> bool {
    |c: Category| int_decimal(c.id as int) == key
}

/// The category that a path segment `key` names: the one with that slug,
/// else the first whose id, written in decimal, is `key`.
pub open spec fn category_named(cats: Seq<Category>, key: Seq<char>) -> Option<Category> {
    match row_with_slug(cats, key) {
        Some(c) => Some(c),
        None => {
            let i = first_match(cats, decimal_id_is(key));
            if i >= 0 {
                Some(cats[i])
            } else {
                None
            }
        },
    }
}

/// Reads the category that the path segment `key` names, by slug or by id.
pub fn get_by_key(store: &Store, key: &str) -> (r: Result<Category, AppError>)
    ensures
        match category_named(store@.categories, key@) {
            Some(c) => r == Ok::<Category, AppError>(c),
            None => r matches Err(AppError::NotFound(m)) && m@ == name_missing("category"@, key@),
        },
{
    match find_slug(&store.categories, key) {
        Some(i) => {
            return Ok(store.categories[i].copy());
        },
        None => {},
    }
    let ghost p = decimal_id_is(key@);
    let mut i: usize = 0;
    while i < store.categories.len()
        invariant
            i <= store.categories.len(),
            p == decimal_id_is(key@),
            row_with_slug(store@.categories, key@) is None,
            forall|j: int| 0 <= j < i ==> !p(#[trigger] store@.categories[j]),
        decreases store.categories.len() - i,
    {
        let shown = i64_to_string(store.categories[i].id);
        if str_eq(shown.as_str(), key) {
            proof {
                lemma_first_match_is(store@.categories, p, i as int);
            }
            return Ok(store.categories[i].copy());
        }
        i = i + 1;
    }
    proof {
        lemma_first_match_none(store@.categories, p);
    }
    Err(AppError::NotFound(name_missing_msg("category", key)))
}

/// What `update` does.
pub open spec fn category_updated(v: StoreView, id: i64, input: UpdateCategory, w: StoreView, r: Result<Category, AppError>) -> bool {
    let i = index_of_id(v.categories, id);
    if i < 0 {
        &&& r matches Err(AppError::NotFound(m)) && m@ == id_missing("category"@, id)
        &&& w == v
    } else {
        let old_c = v.categories[i];
        let c = (Category {
            name: match input.name { Some(n) => n, None => old_c.name },
            description: match input.description { Some(d) => d, None => old_c.description },
            ..old_c
        });
        &&& w == v.with_categories(v.categories.update(i, c))
        &&& r == Ok::<Category, AppError>(c)
    }
}

/// Changes category `id`: each field that `input` gives replaces the stored
/// one.
pub fn update(store: &mut Store, id: i64, input: UpdateCategory) -> (r: Result<Category, AppError>)
    requires
        old(store).wf(),
    ensures
        final(store).wf(),
        category_updated(old(store)@, id, input, final(store)@, r),
{
    match find_id(&store.categories, id) {
        Some(idx) => {
            let mut c = store.categories[idx].copy();
            match input.name {
                Some(n) => {
                    c.name = n;
                },
                None => {},
            }
            match input.description {
                Some(d) => {
                    c.description = d;
                },
                None => {},
            }
            let result = c.copy();
            store.replace_category(idx, c);
            Ok(result)
        },
        None => Err(AppError::NotFound(id_missing_msg("category", id))),
    }
}

/// What `delete` does.
pub open spec fn category_deleted(v: StoreView, slug: Seq<char>, w: StoreView, r: Result<(), AppError>) -> bool {
    let i = index_of_slug(v.categories, slug);
    if i < 0 {
        &&& r matches Err(AppError::NotFound(m)) && m@ == name_missing("category"@, slug)
        &&& w == v
    } else {
        &&& w == v.with_categories(v.categories.remove(i)).with_articles(
            v.articles.map_values(without_category(v.categories[i].id)),
        )
        &&& r is Ok
    }
}

/// Removes the category with slug `slug`; its articles lose their category.
pub fn delete(store: &mut Store, slug: &str) -> (r: Result<(), AppError>)
    requires
        old(store).wf(),
    ensures
        final(store).wf(),
        category_deleted(old(store)@, slug@, final(store)@, r),
{
    match find_slug(&store.categories, slug) {
        Some(idx) => {
            store.remove_category(idx);
            Ok(())
        },
        None => Err(AppError::NotFound(name_missing_msg("category", slug))),
    }
}

} // verus!
