//! The site's content types: articles, pages, tags, categories, settings,
//! and the inputs that create and change them. Times are whole seconds
//! since the Unix epoch, the resolution of the store's clock.
use vstd::prelude::*;

verus! {

/// Where an article stands: the store accepts these three values only.
#[derive(PartialEq, Eq, Structural, Clone, Copy, Debug)]
pub enum ArticleStatus {
    Draft,
    Published,
    Archived,
}

/// Where a page stands: the store accepts these two values only.
#[derive(PartialEq, Eq, Structural, Clone, Copy, Debug)]
pub enum PageStatus {
    Draft,
    Published,
}

/// The article status stored under the name `s`, if any.
pub open spec fn status_named(s: Seq<char>) -> Option<ArticleStatus> {
    if s == ArticleStatus::Draft.name() {
        Some(ArticleStatus::Draft)
    } else if s == ArticleStatus::Published.name() {
        Some(ArticleStatus::Published)
    } else if s == ArticleStatus::Archived.name() {
        Some(ArticleStatus::Archived)
    } else {
        None
    }
}

impl ArticleStatus {
    /// The name under which the status is stored and sent.
    pub fn as_str(&self) -> (s: &'static str)
        ensures
            s@ == self.name(),
    {
        match self {
            ArticleStatus::Draft => "draft",
            ArticleStatus::Published => "published",
            ArticleStatus::Archived => "archived",
        }
    }

    /// The status stored under the name `s`, if any.
    pub fn from_name(s: &str) -> (r: Option<ArticleStatus>)
        ensures
            r == status_named(s@),
            match r {
                Some(st) => st.name() == s@,
                None => forall|st: ArticleStatus| #[trigger] st.name() != s@,
            },
    {
        if crate::text::str_eq(s, "draft") {
            Some(ArticleStatus::Draft)
        } else if crate::text::str_eq(s, "published") {
            Some(ArticleStatus::Published)
        } else if crate::text::str_eq(s, "archived") {
            Some(ArticleStatus::Archived)
        } else {
            proof {
                assert forall|st: ArticleStatus| #[trigger] st.name() != s@ by {
                    match st {
                        ArticleStatus::Draft => {},
                        ArticleStatus::Published => {},
                        ArticleStatus::Archived => {},
                    }
                }
            }
            None
        }
    }

    pub open spec fn name(&self) -> Seq<char> {
        match self {
            ArticleStatus::Draft => "draft"@,
            ArticleStatus::Published => "published"@,
            ArticleStatus::Archived => "archived"@,
        }
    }
}

impl PageStatus {
    /// The name under which the status is stored and sent.
    pub fn as_str(&self) -> (s: &'static str)
        ensures
            s@ == self.name(),
    {
        match self {
            PageStatus::Draft => "draft",
            PageStatus::Published => "published",
        }
    }

    /// The status stored under the name `s`, if any.
    pub fn from_name(s: &str) -> (r: Option<PageStatus>)
        ensures
            match r {
                Some(st) => st.name() == s@,
                None => forall|st: PageStatus| #[trigger] st.name() != s@,
            },
    {
        if crate::text::str_eq(s, "draft") {
            Some(PageStatus::Draft)
        } else if crate::text::str_eq(s, "published") {
            Some(PageStatus::Published)
        } else {
            proof {
                assert forall|st: PageStatus| #[trigger] st.name() != s@ by {
                    match st {
                        PageStatus::Draft => {},
                        PageStatus::Published => {},
                    }
                }
            }
            None
        }
    }

    pub open spec fn name(&self) -> Seq<char> {
        match self {
            PageStatus::Draft => "draft"@,
            PageStatus::Published => "published"@,
        }
    }
}

#[derive(Debug)]
pub struct Article {
    pub id: i64,
    pub slug: String,
    pub title: String,
    pub excerpt: String,
    pub body: String,
    pub author_name: String,
    pub status: ArticleStatus,
    pub category_id: Option<i64>,
    pub published_at: Option<i64>,
    pub created_at: i64,
    pub updated_at: i64,
}

#[derive(Debug)]
pub struct ArticleWithTags {
    pub article: Article,
    pub tags: Vec<Tag>,
    pub category: Option<Category>,
}

#[derive(Debug)]
pub struct CreateArticle {
    pub title: String,
    pub excerpt: Option<String>,
    pub body: String,
    pub author_name: String,
    pub category_id: Option<i64>,
    pub tag_ids: Option<Vec<i64>>,
}

#[derive(Debug)]
pub struct UpdateArticle {
    pub title: Option<String>,
    pub excerpt: Option<String>,
    pub body: Option<String>,
    pub author_name: Option<String>,
    pub category_id: Option<i64>,
    pub tag_ids: Option<Vec<i64>>,
}

#[derive(Debug)]
pub struct Page {
    pub id: i64,
    pub slug: String,
    pub title: String,
    pub body: String,
    pub status: PageStatus,
    pub created_at: i64,
    pub updated_at: i64,
}

#[derive(Debug)]
pub struct CreatePage {
    pub title: String,
    pub slug: String,
    pub body: Option<String>,
}

#[derive(Debug)]
pub struct UpdatePage {
    pub title: Option<String>,
    pub body: Option<String>,
}

#[derive(Debug)]
pub struct Tag {
    pub id: i64,
    pub slug: String,
    pub name: String,
}

#[derive(Debug)]
pub struct CreateTag {
    pub name: String,
}

#[derive(Debug)]
pub struct Category {
    pub id: i64,
    pub slug: String,
    pub name: String,
    pub description: String,
}

#[derive(Debug)]
pub struct CreateCategory {
    pub name: String,
    pub slug: Option<String>,
    pub description: Option<String>,
}

#[derive(Debug)]
pub struct UpdateCategory {
    pub name: Option<String>,
    pub description: Option<String>,
}

#[derive(Debug)]
pub struct Setting {
    pub key: String,
    pub value: String,
}

#[derive(Debug)]
pub struct UpdateSetting {
    pub value: String,
}

#[derive(Debug)]
pub struct ArticleListParams {
    pub page: Option<i64>,
    pub limit: Option<i64>,
    pub tag: Option<String>,
    pub category: Option<String>,
}

#[derive(Debug)]
pub struct PaginatedArticles {
    pub items: Vec<ArticleWithTags>,
    pub total: i64,
    pub page: i64,
    pub limit: i64,
}

/// A copy of an optional string.
pub fn copy_opt_string(s: &Option<String>) -> (r: Option<String>)
    ensures
        r == *s,
{
    match s {
        Some(x) => Some(x.clone()),
        None => None,
    }
}

impl Article {
    pub fn copy(&self) -> (r: Article)
        ensures
            r == *self,
    {
        Article {
            id: self.id,
            slug: self.slug.clone(),
            title: self.title.clone(),
            excerpt: self.excerpt.clone(),
            body: self.body.clone(),
            author_name: self.author_name.clone(),
            status: self.status,
            category_id: self.category_id,
            published_at: self.published_at,
            created_at: self.created_at,
            updated_at: self.updated_at,
        }
    }
}

impl Page {
    pub fn copy(&self) -> (r: Page)
        ensures
            r == *self,
    {
        Page {
            id: self.id,
            slug: self.slug.clone(),
            title: self.title.clone(),
            body: self.body.clone(),
            status: self.status,
            created_at: self.created_at,
            updated_at: self.updated_at,
        }
    }
}

impl Tag {
    pub fn copy(&self) -> (r: Tag)
        ensures
            r == *self,
    {
        Tag { id: self.id, slug: self.slug.clone(), name: self.name.clone() }
    }
}

impl Category {
    pub fn copy(&self) -> (r: Category)
        ensures
            r == *self,
    {
        Category {
            id: self.id,
            slug: self.slug.clone(),
            name: self.name.clone(),
            description: self.description.clone(),
        }
    }
}

impl Setting {
    pub fn copy(&self) -> (r: Setting)
        ensures
            r == *self,
    {
        Setting { key: self.key.clone(), value: self.value.clone() }
    }
}

impl ArticleListParams {
    pub fn copy(&self) -> (r: ArticleListParams)
        ensures
            r == *self,
    {
        ArticleListParams {
            page: self.page,
            limit: self.limit,
            tag: copy_opt_string(&self.tag),
            category: copy_opt_string(&self.category),
        }
    }
}

} // verus!
