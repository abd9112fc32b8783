//! A blog post.

use crate::table::Row;
use crate::text::{copy_opt, opt_view, same, same_opt};
use vstd::prelude::*;

verus! {

/// A blog post.
///
/// - `created_at`, `updated_at` and `published_at` are Unix timestamps in
///   seconds.
/// - `tags` is a JSON array of strings, or nothing.
#[derive(Debug, PartialEq, Eq)]
pub struct Model {
    pub id: i32,
    pub slug: String,
    pub title: String,
    pub excerpt: Option<String>,
    pub tags: Option<String>,
    pub published: bool,
    pub published_at: Option<i64>,
    pub series_id: Option<i32>,
    pub series_order: Option<i32>,
    pub created_at: i64,
    pub updated_at: i64,
}

/// What such a row says.
pub struct PostRow {
    pub id: i32,
    pub slug: Seq<char>,
    pub title: Seq<char>,
    pub excerpt: Option<Seq<char>>,
    pub tags: Option<Seq<char>>,
    pub published: bool,
    pub published_at: Option<i64>,
    pub series_id: Option<i32>,
    pub series_order: Option<i32>,
    pub created_at: i64,
    pub updated_at: i64,
}

impl View for Model {
    type V = PostRow;

    open spec fn view(&self) -> PostRow {
        PostRow {
            id: self.id,
            slug: self.slug@,
            title: self.title@,
            excerpt: opt_view(self.excerpt),
            tags: opt_view(self.tags),
            published: self.published,
            published_at: self.published_at,
            series_id: self.series_id,
            series_order: self.series_order,
            created_at: self.created_at,
            updated_at: self.updated_at,
        }
    }
}

impl Clone for Model {
    fn clone(&self) -> (r: Self)
        ensures
            r@ == self@,
    {
        Model {
            id: self.id,
            slug: self.slug.clone(),
            title: self.title.clone(),
            excerpt: copy_opt(&self.excerpt),
            tags: copy_opt(&self.tags),
            published: self.published,
            published_at: self.published_at,
            series_id: self.series_id,
            series_order: self.series_order,
            created_at: self.created_at,
            updated_at: self.updated_at,
        }
    }
}

impl Model {
    /// Whether the two say the same in every column.
    pub fn same_as(&self, other: &Model) -> (r: bool)
        ensures
            r == (self@ == other@),
    {
        self.id == other.id && same(self.slug.as_str(), other.slug.as_str()) && same(
            self.title.as_str(),
            other.title.as_str(),
        ) && same_opt(&self.excerpt, &other.excerpt) && same_opt(&self.tags, &other.tags)
            && self.published == other.published && self.published_at == other.published_at
            && self.series_id == other.series_id && self.series_order == other.series_order
            && self.created_at == other.created_at && self.updated_at == other.updated_at
    }
}

impl Row for Model {
    type Key = i32;

    open spec fn key_of(row: PostRow) -> i32 {
        row.id
    }

    fn has_key(&self, key: &i32) -> (r: bool) {
        self.id == *key
    }

    fn key(&self) -> (r: i32) {
        self.id
    }

    fn copy(&self) -> (r: Self) {
        self.clone()
    }
}

}
