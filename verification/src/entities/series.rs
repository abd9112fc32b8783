//! A series of posts.

use crate::table::Row;
use crate::text::{copy_opt, opt_view};
use vstd::prelude::*;

verus! {

/// A series groups related posts.
///
/// The slug is what this machine and the cloud agree on; the id is this
/// machine's own.
#[derive(Debug, PartialEq, Eq)]
pub struct Model {
    pub id: i32,
    pub slug: String,
    pub title: String,
    pub description: Option<String>,
    /// Unix seconds.
    pub created_at: i64,
}

/// What such a row says.
pub struct SeriesRow {
    pub id: i32,
    pub slug: Seq<char>,
    pub title: Seq<char>,
    pub description: Option<Seq<char>>,
    pub created_at: i64,
}

impl View for Model {
    type V = SeriesRow;

    open spec fn view(&self) -> SeriesRow {
        SeriesRow {
            id: self.id,
            slug: self.slug@,
            title: self.title@,
            description: opt_view(self.description),
            created_at: self.created_at,
        }
    }
}

impl Clone for Model {
    fn clone(&self) -> (r: Self)
        ensures
            r@ == self@,
    {
        Model {
            id: self.id,
            slug: self.slug.clone(),
            title: self.title.clone(),
            description: copy_opt(&self.description),
            created_at: self.created_at,
        }
    }
}

impl Row for Model {
    type Key = i32;

    open spec fn key_of(row: SeriesRow) -> i32 {
        row.id
    }

    fn has_key(&self, key: &i32) -> (r: bool) {
        self.id == *key
    }

    fn key(&self) -> (r: i32) {
        self.id
    }

    fn copy(&self) -> (r: Self) {
        self.clone()
    }
}

}
