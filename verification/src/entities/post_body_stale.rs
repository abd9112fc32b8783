//! A cached body that the cloud has overtaken.

use crate::table::Row;
use vstd::prelude::*;

verus! {

/// That a post's cached Markdown is older than the cloud's, keyed by slug.
#[derive(Debug, PartialEq, Eq)]
pub struct Model {
    /// The slug whose cached body can no longer be trusted.
    pub slug: String,
    /// When the refresh noticed (Unix seconds).
    pub since: i64,
}

/// What such a row says.
pub struct StaleRow {
    pub slug: Seq<char>,
    pub since: i64,
}

impl View for Model {
    type V = StaleRow;

    open spec fn view(&self) -> StaleRow {
        StaleRow {
            slug: self.slug@,
            since: self.since,
        }
    }
}

impl Clone for Model {
    fn clone(&self) -> (r: Self)
        ensures
            r@ == self@,
    {
        Model {
            slug: self.slug.clone(),
            since: self.since,
        }
    }
}

impl Row for Model {
    type Key = String;

    open spec fn key_of(row: StaleRow) -> Seq<char> {
        row.slug
    }

    fn has_key(&self, key: &String) -> (r: bool) {
        self.slug == *key
    }

    fn key(&self) -> (r: String) {
        self.slug.clone()
    }

    fn copy(&self) -> (r: Self) {
        self.clone()
    }
}

}
