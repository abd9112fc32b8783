//! A post deleted for good.

use crate::table::Row;
use vstd::prelude::*;

verus! {

/// That a post was deleted here for good, keyed by the slug that this machine and
/// the cloud agree on, so that a refresh does not bring it back.
#[derive(Debug, PartialEq, Eq)]
pub struct Model {
    /// The slug that was deleted.
    pub slug: String,
    /// When it was deleted (Unix seconds).
    pub deleted_at: i64,
}

/// What such a row says.
pub struct TombstoneRow {
    pub slug: Seq<char>,
    pub deleted_at: i64,
}

impl View for Model {
    type V = TombstoneRow;

    open spec fn view(&self) -> TombstoneRow {
        TombstoneRow {
            slug: self.slug@,
            deleted_at: self.deleted_at,
        }
    }
}

impl Clone for Model {
    fn clone(&self) -> (r: Self)
        ensures
            r@ == self@,
    {
        Model {
            slug: self.slug.clone(),
            deleted_at: self.deleted_at,
        }
    }
}

impl Row for Model {
    type Key = String;

    open spec fn key_of(row: TombstoneRow) -> Seq<char> {
        row.slug
    }

    fn has_key(&self, key: &String) -> (r: bool) {
        self.slug == *key
    }

    fn key(&self) -> (r: String) {
        self.slug.clone()
    }

    fn copy(&self) -> (r: Self) {
        self.clone()
    }
}

}
