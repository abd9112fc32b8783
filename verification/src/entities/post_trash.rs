//! A post in the trash.

use crate::table::Row;
use vstd::prelude::*;

verus! {

/// That a post is in the trash, keyed by its id. The post itself, its body and
/// its history stay where they are.
#[derive(Debug, PartialEq, Eq)]
pub struct Model {
    /// The post this row hides.
    pub post_id: i32,
    /// When it was trashed (Unix seconds).
    pub trashed_at: i64,
}

/// What such a row says.
pub struct TrashRow {
    pub post_id: i32,
    pub trashed_at: i64,
}

impl View for Model {
    type V = TrashRow;

    open spec fn view(&self) -> TrashRow {
        TrashRow {
            post_id: self.post_id,
            trashed_at: self.trashed_at,
        }
    }
}

impl Clone for Model {
    fn clone(&self) -> (r: Self)
        ensures
            r@ == self@,
    {
        Model {
            post_id: self.post_id,
            trashed_at: self.trashed_at,
        }
    }
}

impl Row for Model {
    type Key = i32;

    open spec fn key_of(row: TrashRow) -> i32 {
        row.post_id
    }

    fn has_key(&self, key: &i32) -> (r: bool) {
        self.post_id == *key
    }

    fn key(&self) -> (r: i32) {
        self.post_id
    }

    fn copy(&self) -> (r: Self) {
        self.clone()
    }
}

}
