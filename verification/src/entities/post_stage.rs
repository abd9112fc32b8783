//! The editorial stage of a post.

use crate::table::Row;
use vstd::prelude::*;

verus! {

/// Not on the blog.
pub const DRAFT: &'static str = "draft";

/// On the blog.
pub const PUBLISHED: &'static str = "published";

/// Saved here, but the last push to the cloud did not complete.
pub const SYNC_FAILED: &'static str = "sync_failed";

/// Where a post stands in the editorial workflow, keyed by the post's id. Kept
/// on this machine only.
#[derive(Debug, PartialEq, Eq)]
pub struct Model {
    /// The post this stage belongs to.
    pub post_id: i32,
    /// [`DRAFT`], [`PUBLISHED`] or [`SYNC_FAILED`].
    pub stage: String,
    /// When the stage was last set (Unix seconds).
    pub staged_at: i64,
}

/// What such a row says.
pub struct StageRow {
    pub post_id: i32,
    pub stage: Seq<char>,
    pub staged_at: i64,
}

impl View for Model {
    type V = StageRow;

    open spec fn view(&self) -> StageRow {
        StageRow {
            post_id: self.post_id,
            stage: self.stage@,
            staged_at: self.staged_at,
        }
    }
}

impl Clone for Model {
    fn clone(&self) -> (r: Self)
        ensures
            r@ == self@,
    {
        Model {
            post_id: self.post_id,
            stage: self.stage.clone(),
            staged_at: self.staged_at,
        }
    }
}

impl Row for Model {
    type Key = i32;

    open spec fn key_of(row: StageRow) -> i32 {
        row.post_id
    }

    fn has_key(&self, key: &i32) -> (r: bool) {
        self.post_id == *key
    }

    fn key(&self) -> (r: i32) {
        self.post_id
    }

    fn copy(&self) -> (r: Self) {
        self.clone()
    }
}

}
