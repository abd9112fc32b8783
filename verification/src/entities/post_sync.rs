//! How a post's content compares with the cloud's.

use crate::table::Row;
use crate::text::{copy_opt, opt_view};
use vstd::prelude::*;

verus! {

/// How a post's content compares with what the cloud last accepted, keyed by the
/// post's id. Kept on this machine only.
///
/// Apart from the stage on purpose: a stage is an editorial decision, this is a
/// fact about whether the bytes here match the bytes out there.
#[derive(Debug, PartialEq, Eq)]
pub struct Model {
    /// The post this record belongs to.
    pub post_id: i32,
    /// Fingerprint of the post's content as it stands on this machine.
    pub local_hash: String,
    /// Fingerprint of the content the cloud last accepted, or nothing for a post
    /// that has never been pushed.
    pub synced_hash: Option<String>,
    /// When that push completed (Unix seconds).
    pub synced_at: Option<i64>,
    /// The version of the cloud's copy that this machine has accounted for.
    pub remote_updated_at: Option<i64>,
    /// The version of the cloud's copy that the last refresh saw.
    pub remote_seen_at: Option<i64>,
}

/// What such a row says.
pub struct SyncRow {
    pub post_id: i32,
    pub local_hash: Seq<char>,
    pub synced_hash: Option<Seq<char>>,
    pub synced_at: Option<i64>,
    pub remote_updated_at: Option<i64>,
    pub remote_seen_at: Option<i64>,
}

impl View for Model {
    type V = SyncRow;

    open spec fn view(&self) -> SyncRow {
        SyncRow {
            post_id: self.post_id,
            local_hash: self.local_hash@,
            synced_hash: opt_view(self.synced_hash),
            synced_at: self.synced_at,
            remote_updated_at: self.remote_updated_at,
            remote_seen_at: self.remote_seen_at,
        }
    }
}

impl Clone for Model {
    fn clone(&self) -> (r: Self)
        ensures
            r@ == self@,
    {
        Model {
            post_id: self.post_id,
            local_hash: self.local_hash.clone(),
            synced_hash: copy_opt(&self.synced_hash),
            synced_at: self.synced_at,
            remote_updated_at: self.remote_updated_at,
            remote_seen_at: self.remote_seen_at,
        }
    }
}

impl Row for Model {
    type Key = i32;

    open spec fn key_of(row: SyncRow) -> i32 {
        row.post_id
    }

    fn has_key(&self, key: &i32) -> (r: bool) {
        self.post_id == *key
    }

    fn key(&self) -> (r: i32) {
        self.post_id
    }

    fn copy(&self) -> (r: Self) {
        self.clone()
    }
}

}
