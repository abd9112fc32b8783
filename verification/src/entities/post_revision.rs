//! A snapshot of a post before an edit.

use crate::table::Row;
use crate::text::{copy_opt, opt_view};
use vstd::prelude::*;

verus! {

/// An ordinary save.
pub const SAVE: &'static str = "save";

/// A publish.
pub const PUBLISH: &'static str = "publish";

/// An edit by an MCP client.
pub const MCP: &'static str = "mcp";

/// A restore of an earlier version.
pub const RESTORE: &'static str = "restore";

/// The editor's own background flush, which happens seconds apart rather than at
/// human speed. See [`crate::revisions::AUTOSAVE_COALESCE_SECS`] for what keeps a
/// typing session from filling the history on its own.
pub const AUTOSAVE: &'static str = "autosave";

/// A conflict settled by taking the cloud's copy.
pub const CONFLICT_KEEP_REMOTE: &'static str = "conflict_keep_remote";

/// A tag rename or merge over the whole library.
pub const TAG_RENAME: &'static str = "tag_rename";

/// A tag put on, or taken off, a selection of posts.
pub const BULK_TAG: &'static str = "bulk_tag";

/// A post as it stood before one particular edit. Kept on this machine only.
#[derive(Debug, PartialEq, Eq)]
pub struct Model {
    pub id: i32,
    /// The post this snapshot is of.
    pub post_id: i32,
    pub title: String,
    pub excerpt: Option<String>,
    /// JSON array of strings, as the post's own column stores it.
    pub tags: Option<String>,
    pub published: bool,
    /// The Markdown body, or nothing when there was no cached body to snapshot.
    /// Nothing is not an empty body: restoring such a snapshot leaves the body
    /// alone.
    pub body: Option<String>,
    /// What prompted the snapshot: one of the constants above.
    pub origin: String,
    /// When it was taken (Unix seconds).
    pub created_at: i64,
}

/// What such a row says.
pub struct RevisionRow {
    pub id: i32,
    pub post_id: i32,
    pub title: Seq<char>,
    pub excerpt: Option<Seq<char>>,
    pub tags: Option<Seq<char>>,
    pub published: bool,
    pub body: Option<Seq<char>>,
    pub origin: Seq<char>,
    pub created_at: i64,
}

impl View for Model {
    type V = RevisionRow;

    open spec fn view(&self) -> RevisionRow {
        RevisionRow {
            id: self.id,
            post_id: self.post_id,
            title: self.title@,
            excerpt: opt_view(self.excerpt),
            tags: opt_view(self.tags),
            published: self.published,
            body: opt_view(self.body),
            origin: self.origin@,
            created_at: self.created_at,
        }
    }
}

impl Clone for Model {
    fn clone(&self) -> (r: Self)
        ensures
            r@ == self@,
    {
        Model {
            id: self.id,
            post_id: self.post_id,
            title: self.title.clone(),
            excerpt: copy_opt(&self.excerpt),
            tags: copy_opt(&self.tags),
            published: self.published,
            body: copy_opt(&self.body),
            origin: self.origin.clone(),
            created_at: self.created_at,
        }
    }
}

impl Row for Model {
    type Key = i32;

    open spec fn key_of(row: RevisionRow) -> i32 {
        row.id
    }

    fn has_key(&self, key: &i32) -> (r: bool) {
        self.id == *key
    }

    fn key(&self) -> (r: i32) {
        self.id
    }

    fn copy(&self) -> (r: Self) {
        self.clone()
    }
}

}
