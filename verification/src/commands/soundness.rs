//! Laws that every operation keeps: no row is left that names a post that is not
//! there. A post's id may be handed out again, and whoever gets it must not find a
//! stranger's stage, sync record or drafts.

use crate::commands::conflict::copy_taken;
use crate::commands::posts::with_draft;
use crate::commands::save::{
    committed, draft_stage, push_settled, rolled_back, save_written, PreviousRow,
};
use crate::commands::sync::row_settled;
use crate::commands::tags::{swept, CachedBodyRow, TagChangeSpec};
use crate::db::side_tables::{edited, sync_of};
use crate::db::Tables;
use crate::entities::post::PostRow;
use crate::mcp::server::edit_recorded;
use crate::revisions::after_snapshot;
use vstd::prelude::*;

verus! {

/// Creating a post leaves no row without its post.
pub proof fn creating_keeps_the_tables_sound(t: Tables, post: PostRow, now: i64)
    requires
        t.no_orphans(),
    ensures
        with_draft(t, post, now).no_orphans(),
{
}

/// Keeping a version in the history leaves no row without its post.
pub proof fn keeping_a_version_keeps_the_tables_sound(
    t: Tables,
    post: PostRow,
    origin: Seq<char>,
    body: Option<Seq<char>>,
    now: i64,
)
    requires
        t.no_orphans(),
    ensures
        after_snapshot(t, post, origin, body, now).no_orphans(),
        after_snapshot(t, post, origin, body, now) == (Tables {
            revisions: after_snapshot(t, post, origin, body, now).revisions,
            ..t
        }),
{
}

/// Each step of a save leaves no row without its post.
pub proof fn saving_keeps_the_tables_sound(
    t: Tables,
    saved: PostRow,
    previous: Option<PreviousRow>,
    old_body: Option<Seq<char>>,
    origin: Seq<char>,
    now: i64,
)
    requires
        t.no_orphans(),
    ensures
        save_written(t, saved, previous, old_body, origin, now).no_orphans(),
{
    let written = committed(t, saved, draft_stage(saved, now));
    assert(written.no_orphans());
    match previous {
        Some(p) => {
            keeping_a_version_keeps_the_tables_sound(written, p.post, origin, old_body, now);
        },
        None => {},
    }
}

/// Recording an edit, a push or a row that went up leaves no row without its post.
pub proof fn recording_keeps_the_tables_sound(
    t: Tables,
    saved: PostRow,
    hash: Seq<char>,
    body: Seq<char>,
    landed: bool,
    was_published: bool,
    now: i64,
)
    requires
        t.no_orphans(),
        t.posts.contains_key(saved.id),
    ensures
        (Tables {
            syncs: t.syncs.insert(saved.id, edited(sync_of(t, saved.id), saved.id, hash)),
            ..t
        }).no_orphans(),
        push_settled(t, saved, hash, landed, now).no_orphans(),
        row_settled(t, saved, landed, now).no_orphans(),
        copy_taken(t, saved, body, now).no_orphans(),
        edit_recorded(t, saved, body, was_published).no_orphans(),
{
}

/// Putting a post back after a failed move leaves no row without its post, where
/// the post was there before; a new post goes with its stage, and must not have
/// been given anything else.
pub proof fn rolling_back_keeps_the_tables_sound(
    t: Tables,
    previous: Option<PreviousRow>,
    saved: PostRow,
)
    requires
        t.no_orphans(),
        previous matches Some(p) ==> p.post.id == saved.id,
        previous is None ==> !t.syncs.contains_key(saved.id) && forall|k: i32| #[trigger]
            t.revisions.contains_key(k) ==> t.revisions[k].post_id != saved.id,
    ensures
        rolled_back(t, previous, saved).no_orphans(),
{
}

/// A sweep over tags leaves no row without its post.
pub proof fn sweeping_keeps_the_tables_sound(
    t: Tables,
    ids: Seq<i32>,
    change: TagChangeSpec,
    bodies: Seq<CachedBodyRow>,
    now: i64,
)
    requires
        t.no_orphans(),
    ensures
        swept(t, ids, change, bodies, now).tables.no_orphans(),
    decreases ids.len(),
{
    if ids.len() > 0 {
        sweeping_keeps_the_tables_sound(t, ids.drop_last(), change, bodies, now);
    }
}

}
