//! Posts, series, stages, history and the trash, as the screens use them.
//!
//! Nothing here reaches the network.

use crate::db::history::revisions_clear;
use crate::db::listings::{
    active_posts, list_active_posts, list_trashed_posts, trashed_posts, NewestPosts, TrashedPost,
};
use crate::db::side_tables::{
    binned, body_stale_clear, schedule_clear, schedule_get, stage_clear, stage_of, stage_set,
    sync_clear, sync_get, sync_of, tombstone_set, trash_clear, trash_get, trash_set,
};
use crate::db::{
    has_slug, next_id, post_by_slug, post_create, post_delete, post_get, post_update, refused,
    slug_elsewhere, slug_taken, Store, Tables, DUPLICATE_SLUG, IDS_EXHAUSTED, NOTHING_UPDATED,
};
use crate::entities::post;
use crate::entities::post::PostRow;
use crate::entities::post_revision;
use crate::entities::post_revision::RevisionRow;
use crate::entities::post_schedule::in_flight;
use crate::entities::post_stage;
use crate::entities::post_stage::StageRow;
use crate::entities::post_tombstone::TombstoneRow;
use crate::entities::post_trash;
use crate::error::{AppError, AppResult};
use crate::media_keys::{is_safe_slug, safe_slug};
use crate::table::{in_order, lists, rows_view, selected};
use crate::text::{same, trim, trimmed};
use vstd::prelude::*;

verus! {

// ─── Posts ──────────────────────────────────────────────────────────────────

/// `e` says why no post with this slug could be created.
pub open spec fn creation_refused(t: Tables, slug: Seq<char>, e: AppError) -> bool {
    if slug_taken(t.posts, slug) {
        refused(e, DUPLICATE_SLUG)
    } else {
        next_id(t.posts) > i32::MAX && refused(e, IDS_EXHAUSTED)
    }
}

/// `e` says why a post's row could not be written.
pub open spec fn update_refused(t: Tables, row: PostRow, e: AppError) -> bool {
    if t.posts.contains_key(row.id) {
        slug_elsewhere(t.posts, row.id, row.slug) && refused(e, DUPLICATE_SLUG)
    } else {
        refused(e, NOTHING_UPDATED)
    }
}

/// The tables with a new post in them, staged as a draft.
pub open spec fn with_draft(t: Tables, post: PostRow, now: i64) -> Tables {
    Tables {
        posts: t.posts.insert(post.id, post),
        stages: t.stages.insert(
            post.id,
            StageRow { post_id: post.id, stage: post_stage::DRAFT@, staged_at: now },
        ),
        ..t
    }
}

/// Creates a post, which starts staged as a draft.
pub fn create_post(db: &mut Store, post: post::Model, now: i64) -> (r: AppResult<post::Model>)
    requires
        old(db).wf(),
    ensures
        final(db).wf(),
        match r {
            Ok(p) => {
                &&& !slug_taken(old(db)@.posts, post.slug@)
                &&& next_id(old(db)@.posts) <= i32::MAX
                &&& p@ == (PostRow {
                    id: next_id(old(db)@.posts) as i32,
                    created_at: now,
                    updated_at: now,
                    ..post@
                })
                &&& final(db)@ == with_draft(old(db)@, p@, now)
            },
            Err(e) => final(db)@ == old(db)@ && creation_refused(old(db)@, post.slug@, e),
        },
{
    let mut post: post::Model = post;
    post.created_at = now;
    post.updated_at = now;
    let created: post::Model = match post_create(db, post) {
        Ok(p) => p,
        Err(e) => {
            return Err(e);
        },
    };
    let stage = post_stage::Model {
        post_id: created.id,
        stage: post_stage::DRAFT.to_owned(),
        staged_at: now,
    };
    match stage_set(db, stage) {
        Ok(_) => Ok(created),
        Err(e) => Err(e),
    }
}

/// The library, without the trash: what every screen except the trash view means
/// by the posts.
pub fn list_posts(db: &Store) -> (out: Vec<post::Model>)
    requires
        db.wf(),
    ensures
        lists::<post::Model>(rows_view(out@), active_posts(db@)),
        in_order::<post::Model, NewestPosts>(rows_view(out@)),
{
    list_active_posts(db)
}

/// Refuses an operation on a post that is in the trash.
pub fn refuse_if_trashed(db: &Store, post: &post::Model) -> (r: AppResult<()>)
    requires
        db.wf(),
    ensures
        match r {
            Ok(_) => !db@.trash.contains_key(post.id),
            Err(e) => db@.trash.contains_key(post.id) && (e matches AppError::PostInTrash(s)
                && s@ == post.slug@),
        },
{
    if trash_get(db, post.id).is_some() {
        Err(AppError::PostInTrash(post.slug.clone()))
    } else {
        Ok(())
    }
}

/// One post for the editor. A post in the trash is refused: an editor on one
/// would write into the copy that is kept for recovery.
pub fn get_post(db: &Store, id: i32) -> (r: AppResult<Option<post::Model>>)
    requires
        db.wf(),
    ensures
        match r {
            Ok(None) => !db@.posts.contains_key(id),
            Ok(Some(p)) => db@.active(id) && p@ == db@.posts[id],
            Err(e) => db@.posts.contains_key(id) && db@.trash.contains_key(id) && (
            e matches AppError::PostInTrash(s) && s@ == db@.posts[id].slug),
        },
{
    match post_get(db, id) {
        None => Ok(None),
        Some(post) => match refuse_if_trashed(db, &post) {
            Err(e) => Err(e),
            Ok(_) => Ok(Some(post)),
        },
    }
}

/// Writes a post's row as given, with the time of the write.
pub fn update_post(db: &mut Store, post: post::Model, now: i64) -> (r: AppResult<post::Model>)
    requires
        old(db).wf(),
    ensures
        final(db).wf(),
        ({
            let row = PostRow { updated_at: now, ..post@ };
            match r {
                Ok(p) => {
                    &&& old(db)@.active(post.id)
                    &&& !slug_elsewhere(old(db)@.posts, post.id, post.slug@)
                    &&& p@ == row
                    &&& final(db)@ == (Tables {
                        posts: old(db)@.posts.insert(post.id, row),
                        ..old(db)@
                    })
                },
                Err(e) => {
                    &&& final(db)@ == old(db)@
                    &&& if old(db)@.trash.contains_key(post.id) {
                        e matches AppError::PostInTrash(s) && s@ == post.slug@
                    } else {
                        update_refused(old(db)@, row, e)
                    }
                },
            }
        }),
{
    match refuse_if_trashed(db, &post) {
        Err(e) => {
            return Err(e);
        },
        Ok(_) => {},
    }
    let mut stamped: post::Model = post;
    stamped.updated_at = now;
    post_update(db, stamped)
}

// ─── Slugs ──────────────────────────────────────────────────────────────────

/// Something of the post has been pushed to the cloud.
pub open spec fn has_been_pushed(t: Tables, id: i32) -> bool {
    sync_of(t, id) matches Some(row) && row.synced_hash is Some
}

/// Whether `post` may be given the slug `slug`: only while nothing of it has left
/// this machine. A schedule uploads a post when it is set, so a scheduled post
/// has left too; and one that was published and taken down again has left its
/// objects behind.
pub fn refuse_rename(db: &Store, post: &post::Model, slug: &str) -> (r: AppResult<()>)
    requires
        db.wf(),
    ensures
        match r {
            Ok(_) => {
                &&& !db@.trash.contains_key(post.id)
                &&& !post.published
                &&& !db@.schedules.contains_key(post.slug@)
                &&& !has_been_pushed(db@, post.id)
                &&& !slug_taken(db@.posts, slug@)
            },
            Err(e) => if db@.trash.contains_key(post.id) {
                e matches AppError::PostInTrash(s) && s@ == post.slug@
            } else if post.published {
                e matches AppError::SlugFixedByPublication(s) && s@ == post.slug@
            } else if db@.schedules.contains_key(post.slug@) {
                e matches AppError::SlugFixedBySchedule(s) && s@ == post.slug@
            } else if has_been_pushed(db@, post.id) {
                e matches AppError::SlugFixedByPublication(s) && s@ == post.slug@
            } else {
                slug_taken(db@.posts, slug@) && (e matches AppError::SlugTaken(s) && s@ == slug@)
            },
        },
{
    match refuse_if_trashed(db, post) {
        Err(e) => {
            return Err(e);
        },
        Ok(_) => {},
    }
    if post.published {
        return Err(AppError::SlugFixedByPublication(post.slug.clone()));
    }
    if schedule_get(db, post.slug.as_str()).is_some() {
        return Err(AppError::SlugFixedBySchedule(post.slug.clone()));
    }
    match sync_get(db, post.id) {
        Some(row) => {
            if row.synced_hash.is_some() {
                return Err(AppError::SlugFixedByPublication(post.slug.clone()));
            }
        },
        None => {},
    }
    if post_by_slug(db, slug).is_some() {
        return Err(AppError::SlugTaken(slug.to_owned()));
    }
    Ok(())
}

/// Gives a post another slug. The slug that it has already is no change. What
/// comes back beside the post is the slug that it had, where it changed: the
/// cached body is named for it.
pub fn rename_post_slug(db: &mut Store, id: i32, slug: &str, now: i64) -> (r: AppResult<
    (post::Model, Option<String>),
>)
    requires
        old(db).wf(),
    ensures
        final(db).wf(),
        ({
            let t = old(db)@;
            let to = trimmed(slug@);
            match r {
                Ok((p, from)) => {
                    &&& safe_slug(to)
                    &&& t.posts.contains_key(id)
                    &&& if t.posts[id].slug == to {
                        p@ == t.posts[id] && from is None && final(db)@ == t
                    } else {
                        &&& t.active(id)
                        &&& !t.posts[id].published
                        &&& !t.schedules.contains_key(t.posts[id].slug)
                        &&& !has_been_pushed(t, id)
                        &&& !slug_taken(t.posts, to)
                        &&& p@ == (PostRow { slug: to, updated_at: now, ..t.posts[id] })
                        &&& from matches Some(s) && s@ == t.posts[id].slug
                        &&& final(db)@ == (Tables { posts: t.posts.insert(id, p@), ..t })
                    }
                },
                Err(e) => {
                    &&& final(db)@ == t
                    &&& if !safe_slug(to) {
                        e matches AppError::InvalidSlug(s) && s@ == to
                    } else if !t.posts.contains_key(id) {
                        e == AppError::PostNotFound(id)
                    } else {
                        let post = t.posts[id];
                        &&& post.slug != to
                        &&& if t.trash.contains_key(id) {
                            e matches AppError::PostInTrash(s) && s@ == post.slug
                        } else if post.published {
                            e matches AppError::SlugFixedByPublication(s) && s@ == post.slug
                        } else if t.schedules.contains_key(post.slug) {
                            e matches AppError::SlugFixedBySchedule(s) && s@ == post.slug
                        } else if has_been_pushed(t, id) {
                            e matches AppError::SlugFixedByPublication(s) && s@ == post.slug
                        } else {
                            slug_taken(t.posts, to) && (e matches AppError::SlugTaken(s) && s@
                                == to)
                        }
                    }
                },
            }
        }),
{
    let slug: &str = trim(slug);
    if !is_safe_slug(slug) {
        return Err(AppError::InvalidSlug(slug.to_owned()));
    }
    let post: post::Model = match post_get(db, id) {
        Some(p) => p,
        None => {
            return Err(AppError::PostNotFound(id));
        },
    };
    if same(post.slug.as_str(), slug) {
        return Ok((post, None));
    }
    match refuse_rename(db, &post, slug) {
        Err(e) => {
            return Err(e);
        },
        Ok(_) => {},
    }
    let from: String = post.slug.clone();
    let mut renamed: post::Model = post;
    renamed.slug = slug.to_owned();
    renamed.updated_at = now;
    match post_update(db, renamed) {
        Ok(p) => Ok((p, Some(from))),
        Err(e) => {
            proof {
                let k = choose|k: i32| has_slug(old(db)@.posts, k, slug@) && k != id;
                assert(has_slug(old(db)@.posts, k, slug@));
            }
            Err(e)
        },
    }
}

// ─── Trash ──────────────────────────────────────────────────────────────────

/// The post has a publication that is still going to happen.
pub open spec fn is_scheduled(t: Tables, slug: Seq<char>) -> bool {
    t.schedules.contains_key(slug) && in_flight(t.schedules[slug].state)
}

/// Moves a post to the trash: it leaves every listing, and nothing else about it
/// changes. A post with a publication still to come is refused, because that is
/// carried out in the cloud and throwing the post away here would not stop it.
pub fn trash_post(db: &mut Store, id: i32, now: i64) -> (r: AppResult<post_trash::Model>)
    requires
        old(db).wf(),
    ensures
        final(db).wf(),
        match r {
            Ok(row) => {
                &&& old(db)@.posts.contains_key(id)
                &&& !is_scheduled(old(db)@, old(db)@.posts[id].slug)
                &&& final(db)@ == (Tables { trash: binned(old(db)@.trash, id, now), ..old(db)@ })
                &&& row@ == final(db)@.trash[id]
            },
            Err(e) => {
                &&& final(db)@ == old(db)@
                &&& if old(db)@.posts.contains_key(id) {
                    &&& is_scheduled(old(db)@, old(db)@.posts[id].slug)
                    &&& e matches AppError::ScheduledPostCannotBeTrashed(s) && s@
                        == old(db)@.posts[id].slug
                } else {
                    e == AppError::PostNotFound(id)
                }
            },
        },
{
    let post: post::Model = match post_get(db, id) {
        Some(p) => p,
        None => {
            return Err(AppError::PostNotFound(id));
        },
    };
    match schedule_get(db, post.slug.as_str()) {
        Some(s) => {
            if s.is_in_flight() {
                return Err(AppError::ScheduledPostCannotBeTrashed(post.slug));
            }
        },
        None => {},
    }
    Ok(trash_set(db, id, now))
}

/// Takes a post back out of the trash, with everything that it had when it went.
pub fn restore_post(db: &mut Store, id: i32) -> (r: AppResult<post::Model>)
    requires
        old(db).wf(),
    ensures
        final(db).wf(),
        match r {
            Ok(p) => {
                &&& old(db)@.posts.contains_key(id)
                &&& p@ == old(db)@.posts[id]
                &&& final(db)@ == (Tables { trash: old(db)@.trash.remove(id), ..old(db)@ })
            },
            Err(e) => {
                &&& !old(db)@.posts.contains_key(id)
                &&& e == AppError::PostNotFound(id)
                &&& final(db)@ == old(db)@
            },
        },
{
    match post_get(db, id) {
        Some(p) => {
            trash_clear(db, id);
            Ok(p)
        },
        None => Err(AppError::PostNotFound(id)),
    }
}

/// `slug` is the slug of one of the posts `ids`.
pub open spec fn slug_among(t: Tables, ids: Set<i32>, slug: Seq<char>) -> bool {
    exists|k: i32| #[trigger] ids.contains(k) && has_slug(t.posts, k, slug)
}

/// The tables after the posts `ids` were deleted for good: every row about them
/// is gone, and their slugs are marked as deleted here.
pub open spec fn purged(t: Tables, ids: Set<i32>, now: i64) -> Tables {
    Tables {
        posts: t.posts.remove_keys(ids),
        stages: t.stages.remove_keys(ids),
        syncs: t.syncs.remove_keys(ids),
        revisions: selected::<post_revision::Model>(
            t.revisions,
            |r: RevisionRow| !ids.contains(r.post_id),
        ),
        trash: t.trash.remove_keys(ids),
        stale: t.stale.remove_keys(Set::new(|s: Seq<char>| slug_among(t, ids, s))),
        schedules: t.schedules.remove_keys(Set::new(|s: Seq<char>| slug_among(t, ids, s))),
        tombstones: Map::new(
            |s: Seq<char>| t.tombstones.contains_key(s) || slug_among(t, ids, s),
            |s: Seq<char>|
                if t.tombstones.contains_key(s) {
                    t.tombstones[s]
                } else {
                    TombstoneRow { slug: s, deleted_at: now }
                },
        ),
        ..t
    }
}

/// Removes every local trace of a post that is in the trash.
fn purge(db: &mut Store, post: &post::Model, now: i64) -> (r: AppResult<()>)
    requires
        old(db).wf(),
        old(db)@.posts.contains_key(post.id),
        old(db)@.posts[post.id] == post@,
    ensures
        final(db).wf(),
        match r {
            Ok(_) => old(db)@.trash.contains_key(post.id) && final(db)@ == purged(
                old(db)@,
                set![post.id],
                now,
            ),
            Err(e) => !old(db)@.trash.contains_key(post.id) && final(db)@ == old(db)@ && (
            e matches AppError::PostNotInTrash(s) && s@ == post.slug@),
        },
{
    let ghost t = db@;
    if trash_get(db, post.id).is_none() {
        return Err(AppError::PostNotInTrash(post.slug.clone()));
    }
    stage_clear(db, post.id);
    sync_clear(db, post.id);
    revisions_clear(db, post.id);
    trash_clear(db, post.id);
    body_stale_clear(db, post.slug.as_str());
    schedule_clear(db, post.slug.as_str());
    post_delete(db, post.id);
    tombstone_set(db, post.slug.as_str(), now);
    proof {
        let after = purged(t, set![post.id], now);
        assert forall|s: Seq<char>| #[trigger] slug_among(t, set![post.id], s) <==> s
            == post.slug@ by {
            if s == post.slug@ {
                assert(set![post.id].contains(post.id) && has_slug(t.posts, post.id, s));
            }
        }
        assert(db@.posts =~= after.posts);
        assert(db@.stages =~= after.stages);
        assert(db@.syncs =~= after.syncs);
        assert(db@.revisions =~= after.revisions);
        assert(db@.trash =~= after.trash);
        assert(db@.stale =~= after.stale);
        assert(db@.schedules =~= after.schedules);
        assert(db@.tombstones =~= after.tombstones);
    }
    Ok(())
}

/// Deletes a post from this machine for good, which is possible only from the
/// trash. The cloud's copy stays; the slug is marked so that a refresh does not
/// bring the post back.
pub fn delete_post_permanently(db: &mut Store, id: i32, now: i64) -> (r: AppResult<()>)
    requires
        old(db).wf(),
    ensures
        final(db).wf(),
        match r {
            Ok(_) => {
                &&& old(db)@.posts.contains_key(id)
                &&& old(db)@.trash.contains_key(id)
                &&& final(db)@ == purged(old(db)@, set![id], now)
            },
            Err(e) => {
                &&& final(db)@ == old(db)@
                &&& if old(db)@.posts.contains_key(id) {
                    &&& !old(db)@.trash.contains_key(id)
                    &&& e matches AppError::PostNotInTrash(s) && s@ == old(db)@.posts[id].slug
                } else {
                    e == AppError::PostNotFound(id)
                }
            },
        },
{
    match post_get(db, id) {
        Some(post) => purge(db, &post, now),
        None => Err(AppError::PostNotFound(id)),
    }
}

/// The posts that emptying the trash removes: all of it but `kept`.
pub open spec fn emptied(t: Tables, kept: Seq<i32>) -> Set<i32> {
    Set::new(|k: i32| t.posts.contains_key(k) && t.trash.contains_key(k) && !kept.contains(k))
}

fn holds_id(ids: &Vec<i32>, id: i32) -> (r: bool)
    ensures
        r == ids@.contains(id),
{
    let mut i: usize = 0;
    while i < ids.len()
        invariant
            i <= ids@.len(),
            forall|j: int| 0 <= j < i ==> ids@[j] != id,
        decreases ids@.len() - i,
    {
        if ids[i] == id {
            assert(ids@.contains(id));
            return true;
        }
        i = i + 1;
    }
    false
}

/// Empties the trash and says how many posts went. One failure does not stop the
/// rest: a post whose text could not be set aside is in `kept`, and stays.
pub fn empty_trash(db: &mut Store, kept: &Vec<i32>, now: i64) -> (removed: usize)
    requires
        old(db).wf(),
    ensures
        final(db).wf(),
        final(db)@ == purged(old(db)@, emptied(old(db)@, kept@), now),
        emptied(old(db)@, kept@).finite(),
        removed == emptied(old(db)@, kept@).len(),
{
    let ghost t = db@;
    let trashed: Vec<TrashedPost> = list_trashed_posts(db);
    let ghost rows = rows_view(trashed@);
    let mut removed: usize = 0;
    let mut i: usize = 0;
    let ghost mut gone: Set<i32> = Set::empty();
    proof {
        lemma_nothing_purged(t, now);
    }
    while i < trashed.len()
        invariant
            i <= trashed@.len(),
            removed <= i,
            rows == rows_view(trashed@),
            t == old(db)@,
            t.wf(),
            lists::<TrashedPost>(rows, trashed_posts(t)),
            db.wf(),
            gone.finite(),
            gone.len() == removed,
            forall|k: i32| #[trigger]
                gone.contains(k) <==> !kept@.contains(k) && exists|j: int|
                    0 <= j < i && (#[trigger] rows[j]).post.id == k,
            db@ == purged(t, gone, now),
        decreases trashed@.len() - i,
    {
        let post: &post::Model = &trashed[i].post;
        let ghost before = gone;
        proof {
            assert(rows.contains(rows[i as int]));
            assert(trashed_posts(t).contains_key(post.id));
            assert(!exists|j: int| 0 <= j < i && (#[trigger] rows[j]).post.id == post.id) by {
                if exists|j: int| 0 <= j < i && (#[trigger] rows[j]).post.id == post.id {
                    let j = choose|j: int| 0 <= j < i && (#[trigger] rows[j]).post.id == post.id;
                    assert(rows.contains(rows[j]));
                    assert(rows[j] == rows[i as int]);
                }
            }
            assert(!before.contains(post.id));
        }
        if !holds_id(kept, post.id) {
            let done: AppResult<()> = purge(db, post, now);
            proof {
                gone = gone.insert(post.id);
                lemma_purged_one_more(t, before, post.id, now);
            }
            match done {
                Ok(_) => {
                    removed = removed + 1;
                },
                Err(_) => {},
            }
        }
        proof {
            assert forall|k: i32| #[trigger]
                gone.contains(k) <==> !kept@.contains(k) && exists|j: int|
                    0 <= j < i + 1 && (#[trigger] rows[j]).post.id == k by {
                if before.contains(k) {
                    let j = choose|j: int| 0 <= j < i && (#[trigger] rows[j]).post.id == k;
                    assert(rows[j].post.id == k);
                }
                if k == post.id {
                    assert(rows[i as int].post.id == k);
                }
            }
        }
        i = i + 1;
    }
    proof {
        assert forall|k: i32| gone.contains(k) <==> emptied(t, kept@).contains(k) by {
            if gone.contains(k) {
                let j = choose|j: int| 0 <= j < rows.len() && (#[trigger] rows[j]).post.id == k;
                assert(rows.contains(rows[j]));
            }
            if emptied(t, kept@).contains(k) {
                assert(trashed_posts(t).contains_key(k));
                assert(rows.contains(trashed_posts(t)[k]));
                let j = choose|j: int| 0 <= j < rows.len() && rows[j] == trashed_posts(t)[k];
                assert(rows[j].post.id == k);
            }
        }
        assert(gone =~= emptied(t, kept@));
    }
    removed
}

proof fn lemma_nothing_purged(t: Tables, now: i64)
    ensures
        purged(t, Set::empty(), now) == t,
{
    let after = purged(t, Set::empty(), now);
    assert forall|s: Seq<char>| !slug_among(t, Set::empty(), s) by {}
    assert(after.posts =~= t.posts);
    assert(after.stages =~= t.stages);
    assert(after.syncs =~= t.syncs);
    assert(after.revisions =~= t.revisions);
    assert(after.trash =~= t.trash);
    assert(after.stale =~= t.stale);
    assert(after.schedules =~= t.schedules);
    assert(after.tombstones =~= t.tombstones);
}

proof fn lemma_purged_one_more(t: Tables, ids: Set<i32>, id: i32, now: i64)
    requires
        t.wf(),
        t.posts.contains_key(id),
        !ids.contains(id),
    ensures
        purged(purged(t, ids, now), set![id], now) == purged(t, ids.insert(id), now),
{
    let half = purged(t, ids, now);
    let a = purged(half, set![id], now);
    let b = purged(t, ids.insert(id), now);
    let slug = t.posts[id].slug;
    assert forall|s: Seq<char>| #[trigger] slug_among(half, set![id], s) <==> s == slug by {
        if s == slug {
            assert(set![id].contains(id) && has_slug(half.posts, id, s));
        }
    }
    assert forall|s: Seq<char>| #[trigger]
        slug_among(t, ids.insert(id), s) <==> slug_among(t, ids, s) || s == slug by {
        if slug_among(t, ids, s) {
            let k = choose|k: i32| #[trigger] ids.contains(k) && has_slug(t.posts, k, s);
            assert(ids.insert(id).contains(k));
        }
        if s == slug {
            assert(ids.insert(id).contains(id) && has_slug(t.posts, id, s));
        }
        if slug_among(t, ids.insert(id), s) {
            let k = choose|k: i32|
                #[trigger] ids.insert(id).contains(k) && has_slug(t.posts, k, s);
            if k != id {
                assert(ids.contains(k));
            }
        }
    }
    assert(a.posts =~= b.posts);
    assert(a.stages =~= b.stages);
    assert(a.syncs =~= b.syncs);
    assert(a.revisions =~= b.revisions);
    assert(a.trash =~= b.trash);
    assert(a.stale =~= b.stale);
    assert(a.schedules =~= b.schedules);
    assert(a.tombstones =~= b.tombstones);
}

/// A post that was deleted for good leaves nothing behind but the mark that its
/// slug was deleted here, and nothing about any other post changes.
pub proof fn a_deleted_post_leaves_only_its_mark(
    t: Tables,
    ids: Set<i32>,
    now: i64,
    id: i32,
    other: i32,
)
    requires
        t.wf(),
        t.posts.contains_key(id),
        ids.contains(id),
        t.posts.contains_key(other),
        !ids.contains(other),
    ensures
        ({
            let after = purged(t, ids, now);
            let slug = t.posts[id].slug;
            &&& !after.posts.contains_key(id)
            &&& !after.stages.contains_key(id)
            &&& !after.syncs.contains_key(id)
            &&& !after.trash.contains_key(id)
            &&& forall|k: i32| #[trigger]
                after.revisions.contains_key(k) ==> after.revisions[k].post_id != id
            &&& !after.stale.contains_key(slug)
            &&& !after.schedules.contains_key(slug)
            &&& after.tombstones.contains_key(slug)
            &&& after.posts.contains_key(other)
            &&& after.posts[other] == t.posts[other]
            &&& stage_of(after, other) == stage_of(t, other)
            &&& sync_of(after, other) == sync_of(t, other)
            &&& after.trash.contains_key(other) == t.trash.contains_key(other)
            &&& after.stale.contains_key(t.posts[other].slug) == t.stale.contains_key(
                t.posts[other].slug,
            )
            &&& after.tombstones.contains_key(t.posts[other].slug) == t.tombstones.contains_key(
                t.posts[other].slug,
            )
        }),
{
    let slug = t.posts[id].slug;
    assert(has_slug(t.posts, id, slug));
    assert(slug_among(t, ids, slug));
    if slug_among(t, ids, t.posts[other].slug) {
        let k = choose|k: i32|
            #[trigger] ids.contains(k) && has_slug(t.posts, k, t.posts[other].slug);
        assert(t.posts.contains_key(k) && t.posts.contains_key(other));
    }
}

/// Deleting posts leaves the tables sound: what was well formed stays so, and no
/// row is left that names a post that is not there.
pub proof fn deleting_leaves_no_orphans(t: Tables, ids: Set<i32>, now: i64)
    requires
        t.wf(),
        t.no_orphans(),
    ensures
        purged(t, ids, now).wf(),
        purged(t, ids, now).no_orphans(),
{
    let after = purged(t, ids, now);
    assert forall|a: i32, b: i32|
        #![trigger after.posts.contains_key(a), after.posts.contains_key(b)]
        after.posts.contains_key(a) && after.posts.contains_key(b) && after.posts[a].slug
            == after.posts[b].slug implies a == b by {
        assert(t.posts.contains_key(a) && t.posts.contains_key(b));
    }
    assert(after.posts.dom().subset_of(t.posts.dom()));
    vstd::set_lib::lemma_set_subset_finite(t.posts.dom(), after.posts.dom());
}

/// Deleting posts for good leaves the history, the schedule and the marks of every
/// other post, and the series, as they were; a slug that was marked as deleted keeps
/// the time at which it first was.
pub proof fn deleting_spares_the_rest(
    t: Tables,
    ids: Set<i32>,
    now: i64,
    other: i32,
    revision: i32,
    slug: Seq<char>,
)
    requires
        t.wf(),
        t.posts.contains_key(other),
        !ids.contains(other),
    ensures
        ({
            let after = purged(t, ids, now);
            let kept = t.posts[other].slug;
            &&& after.schedules.contains_key(kept) == t.schedules.contains_key(kept)
            &&& t.schedules.contains_key(kept) ==> after.schedules[kept] == t.schedules[kept]
            &&& t.stale.contains_key(kept) ==> after.stale[kept] == t.stale[kept]
            &&& t.trash.contains_key(other) ==> after.trash[other] == t.trash[other]
            &&& t.revisions.contains_key(revision) && t.revisions[revision].post_id == other ==> {
                after.revisions.contains_key(revision) && after.revisions[revision]
                    == t.revisions[revision]
            }
            &&& after.series == t.series
            &&& t.tombstones.contains_key(slug) ==> after.tombstones.contains_key(slug)
                && after.tombstones[slug] == t.tombstones[slug]
            &&& !t.tombstones.contains_key(slug) && after.tombstones.contains_key(slug)
                ==> after.tombstones[slug] == (TombstoneRow { slug, deleted_at: now })
        }),
{
    let kept = t.posts[other].slug;
    if slug_among(t, ids, kept) {
        let k = choose|k: i32| #[trigger] ids.contains(k) && has_slug(t.posts, k, kept);
        assert(t.posts.contains_key(k) && t.posts.contains_key(other));
    }
}

/// Emptying the trash takes all of it but what is to be kept, and nothing else: a post
/// of the library stays, live or not.
pub proof fn emptying_takes_the_trash(t: Tables, kept: Seq<i32>, id: i32)
    ensures
        emptied(t, kept).contains(id) <==> t.posts.contains_key(id) && t.trash.contains_key(id)
            && !kept.contains(id),
{
}

/// A post goes to the trash once: it keeps the time at which it first went, and no
/// other post goes with it.
pub proof fn a_post_is_thrown_away_once(
    trash: Map<i32, crate::entities::post_trash::TrashRow>,
    id: i32,
    now: i64,
    later: i64,
    other: i32,
)
    requires
        other != id,
    ensures
        binned(trash, id, now).contains_key(id),
        binned(trash, id, now)[id].post_id == id || trash.contains_key(id),
        trash.contains_key(id) ==> binned(trash, id, now)[id] == trash[id],
        !trash.contains_key(id) ==> binned(trash, id, now)[id].trashed_at == now,
        binned(binned(trash, id, now), id, later) == binned(trash, id, now),
        binned(trash, id, now).contains_key(other) == trash.contains_key(other),
        trash.contains_key(other) ==> binned(trash, id, now)[other] == trash[other],
{
}

/// A new post is in the library as it was given and staged as a draft, and nothing
/// else changes.
pub proof fn a_new_post_is_a_draft(t: Tables, post: PostRow, now: i64, other: i32)
    requires
        other != post.id,
    ensures
        ({
            let after = with_draft(t, post, now);
            &&& after.posts.contains_key(post.id) && after.posts[post.id] == post
            &&& stage_of(after, post.id) == Some(
                StageRow { post_id: post.id, stage: "draft"@, staged_at: now },
            )
            &&& after.posts.contains_key(other) == t.posts.contains_key(other)
            &&& t.posts.contains_key(other) ==> after.posts[other] == t.posts[other]
            &&& stage_of(after, other) == stage_of(t, other)
            &&& after == (Tables { posts: after.posts, stages: after.stages, ..t })
        }),
{
}

/// A slug is fixed once anything of the post has been pushed, and a post is kept out
/// of the trash just while its publication is still to come.
pub proof fn what_fixes_a_post(t: Tables, id: i32, slug: Seq<char>)
    ensures
        has_been_pushed(t, id) <==> t.syncs.contains_key(id) && t.syncs[id].synced_hash is Some,
        is_scheduled(t, slug) <==> t.schedules.contains_key(slug) && (t.schedules[slug].state
            == "pending"@ || t.schedules[slug].state == "publishing"@),
{
}

/// A post cannot be made just because its slug is taken or no id is left, and cannot be
/// written because it is gone or another has its slug; a post is in the library where
/// it is there and not in the trash.
pub proof fn why_a_post_is_refused(t: Tables, row: PostRow, slug: Seq<char>, e: AppError, id: i32)
    ensures
        creation_refused(t, slug, e) ==> e is Db && (next_id(t.posts) > i32::MAX || exists|k: i32|
            #[trigger] t.posts.contains_key(k) && t.posts[k].slug == slug),
        update_refused(t, row, e) && t.posts.contains_key(row.id) ==> e is Db && exists|k: i32|
            #[trigger] t.posts.contains_key(k) && k != row.id && t.posts[k].slug == row.slug,
        t.active(id) <==> t.posts.contains_key(id) && !t.trash.contains_key(id),
{
    if creation_refused(t, slug, e) && slug_taken(t.posts, slug) {
        let k = choose|k: i32| has_slug(t.posts, k, slug);
        assert(t.posts.contains_key(k) && t.posts[k].slug == slug);
    }
    if update_refused(t, row, e) && t.posts.contains_key(row.id) {
        let k = choose|k: i32| #[trigger] has_slug(t.posts, k, row.slug) && k != row.id;
        assert(t.posts.contains_key(k) && t.posts[k].slug == row.slug);
    }
}

}
