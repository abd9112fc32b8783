//! The tables that say something about posts: stages, sync records, trash,
//! tombstones, schedules and stale bodies.

use crate::db::{Store, Tables};
use crate::entities::post_body_stale;
use crate::entities::post_body_stale::StaleRow;
use crate::entities::post_schedule;
use crate::entities::post_stage;
use crate::entities::post_stage::StageRow;
use crate::entities::post_sync;
use crate::entities::post_sync::SyncRow;
use crate::entities::post_tombstone;
use crate::entities::post_tombstone::TombstoneRow;
use crate::entities::post_trash;
use crate::entities::post_trash::TrashRow;
use crate::error::{AppError, AppResult};
use crate::text::copy_opt;
use vstd::prelude::*;

verus! {

/// A row about a post can only be written while the post exists: ids are used
/// again, and a row that outlived its post would be inherited by a stranger.
fn require_post(db: &Store, post_id: i32) -> (r: AppResult<()>)
    requires
        db.wf(),
    ensures
        match r {
            Ok(_) => db@.posts.contains_key(post_id),
            Err(e) => !db@.posts.contains_key(post_id) && e == AppError::PostVanished(post_id),
        },
{
    if db.posts.has(&post_id) {
        Ok(())
    } else {
        Err(AppError::PostVanished(post_id))
    }
}

// ─── Stages ─────────────────────────────────────────────────────────────────

/// A post's stage.
pub fn stage_get(db: &Store, post_id: i32) -> (r: Option<post_stage::Model>)
    requires
        db.wf(),
    ensures
        match r {
            Some(s) => db@.stages.contains_key(post_id) && s@ == db@.stages[post_id],
            None => !db@.stages.contains_key(post_id),
        },
{
    match db.stages.get(&post_id) {
        Some(s) => Some(s.clone()),
        None => None,
    }
}

/// Forgets a post's stage. Where there is none, nothing happens.
pub fn stage_clear(db: &mut Store, post_id: i32)
    requires
        old(db).wf(),
    ensures
        final(db).wf(),
        final(db)@ == (Tables { stages: old(db)@.stages.remove(post_id), ..old(db)@ }),
{
    db.stages.remove(&post_id);
    proof {
        db.stages.lemma_listed();
    }
}

/// Sets a post's stage: there is one to a post.
pub fn stage_set(db: &mut Store, model: post_stage::Model) -> (r: AppResult<post_stage::Model>)
    requires
        old(db).wf(),
    ensures
        final(db).wf(),
        match r {
            Ok(s) => {
                &&& old(db)@.posts.contains_key(model.post_id)
                &&& s@ == model@
                &&& final(db)@ == (Tables {
                    stages: old(db)@.stages.insert(model.post_id, model@),
                    ..old(db)@
                })
            },
            Err(e) => {
                &&& !old(db)@.posts.contains_key(model.post_id)
                &&& e == AppError::PostVanished(model.post_id)
                &&& final(db)@ == old(db)@
            },
        },
{
    match require_post(db, model.post_id) {
        Err(e) => Err(e),
        Ok(_) => {
            let written: post_stage::Model = model.clone();
            db.stages.put(model);
            proof {
                db.stages.lemma_listed();
            }
            Ok(written)
        },
    }
}

// ─── Sync records ───────────────────────────────────────────────────────────

/// A sync record after a local edit: the new fingerprint, and what is known of
/// the cloud as it was.
pub open spec fn edited(row: Option<SyncRow>, post_id: i32, hash: Seq<char>) -> SyncRow {
    match row {
        Some(r) => SyncRow { post_id, local_hash: hash, ..r },
        None => SyncRow {
            post_id,
            local_hash: hash,
            synced_hash: None,
            synced_at: None,
            remote_updated_at: None,
            remote_seen_at: None,
        },
    }
}

/// A sync record after a look at the cloud: what was seen, which is also the
/// baseline where there was none.
pub open spec fn observed(row: SyncRow, seen: i64) -> SyncRow {
    SyncRow {
        remote_updated_at: match row.remote_updated_at {
            Some(b) => Some(b),
            None => Some(seen),
        },
        remote_seen_at: Some(seen),
        ..row
    }
}

/// A sync record with this version of the cloud's copy accounted for.
pub open spec fn accounted(row: SyncRow, baseline: Option<i64>) -> SyncRow {
    SyncRow { remote_updated_at: baseline, remote_seen_at: baseline, ..row }
}

/// A sync record of two sides that hold the same content.
pub open spec fn agreed(
    post_id: i32,
    hash: Seq<char>,
    remote_updated_at: Option<i64>,
    at: i64,
) -> SyncRow {
    SyncRow {
        post_id,
        local_hash: hash,
        synced_hash: Some(hash),
        synced_at: Some(at),
        remote_updated_at,
        remote_seen_at: remote_updated_at,
    }
}

/// The sync record of a post, if it has one.
pub open spec fn sync_of(t: Tables, post_id: i32) -> Option<SyncRow> {
    if t.syncs.contains_key(post_id) {
        Some(t.syncs[post_id])
    } else {
        None
    }
}

/// The stage of a post, if it has one.
pub open spec fn stage_of(t: Tables, post_id: i32) -> Option<StageRow> {
    if t.stages.contains_key(post_id) {
        Some(t.stages[post_id])
    } else {
        None
    }
}

/// The version that a push leaves as the baseline: the one that was written, or
/// else the one last seen.
pub open spec fn pushed_baseline(row: Option<SyncRow>, written: Option<i64>) -> Option<i64> {
    match written {
        Some(w) => Some(w),
        None => match row {
            Some(r) => r.remote_seen_at,
            None => None,
        },
    }
}

/// A post's sync record.
pub fn sync_get(db: &Store, post_id: i32) -> (r: Option<post_sync::Model>)
    requires
        db.wf(),
    ensures
        match r {
            Some(s) => db@.syncs.contains_key(post_id) && s@ == db@.syncs[post_id],
            None => !db@.syncs.contains_key(post_id),
        },
{
    match db.syncs.get(&post_id) {
        Some(s) => Some(s.clone()),
        None => None,
    }
}

/// Writes a sync record and hands back what was written.
fn sync_put(db: &mut Store, model: post_sync::Model) -> (r: post_sync::Model)
    requires
        old(db).wf(),
    ensures
        final(db).wf(),
        r@ == model@,
        final(db)@ == (Tables {
            syncs: old(db)@.syncs.insert(model.post_id, model@),
            ..old(db)@
        }),
{
    let written: post_sync::Model = model.clone();
    db.syncs.put(model);
    proof {
        db.syncs.lemma_listed();
    }
    written
}

/// Records what the post's content hashes to now. The fingerprint that the
/// cloud accepted stays: a local edit tells the cloud nothing.
pub fn sync_set_local(db: &mut Store, post_id: i32, local_hash: String) -> (r: AppResult<
    post_sync::Model,
>)
    requires
        old(db).wf(),
    ensures
        final(db).wf(),
        match r {
            Ok(s) => {
                &&& old(db)@.posts.contains_key(post_id)
                &&& s@ == edited(sync_of(old(db)@, post_id), post_id, local_hash@)
                &&& final(db)@ == (Tables {
                    syncs: old(db)@.syncs.insert(post_id, s@),
                    ..old(db)@
                })
            },
            Err(e) => {
                &&& !old(db)@.posts.contains_key(post_id)
                &&& e == AppError::PostVanished(post_id)
                &&& final(db)@ == old(db)@
            },
        },
{
    match require_post(db, post_id) {
        Err(e) => Err(e),
        Ok(_) => {
            let model = match db.syncs.get(&post_id) {
                Some(row) => post_sync::Model {
                    post_id,
                    local_hash,
                    synced_hash: copy_opt(&row.synced_hash),
                    synced_at: row.synced_at,
                    remote_updated_at: row.remote_updated_at,
                    remote_seen_at: row.remote_seen_at,
                },
                None => post_sync::Model {
                    post_id,
                    local_hash,
                    synced_hash: None,
                    synced_at: None,
                    remote_updated_at: None,
                    remote_seen_at: None,
                },
            };
            Ok(sync_put(db, model))
        },
    }
}

/// Records what the last refresh saw of the cloud's copy, and nothing about the
/// local side. A post without a sync record has nothing to compare with, and
/// gets none.
pub fn sync_observe_remote(db: &mut Store, post_id: i32, remote_updated_at: i64) -> (r: Option<
    post_sync::Model,
>)
    requires
        old(db).wf(),
    ensures
        final(db).wf(),
        match r {
            Some(s) => {
                &&& old(db)@.syncs.contains_key(post_id)
                &&& s@ == observed(old(db)@.syncs[post_id], remote_updated_at)
                &&& final(db)@ == (Tables {
                    syncs: old(db)@.syncs.insert(post_id, s@),
                    ..old(db)@
                })
            },
            None => !old(db)@.syncs.contains_key(post_id) && final(db)@ == old(db)@,
        },
{
    let model = match db.syncs.get(&post_id) {
        Some(row) => {
            let mut m: post_sync::Model = row.clone();
            if m.remote_updated_at.is_none() {
                m.remote_updated_at = Some(remote_updated_at);
            }
            m.remote_seen_at = Some(remote_updated_at);
            m
        },
        None => {
            return None;
        },
    };
    Some(sync_put(db, model))
}

/// Accepts a version of the cloud's copy as accounted for. Nothing local moves,
/// so the fingerprints stay.
pub fn sync_accept_remote_baseline(db: &mut Store, post_id: i32, baseline: Option<i64>) -> (r:
    Option<post_sync::Model>)
    requires
        old(db).wf(),
    ensures
        final(db).wf(),
        match r {
            Some(s) => {
                &&& old(db)@.syncs.contains_key(post_id)
                &&& s@ == accounted(old(db)@.syncs[post_id], baseline)
                &&& final(db)@ == (Tables {
                    syncs: old(db)@.syncs.insert(post_id, s@),
                    ..old(db)@
                })
            },
            None => !old(db)@.syncs.contains_key(post_id) && final(db)@ == old(db)@,
        },
{
    let model = match db.syncs.get(&post_id) {
        Some(row) => {
            let mut m: post_sync::Model = row.clone();
            m.remote_updated_at = baseline;
            m.remote_seen_at = baseline;
            m
        },
        None => {
            return None;
        },
    };
    Some(sync_put(db, model))
}

/// Declares the two sides in agreement: this content, and this version of the
/// cloud's copy.
pub fn sync_agree(
    db: &mut Store,
    post_id: i32,
    hash: String,
    remote_updated_at: Option<i64>,
    at: i64,
) -> (r: AppResult<post_sync::Model>)
    requires
        old(db).wf(),
    ensures
        final(db).wf(),
        match r {
            Ok(s) => {
                &&& old(db)@.posts.contains_key(post_id)
                &&& s@ == agreed(post_id, hash@, remote_updated_at, at)
                &&& final(db)@ == (Tables {
                    syncs: old(db)@.syncs.insert(post_id, s@),
                    ..old(db)@
                })
            },
            Err(e) => {
                &&& !old(db)@.posts.contains_key(post_id)
                &&& e == AppError::PostVanished(post_id)
                &&& final(db)@ == old(db)@
            },
        },
{
    match require_post(db, post_id) {
        Err(e) => Err(e),
        Ok(_) => Ok(
            sync_put(
                db,
                post_sync::Model {
                    post_id,
                    local_hash: hash.clone(),
                    synced_hash: Some(hash),
                    synced_at: Some(at),
                    remote_updated_at,
                    remote_seen_at: remote_updated_at,
                },
            ),
        ),
    }
}

/// Records that the cloud has accepted exactly this content. The baseline is
/// the version that was written, so that a push is not read as somebody else's
/// change.
pub fn sync_mark_synced(
    db: &mut Store,
    post_id: i32,
    hash: String,
    remote_updated_at: Option<i64>,
    at: i64,
) -> (r: AppResult<post_sync::Model>)
    requires
        old(db).wf(),
    ensures
        final(db).wf(),
        match r {
            Ok(s) => {
                &&& old(db)@.posts.contains_key(post_id)
                &&& s@ == agreed(
                    post_id,
                    hash@,
                    pushed_baseline(sync_of(old(db)@, post_id), remote_updated_at),
                    at,
                )
                &&& final(db)@ == (Tables {
                    syncs: old(db)@.syncs.insert(post_id, s@),
                    ..old(db)@
                })
            },
            Err(e) => {
                &&& !old(db)@.posts.contains_key(post_id)
                &&& e == AppError::PostVanished(post_id)
                &&& final(db)@ == old(db)@
            },
        },
{
    let baseline = match remote_updated_at {
        Some(w) => Some(w),
        None => match db.syncs.get(&post_id) {
            Some(row) => row.remote_seen_at,
            None => None,
        },
    };
    sync_agree(db, post_id, hash, baseline, at)
}

/// Forgets a post's sync record. Where there is none, nothing happens.
pub fn sync_clear(db: &mut Store, post_id: i32)
    requires
        old(db).wf(),
    ensures
        final(db).wf(),
        final(db)@ == (Tables { syncs: old(db)@.syncs.remove(post_id), ..old(db)@ }),
{
    db.syncs.remove(&post_id);
    proof {
        db.syncs.lemma_listed();
    }
}

// ─── Schedules ──────────────────────────────────────────────────────────────

/// The schedule of the post with this slug.
pub fn schedule_get(db: &Store, slug: &str) -> (r: Option<post_schedule::Model>)
    requires
        db.wf(),
    ensures
        match r {
            Some(s) => db@.schedules.contains_key(slug@) && s@ == db@.schedules[slug@],
            None => !db@.schedules.contains_key(slug@),
        },
{
    match db.schedules.get(&slug.to_owned()) {
        Some(s) => Some(s.clone()),
        None => None,
    }
}

/// Writes a schedule in place of any other for its slug.
pub fn schedule_set(db: &mut Store, model: post_schedule::Model) -> (r: post_schedule::Model)
    requires
        old(db).wf(),
    ensures
        final(db).wf(),
        r@ == model@,
        final(db)@ == (Tables {
            schedules: old(db)@.schedules.insert(model.slug@, model@),
            ..old(db)@
        }),
{
    let written: post_schedule::Model = model.clone();
    db.schedules.put(model);
    proof {
        db.schedules.lemma_listed();
    }
    written
}

/// Forgets a schedule. Where there is none, nothing happens.
pub fn schedule_clear(db: &mut Store, slug: &str)
    requires
        old(db).wf(),
    ensures
        final(db).wf(),
        final(db)@ == (Tables { schedules: old(db)@.schedules.remove(slug@), ..old(db)@ }),
{
    db.schedules.remove(&slug.to_owned());
    proof {
        db.schedules.lemma_listed();
    }
}

// ─── Stale bodies ───────────────────────────────────────────────────────────

/// The marks with one for this slug: an earlier one stays.
pub open spec fn marked_stale(stale: Map<Seq<char>, StaleRow>, slug: Seq<char>, since: i64) -> Map<
    Seq<char>,
    StaleRow,
> {
    if stale.contains_key(slug) {
        stale
    } else {
        stale.insert(slug, StaleRow { slug, since })
    }
}

/// Records that a post's cached Markdown is older than the cloud's.
pub fn body_stale_set(db: &mut Store, slug: &str, since: i64)
    requires
        old(db).wf(),
    ensures
        final(db).wf(),
        final(db)@ == (Tables { stale: marked_stale(old(db)@.stale, slug@, since), ..old(db)@ }),
{
    let key: String = slug.to_owned();
    if !db.stale.has(&key) {
        db.stale.put(post_body_stale::Model { slug: key, since });
        proof {
            db.stale.lemma_listed();
        }
    }
}

/// Is this post's cached body known to be out of date?
pub fn body_is_stale(db: &Store, slug: &str) -> (r: bool)
    requires
        db.wf(),
    ensures
        r == db@.stale.contains_key(slug@),
{
    db.stale.has(&slug.to_owned())
}

/// Takes the mark away: the cached body is gone or has been replaced.
pub fn body_stale_clear(db: &mut Store, slug: &str)
    requires
        old(db).wf(),
    ensures
        final(db).wf(),
        final(db)@ == (Tables { stale: old(db)@.stale.remove(slug@), ..old(db)@ }),
{
    db.stale.remove(&slug.to_owned());
    proof {
        db.stale.lemma_listed();
    }
}

// ─── Tombstones ─────────────────────────────────────────────────────────────

/// The tombstones with one for this slug: an earlier one stays.
pub open spec fn buried(
    tombstones: Map<Seq<char>, TombstoneRow>,
    slug: Seq<char>,
    deleted_at: i64,
) -> Map<Seq<char>, TombstoneRow> {
    if tombstones.contains_key(slug) {
        tombstones
    } else {
        tombstones.insert(slug, TombstoneRow { slug, deleted_at })
    }
}

/// Records that a slug was deleted here for good.
pub fn tombstone_set(db: &mut Store, slug: &str, deleted_at: i64)
    requires
        old(db).wf(),
    ensures
        final(db).wf(),
        final(db)@ == (Tables {
            tombstones: buried(old(db)@.tombstones, slug@, deleted_at),
            ..old(db)@
        }),
{
    let key: String = slug.to_owned();
    if !db.tombstones.has(&key) {
        db.tombstones.put(post_tombstone::Model { slug: key, deleted_at });
        proof {
            db.tombstones.lemma_listed();
        }
    }
}

/// Whether this slug was deleted here for good.
pub fn is_tombstoned(db: &Store, slug: &str) -> (r: bool)
    requires
        db.wf(),
    ensures
        r == db@.tombstones.contains_key(slug@),
{
    db.tombstones.has(&slug.to_owned())
}

/// Forgets a tombstone: what it was keeping out is gone.
pub fn tombstone_clear(db: &mut Store, slug: &str)
    requires
        old(db).wf(),
    ensures
        final(db).wf(),
        final(db)@ == (Tables { tombstones: old(db)@.tombstones.remove(slug@), ..old(db)@ }),
{
    db.tombstones.remove(&slug.to_owned());
    proof {
        db.tombstones.lemma_listed();
    }
}

// ─── Trash ──────────────────────────────────────────────────────────────────

/// The trash row of a post.
pub fn trash_get(db: &Store, post_id: i32) -> (r: Option<post_trash::Model>)
    requires
        db.wf(),
    ensures
        match r {
            Some(s) => db@.trash.contains_key(post_id) && s@ == db@.trash[post_id],
            None => !db@.trash.contains_key(post_id),
        },
{
    match db.trash.get(&post_id) {
        Some(s) => Some(s.clone()),
        None => None,
    }
}

/// The trash with this post in it: a post that is there already keeps the time
/// it first went.
pub open spec fn binned(trash: Map<i32, TrashRow>, post_id: i32, trashed_at: i64) -> Map<
    i32,
    TrashRow,
> {
    if trash.contains_key(post_id) {
        trash
    } else {
        trash.insert(post_id, TrashRow { post_id, trashed_at })
    }
}

/// Moves a post to the trash.
pub fn trash_set(db: &mut Store, post_id: i32, trashed_at: i64) -> (r: post_trash::Model)
    requires
        old(db).wf(),
    ensures
        final(db).wf(),
        final(db)@ == (Tables { trash: binned(old(db)@.trash, post_id, trashed_at), ..old(db)@ }),
        r@ == final(db)@.trash[post_id],
{
    match trash_get(db, post_id) {
        Some(existing) => existing,
        None => {
            let row = post_trash::Model { post_id, trashed_at };
            db.trash.put(row.clone());
            proof {
                db.trash.lemma_listed();
            }
            row
        },
    }
}

/// Takes a post back out of the trash. Where it is not there, nothing happens.
pub fn trash_clear(db: &mut Store, post_id: i32)
    requires
        old(db).wf(),
    ensures
        final(db).wf(),
        final(db)@ == (Tables { trash: old(db)@.trash.remove(post_id), ..old(db)@ }),
{
    db.trash.remove(&post_id);
    proof {
        db.trash.lemma_listed();
    }
}

/// An edit records the new fingerprint and forgets nothing that is known of the cloud.
pub proof fn an_edit_keeps_what_is_known_of_the_cloud(row: SyncRow, post_id: i32, hash: Seq<char>)
    ensures
        edited(Some(row), post_id, hash).post_id == post_id,
        edited(Some(row), post_id, hash).local_hash == hash,
        edited(Some(row), post_id, hash).synced_hash == row.synced_hash,
        edited(Some(row), post_id, hash).synced_at == row.synced_at,
        edited(Some(row), post_id, hash).remote_updated_at == row.remote_updated_at,
        edited(Some(row), post_id, hash).remote_seen_at == row.remote_seen_at,
        edited(None, post_id, hash).post_id == post_id,
        edited(None, post_id, hash).local_hash == hash,
        edited(None, post_id, hash).synced_hash is None,
        edited(None, post_id, hash).synced_at is None,
        edited(None, post_id, hash).remote_updated_at is None,
        edited(None, post_id, hash).remote_seen_at is None,
{
}

/// A look at the cloud records what was seen and moves no baseline that there is;
/// accounting for a version moves the baseline there; neither touches a fingerprint.
pub proof fn looking_changes_no_content(row: SyncRow, seen: i64, baseline: Option<i64>)
    ensures
        observed(row, seen).remote_seen_at == Some(seen),
        row.remote_updated_at is Some ==> observed(row, seen).remote_updated_at
            == row.remote_updated_at,
        row.remote_updated_at is None ==> observed(row, seen).remote_updated_at == Some(seen),
        observed(row, seen).post_id == row.post_id,
        observed(row, seen).local_hash == row.local_hash,
        observed(row, seen).synced_hash == row.synced_hash,
        observed(row, seen).synced_at == row.synced_at,
        accounted(row, baseline).remote_updated_at == baseline,
        accounted(row, baseline).remote_seen_at == baseline,
        accounted(row, baseline).post_id == row.post_id,
        accounted(row, baseline).local_hash == row.local_hash,
        accounted(row, baseline).synced_hash == row.synced_hash,
        accounted(row, baseline).synced_at == row.synced_at,
{
}

/// Two sides that agree have one fingerprint, from this time on, at the version that
/// was written.
pub proof fn an_agreement_is_one_fingerprint(
    post_id: i32,
    hash: Seq<char>,
    version: Option<i64>,
    at: i64,
)
    ensures
        agreed(post_id, hash, version, at).post_id == post_id,
        agreed(post_id, hash, version, at).local_hash == hash,
        agreed(post_id, hash, version, at).synced_hash == Some(hash),
        agreed(post_id, hash, version, at).synced_at == Some(at),
        agreed(post_id, hash, version, at).remote_updated_at == version,
        agreed(post_id, hash, version, at).remote_seen_at == version,
{
}

/// A mark is made once and keeps the time of its making, and no other is touched.
pub proof fn marks_are_made_once(
    stale: Map<Seq<char>, StaleRow>,
    tombstones: Map<Seq<char>, TombstoneRow>,
    slug: Seq<char>,
    other: Seq<char>,
    at: i64,
)
    requires
        other != slug,
    ensures
        marked_stale(stale, slug, at).contains_key(slug),
        stale.contains_key(slug) ==> marked_stale(stale, slug, at)[slug] == stale[slug],
        !stale.contains_key(slug) ==> marked_stale(stale, slug, at)[slug] == (StaleRow {
            slug,
            since: at,
        }),
        marked_stale(stale, slug, at).contains_key(other) == stale.contains_key(other),
        buried(tombstones, slug, at).contains_key(slug),
        tombstones.contains_key(slug) ==> buried(tombstones, slug, at)[slug] == tombstones[slug],
        !tombstones.contains_key(slug) ==> buried(tombstones, slug, at)[slug] == (TombstoneRow {
            slug,
            deleted_at: at,
        }),
        buried(tombstones, slug, at).contains_key(other) == tombstones.contains_key(other),
{
}

/// The version that a push leaves as the baseline is the one it wrote, where it says.
pub proof fn a_push_leaves_what_it_wrote(row: Option<SyncRow>, written: Option<i64>)
    ensures
        written is Some ==> pushed_baseline(row, written) == written,
        written is None && row is Some ==> pushed_baseline(row, written) == row->0.remote_seen_at,
        written is None && row is None ==> pushed_baseline(row, written) is None,
{
}

}
