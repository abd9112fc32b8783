//! Settling a post whose copies here and in the cloud both changed.
//!
//! This is the only place where either copy is overwritten: a refresh refuses to
//! choose. Keeping the local copy writes nothing to the cloud. Keeping the
//! cloud's copy goes in steps, with the file work between them:
//!
//! 1. [`resolve_conflict`] checks that there is a conflict, and hands out a
//!    [`KeepRemote`]. The caller fetches the cloud's posts, series and the body,
//!    and writes the body beside its destination.
//! 2. [`KeepRemote::commit`] keeps the local version in the history and writes
//!    the cloud's row. The caller moves the body into place.
//! 3. [`Taking::moved`] records that the two copies agree, or
//!    [`Taking::not_moved`] puts the row back.

use crate::commands::posts::{refuse_if_trashed, update_refused};
use crate::commands::save::{
    as_it_stands, is_state_of, restore_metadata, rolled_back, PreviousState,
};
use crate::db::mirror::{
    paired, resolve_series, resolved_series, stage_for, SeriesMap, SeriesPairs,
};
use crate::db::side_tables::{
    accounted, agreed, body_stale_clear, stage_get, stage_of, stage_set,
    sync_accept_remote_baseline, sync_agree, sync_get, sync_of, trash_get,
};
use crate::db::{has_slug, post_get, post_update, slug_elsewhere, Store, Tables};
use crate::entities::post;
use crate::entities::post::PostRow;
use crate::entities::post_revision;
use crate::entities::post_stage;
use crate::entities::post_stage::StageRow;
use crate::entities::post_sync;
use crate::entities::series;
use crate::error::{AppError, AppResult};
use crate::media_keys::{body_key, body_key_of};
use crate::revisions::{after_snapshot, record_or_skip};
use crate::sync_state;
use crate::sync_state::{content_hash, fingerprint, state_of, SyncState};
use crate::table::rows_view;
use crate::text::{opt_view, same};
use vstd::prelude::*;

verus! {

/// Which copy of a conflicted post to keep.
#[derive(Debug, Clone, Copy, PartialEq, Eq, Structural)]
pub enum Resolution {
    /// What is on this machine. The post becomes an ordinary pending edit.
    KeepLocal,
    /// The cloud's copy, metadata and body, over the local one.
    KeepRemote,
}

/// The post is in conflict: it changed here and in the cloud.
pub open spec fn conflicted(t: Tables, id: i32) -> bool {
    state_of(stage_of(t, id), sync_of(t, id)) == SyncState::Conflict
}

/// Settling a conflict.
pub enum Resolving {
    /// It is settled.
    Settled(post::Model),
    /// The cloud's copy has to be fetched.
    Fetch(KeepRemote),
}

/// A conflict in which the cloud's copy is to be taken.
pub struct KeepRemote {
    /// The post as it stands here.
    pub post: post::Model,
    pub now: i64,
}

/// Starts settling a conflict. A post that is merely edited is refused: settling
/// it would throw the edit away. Keeping the local copy accounts for the version
/// seen in the cloud and moves nothing else, so the edit is still pending.
pub fn resolve_conflict(db: &mut Store, post_id: i32, keep: Resolution, now: i64) -> (r: AppResult<
    Resolving,
>)
    requires
        old(db).wf(),
    ensures
        final(db).wf(),
        ({
            let t = old(db)@;
            match r {
                Ok(Resolving::Settled(p)) => {
                    &&& keep == Resolution::KeepLocal
                    &&& t.active(post_id) && conflicted(t, post_id)
                    &&& p@ == t.posts[post_id]
                    &&& final(db)@ == (Tables {
                        syncs: t.syncs.insert(
                            post_id,
                            accounted(t.syncs[post_id], t.syncs[post_id].remote_seen_at),
                        ),
                        ..t
                    })
                },
                Ok(Resolving::Fetch(k)) => {
                    &&& keep == Resolution::KeepRemote
                    &&& t.active(post_id) && conflicted(t, post_id)
                    &&& k.post@ == t.posts[post_id]
                    &&& k.now == now
                    &&& final(db)@ == t
                },
                Err(e) => {
                    &&& final(db)@ == t
                    &&& if !t.posts.contains_key(post_id) {
                        e == AppError::PostNotFound(post_id)
                    } else if t.trash.contains_key(post_id) {
                        e matches AppError::PostInTrash(s) && s@ == t.posts[post_id].slug
                    } else {
                        !conflicted(t, post_id) && e == AppError::NotConflicted(post_id)
                    }
                },
            }
        }),
{
    let post: post::Model = match post_get(db, post_id) {
        Some(p) => p,
        None => {
            return Err(AppError::PostNotFound(post_id));
        },
    };
    match refuse_if_trashed(db, &post) {
        Err(e) => {
            return Err(e);
        },
        Ok(_) => {},
    }
    let sync: Option<post_sync::Model> = sync_get(db, post_id);
    let stage: Option<post_stage::Model> = stage_get(db, post_id);
    if sync_state::derive(stage.as_ref(), sync.as_ref()) != SyncState::Conflict {
        return Err(AppError::NotConflicted(post_id));
    }
    match keep {
        Resolution::KeepLocal => {
            let observed: Option<i64> = match sync {
                Some(row) => row.remote_seen_at,
                None => None,
            };
            let _ = sync_accept_remote_baseline(db, post_id, observed);
            Ok(Resolving::Settled(post))
        },
        Resolution::KeepRemote => Ok(Resolving::Fetch(KeepRemote { post, now })),
    }
}

/// `found` is the first of `posts` with this slug, if there is one.
pub open spec fn first_with_slug(posts: Seq<PostRow>, slug: Seq<char>) -> Option<PostRow>
    decreases posts.len(),
{
    if posts.len() == 0 {
        None
    } else if posts[0].slug == slug {
        Some(posts[0])
    } else {
        first_with_slug(posts.drop_first(), slug)
    }
}

/// The first of `posts` with this slug.
pub(crate) fn find_slug<'a>(posts: &'a Vec<post::Model>, slug: &str) -> (r: Option<
    &'a post::Model,
>)
    ensures
        match r {
            Some(p) => first_with_slug(rows_view(posts@), slug@) == Some(p@) && p.slug@ == slug@,
            None => first_with_slug(rows_view(posts@), slug@) is None,
        },
{
    let ghost all = rows_view(posts@);
    let mut i: usize = 0;
    assert(all.skip(0) =~= all);
    while i < posts.len()
        invariant
            i <= posts@.len(),
            all == rows_view(posts@),
            first_with_slug(all, slug@) == first_with_slug(all.skip(i as int), slug@),
        decreases posts@.len() - i,
    {
        assert(all.skip(i as int).drop_first() =~= all.skip(i + 1));
        assert(all.skip(i as int)[0] == posts@[i as int]@);
        if same(posts[i].slug.as_str(), slug) {
            return Some(&posts[i]);
        }
        i = i + 1;
    }
    None
}

/// A conflict in which the cloud's row is written and its body is about to be
/// moved into place.
pub struct Taking {
    pub saved: post::Model,
    pub previous: PreviousState,
    pub body: String,
    pub now: i64,
}

impl Taking {
    /// The post and the state before it are of one post.
    pub open spec fn wf(self) -> bool {
        is_state_of(self.previous@, self.saved.id)
    }
}

/// The cloud's copy of a post, under the local id. A series that only exists here
/// is kept: the cloud cannot tell it from no series.
pub open spec fn taken_copy(post: PostRow, remote: PostRow, pairs: SeriesPairs) -> PostRow {
    let (series_id, series_order) = resolved_series(
        PostRow { id: post.id, ..remote },
        Some(post),
        pairs,
    );
    PostRow { id: post.id, series_id, series_order, ..remote }
}

impl KeepRemote {
    /// The key of the body to fetch.
    pub fn body_key(&self) -> (out: String)
        ensures
            out@ == body_key_of(self.post.slug@),
    {
        body_key(self.post.slug.as_str())
    }

    /// The cloud's copy among its posts.
    pub fn find(&self, remote: &Vec<post::Model>) -> (r: AppResult<post::Model>)
        ensures
            match r {
                Ok(p) => first_with_slug(rows_view(remote@), self.post.slug@) == Some(p@)
                    && p.slug@ == self.post.slug@,
                Err(e) => first_with_slug(rows_view(remote@), self.post.slug@) is None && (
                e matches AppError::RemotePostGone(s) && s@ == self.post.slug@),
            },
    {
        match find_slug(remote, self.post.slug.as_str()) {
            Some(p) => Ok(p.clone()),
            None => Err(AppError::RemotePostGone(self.post.slug.clone())),
        }
    }

    /// Keeps the local version in the history, with `old_body`, the cached text,
    /// and writes the cloud's row. The body that goes with it is empty where the
    /// cloud has none.
    pub fn commit(
        self,
        db: &mut Store,
        remote: post::Model,
        remote_series: &Vec<series::Model>,
        body: Option<String>,
        old_body: Option<String>,
    ) -> (r: AppResult<Taking>)
        requires
            old(db).wf(),
        ensures
            final(db).wf(),
            ({
                let t = old(db)@;
                let id = self.post.id;
                let kept = after_snapshot(
                    t,
                    self.post@,
                    post_revision::CONFLICT_KEEP_REMOTE@,
                    opt_view(old_body),
                    self.now,
                );
                let row = taken_copy(
                    self.post@,
                    remote@,
                    paired(t.series, rows_view(remote_series@)),
                );
                match r {
                    Ok(s) => {
                        &&& s.wf()
                        &&& t.active(id)
                        &&& !slug_elsewhere(t.posts, id, row.slug)
                        &&& s.saved@ == row
                        &&& s.previous@ == as_it_stands(t, id)
                        &&& s.body@ == match opt_view(body) {
                            Some(text) => text,
                            None => Seq::empty(),
                        }
                        &&& s.now == self.now
                        &&& final(db)@ == (Tables { posts: t.posts.insert(id, row), ..kept })
                    },
                    Err(e) => {
                        &&& final(db)@ == kept
                        &&& if !t.posts.contains_key(id) {
                            e == AppError::PostNotFound(id)
                        } else if t.trash.contains_key(id) {
                            e matches AppError::PostInTrash(s) && s@ == self.post.slug@
                        } else {
                            update_refused(t, row, e)
                        }
                    },
                }
            }),
    {
        let series: SeriesMap = SeriesMap::build(db, remote_series);
        let mut model: post::Model = remote;
        model.id = self.post.id;
        let (series_id, series_order) = resolve_series(&model, Some(&self.post), &series);
        model.series_id = series_id;
        model.series_order = series_order;
        record_or_skip(
            db,
            &self.post,
            post_revision::CONFLICT_KEEP_REMOTE,
            old_body,
            self.now,
        );
        let previous: PreviousState = match PreviousState::read(db, self.post.id) {
            Ok(p) => p,
            Err(e) => {
                return Err(e);
            },
        };
        if trash_get(db, self.post.id).is_some() {
            return Err(AppError::PostInTrash(self.post.slug));
        }
        let saved: post::Model = match post_update(db, model) {
            Ok(p) => p,
            Err(e) => {
                return Err(e);
            },
        };
        let body: String = match body {
            Some(text) => text,
            None => {
                let none: String = String::new();
                assert(none@ =~= Seq::empty());
                none
            },
        };
        Ok(Taking { saved, previous, body, now: self.now })
    }
}

/// The tables after the cloud's copy was taken: the two agree from here.
pub open spec fn copy_taken(t: Tables, saved: PostRow, body: Seq<char>, now: i64) -> Tables {
    Tables {
        stale: t.stale.remove(saved.slug),
        stages: t.stages.insert(
            saved.id,
            StageRow { post_id: saved.id, stage: stage_for(saved.published), staged_at: now },
        ),
        syncs: t.syncs.insert(
            saved.id,
            agreed(saved.id, fingerprint(saved, body), Some(saved.updated_at), now),
        ),
        ..t
    }
}

impl Taking {
    /// The body could not be moved into place: the row goes back.
    pub fn not_moved(self, db: &mut Store)
        requires
            old(db).wf(),
            self.wf(),
        ensures
            final(db).wf(),
            final(db)@ == rolled_back(old(db)@, Some(self.previous@), self.saved@),
    {
        restore_metadata(db, Some(self.previous), &self.saved);
    }

    /// The body is in place: the row, the text and the fingerprint are the
    /// cloud's.
    pub fn moved(self, db: &mut Store) -> (r: AppResult<post::Model>)
        requires
            old(db).wf(),
        ensures
            final(db).wf(),
            if old(db)@.posts.contains_key(self.saved.id) {
                &&& r == Ok::<post::Model, AppError>(self.saved)
                &&& final(db)@ == copy_taken(old(db)@, self.saved@, self.body@, self.now)
            } else {
                &&& r == Err::<post::Model, AppError>(AppError::PostVanished(self.saved.id))
                &&& final(db)@ == (Tables {
                    stale: old(db)@.stale.remove(self.saved.slug@),
                    ..old(db)@
                })
            },
    {
        body_stale_clear(db, self.saved.slug.as_str());
        let stage: &'static str = if self.saved.published {
            post_stage::PUBLISHED
        } else {
            post_stage::DRAFT
        };
        let row = post_stage::Model {
            post_id: self.saved.id,
            stage: stage.to_owned(),
            staged_at: self.now,
        };
        match stage_set(db, row) {
            Err(e) => {
                return Err(e);
            },
            Ok(_) => {},
        }
        let hash: String = content_hash(&self.saved, self.body.as_str());
        match sync_agree(
            db,
            self.saved.id,
            hash,
            Some(self.saved.updated_at),
            self.now,
        ) {
            Err(e) => Err(e),
            Ok(_) => Ok(self.saved),
        }
    }
}

// ─── Laws ───────────────────────────────────────────────────────────────────

/// Keeping the local copy makes the conflict an ordinary pending edit, and
/// changes no post, no text mark and no stage.
pub proof fn keeping_local_leaves_an_edit(t: Tables, id: i32)
    requires
        conflicted(t, id),
    ensures
        ({
            let after = Tables {
                syncs: t.syncs.insert(
                    id,
                    accounted(t.syncs[id], t.syncs[id].remote_seen_at),
                ),
                ..t
            };
            state_of(stage_of(after, id), sync_of(after, id)) == SyncState::Modified
        }),
{
}

/// Taking the cloud's copy settles the post: it reads as in step with the cloud.
pub proof fn taking_the_clouds_copy_settles(t: Tables, saved: PostRow, body: Seq<char>, now: i64)
    ensures
        ({
            let after = copy_taken(t, saved, body, now);
            state_of(stage_of(after, saved.id), sync_of(after, saved.id)) == SyncState::Clean
        }),
{
    reveal_strlit("draft");
    reveal_strlit("published");
    reveal_strlit("sync_failed");
    assert(post_stage::DRAFT@.len() == 5);
    assert(post_stage::PUBLISHED@.len() == 9);
    assert(post_stage::SYNC_FAILED@.len() == 11);
}

/// Where the cloud's body could not be moved into place, the post keeps its row
/// and its stage, and is still in conflict.
pub proof fn a_failed_take_leaves_the_conflict(
    t: Tables,
    id: i32,
    remote: PostRow,
    pairs: SeriesPairs,
    old_body: Option<Seq<char>>,
    now: i64,
)
    requires
        t.wf(),
        t.posts.contains_key(id),
        conflicted(t, id),
        remote.slug == t.posts[id].slug,
    ensures
        ({
            let row = taken_copy(t.posts[id], remote, pairs);
            let kept = after_snapshot(
                t,
                t.posts[id],
                post_revision::CONFLICT_KEEP_REMOTE@,
                old_body,
                now,
            );
            let written = Tables { posts: t.posts.insert(id, row), ..kept };
            let after = rolled_back(written, Some(as_it_stands(t, id)), row);
            &&& after.posts == t.posts
            &&& after.stages == t.stages
            &&& conflicted(after, id)
        }),
{
    let row = taken_copy(t.posts[id], remote, pairs);
    let kept = after_snapshot(
        t,
        t.posts[id],
        post_revision::CONFLICT_KEEP_REMOTE@,
        old_body,
        now,
    );
    let written = Tables { posts: t.posts.insert(id, row), ..kept };
    let after = rolled_back(written, Some(as_it_stands(t, id)), row);
    assert(!slug_elsewhere(written.posts, id, t.posts[id].slug)) by {
        if slug_elsewhere(written.posts, id, t.posts[id].slug) {
            let k = choose|k: i32| #[trigger]
                has_slug(written.posts, k, t.posts[id].slug) && k != id;
            assert(t.posts.contains_key(k) && t.posts.contains_key(id));
        }
    }
    assert(after.posts =~= t.posts);
    assert(after.stages =~= t.stages);
}

/// Keeping the cloud's copy takes all that it says: every column is the cloud's,
/// but for the local id and the filing. That is the cloud's where it names a series
/// that this machine knows, and stays as it was where it does not.
pub proof fn the_clouds_copy_is_taken_whole(post: PostRow, remote: PostRow, pairs: SeriesPairs)
    ensures
        ({
            let row = taken_copy(post, remote, pairs);
            &&& row.id == post.id
            &&& row.slug == remote.slug
            &&& row.title == remote.title
            &&& row.excerpt == remote.excerpt
            &&& row.tags == remote.tags
            &&& row.published == remote.published
            &&& row.published_at == remote.published_at
            &&& row.created_at == remote.created_at
            &&& row.updated_at == remote.updated_at
            &&& if remote.series_id is Some && pairs.inbound.contains_key(remote.series_id->0) {
                row.series_id == Some(pairs.inbound[remote.series_id->0]) && row.series_order
                    == remote.series_order
            } else {
                &&& row.series_id == post.series_id
                &&& row.series_id is Some ==> row.series_order == post.series_order
                &&& row.series_id is None ==> row.series_order is None
            }
        }),
{
}

/// Once the cloud's copy is in place, the post is staged as the cloud has it, its
/// text is no longer behind, and both fingerprints are those of what is here now.
/// Nothing is said about any other post.
pub proof fn a_taken_copy_is_recorded(
    t: Tables,
    saved: PostRow,
    body: Seq<char>,
    now: i64,
    other: i32,
    slug: Seq<char>,
)
    requires
        other != saved.id,
        slug != saved.slug,
    ensures
        ({
            let after = copy_taken(t, saved, body, now);
            &&& after.stages.contains_key(saved.id)
            &&& after.stages[saved.id].post_id == saved.id
            &&& saved.published ==> after.stages[saved.id].stage == "published"@
            &&& !saved.published ==> after.stages[saved.id].stage == "draft"@
            &&& after.stages[saved.id].staged_at == now
            &&& after.syncs.contains_key(saved.id)
            &&& after.syncs[saved.id].post_id == saved.id
            &&& after.syncs[saved.id].local_hash == fingerprint(saved, body)
            &&& after.syncs[saved.id].synced_hash == Some(fingerprint(saved, body))
            &&& after.syncs[saved.id].synced_at == Some(now)
            &&& after.syncs[saved.id].remote_updated_at == Some(saved.updated_at)
            &&& after.syncs[saved.id].remote_seen_at == Some(saved.updated_at)
            &&& !after.stale.contains_key(saved.slug)
            &&& stage_of(after, other) == stage_of(t, other)
            &&& sync_of(after, other) == sync_of(t, other)
            &&& after.stale.contains_key(slug) == t.stale.contains_key(slug)
            &&& after.posts == t.posts
            &&& after.series == t.series
            &&& after.revisions == t.revisions
            &&& after.trash == t.trash
            &&& after.tombstones == t.tombstones
            &&& after.schedules == t.schedules
        }),
{
}

/// The copy that is looked for is one of the cloud's with this slug, and is found
/// wherever it stands.
pub proof fn the_clouds_copy_is_found(posts: Seq<PostRow>, slug: Seq<char>, i: int)
    requires
        0 <= i < posts.len(),
        posts[i].slug == slug,
    ensures
        first_with_slug(posts, slug) is Some,
        first_with_slug(posts, slug)->0.slug == slug,
        posts.contains(first_with_slug(posts, slug)->0),
    decreases posts.len(),
{
    if posts[0].slug != slug {
        let rest = posts.drop_first();
        assert(rest[i - 1] == posts[i]);
        the_clouds_copy_is_found(rest, slug, i - 1);
        let v = first_with_slug(rest, slug)->0;
        let j = choose|j: int| 0 <= j < rest.len() && rest[j] == v;
        assert(posts[j + 1] == v);
    } else {
        assert(posts.contains(posts[0]));
    }
}

/// Where none of the cloud's posts has the slug, none is found.
pub proof fn no_copy_is_made_up(posts: Seq<PostRow>, slug: Seq<char>)
    requires
        forall|i: int| 0 <= i < posts.len() ==> (#[trigger] posts[i]).slug != slug,
    ensures
        first_with_slug(posts, slug) is None,
    decreases posts.len(),
{
    if posts.len() > 0 {
        let rest = posts.drop_first();
        assert forall|i: int| 0 <= i < rest.len() implies (#[trigger] rest[i]).slug != slug by {
            assert(rest[i] == posts[i + 1]);
        }
        assert(posts[0].slug != slug);
        no_copy_is_made_up(rest, slug);
    }
}

/// When a post is in conflict: it was edited here, the cloud moved, and its last push
/// did not fail.
pub proof fn when_a_post_is_in_conflict(t: Tables, id: i32)
    ensures
        conflicted(t, id) <==> {
            &&& !(t.stages.contains_key(id) && t.stages[id].stage == "sync_failed"@)
            &&& t.syncs.contains_key(id)
            &&& t.syncs[id].synced_hash != Some(t.syncs[id].local_hash)
            &&& t.syncs[id].remote_updated_at is Some
            &&& t.syncs[id].remote_seen_at is Some
            &&& t.syncs[id].remote_updated_at != t.syncs[id].remote_seen_at
        },
{
}

}
