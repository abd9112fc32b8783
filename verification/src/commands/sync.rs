//! Going between the local tables and the cloud's: the publication flag of one
//! post, a push of the whole library, and a refresh from the cloud.
//!
//! The library hands out what is to be written to the cloud, and takes back
//! whether that worked.

use crate::commands::posts::refuse_if_trashed;
use crate::db::listings::{
    active_posts, list_active_posts, mirror_schedules, repeats_a_slug, NewestPosts,
};
use crate::db::mirror::{
    all_pulled, ids_suffice, mirror_posts, mirrored, needs_missing_id, outbound_post, paired,
    spent_tombstones_cleared, stage_for, Mirrored, SeriesMap, SeriesPairs,
};
use crate::db::refresh_laws;
use crate::db::series_rows::{adopt_series_from_remote, series_pulled};
use crate::db::side_tables::{
    accounted, stage_set, sync_accept_remote_baseline, sync_of, trash_get,
};
use crate::db::{
    has_slug, next_id, post_get, post_update, refused, series_slug_taken, slug_elsewhere, Store,
    Tables, DUPLICATE_SLUG, IDS_EXHAUSTED,
};
use crate::entities::post;
use crate::entities::post::PostRow;
use crate::entities::post_schedule;
use crate::entities::post_schedule::ScheduleRow;
use crate::entities::post_stage;
use crate::entities::post_stage::StageRow;
use crate::entities::post_sync::SyncRow;
use crate::entities::series;
use crate::entities::series::SeriesRow;
use crate::error::{AppError, AppResult};
use crate::table::{in_order, lists, rows_view};
use vstd::prelude::*;

verus! {

// ─── One post for the cloud ─────────────────────────────────────────────────

/// A post ready to be sent, with its series given in the cloud's ids. Every path
/// that writes a post to the cloud goes through here: a local series id means
/// nothing there.
pub fn post_for_cloud(db: &Store, remote_series: &Vec<series::Model>, post: post::Model) -> (out:
    post::Model)
    requires
        db.wf(),
    ensures
        out@ == outbound_post(post@, paired(db@.series, rows_view(remote_series@))),
{
    let mut out: post::Model = post;
    SeriesMap::build(db, remote_series).apply_outbound(&mut out);
    out
}

// ─── Publishing and taking down ─────────────────────────────────────────────

/// A post whose publication flag is set here and on its way to the cloud.
pub struct Flip {
    pub post: post::Model,
    pub publish: bool,
    pub now: i64,
}

/// The post with its publication flag set.
pub open spec fn flipped(post: PostRow, publish: bool, now: i64) -> PostRow {
    PostRow {
        published: publish,
        published_at: if publish {
            Some(now)
        } else {
            None
        },
        updated_at: now,
        ..post
    }
}

/// `r` is how setting the flag starts.
pub open spec fn flip_started(
    t: Tables,
    after: Tables,
    post_id: i32,
    publish: bool,
    now: i64,
    r: AppResult<Flip>,
) -> bool {
    match r {
        Ok(f) => {
            &&& t.active(post_id)
            &&& f.post@ == flipped(t.posts[post_id], publish, now)
            &&& f.publish == publish
            &&& f.now == now
            &&& after == (Tables { posts: t.posts.insert(post_id, f.post@), ..t })
        },
        Err(e) => {
            &&& after == t
            &&& if t.posts.contains_key(post_id) {
                &&& t.trash.contains_key(post_id)
                &&& e matches AppError::PostInTrash(s) && s@ == t.posts[post_id].slug
            } else {
                e == AppError::PostNotFound(post_id)
            }
        },
    }
}

fn set_stage_and_sync(db: &mut Store, post_id: i32, publish: bool, now: i64) -> (r: AppResult<Flip>)
    requires
        old(db).wf(),
    ensures
        final(db).wf(),
        flip_started(old(db)@, final(db)@, post_id, publish, now, r),
{
    let post: post::Model = match post_get(db, post_id) {
        Some(p) => p,
        None => {
            return Err(AppError::PostNotFound(post_id));
        },
    };
    match refuse_if_trashed(db, &post) {
        Err(e) => {
            return Err(e);
        },
        Ok(_) => {},
    }
    let mut model: post::Model = post;
    model.published = publish;
    model.published_at = if publish {
        Some(now)
    } else {
        None
    };
    model.updated_at = now;
    proof {
        assert(!slug_elsewhere(db@.posts, post_id, model.slug@)) by {
            if slug_elsewhere(db@.posts, post_id, model.slug@) {
                let k = choose|k: i32| #[trigger]
                    has_slug(db@.posts, k, model.slug@) && k != post_id;
                assert(db@.posts.contains_key(k) && db@.posts.contains_key(post_id));
            }
        }
    }
    match post_update(db, model) {
        Ok(post) => Ok(Flip { post, publish, now }),
        Err(e) => Err(e),
    }
}

/// Starts publishing a post: sets the flag here. The caller then writes it to the
/// cloud, where the post is found by its slug.
pub fn publish_post(db: &mut Store, post_id: i32, now: i64) -> (r: AppResult<Flip>)
    requires
        old(db).wf(),
    ensures
        final(db).wf(),
        flip_started(old(db)@, final(db)@, post_id, true, now, r),
{
    set_stage_and_sync(db, post_id, true, now)
}

/// Starts taking a post off the blog: the mirror of [`publish_post`].
pub fn unpublish_post(db: &mut Store, post_id: i32, now: i64) -> (r: AppResult<Flip>)
    requires
        old(db).wf(),
    ensures
        final(db).wf(),
        flip_started(old(db)@, final(db)@, post_id, false, now, r),
{
    set_stage_and_sync(db, post_id, false, now)
}

/// The sync records after a post's row was written to the cloud: the time that it
/// carries is the version that the cloud has, and one that this machine knows.
pub open spec fn row_pushed(syncs: Map<i32, SyncRow>, id: i32, updated_at: i64) -> Map<
    i32,
    SyncRow,
> {
    if syncs.contains_key(id) {
        syncs.insert(id, accounted(syncs[id], Some(updated_at)))
    } else {
        syncs
    }
}

/// The tables after a post's row was tried on the cloud.
pub open spec fn row_settled(
    t: Tables,
    post: PostRow,
    landed: bool,
    now: i64,
) -> Tables {
    Tables {
        stages: if t.posts.contains_key(post.id) {
            t.stages.insert(
                post.id,
                StageRow {
                    post_id: post.id,
                    stage: if landed {
                        stage_for(post.published)
                    } else {
                        post_stage::SYNC_FAILED@
                    },
                    staged_at: now,
                },
            )
        } else {
            t.stages
        },
        syncs: if landed {
            row_pushed(t.syncs, post.id, post.updated_at)
        } else {
            t.syncs
        },
        ..t
    }
}

fn stage_after(published: bool, landed: bool) -> (out: &'static str)
    ensures
        out@ == if landed {
            stage_for(published)
        } else {
            post_stage::SYNC_FAILED@
        },
{
    if !landed {
        post_stage::SYNC_FAILED
    } else if published {
        post_stage::PUBLISHED
    } else {
        post_stage::DRAFT
    }
}

impl Flip {
    /// The flag that the post carries is the one that was asked for.
    pub open spec fn wf(self) -> bool {
        self.post.published == self.publish
    }

    /// Records how the write to the cloud went. One that failed leaves the flag
    /// set here, staged as failed, and is reported with its cause.
    pub fn settle(self, db: &mut Store, pushed: AppResult<()>) -> (r: AppResult<post::Model>)
        requires
            old(db).wf(),
            self.wf(),
        ensures
            final(db).wf(),
            if old(db)@.posts.contains_key(self.post.id) {
                &&& final(db)@ == row_settled(old(db)@, self.post@, pushed is Ok, self.now)
                &&& match pushed {
                    Ok(_) => r == Ok::<post::Model, AppError>(self.post),
                    Err(cause) => r == Err::<post::Model, AppError>(
                        AppError::CloudSyncFailed(Box::new(cause)),
                    ),
                }
            } else {
                &&& final(db)@ == old(db)@
                &&& r == Err::<post::Model, AppError>(AppError::PostVanished(self.post.id))
            },
    {
        let stage = post_stage::Model {
            post_id: self.post.id,
            stage: stage_after(self.publish, pushed.is_ok()).to_owned(),
            staged_at: self.now,
        };
        match stage_set(db, stage) {
            Err(e) => {
                return Err(e);
            },
            Ok(_) => {},
        }
        match pushed {
            Ok(_) => {
                let _ = sync_accept_remote_baseline(
                    db,
                    self.post.id,
                    Some(self.post.updated_at),
                );
                Ok(self.post)
            },
            Err(cause) => Err(AppError::CloudSyncFailed(Box::new(cause))),
        }
    }
}

// ─── Pushing the library ────────────────────────────────────────────────────

/// A push of every post in the library, one after another.
pub struct PushRun {
    /// The library as it was when the push began, newest first.
    pub posts: Vec<post::Model>,
    /// How many of them are behind it.
    pub at: usize,
    pub synced: usize,
    pub failed: usize,
    pub now: i64,
}

/// The push has gone past `at` posts, and counts no more than that.
pub open spec fn run_wf(run: PushRun) -> bool {
    run.at <= run.posts@.len() && run.synced + run.failed <= run.at
}

/// The first post from `at` on that is not in the trash, or the end.
pub open spec fn next_active(t: Tables, posts: Seq<PostRow>, at: int) -> int
    decreases posts.len() - at,
{
    if at < 0 || at >= posts.len() {
        at
    } else if t.trash.contains_key(posts[at].id) {
        next_active(t, posts, at + 1)
    } else {
        at
    }
}

/// Starts a push. The trash is left out.
pub fn sync_posts(db: &Store, now: i64) -> (run: PushRun)
    requires
        db.wf(),
    ensures
        run_wf(run),
        lists::<post::Model>(rows_view(run.posts@), active_posts(db@)),
        in_order::<post::Model, NewestPosts>(rows_view(run.posts@)),
        run.at == 0,
        run.synced == 0,
        run.failed == 0,
        run.now == now,
{
    PushRun { posts: list_active_posts(db), at: 0, synced: 0, failed: 0, now }
}

impl PushRun {
    /// The next post to send, in the cloud's ids, or nothing at the end. A post
    /// that was thrown away since the push began is passed over.
    pub fn next(&mut self, db: &Store, series: &SeriesMap) -> (r: Option<post::Model>)
        requires
            db.wf(),
            run_wf(*old(self)),
        ensures
            run_wf(*final(self)),
            final(self).posts == old(self).posts,
            final(self).synced == old(self).synced,
            final(self).failed == old(self).failed,
            final(self).now == old(self).now,
            final(self).at == next_active(
                db@,
                rows_view(old(self).posts@),
                old(self).at as int,
            ),
            match r {
                Some(p) => final(self).at < final(self).posts@.len() && p@ == outbound_post(
                    rows_view(final(self).posts@)[final(self).at as int],
                    series@,
                ),
                None => final(self).at == final(self).posts@.len(),
            },
    {
        let ghost rows = rows_view(self.posts@);
        let count: usize = self.posts.len();
        while self.at < count
            invariant
                count == self.posts@.len(),
                rows == rows_view(self.posts@),
                db.wf(),
                run_wf(*self),
                self.posts == old(self).posts,
                self.synced == old(self).synced,
                self.failed == old(self).failed,
                self.now == old(self).now,
                next_active(db@, rows, old(self).at as int) == next_active(
                    db@,
                    rows,
                    self.at as int,
                ),
            decreases count - self.at,
        {
            let id: i32 = self.posts[self.at].id;
            if trash_get(db, id).is_none() {
                let mut post: post::Model = self.posts[self.at].clone();
                series.apply_outbound(&mut post);
                return Some(post);
            }
            self.at = self.at + 1;
        }
        None
    }

    /// Records how sending the post that came last went, and goes on. What went
    /// up is the row alone, so a text that was not pushed stays an edit.
    pub fn record(&mut self, db: &mut Store, landed: bool)
        requires
            old(db).wf(),
            run_wf(*old(self)),
            old(self).at < old(self).posts@.len(),
        ensures
            final(db).wf(),
            run_wf(*final(self)),
            final(self).posts == old(self).posts,
            final(self).now == old(self).now,
            final(self).at == old(self).at + 1,
            final(self).synced == old(self).synced + if landed {
                1int
            } else {
                0
            },
            final(self).failed == old(self).failed + if landed {
                0int
            } else {
                1
            },
            final(db)@ == row_settled(
                old(db)@,
                rows_view(old(self).posts@)[old(self).at as int],
                landed,
                old(self).now,
            ),
    {
        let count: usize = self.posts.len();
        assert(self.at < count);
        let id: i32 = self.posts[self.at].id;
        let published: bool = self.posts[self.at].published;
        let updated_at: i64 = self.posts[self.at].updated_at;
        if landed {
            self.synced = self.synced + 1;
            let _ = sync_accept_remote_baseline(db, id, Some(updated_at));
        } else {
            self.failed = self.failed + 1;
        }
        let stage = post_stage::Model {
            post_id: id,
            stage: stage_after(published, landed).to_owned(),
            staged_at: self.now,
        };
        let _ = stage_set(db, stage);
        self.at = self.at + 1;
    }

    /// How the push went: how many posts are synced, or how many are not.
    pub fn finish(self) -> (r: AppResult<usize>)
        ensures
            r == if self.failed > 0 {
                Err::<usize, AppError>(
                    AppError::PartialSync { synced: self.synced, failed: self.failed },
                )
            } else {
                Ok::<usize, AppError>(self.synced)
            },
    {
        if self.failed > 0 {
            return Err(AppError::PartialSync { synced: self.synced, failed: self.failed });
        }
        Ok(self.synced)
    }
}

// ─── Refreshing ─────────────────────────────────────────────────────────────

/// The series after those that the cloud has and this machine does not were
/// brought down.
pub open spec fn series_adopted(series: Map<i32, SeriesRow>, remote: Seq<SeriesRow>) -> Map<
    i32,
    SeriesRow,
>
    decreases remote.len(),
{
    if remote.len() == 0 {
        series
    } else {
        let before = series_adopted(series, remote.drop_last());
        if series_slug_taken(before, remote.last().slug) || next_id(before) > i32::MAX {
            before
        } else {
            series_pulled(before, remote.last())
        }
    }
}

fn adopt_all(db: &mut Store, remote: &Vec<series::Model>)
    requires
        old(db).wf(),
    ensures
        final(db).wf(),
        final(db)@ == (Tables {
            series: series_adopted(old(db)@.series, rows_view(remote@)),
            ..old(db)@
        }),
{
    let ghost all = rows_view(remote@);
    let mut i: usize = 0;
    assert(all.take(0) =~= Seq::empty());
    assert(series_adopted(db@.series, Seq::empty()) == db@.series);
    while i < remote.len()
        invariant
            i <= remote@.len(),
            all == rows_view(remote@),
            db.wf(),
            db@ == (Tables {
                series: series_adopted(old(db)@.series, all.take(i as int)),
                ..old(db)@
            }),
        decreases remote@.len() - i,
    {
        assert(all.take(i + 1).drop_last() =~= all.take(i as int));
        assert(all.take(i + 1).last() == remote@[i as int]@);
        let _ = adopt_series_from_remote(db, remote[i].clone());
        i = i + 1;
    }
    assert(all.take(i as int) =~= all);
}

/// The rows of a list that may not have come.
pub open spec fn opt_rows(list: Option<Vec<post_schedule::Model>>) -> Option<Seq<ScheduleRow>> {
    match list {
        Some(l) => Some(rows_view(l@)),
        None => None,
    }
}

/// The tables once the series of the cloud were adopted.
pub open spec fn with_series(t: Tables, remote_series: Seq<SeriesRow>) -> Tables {
    Tables { series: series_adopted(t.series, remote_series), ..t }
}

/// A refresh stopped at a post that no id was left for: the posts before it were
/// pulled, and nothing was removed.
pub open spec fn stopped_short(
    t: Tables,
    after: Tables,
    remote: Seq<PostRow>,
    pairs: SeriesPairs,
    now: i64,
) -> bool {
    exists|n: int|
        #![trigger remote.take(n)]
        0 <= n < remote.len() && after == all_pulled(
            spent_tombstones_cleared(t, remote),
            remote.take(n),
            pairs,
            now,
        ) && needs_missing_id(after, remote[n])
}

/// Refreshes the local tables from the cloud's: first the series that are not
/// here, so that a post can be filed under them, then the posts, then the
/// schedules, which are left as they are where the cloud did not give them.
/// Gives back how many posts were mirrored.
pub fn sync_posts_from_cloud(
    db: &mut Store,
    remote: Vec<post::Model>,
    remote_series: &Vec<series::Model>,
    remote_schedules: Option<Vec<post_schedule::Model>>,
    now: i64,
) -> (r: AppResult<usize>)
    requires
        old(db).wf(),
    ensures
        final(db).wf(),
        ({
            let start = with_series(old(db)@, rows_view(remote_series@));
            let pairs = paired(start.series, rows_view(remote_series@));
            let fresh = mirrored(start, rows_view(remote@), pairs, now);
            let ids_left = ids_suffice(start, rows_view(remote@), pairs, now);
            match r {
                Ok(n) => {
                    &&& ids_left
                    &&& n == remote@.len()
                    &&& final(db)@ == (Tables { schedules: final(db)@.schedules, ..fresh })
                    &&& match opt_rows(remote_schedules) {
                        Some(rows) => !repeats_a_slug(rows) && lists::<post_schedule::Model>(
                            rows,
                            final(db)@.schedules,
                        ),
                        None => final(db)@.schedules == fresh.schedules,
                    }
                },
                Err(e) => {
                    ||| {
                        &&& refused(e, IDS_EXHAUSTED)
                        &&& !ids_left
                        &&& stopped_short(start, final(db)@, rows_view(remote@), pairs, now)
                    }
                    ||| {
                        &&& refused(e, DUPLICATE_SLUG)
                        &&& ids_left
                        &&& opt_rows(remote_schedules) matches Some(rows) && repeats_a_slug(rows)
                        &&& final(db)@ == fresh
                    }
                },
            }
        }),
{
    adopt_all(db, remote_series);
    let ghost start = db@;
    let ghost rv = rows_view(remote@);
    let mirrored: Mirrored = match mirror_posts(db, remote, remote_series, now) {
        Ok(m) => m,
        Err(e) => {
            assert(stopped_short(
                start,
                db@,
                rv,
                paired(start.series, rows_view(remote_series@)),
                now,
            ));
            return Err(e);
        },
    };
    match remote_schedules {
        Some(rows) => match mirror_schedules(db, rows) {
            Ok(_) => {},
            Err(e) => {
                return Err(e);
            },
        },
        None => {},
    }
    Ok(mirrored.upserted)
}

// ─── Laws ───────────────────────────────────────────────────────────────────

/// A push of a row that landed does not read as somebody else's change: the
/// version that the cloud now has is the one that this machine has accounted for.
pub proof fn a_pushed_row_is_no_change_of_the_clouds(
    t: Tables,
    post: PostRow,
    now: i64,
)
    requires
        t.syncs.contains_key(post.id),
    ensures
        ({
            let after = row_settled(t, post, true, now).syncs[post.id];
            &&& !crate::sync_state::has_remote_change(after)
            &&& crate::sync_state::has_local_change(after)
                == crate::sync_state::has_local_change(t.syncs[post.id])
        }),
{
}

/// A push that failed says so on the post, whatever else is known of it.
pub proof fn a_failed_push_shows(t: Tables, post: PostRow, now: i64)
    requires
        t.posts.contains_key(post.id),
    ensures
        ({
            let after = row_settled(t, post, false, now);
            crate::sync_state::state_of(
                crate::db::side_tables::stage_of(after, post.id),
                sync_of(after, post.id),
            ) == crate::sync_state::SyncState::SyncFailed
        }),
{
}

/// A refresh removes no series and changes none that is here.
pub proof fn a_refresh_keeps_every_series(
    series: Map<i32, SeriesRow>,
    remote: Seq<SeriesRow>,
    id: i32,
)
    requires
        series.contains_key(id),
        series.dom().finite(),
    ensures
        series_adopted(series, remote).contains_key(id),
        series_adopted(series, remote)[id] == series[id],
        series_adopted(series, remote).dom().finite(),
    decreases remote.len(),
{
    if remote.len() > 0 {
        a_refresh_keeps_every_series(series, remote.drop_last(), id);
        let before = series_adopted(series, remote.drop_last());
        refresh_laws::next_id_is_free(before, id);
    }
}

/// Publishing or taking down sets the flag and the time that goes with it, and
/// changes nothing else of the post.
pub proof fn a_flip_sets_the_flag_alone(post: PostRow, publish: bool, now: i64)
    ensures
        ({
            let after = flipped(post, publish, now);
            &&& after.published == publish
            &&& publish ==> after.published_at == Some(now)
            &&& !publish ==> after.published_at is None
            &&& after.updated_at == now
            &&& after.id == post.id
            &&& after.slug == post.slug
            &&& after.title == post.title
            &&& after.excerpt == post.excerpt
            &&& after.tags == post.tags
            &&& after.series_id == post.series_id
            &&& after.series_order == post.series_order
            &&& after.created_at == post.created_at
        }),
{
}

/// Writing a row to the cloud leaves the post staged by its flag where it landed, and
/// as failed where it did not. What landed is the version that is known of the cloud;
/// the fingerprints stay, because no text went up. No other post is touched.
pub proof fn a_pushed_row_is_recorded(
    t: Tables,
    post: PostRow,
    landed: bool,
    now: i64,
    other: i32,
)
    requires
        t.posts.contains_key(post.id),
        other != post.id,
    ensures
        ({
            let after = row_settled(t, post, landed, now);
            &&& crate::db::side_tables::stage_of(after, post.id) == Some(
                StageRow {
                    post_id: post.id,
                    stage: if !landed {
                        "sync_failed"@
                    } else if post.published {
                        "published"@
                    } else {
                        "draft"@
                    },
                    staged_at: now,
                },
            )
            &&& after.syncs.contains_key(post.id) == t.syncs.contains_key(post.id)
            &&& t.syncs.contains_key(post.id) ==> {
                let (was, is) = (t.syncs[post.id], after.syncs[post.id]);
                &&& is.local_hash == was.local_hash
                &&& is.synced_hash == was.synced_hash
                &&& is.synced_at == was.synced_at
                &&& landed ==> is.remote_updated_at == Some(post.updated_at)
                    && is.remote_seen_at == Some(post.updated_at)
                &&& !landed ==> is == was
            }
            &&& crate::db::side_tables::stage_of(after, other)
                == crate::db::side_tables::stage_of(t, other)
            &&& sync_of(after, other) == sync_of(t, other)
            &&& after.posts == t.posts
            &&& after.series == t.series
            &&& after.revisions == t.revisions
            &&& after.trash == t.trash
            &&& after.tombstones == t.tombstones
            &&& after.schedules == t.schedules
            &&& after.stale == t.stale
        }),
{
}

/// The next post of a push is the first one from here on that was not thrown away:
/// none is passed over that is still in the library.
pub proof fn a_push_passes_over_the_trash_alone(t: Tables, posts: Seq<PostRow>, at: int)
    requires
        0 <= at <= posts.len(),
    ensures
        ({
            let next = next_active(t, posts, at);
            &&& at <= next <= posts.len()
            &&& next < posts.len() ==> !t.trash.contains_key(posts[next].id)
            &&& forall|i: int| at <= i < next ==> t.trash.contains_key((#[trigger] posts[i]).id)
        }),
    decreases posts.len() - at,
{
    if at < posts.len() && t.trash.contains_key(posts[at].id) {
        a_push_passes_over_the_trash_alone(t, posts, at + 1);
    }
}

/// A series that the cloud has and this machine has not is brought down, whichever of
/// them it is, as the cloud has it and under an id of its own, as long as there are
/// ids.
pub proof fn a_refresh_brings_every_series(
    series: Map<i32, SeriesRow>,
    remote: Seq<SeriesRow>,
    i: int,
)
    requires
        series.dom().finite(),
        0 <= i < remote.len(),
        next_id(series_adopted(series, remote.take(i))) <= i32::MAX,
    ensures
        exists|k: i32|
            #![trigger series_adopted(series, remote)[k]]
            series_adopted(series, remote).contains_key(k) && series_adopted(
                series,
                remote,
            )[k].slug == remote[i].slug,
        !series_slug_taken(series_adopted(series, remote.take(i)), remote[i].slug) ==> exists|k:
            i32|
            #![trigger series_adopted(series, remote)[k]]
            series_adopted(series, remote).contains_key(k) && series_adopted(series, remote)[k]
                == (SeriesRow { id: k, ..remote[i] }),
    decreases remote.len(),
{
    let all = series_adopted(series, remote);
    let n = remote.len() - 1;
    let rest = remote.drop_last();
    let before = series_adopted(series, rest);
    lemma_adopted_finite(series, rest);
    let fresh = next_id(before) as i32;
    if i < n {
        assert(rest.take(i) =~= remote.take(i));
        a_refresh_brings_every_series(series, rest, i);
        assert forall|k: i32| #[trigger] before.contains_key(k) implies all.contains_key(k)
            && all[k] == before[k] by {
            refresh_laws::next_id_is_free(before, k);
        }
        let k = choose|k: i32|
            #![trigger before[k]]
            before.contains_key(k) && before[k].slug == remote[i].slug;
        assert(all[k].slug == remote[i].slug);
        if !series_slug_taken(series_adopted(series, remote.take(i)), remote[i].slug) {
            let m = choose|m: i32|
                #![trigger before[m]]
                before.contains_key(m) && before[m] == (SeriesRow { id: m, ..rest[i] });
            assert(all[m] == (SeriesRow { id: m, ..remote[i] }));
        }
    } else {
        assert(rest =~= remote.take(i));
        if series_slug_taken(before, remote[i].slug) {
            let k = choose|k: i32| crate::db::series_has_slug(before, k, remote[i].slug);
            assert(all[k].slug == remote[i].slug);
        } else {
            assert(all[fresh] == (SeriesRow { id: fresh, ..remote[i] }));
        }
    }
}

proof fn lemma_adopted_finite(series: Map<i32, SeriesRow>, remote: Seq<SeriesRow>)
    requires
        series.dom().finite(),
    ensures
        series_adopted(series, remote).dom().finite(),
    decreases remote.len(),
{
    if remote.len() > 0 {
        lemma_adopted_finite(series, remote.drop_last());
    }
}

/// When publishing or taking down starts: for a post of the library, which then has
/// the flag; a post in the trash and one that is not there are refused.
pub proof fn when_a_flip_starts(
    t: Tables,
    after: Tables,
    id: i32,
    publish: bool,
    now: i64,
    r: AppResult<Flip>,
)
    requires
        flip_started(t, after, id, publish, now, r),
    ensures
        r is Ok <==> t.posts.contains_key(id) && !t.trash.contains_key(id),
        !t.posts.contains_key(id) ==> r is Err && r->Err_0 == AppError::PostNotFound(id),
        r is Err ==> after == t,
        r matches Ok(f) ==> {
            &&& after.posts.contains_key(id)
            &&& after.posts[id].published == publish
            &&& after.posts[id].title == t.posts[id].title
            &&& after.posts[id].tags == t.posts[id].tags
            &&& f.post@ == after.posts[id]
            &&& f.publish == publish
            &&& after == (Tables { posts: after.posts, ..t })
            &&& forall|k: i32| #[trigger]
                t.posts.contains_key(k) && k != id ==> after.posts[k] == t.posts[k]
        },
{
}

}
