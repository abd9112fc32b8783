//! Scheduled publishing.
//!
//! A scheduled post is uploaded when it is scheduled, with its publication flag
//! still off. What remains for the time itself is one statement, which a worker
//! in the cloud runs whether or not this app is running.
//!
//! 1. [`schedule_post`] checks that the post can be scheduled as far as this
//!    machine knows, and [`Scheduling::confirm`] asks the cloud's own list: this
//!    machine's mirror can be behind on just that. The caller then uploads the
//!    post.
//! 2. [`Scheduling::enter`] writes the schedule here before it goes to the cloud:
//!    a schedule that the cloud has and this machine does not know of could have
//!    its post thrown away. [`Scheduling::withdraw`] takes it out where the cloud
//!    did not take it.
//! 3. [`Scheduling::settle`] records that the text is in the cloud, unless it was
//!    edited while it went up.

use crate::commands::conflict::{find_slug, first_with_slug};
use crate::commands::posts::refuse_if_trashed;
use crate::db::listings::{schedules_all, SoonestSchedules};
use crate::db::side_tables::{
    agreed, schedule_clear, schedule_get, schedule_set, sync_mark_synced,
};
use crate::db::{post_get, Store, Tables};
use crate::entities::post;
use crate::entities::post::PostRow;
use crate::entities::post_schedule;
use crate::entities::post_schedule::{display_of, ScheduleRow};
use crate::error::{AppError, AppResult};
use crate::sync_state::{content_hash, fingerprint};
use crate::table::{in_order, lists, rows_view};
use crate::text::{copy_opt, opt_view, same};
use vstd::prelude::*;

verus! {

/// A post that is being scheduled.
pub struct Scheduling {
    pub post: post::Model,
    pub publish_at: i64,
    pub now: i64,
}

/// Starts scheduling a post. A live one has nothing to schedule, one in the trash
/// is deleted, and the time has to be still to come.
pub fn schedule_post(db: &Store, post_id: i32, publish_at: i64, now: i64) -> (r: AppResult<
    Scheduling,
>)
    requires
        db.wf(),
    ensures
        match r {
            Ok(s) => {
                &&& db@.active(post_id)
                &&& !db@.posts[post_id].published
                &&& publish_at > now
                &&& s.post@ == db@.posts[post_id]
                &&& s.publish_at == publish_at
                &&& s.now == now
            },
            Err(e) => if !db@.posts.contains_key(post_id) {
                e == AppError::PostNotFound(post_id)
            } else if db@.posts[post_id].published {
                e matches AppError::AlreadyPublished(s) && s@ == db@.posts[post_id].slug
            } else if db@.trash.contains_key(post_id) {
                e matches AppError::PostInTrash(s) && s@ == db@.posts[post_id].slug
            } else {
                publish_at <= now && e == AppError::ScheduleInThePast(publish_at)
            },
        },
{
    let post: post::Model = match post_get(db, post_id) {
        Some(p) => p,
        None => {
            return Err(AppError::PostNotFound(post_id));
        },
    };
    if post.published {
        return Err(AppError::AlreadyPublished(post.slug));
    }
    match refuse_if_trashed(db, &post) {
        Err(e) => {
            return Err(e);
        },
        Ok(_) => {},
    }
    if publish_at <= now {
        return Err(AppError::ScheduleInThePast(publish_at));
    }
    Ok(Scheduling { post, publish_at, now })
}

/// The cloud has the post live.
pub open spec fn live_in_cloud(remote: Seq<PostRow>, slug: Seq<char>) -> bool {
    first_with_slug(remote, slug) matches Some(p) && p.published
}

/// The schedule as it is entered.
pub open spec fn pending_row(slug: Seq<char>, publish_at: i64, now: i64) -> ScheduleRow {
    ScheduleRow {
        slug,
        publish_at,
        state: post_schedule::PENDING@,
        error: None,
        updated_at: now,
    }
}

impl Scheduling {
    /// Refuses a post that the cloud has live already: sending it up again as a
    /// draft would take it off the blog.
    pub fn confirm(&self, remote: &Vec<post::Model>) -> (r: AppResult<()>)
        ensures
            match r {
                Ok(_) => !live_in_cloud(rows_view(remote@), self.post.slug@),
                Err(e) => live_in_cloud(rows_view(remote@), self.post.slug@) && (
                e matches AppError::AlreadyPublished(s) && s@ == self.post.slug@),
            },
    {
        match find_slug(remote, self.post.slug.as_str()) {
            Some(p) => {
                if p.published {
                    return Err(AppError::AlreadyPublished(self.post.slug.clone()));
                }
            },
            None => {},
        }
        Ok(())
    }

    /// Enters the schedule here.
    pub fn enter(&self, db: &mut Store) -> (row: post_schedule::Model)
        requires
            old(db).wf(),
        ensures
            final(db).wf(),
            row@ == pending_row(self.post.slug@, self.publish_at, self.now),
            final(db)@ == (Tables {
                schedules: old(db)@.schedules.insert(self.post.slug@, row@),
                ..old(db)@
            }),
    {
        let row = post_schedule::Model {
            slug: self.post.slug.clone(),
            publish_at: self.publish_at,
            state: post_schedule::PENDING.to_owned(),
            error: None,
            updated_at: self.now,
        };
        schedule_set(db, row)
    }

    /// The cloud did not take the schedule: it goes here too.
    pub fn withdraw(self, db: &mut Store)
        requires
            old(db).wf(),
        ensures
            final(db).wf(),
            final(db)@ == (Tables {
                schedules: old(db)@.schedules.remove(self.post.slug@),
                ..old(db)@
            }),
    {
        schedule_clear(db, self.post.slug.as_str());
    }

    /// The upload is done. Where the cached text is still the one that went up,
    /// the copies agree, and `true` comes back; where it moved, the newer text
    /// stays an edit that has not been pushed, and what is scheduled is what was
    /// sent.
    pub fn settle(self, db: &mut Store, body: &str, cached: &Option<String>) -> (r: AppResult<bool>)
        requires
            old(db).wf(),
        ensures
            final(db).wf(),
            if opt_view(*cached) != Some(body@) {
                r == Ok::<bool, AppError>(false) && final(db)@ == old(db)@
            } else if old(db)@.posts.contains_key(self.post.id) {
                &&& r == Ok::<bool, AppError>(true)
                &&& final(db)@ == (Tables {
                    syncs: old(db)@.syncs.insert(
                        self.post.id,
                        agreed(
                            self.post.id,
                            fingerprint(self.post@, body@),
                            Some(self.post.updated_at),
                            self.now,
                        ),
                    ),
                    ..old(db)@
                })
            } else {
                &&& r == Err::<bool, AppError>(AppError::PostVanished(self.post.id))
                &&& final(db)@ == old(db)@
            },
    {
        let unmoved: bool = match cached {
            Some(text) => same(text.as_str(), body),
            None => false,
        };
        if !unmoved {
            return Ok(false);
        }
        let hash: String = content_hash(&self.post, body);
        match sync_mark_synced(
            db,
            self.post.id,
            hash,
            Some(self.post.updated_at),
            self.now,
        ) {
            Err(e) => Err(e),
            Ok(_) => Ok(true),
        }
    }
}

/// A schedule that is being called off.
pub struct Cancelling {
    pub slug: String,
    pub existing: post_schedule::Model,
    pub now: i64,
}

/// Starts calling a schedule off. The caller then asks the cloud to cancel it,
/// which it does only while the schedule is still pending there.
pub fn cancel_schedule(db: &Store, post_id: i32, now: i64) -> (r: AppResult<Cancelling>)
    requires
        db.wf(),
    ensures
        match r {
            Ok(c) => {
                &&& db@.posts.contains_key(post_id)
                &&& db@.schedules.contains_key(db@.posts[post_id].slug)
                &&& c.slug@ == db@.posts[post_id].slug
                &&& c.existing@ == db@.schedules[db@.posts[post_id].slug]
                &&& c.now == now
            },
            Err(e) => if db@.posts.contains_key(post_id) {
                &&& !db@.schedules.contains_key(db@.posts[post_id].slug)
                &&& e matches AppError::NotScheduled(s) && s@ == db@.posts[post_id].slug
            } else {
                e == AppError::PostNotFound(post_id)
            },
        },
{
    let post: post::Model = match post_get(db, post_id) {
        Some(p) => p,
        None => {
            return Err(AppError::PostNotFound(post_id));
        },
    };
    match schedule_get(db, post.slug.as_str()) {
        Some(existing) => Ok(Cancelling { slug: post.slug, existing, now }),
        None => Err(AppError::NotScheduled(post.slug)),
    }
}

/// The schedule as it is kept once it is called off.
pub open spec fn cancelled_row(existing: ScheduleRow, now: i64) -> ScheduleRow {
    ScheduleRow {
        state: post_schedule::CANCELLED@,
        error: None,
        updated_at: now,
        ..existing
    }
}

/// The view of a schedule that may not be there.
pub open spec fn schedule_row(m: Option<post_schedule::Model>) -> Option<ScheduleRow> {
    match m {
        Some(s) => Some(s@),
        None => None,
    }
}

impl Cancelling {
    /// Records what the cloud said. Where it had nothing pending to cancel, what
    /// it has now is the truth, and is taken over where it is known.
    pub fn settle(
        self,
        db: &mut Store,
        cancelled: bool,
        remote: Option<post_schedule::Model>,
    ) -> (r: AppResult<post_schedule::Model>)
        requires
            old(db).wf(),
        ensures
            final(db).wf(),
            if cancelled {
                &&& r matches Ok(row) && row@ == cancelled_row(self.existing@, self.now)
                &&& final(db)@ == (Tables {
                    schedules: old(db)@.schedules.insert(
                        self.existing.slug@,
                        cancelled_row(self.existing@, self.now),
                    ),
                    ..old(db)@
                })
            } else {
                &&& r matches Err(AppError::ScheduleNotPending(s)) && s@ == self.slug@
                &&& final(db)@ == match schedule_row(remote) {
                    Some(row) => Tables {
                        schedules: old(db)@.schedules.insert(row.slug, row),
                        ..old(db)@
                    },
                    None => old(db)@,
                }
            },
    {
        if !cancelled {
            match remote {
                Some(row) => {
                    let _ = schedule_set(db, row);
                },
                None => {},
            }
            return Err(AppError::ScheduleNotPending(self.slug));
        }
        let mut row: post_schedule::Model = self.existing;
        row.state = post_schedule::CANCELLED.to_owned();
        row.error = None;
        row.updated_at = self.now;
        Ok(schedule_set(db, row))
    }
}

/// One schedule as the desktop reads it: the row, and the state it displays as.
#[derive(Debug, PartialEq, Eq)]
pub struct ScheduleView {
    pub slug: String,
    pub publish_at: i64,
    /// `scheduled`, `overdue`, `published`, `failed`, `cancelled` or `unknown`.
    pub state: &'static str,
    pub error: Option<String>,
    pub updated_at: i64,
}

/// A schedule row as it displays at time `now`.
pub open spec fn displayed(row: ScheduleRow, now: i64) -> ScheduleRow {
    ScheduleRow { state: display_of(row, now), ..row }
}

impl View for ScheduleView {
    type V = ScheduleRow;

    open spec fn view(&self) -> ScheduleRow {
        ScheduleRow {
            slug: self.slug@,
            publish_at: self.publish_at,
            state: self.state@,
            error: opt_view(self.error),
            updated_at: self.updated_at,
        }
    }
}

/// The rows as they display at time `now`.
pub open spec fn all_displayed(rows: Seq<ScheduleRow>, now: i64) -> Seq<ScheduleRow> {
    Seq::new(rows.len(), |i: int| displayed(rows[i], now))
}

/// Every schedule that this machine knows of, soonest first.
pub fn list_schedules(db: &Store, now: i64) -> (out: Vec<ScheduleView>)
    requires
        db.wf(),
    ensures
        exists|rows: Seq<ScheduleRow>|
            lists::<post_schedule::Model>(rows, db@.schedules) && in_order::<
                post_schedule::Model,
                SoonestSchedules,
            >(rows) && rows_view(out@) == #[trigger] all_displayed(rows, now),
{
    let all: Vec<post_schedule::Model> = schedules_all(db);
    let ghost rows = rows_view(all@);
    let mut out: Vec<ScheduleView> = Vec::new();
    let mut i: usize = 0;
    while i < all.len()
        invariant
            i <= all@.len(),
            rows == rows_view(all@),
            out@.len() == i,
            forall|j: int| 0 <= j < i ==> (#[trigger] out@[j])@ == displayed(rows[j], now),
        decreases all@.len() - i,
    {
        let row: &post_schedule::Model = &all[i];
        out.push(
            ScheduleView {
                slug: row.slug.clone(),
                publish_at: row.publish_at,
                state: row.display_state(now),
                error: copy_opt(&row.error),
                updated_at: row.updated_at,
            },
        );
        i = i + 1;
    }
    assert(rows_view(out@) =~= all_displayed(rows, now));
    out
}

/// A schedule that was entered keeps its post out of the trash until it is called
/// off or carried out.
pub proof fn a_scheduled_post_cannot_be_thrown_away(
    t: Tables,
    slug: Seq<char>,
    publish_at: i64,
    now: i64,
)
    ensures
        ({
            let entered = Tables {
                schedules: t.schedules.insert(slug, pending_row(slug, publish_at, now)),
                ..t
            };
            let off = Tables {
                schedules: entered.schedules.insert(
                    slug,
                    cancelled_row(pending_row(slug, publish_at, now), now),
                ),
                ..entered
            };
            &&& crate::commands::posts::is_scheduled(entered, slug)
            &&& !crate::commands::posts::is_scheduled(off, slug)
        }),
{
    reveal_strlit("pending");
    reveal_strlit("publishing");
    reveal_strlit("cancelled");
    assert(post_schedule::PENDING@.len() == 7);
    assert(post_schedule::PUBLISHING@.len() == 10);
    assert(post_schedule::CANCELLED@.len() == 9);
}

/// A schedule is entered for the post and the time that were asked for, waiting and
/// without an error; called off, it keeps both and nothing more is to come of it.
pub proof fn a_schedule_says_when(slug: Seq<char>, publish_at: i64, now: i64, row: ScheduleRow)
    ensures
        pending_row(slug, publish_at, now).slug == slug,
        pending_row(slug, publish_at, now).publish_at == publish_at,
        pending_row(slug, publish_at, now).state == "pending"@,
        pending_row(slug, publish_at, now).error is None,
        pending_row(slug, publish_at, now).updated_at == now,
        cancelled_row(row, now).slug == row.slug,
        cancelled_row(row, now).publish_at == row.publish_at,
        cancelled_row(row, now).state == "cancelled"@,
        cancelled_row(row, now).error is None,
        cancelled_row(row, now).updated_at == now,
{
}

/// A schedule is shown with all that its row says and the state it reads as now.
pub proof fn a_schedule_is_shown_whole(rows: Seq<ScheduleRow>, now: i64, i: int)
    requires
        0 <= i < rows.len(),
    ensures
        all_displayed(rows, now).len() == rows.len(),
        all_displayed(rows, now)[i].slug == rows[i].slug,
        all_displayed(rows, now)[i].publish_at == rows[i].publish_at,
        all_displayed(rows, now)[i].error == rows[i].error,
        all_displayed(rows, now)[i].updated_at == rows[i].updated_at,
        all_displayed(rows, now)[i].state == display_of(rows[i], now),
{
}

/// A post that the cloud has live is noticed wherever it stands in the listing, and
/// one that it does not have live is not taken for live.
pub proof fn a_live_post_is_noticed(remote: Seq<PostRow>, slug: Seq<char>)
    requires
        forall|a: int, b: int|
            0 <= a < b < remote.len() ==> remote[a].slug != remote[b].slug,
    ensures
        live_in_cloud(remote, slug) <==> exists|i: int|
            0 <= i < remote.len() && (#[trigger] remote[i]).slug == slug && remote[i].published,
    decreases remote.len(),
{
    if remote.len() > 0 {
        let rest = remote.drop_first();
        assert forall|a: int, b: int| 0 <= a < b < rest.len() implies rest[a].slug
            != rest[b].slug by {
            assert(rest[a] == remote[a + 1] && rest[b] == remote[b + 1]);
        }
        a_live_post_is_noticed(rest, slug);
        if remote[0].slug == slug {
            assert forall|i: int| 0 < i < remote.len() implies (#[trigger] remote[i]).slug
                != slug by {
                assert(remote[0].slug != remote[i].slug);
            }
        } else {
            if live_in_cloud(rest, slug) {
                let i = choose|i: int|
                    0 <= i < rest.len() && (#[trigger] rest[i]).slug == slug && rest[i].published;
                assert(remote[i + 1] == rest[i]);
            }
            if exists|i: int|
                0 <= i < remote.len() && (#[trigger] remote[i]).slug == slug
                    && remote[i].published {
                let i = choose|i: int|
                    0 <= i < remote.len() && (#[trigger] remote[i]).slug == slug
                        && remote[i].published;
                assert(rest[i - 1] == remote[i]);
            }
        }
    }
}

}
