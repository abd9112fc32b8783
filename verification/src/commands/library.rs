//! Series, stages, sync states and history, as the screens use them.

use crate::commands::slugs::{first_free, slug_for, slug_or, unique_series_slug};
use crate::db::history::{history, is_history, revision_get, revisions_for_post};
use crate::db::listings;
use crate::db::listings::{
    active_posts, list_active_posts, posts_in_stage, staged_posts, NewestPosts, NewestSeries,
};
use crate::db::series_rows::{series_create, series_get, series_update};
use crate::db::side_tables::{stage_get, stage_of, stage_set, sync_get, sync_of};
use crate::db::{
    has_slug, next_id, post_get, post_update, refused, series_has_slug, series_slug_taken,
    slug_elsewhere, Store, Tables, IDS_EXHAUSTED,
};
use crate::entities::post;
use crate::entities::post::PostRow;
use crate::entities::post_revision;
use crate::entities::post_revision::RevisionRow;
use crate::entities::post_stage;
use crate::entities::post_stage::StageRow;
use crate::entities::series;
use crate::entities::series::SeriesRow;
use crate::error::{AppError, AppResult};
use crate::sync_state;
use crate::sync_state::{state_of, SyncState};
use crate::table::{in_order, lists, rows_view};
use crate::text::{is_blank, same, trimmed};
use vstd::prelude::*;
use vstd::string::StringExecFns;

verus! {

// ─── Sync states ────────────────────────────────────────────────────────────

/// One post's sync state.
#[derive(Debug, PartialEq, Eq)]
pub struct PostSyncState {
    pub post_id: i32,
    pub state: SyncState,
}

/// The sync state of each of `posts`.
pub open spec fn sync_states(t: Tables, posts: Seq<PostRow>) -> Seq<PostSyncState> {
    Seq::new(
        posts.len(),
        |i: int|
            PostSyncState {
                post_id: posts[i].id,
                state: state_of(stage_of(t, posts[i].id), sync_of(t, posts[i].id)),
            },
    )
}

/// The sync state of every post in the library, newest post first.
pub fn list_sync_states(db: &Store) -> (out: Vec<PostSyncState>)
    requires
        db.wf(),
    ensures
        exists|posts: Seq<PostRow>|
            lists::<post::Model>(posts, active_posts(db@)) && in_order::<post::Model, NewestPosts>(
                posts,
            ) && out@ == #[trigger] sync_states(db@, posts),
{
    let posts: Vec<post::Model> = list_active_posts(db);
    let ghost rows = rows_view(posts@);
    let mut out: Vec<PostSyncState> = Vec::new();
    let mut i: usize = 0;
    while i < posts.len()
        invariant
            i <= posts@.len(),
            db.wf(),
            rows == rows_view(posts@),
            out@.len() == i,
            forall|j: int| 0 <= j < i ==> #[trigger] out@[j] == sync_states(db@, rows)[j],
        decreases posts@.len() - i,
    {
        let id: i32 = posts[i].id;
        let stage: Option<post_stage::Model> = stage_get(db, id);
        let sync = sync_get(db, id);
        let state: SyncState = sync_state::derive(stage.as_ref(), sync.as_ref());
        out.push(PostSyncState { post_id: id, state });
        i = i + 1;
    }
    assert(out@ =~= sync_states(db@, rows));
    out
}

// ─── History ────────────────────────────────────────────────────────────────

/// One entry of a post's history, as a list shows it: everything but the text.
#[derive(Debug, PartialEq, Eq)]
pub struct RevisionSummary {
    pub id: i32,
    pub post_id: i32,
    pub title: String,
    /// Why the snapshot was taken.
    pub origin: String,
    pub created_at: i64,
    /// Whether the post was live at the time.
    pub published: bool,
    /// Characters of Markdown in the snapshot, or `None` where it carries no body
    /// at all: restoring one leaves the text alone.
    pub body_chars: Option<usize>,
}

/// What a [`RevisionSummary`] says.
pub struct RevisionSummaryRow {
    pub id: i32,
    pub post_id: i32,
    pub title: Seq<char>,
    pub origin: Seq<char>,
    pub created_at: i64,
    pub published: bool,
    pub body_chars: Option<nat>,
}

impl View for RevisionSummary {
    type V = RevisionSummaryRow;

    open spec fn view(&self) -> RevisionSummaryRow {
        RevisionSummaryRow {
            id: self.id,
            post_id: self.post_id,
            title: self.title@,
            origin: self.origin@,
            created_at: self.created_at,
            published: self.published,
            body_chars: match self.body_chars {
                Some(n) => Some(n as nat),
                None => None,
            },
        }
    }
}

/// A revision without its text.
pub open spec fn summary_of(r: RevisionRow) -> RevisionSummaryRow {
    RevisionSummaryRow {
        id: r.id,
        post_id: r.post_id,
        title: r.title,
        origin: r.origin,
        created_at: r.created_at,
        published: r.published,
        body_chars: match r.body {
            Some(b) => Some(b.len()),
            None => None,
        },
    }
}

impl RevisionSummary {
    /// The summary of a revision.
    pub fn of(r: &post_revision::Model) -> (out: RevisionSummary)
        ensures
            out@ == summary_of(r@),
    {
        RevisionSummary {
            id: r.id,
            post_id: r.post_id,
            title: r.title.clone(),
            origin: r.origin.clone(),
            created_at: r.created_at,
            published: r.published,
            body_chars: match &r.body {
                Some(b) => Some(b.as_str().unicode_len()),
                None => None,
            },
        }
    }
}

/// A post's saved versions, newest first.
pub fn list_revisions(db: &Store, post_id: i32) -> (out: Vec<RevisionSummary>)
    requires
        db.wf(),
    ensures
        is_history(history(db@.revisions, post_id), db@.revisions, post_id),
        rows_view(out@) == history(db@.revisions, post_id).map_values(
            |r: RevisionRow| summary_of(r),
        ),
{
    let all: Vec<post_revision::Model> = revisions_for_post(db, post_id);
    let ghost rows = rows_view(all@);
    let mut out: Vec<RevisionSummary> = Vec::new();
    let mut i: usize = 0;
    while i < all.len()
        invariant
            i <= all@.len(),
            rows == rows_view(all@),
            out@.len() == i,
            forall|j: int| 0 <= j < i ==> (#[trigger] out@[j])@ == summary_of(rows[j]),
        decreases all@.len() - i,
    {
        out.push(RevisionSummary::of(&all[i]));
        i = i + 1;
    }
    assert(rows_view(out@) =~= rows.map_values(|r: RevisionRow| summary_of(r)));
    out
}

/// One saved version in full, text and all.
pub fn get_revision(db: &Store, revision_id: i32) -> (r: AppResult<post_revision::Model>)
    requires
        db.wf(),
    ensures
        match r {
            Ok(m) => db@.revisions.contains_key(revision_id) && m@ == db@.revisions[revision_id],
            Err(e) => !db@.revisions.contains_key(revision_id) && e
                == AppError::RevisionNotFound(revision_id),
        },
{
    match revision_get(db, revision_id) {
        Some(m) => Ok(m),
        None => Err(AppError::RevisionNotFound(revision_id)),
    }
}

// ─── Series ─────────────────────────────────────────────────────────────────

/// What the slug of a new series is made from: the slug given, or the title
/// where that is blank.
pub open spec fn series_slug_source(s: SeriesRow) -> Seq<char> {
    if trimmed(s.slug).len() == 0 {
        s.title
    } else {
        s.slug
    }
}

/// Creates a series. Its slug is made here and is one that no series has: the
/// local tables and the cloud know a series by it.
pub fn create_series(db: &mut Store, series: series::Model, now: i64) -> (r: AppResult<
    series::Model,
>)
    requires
        old(db).wf(),
    ensures
        final(db).wf(),
        match r {
            Ok(s) => {
                &&& next_id(old(db)@.series) <= i32::MAX
                &&& first_free(
                    |slug: Seq<char>| series_slug_taken(old(db)@.series, slug),
                    slug_or(series_slug_source(series@), "series-"@, now),
                    s.slug@,
                )
                &&& s@ == (SeriesRow {
                    id: next_id(old(db)@.series) as i32,
                    slug: s.slug@,
                    created_at: now,
                    ..series@
                })
                &&& final(db)@ == (Tables {
                    series: old(db)@.series.insert(s.id, s@),
                    ..old(db)@
                })
            },
            Err(e) => {
                &&& next_id(old(db)@.series) > i32::MAX
                &&& refused(e, IDS_EXHAUSTED)
                &&& final(db)@ == old(db)@
            },
        },
{
    let base: String = if is_blank(series.slug.as_str()) {
        slug_for(series.title.as_str(), "series-", now)
    } else {
        slug_for(series.slug.as_str(), "series-", now)
    };
    let slug: String = unique_series_slug(db, base.as_str());
    proof {
        let taken = |s: Seq<char>| series_slug_taken(db@.series, s);
        crate::commands::slugs::a_free_slug_is_free(taken, base@, slug@, slug@);
        assert(!taken(slug@));
    }
    let mut created: series::Model = series;
    created.slug = slug;
    created.created_at = now;
    series_create(db, created)
}

/// Every series, newest first.
pub fn list_series(db: &Store) -> (out: Vec<series::Model>)
    requires
        db.wf(),
    ensures
        lists::<series::Model>(rows_view(out@), db@.series),
        in_order::<series::Model, NewestSeries>(rows_view(out@)),
{
    listings::list_series(db)
}

/// One series.
pub fn get_series(db: &Store, id: i32) -> (r: Option<series::Model>)
    requires
        db.wf(),
    ensures
        match r {
            Some(s) => db@.series.contains_key(id) && s@ == db@.series[id],
            None => !db@.series.contains_key(id),
        },
{
    series_get(db, id)
}

/// Writes a series' title and description. Its slug and the time it was made are
/// those stored, whatever is given: a slug that moved would make it another
/// series to the cloud.
pub fn update_series(db: &mut Store, series: series::Model) -> (r: AppResult<series::Model>)
    requires
        old(db).wf(),
    ensures
        final(db).wf(),
        match r {
            Ok(s) => {
                &&& old(db)@.series.contains_key(series.id)
                &&& s@ == (SeriesRow {
                    slug: old(db)@.series[series.id].slug,
                    created_at: old(db)@.series[series.id].created_at,
                    ..series@
                })
                &&& final(db)@ == (Tables {
                    series: old(db)@.series.insert(series.id, s@),
                    ..old(db)@
                })
            },
            Err(e) => {
                &&& !old(db)@.series.contains_key(series.id)
                &&& e == AppError::SeriesNotFound(series.id)
                &&& final(db)@ == old(db)@
            },
        },
{
    let stored: series::Model = match series_get(db, series.id) {
        Some(s) => s,
        None => {
            return Err(AppError::SeriesNotFound(series.id));
        },
    };
    let mut kept: series::Model = series;
    kept.slug = stored.slug;
    kept.created_at = stored.created_at;
    proof {
        assert forall|k: i32| series_has_slug(db@.series, k, kept.slug@) implies k == kept.id by {
            assert(db@.series.contains_key(k) && db@.series.contains_key(kept.id));
        }
    }
    series_update(db, kept)
}

/// Files a post under a series, or takes it out of one. Membership is no part of
/// a post's own content, so this is not marked as an edit.
pub fn set_post_series(
    db: &mut Store,
    post_id: i32,
    series_id: Option<i32>,
    series_order: Option<i32>,
    now: i64,
) -> (r: AppResult<post::Model>)
    requires
        old(db).wf(),
    ensures
        final(db).wf(),
        match r {
            Ok(p) => {
                &&& old(db)@.posts.contains_key(post_id)
                &&& series_id matches Some(id) ==> old(db)@.series.contains_key(id)
                &&& p@ == (PostRow {
                    series_id,
                    series_order: if series_id is Some {
                        series_order
                    } else {
                        None
                    },
                    updated_at: now,
                    ..old(db)@.posts[post_id]
                })
                &&& final(db)@ == (Tables {
                    posts: old(db)@.posts.insert(post_id, p@),
                    ..old(db)@
                })
            },
            Err(e) => {
                &&& final(db)@ == old(db)@
                &&& if old(db)@.posts.contains_key(post_id) {
                    series_id matches Some(id) && !old(db)@.series.contains_key(id) && e
                        == AppError::SeriesNotFound(id)
                } else {
                    e == AppError::PostNotFound(post_id)
                }
            },
        },
{
    let post: post::Model = match post_get(db, post_id) {
        Some(p) => p,
        None => {
            return Err(AppError::PostNotFound(post_id));
        },
    };
    let mut updated: post::Model = post;
    updated.series_id = series_id;
    match series_id {
        Some(id) => {
            if series_get(db, id).is_none() {
                return Err(AppError::SeriesNotFound(id));
            }
            updated.series_order = series_order;
        },
        None => {
            updated.series_order = None;
        },
    }
    updated.updated_at = now;
    proof {
        assert(!slug_elsewhere(db@.posts, post_id, updated.slug@)) by {
            if slug_elsewhere(db@.posts, post_id, updated.slug@) {
                let k = choose|k: i32| #[trigger]
                    has_slug(db@.posts, k, updated.slug@) && k != post_id;
                assert(db@.posts.contains_key(k) && db@.posts.contains_key(post_id));
            }
        }
    }
    post_update(db, updated)
}

// ─── Stages ─────────────────────────────────────────────────────────────────

/// A stage that a post can be in.
pub open spec fn is_stage(stage: Seq<char>) -> bool {
    stage == post_stage::DRAFT@ || stage == post_stage::PUBLISHED@ || stage
        == post_stage::SYNC_FAILED@
}

/// Refuses a stage that there is not.
pub fn validate_stage(stage: &str) -> (r: AppResult<()>)
    ensures
        match r {
            Ok(_) => is_stage(stage@),
            Err(e) => !is_stage(stage@) && (e matches AppError::InvalidStage(s) && s@ == stage@),
        },
{
    if same(stage, post_stage::DRAFT) || same(stage, post_stage::PUBLISHED) || same(
        stage,
        post_stage::SYNC_FAILED,
    ) {
        Ok(())
    } else {
        Err(AppError::InvalidStage(stage.to_owned()))
    }
}

/// Sets a post's stage without publishing anything.
pub fn set_post_stage(db: &mut Store, post_id: i32, stage: &str, now: i64) -> (r: AppResult<
    post_stage::Model,
>)
    requires
        old(db).wf(),
    ensures
        final(db).wf(),
        match r {
            Ok(s) => {
                &&& is_stage(stage@)
                &&& old(db)@.posts.contains_key(post_id)
                &&& s@ == (StageRow { post_id, stage: stage@, staged_at: now })
                &&& final(db)@ == (Tables {
                    stages: old(db)@.stages.insert(post_id, s@),
                    ..old(db)@
                })
            },
            Err(e) => {
                &&& final(db)@ == old(db)@
                &&& if is_stage(stage@) {
                    !old(db)@.posts.contains_key(post_id) && e == AppError::PostVanished(post_id)
                } else {
                    e matches AppError::InvalidStage(s) && s@ == stage@
                }
            },
        },
{
    match validate_stage(stage) {
        Err(e) => {
            return Err(e);
        },
        Ok(_) => {},
    }
    stage_set(db, post_stage::Model { post_id, stage: stage.to_owned(), staged_at: now })
}

/// A post's stage.
pub fn get_post_stage(db: &Store, post_id: i32) -> (r: Option<post_stage::Model>)
    requires
        db.wf(),
    ensures
        match r {
            Some(s) => stage_of(db@, post_id) == Some(s@),
            None => stage_of(db@, post_id) is None,
        },
{
    stage_get(db, post_id)
}

/// The posts of the library in a stage, newest first.
pub fn list_posts_by_stage(db: &Store, stage: &str) -> (r: AppResult<Vec<post::Model>>)
    requires
        db.wf(),
    ensures
        match r {
            Ok(out) => {
                &&& is_stage(stage@)
                &&& lists::<post::Model>(rows_view(out@), staged_posts(db@, stage@))
                &&& in_order::<post::Model, NewestPosts>(rows_view(out@))
            },
            Err(e) => !is_stage(stage@) && (e matches AppError::InvalidStage(s) && s@ == stage@),
        },
{
    match validate_stage(stage) {
        Err(e) => Err(e),
        Ok(_) => Ok(posts_in_stage(db, stage)),
    }
}

/// The listing of states speaks of every post of the list, in its order, and says of
/// each the state that its own rows stand for.
pub proof fn every_post_has_its_state(t: Tables, posts: Seq<PostRow>, i: int)
    requires
        0 <= i < posts.len(),
    ensures
        sync_states(t, posts).len() == posts.len(),
        sync_states(t, posts)[i].post_id == posts[i].id,
        sync_states(t, posts)[i].state == state_of(
            if t.stages.contains_key(posts[i].id) {
                Some(t.stages[posts[i].id])
            } else {
                None
            },
            if t.syncs.contains_key(posts[i].id) {
                Some(t.syncs[posts[i].id])
            } else {
                None
            },
        ),
{
}

/// A summary says what the version was called, where it came from and when, and how
/// long its text is, or that there is none.
pub proof fn a_summary_tells_of_its_version(r: RevisionRow)
    ensures
        summary_of(r).id == r.id,
        summary_of(r).post_id == r.post_id,
        summary_of(r).title == r.title,
        summary_of(r).origin == r.origin,
        summary_of(r).created_at == r.created_at,
        summary_of(r).published == r.published,
        r.body matches Some(text) ==> summary_of(r).body_chars == Some(text.len()),
        r.body is None ==> summary_of(r).body_chars is None,
{
}

/// The slug of a series is made of the one that was given, and of the title only where
/// that is blank. The stages are these three.
pub proof fn what_series_and_stages_are_called(s: SeriesRow, stage: Seq<char>)
    ensures
        trimmed(s.slug).len() > 0 ==> series_slug_source(s) == s.slug,
        trimmed(s.slug).len() == 0 ==> series_slug_source(s) == s.title,
        is_stage(stage) <==> stage == "draft"@ || stage == "published"@ || stage
            == "sync_failed"@,
{
}

}
