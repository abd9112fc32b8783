//! Saving a post from the editor, and publishing it.
//!
//! The tables and the files cannot share a transaction, so a save is a sequence
//! of steps with the file work between them:
//!
//! 1. [`save_post`] or [`autosave_post`] decides what the post will say. The caller then writes the
//!    new body beside its destination, where nobody reads it.
//! 2. [`Save::commit`] writes the row, keeps the version from before in the
//!    history, and takes off the mark that the cached body is out of date. The
//!    caller then moves the body into place.
//! 3. [`Saving::moved`] records that this machine holds the new text, or
//!    [`Saving::not_moved`] puts the row back.
//! 4. A save that publishes hands out a [`Push`]. The caller uploads, and
//!    [`Push::settle`] records how that went.
//!
//! The mark comes off before the body moves: the other way round, a failure
//! between the two would leave new text under a mark that has a later read fetch
//! the older published copy over it.

use crate::commands::posts::{creation_refused, refuse_if_trashed, update_refused};
use crate::commands::slugs::{slug_for, slug_of, slug_or};
use crate::db::side_tables::{
    agreed, body_is_stale, body_stale_clear, body_stale_set, edited, marked_stale, stage_clear,
    stage_get, stage_of, stage_set, sync_mark_synced, sync_of, sync_set_local, trash_get,
};
use crate::db::{
    has_slug, next_id, post_create, post_delete, post_get, post_update, slug_elsewhere, slug_taken,
    Store, Tables,
};
use crate::entities::post;
use crate::entities::post::PostRow;
use crate::entities::post_revision;
use crate::entities::post_stage;
use crate::entities::post_stage::StageRow;
use crate::error::{AppError, AppResult};
use crate::json::{csv_tags, json_strings, tags_column, tags_in, tags_to_json};
use crate::revisions::{after_snapshot, record_or_skip};
use crate::sync_state::{content_hash, fingerprint};
use crate::text::{int_text, opt_view};
use vstd::prelude::*;

verus! {

// ─── The state before ───────────────────────────────────────────────────────

/// A post as it stood before a save: everything needed to put it back. The stage
/// goes with the row, because a save can move the two together.
pub struct PreviousState {
    pub post: post::Model,
    pub stage: Option<post_stage::Model>,
}

/// What a [`PreviousState`] says.
pub struct PreviousRow {
    pub post: PostRow,
    pub stage: Option<StageRow>,
}

impl View for PreviousState {
    type V = PreviousRow;

    open spec fn view(&self) -> PreviousRow {
        PreviousRow {
            post: self.post@,
            stage: match self.stage {
                Some(s) => Some(s@),
                None => None,
            },
        }
    }
}

/// A post and its stage, as the tables have them.
pub open spec fn as_it_stands(t: Tables, id: i32) -> PreviousRow {
    PreviousRow { post: t.posts[id], stage: stage_of(t, id) }
}

/// The state before the save of the post `id`.
pub open spec fn is_state_of(p: PreviousRow, id: i32) -> bool {
    p.post.id == id && (p.stage matches Some(s) ==> s.post_id == id)
}

/// The view of a state that may not be there.
pub open spec fn previous_row(p: Option<PreviousState>) -> Option<PreviousRow> {
    match p {
        Some(s) => Some(s@),
        None => None,
    }
}

impl PreviousState {
    /// A post and its stage as they stand.
    pub fn read(db: &Store, id: i32) -> (r: AppResult<Self>)
        requires
            db.wf(),
        ensures
            match r {
                Ok(p) => db@.posts.contains_key(id) && p@ == as_it_stands(db@, id) && is_state_of(
                    p@,
                    id,
                ),
                Err(e) => !db@.posts.contains_key(id) && e == AppError::PostNotFound(id),
            },
    {
        match post_get(db, id) {
            Some(post) => Ok(PreviousState { post, stage: stage_get(db, id) }),
            None => Err(AppError::PostNotFound(id)),
        }
    }
}

// ─── The row ────────────────────────────────────────────────────────────────

/// The tables with a saved post in them, staged as a draft where the stage is
/// known.
pub open spec fn committed(t: Tables, saved: PostRow, draft_staged_at: Option<i64>) -> Tables {
    Tables {
        posts: t.posts.insert(saved.id, saved),
        stages: match draft_staged_at {
            Some(at) => t.stages.insert(
                saved.id,
                StageRow { post_id: saved.id, stage: post_stage::DRAFT@, staged_at: at },
            ),
            None => t.stages,
        },
        ..t
    }
}

/// Writes a post's row and, for a draft, its stage, both or neither. The stage of
/// a publication is left for the upload to decide.
pub fn commit_metadata(
    db: &mut Store,
    model: post::Model,
    existing: bool,
    draft_staged_at: Option<i64>,
) -> (r: AppResult<post::Model>)
    requires
        old(db).wf(),
    ensures
        final(db).wf(),
        match r {
            Ok(saved) => {
                &&& if existing {
                    &&& old(db)@.active(model.id)
                    &&& !slug_elsewhere(old(db)@.posts, model.id, model.slug@)
                    &&& saved@ == model@
                } else {
                    &&& !slug_taken(old(db)@.posts, model.slug@)
                    &&& next_id(old(db)@.posts) <= i32::MAX
                    &&& saved@ == (PostRow { id: next_id(old(db)@.posts) as i32, ..model@ })
                    &&& !old(db)@.posts.contains_key(saved.id)
                }
                &&& final(db)@ == committed(old(db)@, saved@, draft_staged_at)
            },
            Err(e) => {
                &&& final(db)@ == old(db)@
                &&& if !existing {
                    creation_refused(old(db)@, model.slug@, e)
                } else if old(db)@.trash.contains_key(model.id) {
                    e matches AppError::PostInTrash(s) && s@ == model.slug@
                } else {
                    update_refused(old(db)@, model@, e)
                }
            },
        },
{
    let written: AppResult<post::Model> = if existing {
        if trash_get(db, model.id).is_some() {
            return Err(AppError::PostInTrash(model.slug));
        }
        post_update(db, model)
    } else {
        post_create(db, model)
    };
    let saved: post::Model = match written {
        Ok(p) => p,
        Err(e) => {
            return Err(e);
        },
    };
    match draft_staged_at {
        Some(staged_at) => {
            let stage = post_stage::Model {
                post_id: saved.id,
                stage: post_stage::DRAFT.to_owned(),
                staged_at,
            };
            match stage_set(db, stage) {
                Ok(_) => Ok(saved),
                Err(e) => Err(e),
            }
        },
        None => Ok(saved),
    }
}

/// The tables after the write of `saved` was taken back. A row that is no longer
/// the one written was saved again since, and is left alone.
pub open spec fn rolled_back(t: Tables, previous: Option<PreviousRow>, saved: PostRow) -> Tables {
    if !t.posts.contains_key(saved.id) || t.posts[saved.id] != saved {
        t
    } else {
        match previous {
            None => Tables {
                posts: t.posts.remove(saved.id),
                stages: t.stages.remove(saved.id),
                ..t
            },
            Some(p) => if slug_elsewhere(t.posts, saved.id, p.post.slug) {
                t
            } else {
                Tables {
                    posts: t.posts.insert(saved.id, p.post),
                    stages: match p.stage {
                        Some(s) => t.stages.insert(saved.id, s),
                        None => t.stages.remove(saved.id),
                    },
                    ..t
                }
            },
        }
    }
}

/// Undoes a written row whose body then could not be moved into place. A new post
/// goes, with its stage; an existing one is put back as it was read, row and
/// stage together. Only the save given is undone, never a newer one.
pub fn restore_metadata(db: &mut Store, previous: Option<PreviousState>, saved: &post::Model)
    requires
        old(db).wf(),
        previous matches Some(p) ==> is_state_of(p@, saved.id),
    ensures
        final(db).wf(),
        final(db)@ == rolled_back(old(db)@, previous_row(previous), saved@),
{
    match post_get(db, saved.id) {
        Some(p) => {
            if !p.same_as(saved) {
                return;
            }
        },
        None => {
            return;
        },
    }
    match previous {
        Some(before) => match post_update(db, before.post) {
            Ok(_) => match before.stage {
                Some(stage) => {
                    let _ = stage_set(db, stage);
                },
                None => {
                    stage_clear(db, saved.id);
                },
            },
            Err(_) => {},
        },
        None => {
            stage_clear(db, saved.id);
            post_delete(db, saved.id);
        },
    }
}

// ─── A save ─────────────────────────────────────────────────────────────────

/// A post that has never been saved.
pub open spec fn blank_post(title: Seq<char>, now: i64) -> PostRow {
    PostRow {
        id: 0,
        slug: slug_or(title, "post-"@, now),
        title: Seq::empty(),
        excerpt: None,
        tags: None,
        published: false,
        published_at: None,
        series_id: None,
        series_order: None,
        created_at: now,
        updated_at: now,
    }
}

/// A post with the editor's fields in it. A save never takes a live post off the
/// blog: `published` asks for this save to publish, and a post that is live stays
/// live either way.
pub open spec fn with_edits(
    post: PostRow,
    title: Seq<char>,
    tags: Seq<char>,
    published: bool,
    now: i64,
) -> PostRow {
    let live = published || post.published;
    PostRow {
        title,
        tags: Some(tags_column(csv_tags(tags))),
        published: live,
        published_at: if !live {
            None
        } else {
            match post.published_at {
                Some(at) => Some(at),
                None => Some(now),
            }
        },
        updated_at: now,
        ..post
    }
}

/// A save that has been decided and not yet written.
pub struct Save {
    /// The post as it will be.
    pub model: post::Model,
    pub previous: Option<PreviousState>,
    pub body: String,
    /// Whether this save publishes.
    pub publishes: bool,
    /// What the version from before is filed under in the history.
    pub origin: &'static str,
    pub now: i64,
}

impl Save {
    /// The post and the state before it are of one post.
    pub open spec fn wf(self) -> bool {
        self.previous matches Some(p) ==> is_state_of(p@, self.model.id)
    }
}

/// What saving through the editor files the version from before under.
pub open spec fn save_origin(published: bool) -> Seq<char> {
    if published {
        post_revision::PUBLISH@
    } else {
        post_revision::SAVE@
    }
}

/// `r` is how a save of this post starts.
pub open spec fn save_started(
    t: Tables,
    id: Option<i32>,
    title: Seq<char>,
    tags: Seq<char>,
    body: Seq<char>,
    published: bool,
    origin: Seq<char>,
    now: i64,
    r: AppResult<Save>,
) -> bool {
    match r {
        Ok(s) => {
            let from = match id {
                Some(i) => t.posts[i],
                None => blank_post(title, now),
            };
            &&& s.wf()
            &&& id matches Some(i) ==> t.active(i)
            &&& s.model@ == with_edits(from, title, tags, published, now)
            &&& s.model.title@ == title
            &&& tags_in(s.model@.tags) == csv_tags(tags)
            &&& previous_row(s.previous) == match id {
                Some(i) => Some(as_it_stands(t, i)),
                None => None,
            }
            &&& s.body@ == body
            &&& s.publishes == published
            &&& s.origin@ == origin
            &&& s.now == now
        },
        Err(e) => id matches Some(i) && if !t.posts.contains_key(i) {
            e == AppError::PostNotFound(i)
        } else {
            t.trash.contains_key(i) && (e matches AppError::PostInTrash(s) && s@
                == t.posts[i].slug)
        },
    }
}

/// Starts a save: the editor's fields over the post as it stands, or over a new
/// one. A post in the trash is refused.
fn save(
    db: &Store,
    id: Option<i32>,
    title: String,
    tags: &str,
    body: String,
    published: bool,
    origin: &'static str,
    now: i64,
) -> (r: AppResult<Save>)
    requires
        db.wf(),
    ensures
        save_started(db@, id, title@, tags@, body@, published, origin@, now, r),
{
    let previous: Option<PreviousState> = match id {
        Some(i) => match PreviousState::read(db, i) {
            Ok(p) => {
                match refuse_if_trashed(db, &p.post) {
                    Err(e) => {
                        return Err(e);
                    },
                    Ok(_) => {},
                }
                Some(p)
            },
            Err(e) => {
                return Err(e);
            },
        },
        None => None,
    };
    let mut model: post::Model = match &previous {
        Some(p) => p.post.clone(),
        None => {
            let none: String = String::new();
            assert(none@ =~= Seq::empty());
            post::Model {
                id: 0,
                slug: slug_for(title.as_str(), "post-", now),
                title: none,
                excerpt: None,
                tags: None,
                published: false,
                published_at: None,
                series_id: None,
                series_order: None,
                created_at: now,
                updated_at: now,
            }
        },
    };
    let live: bool = published || model.published;
    model.title = title;
    model.tags = Some(tags_to_json(tags));
    model.published = live;
    if !live {
        model.published_at = None;
    } else if model.published_at.is_none() {
        model.published_at = Some(now);
    }
    model.updated_at = now;
    Ok(Save { model, previous, body, publishes: published, origin, now })
}

/// Starts a save by the Save button, or by the Publish button where `published`
/// is set.
pub fn save_post(
    db: &Store,
    id: Option<i32>,
    title: String,
    tags: &str,
    body: String,
    published: bool,
    now: i64,
) -> (r: AppResult<Save>)
    requires
        db.wf(),
    ensures
        save_started(db@, id, title@, tags@, body@, published, save_origin(published), now, r),
{
    let origin: &'static str = if published {
        post_revision::PUBLISH
    } else {
        post_revision::SAVE
    };
    save(db, id, title, tags, body, published, origin, now)
}

/// Starts a save of work in progress, on this machine and nowhere else: it cannot
/// publish. The version that it replaces is kept as a flush of the editor, of which
/// those of one typing session add one row to the history.
pub fn autosave_post(
    db: &Store,
    id: Option<i32>,
    title: String,
    tags: &str,
    body: String,
    now: i64,
) -> (r: AppResult<Save>)
    requires
        db.wf(),
    ensures
        save_started(
            db@,
            id,
            title@,
            tags@,
            body@,
            false,
            post_revision::AUTOSAVE@,
            now,
            r,
        ),
{
    save(db, id, title, tags, body, false, post_revision::AUTOSAVE, now)
}

/// A save whose row is written and whose body is about to be moved into place.
pub struct Saving {
    pub saved: post::Model,
    pub previous: Option<PreviousState>,
    pub body: String,
    pub publishes: bool,
    /// Whether the cached body was marked as out of date.
    pub was_stale: bool,
    pub now: i64,
}

impl Saving {
    /// The post and the state before it are of one post.
    pub open spec fn wf(self) -> bool {
        self.previous matches Some(p) ==> is_state_of(p@, self.saved.id)
    }
}

/// The stage that goes with the row: a draft's is known, and a live post keeps
/// the one it has.
pub open spec fn draft_stage(post: PostRow, now: i64) -> Option<i64> {
    if post.published {
        None
    } else {
        Some(now)
    }
}

/// The tables after a save wrote its row: the version from before is in the
/// history, and the cached body is no longer marked as out of date.
pub open spec fn save_written(
    t: Tables,
    saved: PostRow,
    previous: Option<PreviousRow>,
    old_body: Option<Seq<char>>,
    origin: Seq<char>,
    now: i64,
) -> Tables {
    let written = committed(t, saved, draft_stage(saved, now));
    let kept = match previous {
        Some(p) => after_snapshot(written, p.post, origin, old_body, now),
        None => written,
    };
    Tables { stale: t.stale.remove(saved.slug), ..kept }
}

impl Save {
    /// Writes the row. `old_body` is the cached text that the save is about to
    /// replace.
    pub fn commit(self, db: &mut Store, old_body: Option<String>) -> (r: AppResult<Saving>)
        requires
            old(db).wf(),
            self.wf(),
        ensures
            final(db).wf(),
            match r {
                Ok(s) => {
                    &&& s.wf()
                    &&& if self.previous is Some {
                        &&& old(db)@.active(self.model.id)
                        &&& !slug_elsewhere(old(db)@.posts, self.model.id, self.model.slug@)
                        &&& s.saved@ == self.model@
                    } else {
                        &&& !slug_taken(old(db)@.posts, self.model.slug@)
                        &&& next_id(old(db)@.posts) <= i32::MAX
                        &&& s.saved@ == (PostRow {
                            id: next_id(old(db)@.posts) as i32,
                            ..self.model@
                        })
                        &&& !old(db)@.posts.contains_key(s.saved.id)
                    }
                    &&& s.previous == self.previous
                    &&& s.body == self.body
                    &&& s.publishes == self.publishes
                    &&& s.now == self.now
                    &&& s.was_stale == old(db)@.stale.contains_key(s.saved.slug@)
                    &&& final(db)@ == save_written(
                        old(db)@,
                        s.saved@,
                        previous_row(self.previous),
                        opt_view(old_body),
                        self.origin@,
                        self.now,
                    )
                },
                Err(e) => {
                    &&& final(db)@ == old(db)@
                    &&& if self.previous is None {
                        creation_refused(old(db)@, self.model.slug@, e)
                    } else if old(db)@.trash.contains_key(self.model.id) {
                        e matches AppError::PostInTrash(s) && s@ == self.model.slug@
                    } else {
                        update_refused(old(db)@, self.model@, e)
                    }
                },
            },
    {
        let staged_at: Option<i64> = if self.model.published {
            None
        } else {
            Some(self.now)
        };
        let existing: bool = self.previous.is_some();
        let saved: post::Model = match commit_metadata(db, self.model, existing, staged_at) {
            Ok(p) => p,
            Err(e) => {
                return Err(e);
            },
        };
        match &self.previous {
            Some(before) => {
                record_or_skip(db, &before.post, self.origin, old_body, self.now);
            },
            None => {},
        }
        let was_stale: bool = body_is_stale(db, saved.slug.as_str());
        body_stale_clear(db, saved.slug.as_str());
        Ok(
            Saving {
                saved,
                previous: self.previous,
                body: self.body,
                publishes: self.publishes,
                was_stale,
                now: self.now,
            },
        )
    }
}

/// The tables after a save's body could not be moved into place.
pub open spec fn save_undone(
    t: Tables,
    previous: Option<PreviousRow>,
    saved: PostRow,
    was_stale: bool,
    now: i64,
) -> Tables {
    let back = rolled_back(t, previous, saved);
    Tables {
        stale: if was_stale {
            marked_stale(t.stale, saved.slug, now)
        } else {
            t.stale
        },
        ..back
    }
}

/// What is left to do once the body is in place.
pub enum AfterMove {
    /// The save was a local one.
    Done(post::Model),
    /// The post has to go to the cloud.
    Push(Push),
}

/// A published save on its way to the cloud.
pub struct Push {
    pub saved: post::Model,
    pub body: String,
    /// The fingerprint of what goes up.
    pub hash: String,
    pub now: i64,
}

impl Saving {
    /// The body could not be moved into place: the row goes back. A body that was
    /// behind the cloud's is marked so again, because the text that was to
    /// replace it never came.
    pub fn not_moved(self, db: &mut Store)
        requires
            old(db).wf(),
            self.wf(),
        ensures
            final(db).wf(),
            final(db)@ == save_undone(
                old(db)@,
                previous_row(self.previous),
                self.saved@,
                self.was_stale,
                self.now,
            ),
    {
        restore_metadata(db, self.previous, &self.saved);
        if self.was_stale {
            body_stale_set(db, self.saved.slug.as_str(), self.now);
        }
    }

    /// The body is in place: this machine holds the new text, and that is
    /// recorded before anything is uploaded. Only a save that publishes goes on
    /// to the cloud.
    pub fn moved(self, db: &mut Store) -> (r: AppResult<AfterMove>)
        requires
            old(db).wf(),
        ensures
            final(db).wf(),
            match r {
                Ok(next) => {
                    &&& old(db)@.posts.contains_key(self.saved.id)
                    &&& final(db)@ == (Tables {
                        syncs: old(db)@.syncs.insert(
                            self.saved.id,
                            edited(
                                sync_of(old(db)@, self.saved.id),
                                self.saved.id,
                                fingerprint(self.saved@, self.body@),
                            ),
                        ),
                        ..old(db)@
                    })
                    &&& match next {
                        AfterMove::Done(p) => !self.publishes && p == self.saved,
                        AfterMove::Push(p) => {
                            &&& self.publishes
                            &&& p.saved == self.saved
                            &&& p.body == self.body
                            &&& p.hash@ == fingerprint(self.saved@, self.body@)
                            &&& p.now == self.now
                        },
                    }
                },
                Err(e) => {
                    &&& !old(db)@.posts.contains_key(self.saved.id)
                    &&& e == AppError::PostVanished(self.saved.id)
                    &&& final(db)@ == old(db)@
                },
            },
    {
        let hash: String = content_hash(&self.saved, self.body.as_str());
        match sync_set_local(db, self.saved.id, hash.clone()) {
            Err(e) => {
                return Err(e);
            },
            Ok(_) => {},
        }
        if self.publishes {
            Ok(AfterMove::Push(Push { saved: self.saved, body: self.body, hash, now: self.now }))
        } else {
            Ok(AfterMove::Done(self.saved))
        }
    }
}

/// The tables after a push was tried. Where it landed, the cloud holds exactly
/// this content, under the time that this machine wrote; where it did not, the
/// post goes on reading as edited.
pub open spec fn push_settled(
    t: Tables,
    saved: PostRow,
    hash: Seq<char>,
    landed: bool,
    now: i64,
) -> Tables {
    Tables {
        stages: t.stages.insert(
            saved.id,
            StageRow {
                post_id: saved.id,
                stage: if landed {
                    post_stage::PUBLISHED@
                } else {
                    post_stage::SYNC_FAILED@
                },
                staged_at: now,
            },
        ),
        syncs: t.syncs.insert(
            saved.id,
            if landed {
                agreed(saved.id, hash, Some(saved.updated_at), now)
            } else {
                edited(sync_of(t, saved.id), saved.id, hash)
            },
        ),
        ..t
    }
}

impl Push {
    /// Records how the upload went. One that failed leaves the post saved here
    /// and is reported with its cause.
    pub fn settle(self, db: &mut Store, pushed: AppResult<()>) -> (r: AppResult<post::Model>)
        requires
            old(db).wf(),
        ensures
            final(db).wf(),
            if old(db)@.posts.contains_key(self.saved.id) {
                &&& final(db)@ == push_settled(
                    old(db)@,
                    self.saved@,
                    self.hash@,
                    pushed is Ok,
                    self.now,
                )
                &&& match pushed {
                    Ok(_) => r == Ok::<post::Model, AppError>(self.saved),
                    Err(cause) => r == Err::<post::Model, AppError>(
                        AppError::PublishSyncFailed(Box::new(cause)),
                    ),
                }
            } else {
                &&& final(db)@ == old(db)@
                &&& r == Err::<post::Model, AppError>(AppError::PostVanished(self.saved.id))
            },
    {
        let stage: &'static str = if pushed.is_ok() {
            post_stage::PUBLISHED
        } else {
            post_stage::SYNC_FAILED
        };
        let row = post_stage::Model {
            post_id: self.saved.id,
            stage: stage.to_owned(),
            staged_at: self.now,
        };
        match stage_set(db, row) {
            Err(e) => {
                return Err(e);
            },
            Ok(_) => {},
        }
        match pushed {
            Ok(_) => {
                match sync_mark_synced(
                    db,
                    self.saved.id,
                    self.hash,
                    Some(self.saved.updated_at),
                    self.now,
                ) {
                    Err(e) => {
                        return Err(e);
                    },
                    Ok(_) => {},
                }
                Ok(self.saved)
            },
            Err(cause) => {
                match sync_set_local(db, self.saved.id, self.hash) {
                    Err(e) => {
                        return Err(e);
                    },
                    Ok(_) => {},
                }
                Err(AppError::PublishSyncFailed(Box::new(cause)))
            },
        }
    }
}

// ─── Laws ───────────────────────────────────────────────────────────────────

/// A save whose body could not be moved into place leaves the post exactly as it
/// was, row and stage: an existing one as it stood, a new one not there at all.
/// The mark on its cached body is as it was too.
pub proof fn a_failed_save_changes_no_post(
    t: Tables,
    id: Option<i32>,
    saved: PostRow,
    old_body: Option<Seq<char>>,
    origin: Seq<char>,
    now: i64,
)
    requires
        t.wf(),
        t.no_orphans(),
        match id {
            Some(i) => t.posts.contains_key(i) && saved.id == i && saved.slug == t.posts[i].slug,
            None => !t.posts.contains_key(saved.id),
        },
    ensures
        ({
            let previous = match id {
                Some(i) => Some(as_it_stands(t, i)),
                None => None,
            };
            let written = save_written(t, saved, previous, old_body, origin, now);
            let after = save_undone(
                written,
                previous,
                saved,
                t.stale.contains_key(saved.slug),
                now,
            );
            &&& after.posts == t.posts
            &&& after.stages == t.stages
            &&& after.syncs == t.syncs
            &&& after.trash == t.trash
            &&& after.stale.dom() == t.stale.dom()
        }),
{
    let previous = match id {
        Some(i) => Some(as_it_stands(t, i)),
        None => None,
    };
    let written = save_written(t, saved, previous, old_body, origin, now);
    let after = save_undone(written, previous, saved, t.stale.contains_key(saved.slug), now);
    assert(written.posts[saved.id] == saved);
    match id {
        Some(i) => {
            assert(!slug_elsewhere(written.posts, i, t.posts[i].slug)) by {
                if slug_elsewhere(written.posts, i, t.posts[i].slug) {
                    let k = choose|k: i32| #[trigger]
                        has_slug(written.posts, k, t.posts[i].slug) && k != i;
                    assert(t.posts.contains_key(k) && t.posts.contains_key(i));
                }
            }
        },
        None => {
            assert(!t.stages.contains_key(saved.id));
        },
    }
    assert(after.posts =~= t.posts);
    assert(after.stages =~= t.stages);
    assert(after.stale.dom() =~= t.stale.dom());
}

/// A save of a post that is live leaves it live, with the time it first went up
/// and the stage it has, whether or not the save publishes.
pub proof fn a_save_never_takes_a_post_down(
    t: Tables,
    id: i32,
    title: Seq<char>,
    tags: Seq<char>,
    published: bool,
    old_body: Option<Seq<char>>,
    origin: Seq<char>,
    now: i64,
)
    requires
        t.posts.contains_key(id),
        t.posts[id].id == id,
        t.posts[id].published,
        t.posts[id].published_at is Some,
    ensures
        ({
            let saved = with_edits(t.posts[id], title, tags, published, now);
            let after = save_written(
                t,
                saved,
                Some(as_it_stands(t, id)),
                old_body,
                origin,
                now,
            );
            &&& after.posts[id].published
            &&& after.posts[id].published_at == t.posts[id].published_at
            &&& after.posts[id].slug == t.posts[id].slug
            &&& after.posts[id].created_at == t.posts[id].created_at
            &&& stage_of(after, id) == stage_of(t, id)
        }),
{
}

/// Once a saved body is in place, and until a push lands, the post reads as
/// edited here unless the cloud was left with just this content; after a push
/// that landed it does not.
pub proof fn only_a_push_that_landed_settles_an_edit(
    t: Tables,
    saved: PostRow,
    hash: Seq<char>,
    now: i64,
)
    ensures
        crate::sync_state::has_local_change(
            push_settled(t, saved, hash, true, now).syncs[saved.id],
        ) == false,
        sync_of(t, saved.id) matches Some(row) ==> (crate::sync_state::has_local_change(
            push_settled(t, saved, hash, false, now).syncs[saved.id],
        ) <==> row.synced_hash != Some(hash)),
        sync_of(t, saved.id) is None ==> crate::sync_state::has_local_change(
            push_settled(t, saved, hash, false, now).syncs[saved.id],
        ),
{
}

/// A save writes what the editor holds: the title and the tags as they were typed,
/// whatever the post said before. It publishes where it is asked to, and never takes
/// a post down; a post that goes live keeps the time at which it first did. Nothing
/// else of the post changes.
pub proof fn a_save_writes_what_was_typed(
    post: PostRow,
    title: Seq<char>,
    tags: Seq<char>,
    published: bool,
    now: i64,
)
    ensures
        ({
            let saved = with_edits(post, title, tags, published, now);
            &&& saved.title == title
            &&& saved.tags == Some(tags_column(csv_tags(tags)))
            &&& json_strings(tags_column(csv_tags(tags))) == Some(csv_tags(tags)) ==> tags_in(
                saved.tags,
            ) == csv_tags(tags)
            &&& saved.published <==> published || post.published
            &&& !saved.published ==> saved.published_at is None
            &&& saved.published && post.published_at is Some ==> saved.published_at
                == post.published_at
            &&& saved.published && post.published_at is None ==> saved.published_at == Some(now)
            &&& saved.updated_at == now
            &&& saved.id == post.id
            &&& saved.slug == post.slug
            &&& saved.excerpt == post.excerpt
            &&& saved.series_id == post.series_id
            &&& saved.series_order == post.series_order
            &&& saved.created_at == post.created_at
        }),
{
}

/// Two saves of one post with the same fields leave the same text, tags and flag,
/// whatever the post said before them; and the second of two saves wins.
pub proof fn the_last_save_wins(
    a: PostRow,
    b: PostRow,
    title: Seq<char>,
    tags: Seq<char>,
    earlier_title: Seq<char>,
    earlier_tags: Seq<char>,
    published: bool,
    now: i64,
    then: i64,
)
    requires
        a.published <==> a.published_at is Some,
    ensures
        with_edits(a, title, tags, published, now).title == with_edits(
            b,
            title,
            tags,
            published,
            now,
        ).title,
        with_edits(a, title, tags, published, now).tags == with_edits(
            b,
            title,
            tags,
            published,
            now,
        ).tags,
        with_edits(
            with_edits(a, earlier_title, earlier_tags, false, then),
            title,
            tags,
            published,
            now,
        ) == with_edits(a, title, tags, published, now),
{
}

/// A post that was never saved starts with what was typed and nothing else, made now,
/// under the slug of its title where that has one.
pub proof fn a_new_post_holds_what_was_typed(
    title: Seq<char>,
    tags: Seq<char>,
    published: bool,
    now: i64,
)
    ensures
        ({
            let saved = with_edits(blank_post(title, now), title, tags, published, now);
            &&& saved.title == title
            &&& saved.published == published
            &&& saved.published_at == if published { Some(now) } else { None }
            &&& saved.created_at == now
            &&& saved.updated_at == now
            &&& saved.excerpt is None
            &&& saved.series_id is None
            &&& saved.series_order is None
            &&& slug_of(title).len() > 0 ==> saved.slug == slug_of(title)
            &&& slug_of(title).len() == 0 ==> saved.slug == "post-"@ + int_text(now as int)
        }),
{
}

/// Writing a save puts the row in, takes the mark off its cached text, and files the
/// version from before. A post that is not live is a draft from here on; a live one
/// keeps its stage. Nothing is done to any other post.
pub proof fn a_save_touches_one_post(
    t: Tables,
    saved: PostRow,
    previous: Option<PreviousRow>,
    old_body: Option<Seq<char>>,
    origin: Seq<char>,
    now: i64,
    other: i32,
    slug: Seq<char>,
)
    requires
        other != saved.id,
        slug != saved.slug,
    ensures
        ({
            let after = save_written(t, saved, previous, old_body, origin, now);
            &&& after.posts.contains_key(saved.id)
            &&& after.posts[saved.id] == saved
            &&& after.posts.contains_key(other) == t.posts.contains_key(other)
            &&& t.posts.contains_key(other) ==> after.posts[other] == t.posts[other]
            &&& !after.stale.contains_key(saved.slug)
            &&& after.stale.contains_key(slug) == t.stale.contains_key(slug)
            &&& saved.published ==> stage_of(after, saved.id) == stage_of(t, saved.id)
            &&& !saved.published ==> stage_of(after, saved.id) == Some(
                StageRow { post_id: saved.id, stage: "draft"@, staged_at: now },
            )
            &&& stage_of(after, other) == stage_of(t, other)
            &&& after.syncs == t.syncs
            &&& after.series == t.series
            &&& after.trash == t.trash
            &&& after.tombstones == t.tombstones
            &&& after.schedules == t.schedules
            &&& previous is None ==> after.revisions == t.revisions
            &&& previous matches Some(p) ==> after.revisions == after_snapshot(
                Tables { posts: t.posts.insert(saved.id, saved), ..t },
                p.post,
                origin,
                old_body,
                now,
            ).revisions
        }),
{
}

/// A push that landed leaves the post published, with both fingerprints those of what
/// went up and the cloud's version accounted for; one that failed leaves it marked as
/// failed, with what was known of the cloud as it was. No other post is touched.
pub proof fn a_push_is_recorded(
    t: Tables,
    saved: PostRow,
    hash: Seq<char>,
    landed: bool,
    now: i64,
    other: i32,
)
    requires
        other != saved.id,
    ensures
        ({
            let after = push_settled(t, saved, hash, landed, now);
            let row = after.syncs[saved.id];
            &&& stage_of(after, saved.id) == Some(
                StageRow {
                    post_id: saved.id,
                    stage: if landed { "published"@ } else { "sync_failed"@ },
                    staged_at: now,
                },
            )
            &&& after.syncs.contains_key(saved.id)
            &&& row.post_id == saved.id
            &&& row.local_hash == hash
            &&& landed ==> row.synced_hash == Some(hash) && row.synced_at == Some(now)
                && row.remote_updated_at == Some(saved.updated_at) && row.remote_seen_at == Some(
                saved.updated_at,
            )
            &&& !landed && t.syncs.contains_key(saved.id) ==> row.synced_hash
                == t.syncs[saved.id].synced_hash && row.synced_at == t.syncs[saved.id].synced_at
                && row.remote_updated_at == t.syncs[saved.id].remote_updated_at
                && row.remote_seen_at == t.syncs[saved.id].remote_seen_at
            &&& !landed && !t.syncs.contains_key(saved.id) ==> row.synced_hash is None
                && row.synced_at is None && row.remote_updated_at is None && row.remote_seen_at
                is None
            &&& stage_of(after, other) == stage_of(t, other)
            &&& sync_of(after, other) == sync_of(t, other)
            &&& after.posts == t.posts
            &&& after.series == t.series
            &&& after.revisions == t.revisions
            &&& after.trash == t.trash
            &&& after.tombstones == t.tombstones
            &&& after.schedules == t.schedules
            &&& after.stale == t.stale
        }),
{
}

/// When a save starts: a new post always, and one that is there unless it is in the
/// trash; it carries what was typed over the post as it stands, and the text. The
/// other two are refused, each for its reason.
pub proof fn when_a_save_starts(
    t: Tables,
    id: Option<i32>,
    title: Seq<char>,
    tags: Seq<char>,
    body: Seq<char>,
    published: bool,
    origin: Seq<char>,
    now: i64,
    r: AppResult<Save>,
)
    requires
        save_started(t, id, title, tags, body, published, origin, now, r),
    ensures
        r is Ok <==> id is None || (t.posts.contains_key(id->0) && !t.trash.contains_key(id->0)),
        id is Some && !t.posts.contains_key(id->0) ==> r is Err && r->Err_0
            == AppError::PostNotFound(id->0),
        id is Some && t.posts.contains_key(id->0) && t.trash.contains_key(id->0) ==> r is Err
            && r->Err_0 is PostInTrash,
        r matches Ok(s) ==> {
            &&& s.model.title@ == title
            &&& tags_in(s.model@.tags) == csv_tags(tags)
            &&& s.body@ == body
            &&& s.publishes == published
            &&& s.origin@ == origin
            &&& s.now == now
            &&& s.model.updated_at == now
            &&& id is Some ==> {
                let post = t.posts[id->0];
                &&& s.model.slug@ == post.slug
                &&& s.model@.excerpt == post.excerpt
                &&& s.model.series_id == post.series_id
                &&& s.model.series_order == post.series_order
                &&& s.model.created_at == post.created_at
                &&& s.model.published == (published || post.published)
                &&& s.previous is Some
                &&& s.previous->0@.post == post
            }
            &&& id is None ==> s.previous is None && s.model.created_at == now
                && s.model.published == published
        },
        save_origin(true) == "publish"@,
        save_origin(false) == "save"@,
{
}

}
