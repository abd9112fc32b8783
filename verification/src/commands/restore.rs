//! Putting a post back to a version in its history.
//!
//! A restore is an edit like any other: it writes the row and the cached
//! Markdown and stops there. It takes its own snapshot first, and unlike other
//! edits it does not go on without one, so a restore can always be undone.
//!
//! 1. [`restore_revision`] keeps the version that the post is on. The caller then
//!    writes the body, where the revision has one, beside its destination.
//! 2. [`Restoring::commit`] writes the row. The caller moves the body into place.
//! 3. [`Restored::finish`] records the edit, or [`Restored::not_moved`] puts the
//!    row back.

use crate::commands::posts::{refuse_if_trashed, update_refused};
use crate::db::history::{recorded, revision_get};
use crate::db::side_tables::{
    body_is_stale, body_stale_clear, body_stale_set, edited, marked_stale, sync_of, sync_set_local,
    trash_get,
};
use crate::db::{
    next_id, post_get, post_update, refused, slug_elsewhere, Store, Tables, IDS_EXHAUSTED,
};
use crate::entities::post;
use crate::entities::post::PostRow;
use crate::entities::post_revision;
use crate::entities::post_revision::RevisionRow;
use crate::error::{AppError, AppResult};
use crate::revisions::{
    after_snapshot, applied, apply, record, repeats_head, snapshot_of,
};
use crate::sync_state::{content_hash, fingerprint};
use crate::text::opt_view;
use vstd::prelude::*;

verus! {

/// A restore whose snapshot is taken and whose row is not yet written.
pub struct Restoring {
    pub revision: post_revision::Model,
    /// The post as it stood.
    pub current: post::Model,
    pub now: i64,
}

proof fn lemma_a_restore_is_no_flush()
    ensures
        post_revision::RESTORE@ != post_revision::AUTOSAVE@,
{
    reveal_strlit("restore");
    reveal_strlit("autosave");
    assert(post_revision::RESTORE@.len() != post_revision::AUTOSAVE@.len());
}

/// Starts a restore. `old_body` is the cached text of the post as it stands.
pub fn restore_revision(
    db: &mut Store,
    revision_id: i32,
    old_body: Option<String>,
    now: i64,
) -> (r: AppResult<Restoring>)
    requires
        old(db).wf(),
    ensures
        final(db).wf(),
        ({
            let t = old(db)@;
            let revision = t.revisions[revision_id];
            let post = t.posts[revision.post_id];
            let s = snapshot_of(post, post_revision::RESTORE@, opt_view(old_body), now);
            match r {
                Ok(step) => {
                    &&& t.revisions.contains_key(revision_id)
                    &&& t.active(revision.post_id)
                    &&& repeats_head(t, s) || next_id(t.revisions) <= i32::MAX
                    &&& step.revision@ == revision
                    &&& step.current@ == post
                    &&& step.now == now
                    &&& final(db)@ == after_snapshot(
                        t,
                        post,
                        post_revision::RESTORE@,
                        opt_view(old_body),
                        now,
                    )
                },
                Err(e) => {
                    &&& final(db)@ == t
                    &&& if !t.revisions.contains_key(revision_id) {
                        e == AppError::RevisionNotFound(revision_id)
                    } else if !t.posts.contains_key(revision.post_id) {
                        e == AppError::PostNotFound(revision.post_id)
                    } else if t.trash.contains_key(revision.post_id) {
                        e matches AppError::PostInTrash(slug) && slug@ == post.slug
                    } else {
                        &&& !repeats_head(t, s)
                        &&& next_id(t.revisions) > i32::MAX
                        &&& refused(e, IDS_EXHAUSTED)
                    }
                },
            }
        }),
{
    let revision: post_revision::Model = match revision_get(db, revision_id) {
        Some(m) => m,
        None => {
            return Err(AppError::RevisionNotFound(revision_id));
        },
    };
    let current: post::Model = match post_get(db, revision.post_id) {
        Some(p) => p,
        None => {
            return Err(AppError::PostNotFound(revision.post_id));
        },
    };
    match refuse_if_trashed(db, &current) {
        Err(e) => {
            return Err(e);
        },
        Ok(_) => {},
    }
    proof {
        lemma_a_restore_is_no_flush();
    }
    match record(db, &current, post_revision::RESTORE, old_body, now) {
        Err(e) => {
            return Err(e);
        },
        Ok(_) => {},
    }
    Ok(Restoring { revision, current, now })
}

/// A restore whose row is written and whose body is about to be moved into place.
pub struct Restored {
    pub restored: post::Model,
    /// The post as it stood.
    pub before: post::Model,
    /// The text that goes back, or nothing where the snapshot holds none: the
    /// text that is there stays.
    pub body: Option<String>,
    pub was_stale: bool,
    pub now: i64,
}

/// The post as the restore leaves it.
pub open spec fn restored_post(current: PostRow, revision: RevisionRow, now: i64) -> PostRow {
    PostRow { updated_at: now, ..applied(current, revision) }
}

impl Restoring {
    /// Writes the row. A snapshot with a body also takes off the mark that the
    /// cached body is out of date, before that body moves.
    pub fn commit(self, db: &mut Store) -> (r: AppResult<Restored>)
        requires
            old(db).wf(),
        ensures
            final(db).wf(),
            ({
                let t = old(db)@;
                let row = restored_post(self.current@, self.revision@, self.now);
                match r {
                    Ok(s) => {
                        &&& t.active(self.current.id)
                        &&& !slug_elsewhere(t.posts, self.current.id, self.current.slug@)
                        &&& s.restored@ == row
                        &&& s.before == self.current
                        &&& opt_view(s.body) == self.revision@.body
                        &&& s.was_stale == (s.body is Some && t.stale.contains_key(
                            self.current.slug@,
                        ))
                        &&& s.now == self.now
                        &&& final(db)@ == (Tables {
                            posts: t.posts.insert(row.id, row),
                            stale: if s.body is Some {
                                t.stale.remove(row.slug)
                            } else {
                                t.stale
                            },
                            ..t
                        })
                    },
                    Err(e) => {
                        &&& final(db)@ == t
                        &&& if t.trash.contains_key(self.current.id) {
                            e matches AppError::PostInTrash(slug) && slug@ == self.current.slug@
                        } else {
                            update_refused(t, row, e)
                        }
                    },
                }
            }),
    {
        if trash_get(db, self.current.id).is_some() {
            return Err(AppError::PostInTrash(self.current.slug));
        }
        let mut model: post::Model = apply(self.current.clone(), &self.revision);
        model.updated_at = self.now;
        let restored: post::Model = match post_update(db, model) {
            Ok(p) => p,
            Err(e) => {
                return Err(e);
            },
        };
        let mut was_stale: bool = false;
        if self.revision.body.is_some() {
            was_stale = body_is_stale(db, restored.slug.as_str());
            body_stale_clear(db, restored.slug.as_str());
        }
        Ok(
            Restored {
                restored,
                before: self.current,
                body: self.revision.body,
                was_stale,
                now: self.now,
            },
        )
    }
}

/// The tables after a restore whose body did not land: the row goes forward
/// again, rather than describe text that was never written.
pub open spec fn restore_undone(
    t: Tables,
    before: PostRow,
    slug: Seq<char>,
    was_stale: bool,
    now: i64,
) -> Tables {
    Tables {
        posts: if t.posts.contains_key(before.id) && !slug_elsewhere(
            t.posts,
            before.id,
            before.slug,
        ) {
            t.posts.insert(before.id, before)
        } else {
            t.posts
        },
        stale: if was_stale {
            marked_stale(t.stale, slug, now)
        } else {
            t.stale
        },
        ..t
    }
}

/// The text that the post has after a restore.
pub open spec fn restored_body(body: Option<Seq<char>>, on_disk: Option<Seq<char>>) -> Seq<char> {
    match body {
        Some(text) => text,
        None => match on_disk {
            Some(text) => text,
            None => Seq::empty(),
        },
    }
}

impl Restored {
    /// The body could not be moved into place: the row goes back.
    pub fn not_moved(self, db: &mut Store)
        requires
            old(db).wf(),
        ensures
            final(db).wf(),
            final(db)@ == restore_undone(
                old(db)@,
                self.before@,
                self.restored.slug@,
                self.was_stale,
                self.now,
            ),
    {
        if self.was_stale {
            body_stale_set(db, self.restored.slug.as_str(), self.now);
        }
        let _ = post_update(db, self.before);
    }

    /// Records the restore as an edit that has not been pushed. `on_disk` is the
    /// cached text, which counts where the snapshot holds none. The stage stays:
    /// a live post goes on serving what it served.
    pub fn finish(self, db: &mut Store, on_disk: Option<String>) -> (r: AppResult<post::Model>)
        requires
            old(db).wf(),
        ensures
            final(db).wf(),
            if old(db)@.posts.contains_key(self.restored.id) {
                &&& r == Ok::<post::Model, AppError>(self.restored)
                &&& final(db)@ == (Tables {
                    syncs: old(db)@.syncs.insert(
                        self.restored.id,
                        edited(
                            sync_of(old(db)@, self.restored.id),
                            self.restored.id,
                            fingerprint(
                                self.restored@,
                                restored_body(opt_view(self.body), opt_view(on_disk)),
                            ),
                        ),
                    ),
                    ..old(db)@
                })
            } else {
                &&& r == Err::<post::Model, AppError>(AppError::PostVanished(self.restored.id))
                &&& final(db)@ == old(db)@
            },
    {
        let body: String = match self.body {
            Some(text) => text,
            None => match on_disk {
                Some(text) => text,
                None => {
                    let none: String = String::new();
                    assert(none@ =~= Seq::empty());
                    none
                },
            },
        };
        let hash: String = content_hash(&self.restored, body.as_str());
        match sync_set_local(db, self.restored.id, hash) {
            Err(e) => Err(e),
            Ok(_) => Ok(self.restored),
        }
    }
}

/// The version that a restore leaves is kept before it is replaced: after the
/// first step it stands at the head of the post's history, or the same content
/// stood there already.
pub proof fn a_restore_keeps_where_it_came_from(
    t: Tables,
    post: PostRow,
    old_body: Option<Seq<char>>,
    now: i64,
)
    requires
        t.posts.contains_key(post.id),
        next_id(t.revisions) <= i32::MAX,
    ensures
        ({
            let s = snapshot_of(post, post_revision::RESTORE@, old_body, now);
            let after = after_snapshot(t, post, post_revision::RESTORE@, old_body, now);
            ||| repeats_head(t, s) && after == t
            ||| after == (Tables {
                revisions: recorded(
                    t.revisions,
                    RevisionRow { id: next_id(t.revisions) as i32, ..s },
                ),
                ..t
            })
        }),
{
    lemma_a_restore_is_no_flush();
}

/// A restore whose body did not land leaves the post as it was.
pub proof fn a_failed_restore_changes_no_post(
    t: Tables,
    id: i32,
    revision: RevisionRow,
    now: i64,
)
    requires
        t.wf(),
        t.posts.contains_key(id),
    ensures
        ({
            let row = restored_post(t.posts[id], revision, now);
            let written = Tables {
                posts: t.posts.insert(id, row),
                stale: t.stale.remove(row.slug),
                ..t
            };
            let after = restore_undone(
                written,
                t.posts[id],
                row.slug,
                t.stale.contains_key(row.slug),
                now,
            );
            &&& after.posts == t.posts
            &&& after.stale.dom() == t.stale.dom()
            &&& after.stages == t.stages
            &&& after.syncs == t.syncs
        }),
{
    let row = restored_post(t.posts[id], revision, now);
    let written = Tables {
        posts: t.posts.insert(id, row),
        stale: t.stale.remove(row.slug),
        ..t
    };
    let after = restore_undone(
        written,
        t.posts[id],
        row.slug,
        t.stale.contains_key(row.slug),
        now,
    );
    assert(!slug_elsewhere(written.posts, id, t.posts[id].slug)) by {
        if slug_elsewhere(written.posts, id, t.posts[id].slug) {
            let k = choose|k: i32| #[trigger]
                crate::db::has_slug(written.posts, k, t.posts[id].slug) && k != id;
            assert(t.posts.contains_key(k) && t.posts.contains_key(id));
        }
    }
    assert(after.posts =~= t.posts);
    assert(after.stale.dom() =~= t.stale.dom());
}

/// A restore writes title, excerpt and tags as the snapshot has them, marks the post
/// as changed now, and leaves everything else of it alone: a live post stays live.
pub proof fn a_restore_brings_the_snapshot_back(post: PostRow, revision: RevisionRow, now: i64)
    ensures
        ({
            let after = restored_post(post, revision, now);
            &&& after.title == revision.title
            &&& after.excerpt == revision.excerpt
            &&& after.tags == revision.tags
            &&& after.updated_at == now
            &&& after.id == post.id
            &&& after.slug == post.slug
            &&& after.published == post.published
            &&& after.published_at == post.published_at
            &&& after.series_id == post.series_id
            &&& after.series_order == post.series_order
            &&& after.created_at == post.created_at
        }),
{
}

/// The text that a restored post is fingerprinted with: the snapshot's where it holds
/// one, be it empty or not, and otherwise what is on disk.
pub proof fn a_restored_text_is_the_snapshots(text: Seq<char>, on_disk: Option<Seq<char>>)
    ensures
        restored_body(Some(text), on_disk) == text,
        on_disk matches Some(held) ==> restored_body(None, on_disk) == held,
        restored_body(None, None).len() == 0,
{
}

}
