//! Taking the picture of a post before an edit overwrites it.
//!
//! Every path that overwrites a post records first what it is about to
//! overwrite. The flushes of one typing session count as one edit. The body comes
//! from this machine's cache and from nowhere else: what the cloud holds is not what
//! is about to be overwritten.

use crate::db::history::{
    history, is_history, lemma_history, newer, of_post, recorded, recording_holds_the_cap,
    revision_add, revision_head, REVISIONS_PER_POST,
};
use crate::db::{next_id, refused, Store, Tables, IDS_EXHAUSTED};
use crate::entities::post;
use crate::entities::post::PostRow;
use crate::entities::post_revision;
use crate::entities::post_revision::RevisionRow;
use crate::error::{AppError, AppResult};
use crate::text::{copy_opt, opt_view, same, same_opt};
use vstd::prelude::*;

verus! {

/// A snapshot of a post with this body, before it is stored.
pub open spec fn snapshot_of(
    post: PostRow,
    origin: Seq<char>,
    body: Option<Seq<char>>,
    now: i64,
) -> RevisionRow {
    RevisionRow {
        id: 0,
        post_id: post.id,
        title: post.title,
        excerpt: post.excerpt,
        tags: post.tags,
        published: post.published,
        body,
        origin,
        created_at: now,
    }
}

/// Two snapshots that would restore the same. Where they come from and when
/// they were taken differ by nature and say nothing about that.
pub open spec fn same_content(a: RevisionRow, b: RevisionRow) -> bool {
    &&& a.title == b.title
    &&& a.excerpt == b.excerpt
    &&& a.tags == b.tags
    &&& a.published == b.published
    &&& a.body == b.body
}

/// Would this snapshot be a second copy of the newest one stored?
///
/// Storing repeats would push the version that somebody wants out of a history
/// that is cut to a number of snapshots.
pub fn duplicates_head(candidate: &post_revision::Model, head: &post_revision::Model) -> (r: bool)
    ensures
        r == same_content(candidate@, head@),
{
    same(candidate.title.as_str(), head.title.as_str()) && same_opt(
        &candidate.excerpt,
        &head.excerpt,
    ) && same_opt(&candidate.tags, &head.tags) && candidate.published == head.published && same_opt(
        &candidate.body,
        &head.body,
    )
}

/// The snapshot is a second copy of the newest one of its post.
pub open spec fn repeats_head(t: Tables, s: RevisionRow) -> bool {
    let h = history(t.revisions, s.post_id);
    h.len() > 0 && same_content(s, h[0])
}

/// How long after a flush of the editor its next ones add nothing to the history, in
/// seconds.
pub const AUTOSAVE_COALESCE_SECS: i64 = 300;

/// The snapshot belongs to the typing session that the newest one of its post was
/// taken in: both are of a flush of the editor, and not long apart.
pub open spec fn coalesces(t: Tables, s: RevisionRow) -> bool {
    let h = history(t.revisions, s.post_id);
    h.len() > 0 && same_session(s, h[0])
}

/// Both snapshots are of a flush of the editor, and the second was taken no more than
/// [`AUTOSAVE_COALESCE_SECS`] before the first.
pub open spec fn same_session(s: RevisionRow, head: RevisionRow) -> bool {
    &&& s.origin == post_revision::AUTOSAVE@
    &&& head.origin == post_revision::AUTOSAVE@
    &&& 0 <= s.created_at - head.created_at <= AUTOSAVE_COALESCE_SECS
}

/// Is this snapshot part of the typing session that the newest one was taken in?
///
/// The version from before the session is what somebody wants back. One row for each
/// flush would push it out of the history within the hour.
pub fn continues_session(candidate: &post_revision::Model, head: &post_revision::Model) -> (r: bool)
    ensures
        r == same_session(candidate@, head@),
{
    same(candidate.origin.as_str(), post_revision::AUTOSAVE) && same(
        head.origin.as_str(),
        post_revision::AUTOSAVE,
    ) && head.created_at <= candidate.created_at && candidate.created_at as i128
        - head.created_at as i128 <= AUTOSAVE_COALESCE_SECS as i128
}

/// The snapshot is not stored: it repeats the newest one, or belongs to the same
/// typing session.
pub open spec fn adds_nothing(t: Tables, s: RevisionRow) -> bool {
    repeats_head(t, s) || coalesces(t, s)
}

/// Records what a post looks like now, with its body as this machine holds it.
/// A second copy of the newest snapshot is not stored, nor is a flush of the editor
/// that closely follows another.
pub fn record(
    db: &mut Store,
    post: &post::Model,
    origin: &str,
    body: Option<String>,
    now: i64,
) -> (r: AppResult<Option<post_revision::Model>>)
    requires
        old(db).wf(),
    ensures
        final(db).wf(),
        ({
            let s = snapshot_of(post@, origin@, opt_view(body), now);
            match r {
                Ok(None) => adds_nothing(old(db)@, s) && final(db)@ == old(db)@,
                Ok(Some(m)) => {
                    &&& !adds_nothing(old(db)@, s)
                    &&& old(db)@.posts.contains_key(post.id)
                    &&& next_id(old(db)@.revisions) <= i32::MAX
                    &&& m@ == (RevisionRow { id: next_id(old(db)@.revisions) as i32, ..s })
                    &&& final(db)@ == (Tables {
                        revisions: recorded(old(db)@.revisions, m@),
                        ..old(db)@
                    })
                },
                Err(e) => {
                    &&& !adds_nothing(old(db)@, s)
                    &&& final(db)@ == old(db)@
                    &&& if old(db)@.posts.contains_key(post.id) {
                        next_id(old(db)@.revisions) > i32::MAX && refused(e, IDS_EXHAUSTED)
                    } else {
                        e == AppError::PostVanished(post.id)
                    }
                },
            }
        }),
{
    let candidate = post_revision::Model {
        id: 0,
        post_id: post.id,
        title: post.title.clone(),
        excerpt: copy_opt(&post.excerpt),
        tags: copy_opt(&post.tags),
        published: post.published,
        body,
        origin: origin.to_owned(),
        created_at: now,
    };
    match revision_head(db, post.id) {
        Some(head) => {
            if duplicates_head(&candidate, &head) || continues_session(&candidate, &head) {
                return Ok(None);
            }
        },
        None => {},
    }
    match revision_add(db, candidate) {
        Ok(m) => Ok(Some(m)),
        Err(e) => Err(e),
    }
}

/// The tables after a snapshot was tried: one that cannot be stored does not
/// stop the edit that it was taken for.
pub open spec fn after_snapshot(
    t: Tables,
    post: PostRow,
    origin: Seq<char>,
    body: Option<Seq<char>>,
    now: i64,
) -> Tables {
    let s = snapshot_of(post, origin, body, now);
    if adds_nothing(t, s) || !t.posts.contains_key(post.id) || next_id(t.revisions) > i32::MAX {
        t
    } else {
        Tables {
            revisions: recorded(
                t.revisions,
                RevisionRow { id: next_id(t.revisions) as i32, ..s },
            ),
            ..t
        }
    }
}

/// [`record`], for the paths where failing to keep the older version must not
/// throw away the newer one.
pub fn record_or_skip(
    db: &mut Store,
    post: &post::Model,
    origin: &str,
    body: Option<String>,
    now: i64,
)
    requires
        old(db).wf(),
    ensures
        final(db).wf(),
        final(db)@ == after_snapshot(old(db)@, post@, origin@, opt_view(body), now),
{
    let _done = record(db, post, origin, body, now);
}

/// The post's row as a snapshot would restore it.
pub open spec fn applied(post: PostRow, revision: RevisionRow) -> PostRow {
    PostRow {
        title: revision.title,
        excerpt: revision.excerpt,
        tags: revision.tags,
        ..post
    }
}

/// The post's row as one of its snapshots would restore it: title, excerpt and
/// tags from the snapshot, and everything else left alone. `published` is not
/// restored: rolling content back must not take a live post off the blog.
pub fn apply(post: post::Model, revision: &post_revision::Model) -> (r: post::Model)
    ensures
        r@ == applied(post@, revision@),
{
    let mut out: post::Model = post;
    out.title = revision.title.clone();
    out.excerpt = copy_opt(&revision.excerpt);
    out.tags = copy_opt(&revision.tags);
    out
}

// ─── Laws ───────────────────────────────────────────────────────────────────

/// Restoring content leaves publication and identity alone.
pub proof fn restoring_leaves_publication_and_identity(post: PostRow, revision: RevisionRow)
    ensures
        applied(post, revision).id == post.id,
        applied(post, revision).slug == post.slug,
        applied(post, revision).published == post.published,
        applied(post, revision).published_at == post.published_at,
        applied(post, revision).series_id == post.series_id,
        applied(post, revision).series_order == post.series_order,
        applied(post, revision).created_at == post.created_at,
        applied(post, revision).updated_at == post.updated_at,
{
}

/// A restore can itself be undone: applying the snapshot that was taken of a
/// post brings it back, whatever was applied in between.
pub proof fn a_restore_can_be_undone(
    post: PostRow,
    other: RevisionRow,
    origin: Seq<char>,
    body: Option<Seq<char>>,
    now: i64,
)
    ensures
        applied(applied(post, other), snapshot_of(post, origin, body, now)) == post,
{
}

/// A flush of the editor that follows another by no more than
/// [`AUTOSAVE_COALESCE_SECS`] adds nothing to the history, whatever was typed in
/// between.
pub proof fn a_typing_session_adds_one_version(
    t: Tables,
    post: PostRow,
    body: Option<Seq<char>>,
    now: i64,
)
    requires
        history(t.revisions, post.id).len() > 0,
        history(t.revisions, post.id)[0].origin == post_revision::AUTOSAVE@,
        0 <= now - history(t.revisions, post.id)[0].created_at <= AUTOSAVE_COALESCE_SECS,
    ensures
        after_snapshot(t, post, post_revision::AUTOSAVE@, body, now) == t,
{
}

/// No other edit is passed over for following a flush of the editor: what it
/// overwrites is stored, unless the newest snapshot says the same.
pub proof fn only_flushes_coalesce(
    t: Tables,
    post: PostRow,
    origin: Seq<char>,
    body: Option<Seq<char>>,
    now: i64,
)
    requires
        origin != post_revision::AUTOSAVE@,
    ensures
        ({
            let s = snapshot_of(post, origin, body, now);
            adds_nothing(t, s) == repeats_head(t, s)
        }),
{
}

/// Taking the same snapshot twice stores it once.
pub proof fn a_repeated_snapshot_is_not_stored(
    t: Tables,
    post: PostRow,
    origin: Seq<char>,
    body: Option<Seq<char>>,
    now: i64,
)
    requires
        repeats_head(t, snapshot_of(post, origin, body, now)),
    ensures
        after_snapshot(t, post, origin, body, now) == t,
{
}

/// A snapshot says of a post all that an edit may overwrite, as it stands.
pub proof fn a_snapshot_is_the_post(
    post: PostRow,
    origin: Seq<char>,
    body: Option<Seq<char>>,
    now: i64,
)
    ensures
        ({
            let s = snapshot_of(post, origin, body, now);
            &&& s.post_id == post.id
            &&& s.title == post.title
            &&& s.excerpt == post.excerpt
            &&& s.tags == post.tags
            &&& s.published == post.published
            &&& s.body == body
            &&& s.origin == origin
            &&& s.created_at == now
        }),
{
}

/// The newest snapshot of the history says the same as this post with this text.
pub open spec fn said_already(
    h: Seq<RevisionRow>,
    post: PostRow,
    body: Option<Seq<char>>,
) -> bool {
    h.len() > 0 && h[0].title == post.title && h[0].excerpt == post.excerpt && h[0].tags
        == post.tags && h[0].published == post.published && h[0].body == body
}

/// Whatever overwrites a post, the version from before stands at the head of its
/// history afterwards, with its text, and the older ones behind it: unless the head
/// said the same already, or both are flushes of one typing session. Of any other
/// post nothing changes.
pub proof fn the_version_before_is_kept(
    t: Tables,
    post: PostRow,
    origin: Seq<char>,
    body: Option<Seq<char>>,
    now: i64,
    h: Seq<RevisionRow>,
)
    requires
        crate::table::keyed::<post_revision::Model>(t.revisions),
        t.revisions.dom().finite(),
        t.posts.contains_key(post.id),
        next_id(t.revisions) <= i32::MAX,
        is_history(h, t.revisions, post.id),
        h.len() > 0 ==> h[0].created_at <= now,
        !said_already(h, post, body),
        !(origin == "autosave"@ && h.len() > 0 && h[0].origin == "autosave"@ && now
            - h[0].created_at <= AUTOSAVE_COALESCE_SECS),
    ensures
        ({
            let after = after_snapshot(t, post, origin, body, now);
            let g = history(after.revisions, post.id);
            &&& g.len() > 0
            &&& g[0].title == post.title
            &&& g[0].excerpt == post.excerpt
            &&& g[0].tags == post.tags
            &&& g[0].published == post.published
            &&& g[0].body == body
            &&& g[0].origin == origin
            &&& g[0].created_at == now
            &&& g[0].post_id == post.id
            &&& forall|i: int| 0 < i < g.len() ==> g[i] == #[trigger] h[i - 1]
            &&& g.len() == if h.len() < REVISIONS_PER_POST {
                h.len() + 1
            } else {
                REVISIONS_PER_POST as nat
            }
            &&& after == (Tables { revisions: after.revisions, ..t })
        }),
{
    let id = next_id(t.revisions) as i32;
    let s = RevisionRow { id, ..snapshot_of(post, origin, body, now) };
    lemma_history(h, t.revisions, post.id);
    assert(!adds_nothing(t, snapshot_of(post, origin, body, now)));
    let all = t.revisions.insert(s.id, s);
    let g = seq![s] + h;
    assert(!t.revisions.contains_key(id)) by {
        if t.revisions.contains_key(id) {
            crate::db::refresh_laws::next_id_is_free(t.revisions, id);
        }
    }
    let before = of_post(t.revisions, post.id);
    let wider = of_post(all, post.id);
    assert forall|v: RevisionRow| #[trigger] g.contains(v) <==> wider.contains_key(v.id)
        && wider[v.id] == v by {
        if g.contains(v) {
            let i = choose|i: int| 0 <= i < g.len() && g[i] == v;
            if i > 0 {
                assert(h[i - 1] == v);
                assert(h.contains(v));
                assert(before.contains_key(v.id));
            }
        }
        if wider.contains_key(v.id) && wider[v.id] == v {
            if v.id == id {
                assert(g[0] == v);
            } else {
                assert(before.contains_key(v.id) && before[v.id] == v);
                assert(h.contains(v));
                let i = choose|i: int| 0 <= i < h.len() && h[i] == v;
                assert(g[i + 1] == v);
            }
        }
    }
    assert forall|i: int, j: int| 0 <= i < j < g.len() implies newer(g[i], g[j]) by {
        assert(g[j] == h[j - 1]);
        assert(h.contains(h[j - 1]));
        if i == 0 {
            crate::db::refresh_laws::next_id_is_free(t.revisions, h[j - 1].id);
            if j > 1 {
                assert(newer(h[0], h[j - 1]));
            }
        } else {
            assert(newer(h[i - 1], h[j - 1]));
        }
    }
    assert(g.no_duplicates()) by {
        assert forall|i: int, j: int| 0 <= i < g.len() && 0 <= j < g.len() && i != j implies g[i]
            != g[j] by {
            if i < j {
                assert(newer(g[i], g[j]));
            } else {
                assert(newer(g[j], g[i]));
            }
        }
    }
    assert(is_history(g, all, post.id));
    recording_holds_the_cap(t.revisions, s, g);
    assert(g[0] == s);
}

/// Restoring writes what the snapshot says, field by field.
pub proof fn a_restore_writes_the_snapshot(post: PostRow, revision: RevisionRow)
    ensures
        applied(post, revision).title == revision.title,
        applied(post, revision).excerpt == revision.excerpt,
        applied(post, revision).tags == revision.tags,
{
}

/// What the newest snapshot says already is not stored again, whoever edits and
/// whenever.
pub proof fn what_is_known_is_not_kept_twice(
    t: Tables,
    post: PostRow,
    origin: Seq<char>,
    body: Option<Seq<char>>,
    now: i64,
    h: Seq<RevisionRow>,
)
    requires
        crate::table::keyed::<post_revision::Model>(t.revisions),
        is_history(h, t.revisions, post.id),
        said_already(h, post, body),
    ensures
        after_snapshot(t, post, origin, body, now) == t,
{
    lemma_history(h, t.revisions, post.id);
}

}
