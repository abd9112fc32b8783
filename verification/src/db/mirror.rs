//! Bringing the cloud's posts down over the local tables.
//!
//! The cloud wins, except where that would destroy something: a post in the
//! trash is left out, a post deleted here for good does not come back, and a
//! post with edits that were never pushed is kept, with the cloud's version
//! recorded beside it.

use crate::db::history::revisions_clear;
use crate::db::series_rows::series_by_slug;
use crate::db::side_tables::{
    agreed, body_stale_set, is_tombstoned, marked_stale, observed, stage_clear, stage_set,
    sync_agree, sync_clear, sync_observe_remote,
};
use crate::db::{
    lemma_slug_holder, next_id, post_by_slug, post_create, post_delete, post_update, post_with_slug,
    refused, series_with_slug, slug_taken, Store, Tables, IDS_EXHAUSTED,
};
use crate::entities::post;
use crate::entities::post::PostRow;
use crate::entities::post_revision;
use crate::entities::post_revision::RevisionRow;
use crate::entities::post_stage;
use crate::entities::post_stage::StageRow;
use crate::entities::series;
use crate::entities::series::SeriesRow;
use crate::error::AppResult;
use crate::sync_state::{content_hash, fingerprint, has_local_change, local_changed};
use crate::table::{lemma_push_contains, rows_view, selected, Table};
use crate::text::same;
use std::collections::HashMap;
use vstd::prelude::*;

verus! {

broadcast use vstd::std_specs::hash::group_hash_axioms;

// ─── Series identity across the two databases ───────────────────────────────

/// Translates series references between this machine and the cloud.
///
/// The two number their rows independently, so every crossing goes from id to
/// slug to id.
pub struct SeriesMap {
    /// Remote id to the local id with the same slug.
    inbound: HashMap<i32, i32>,
    /// Local id to the remote id with the same slug.
    outbound: HashMap<i32, i32>,
}

/// Which ids stand for one series here and in the cloud.
pub struct SeriesPairs {
    pub inbound: Map<i32, i32>,
    pub outbound: Map<i32, i32>,
}

impl View for SeriesMap {
    type V = SeriesPairs;

    closed spec fn view(&self) -> SeriesPairs {
        SeriesPairs { inbound: self.inbound@, outbound: self.outbound@ }
    }
}

/// The pairs that the cloud's rows make with the local ones by slug.
pub open spec fn paired(series: Map<i32, SeriesRow>, remote: Seq<SeriesRow>) -> SeriesPairs
    decreases remote.len(),
{
    if remote.len() == 0 {
        SeriesPairs { inbound: Map::empty(), outbound: Map::empty() }
    } else {
        let before = paired(series, remote.drop_last());
        match series_with_slug(series, remote.last().slug) {
            Some(local) => SeriesPairs {
                inbound: before.inbound.insert(remote.last().id, local.id),
                outbound: before.outbound.insert(local.id, remote.last().id),
            },
            None => before,
        }
    }
}

/// What is sent up for a post: its series by the cloud's id, or no series where
/// the cloud has none.
pub open spec fn outbound_post(post: PostRow, pairs: SeriesPairs) -> PostRow {
    match post.series_id {
        Some(id) => if pairs.outbound.contains_key(id) {
            PostRow { series_id: Some(pairs.outbound[id]), ..post }
        } else {
            PostRow { series_id: None, series_order: None, ..post }
        },
        None => post,
    }
}

impl SeriesMap {
    /// Pairs the local series with the cloud's by slug.
    pub fn build(db: &Store, remote: &Vec<series::Model>) -> (r: Self)
        requires
            db.wf(),
        ensures
            r@ == paired(db@.series, rows_view(remote@)),
    {
        let mut map = SeriesMap { inbound: HashMap::new(), outbound: HashMap::new() };
        let mut i: usize = 0;
        proof {
            assert(rows_view(remote@).take(0) =~= Seq::<SeriesRow>::empty());
            assert(map@.inbound =~= Map::<i32, i32>::empty());
            assert(map@.outbound =~= Map::<i32, i32>::empty());
        }
        while i < remote.len()
            invariant
                i <= remote@.len(),
                db.wf(),
                map@ == paired(db@.series, rows_view(remote@).take(i as int)),
            decreases remote@.len() - i,
        {
            let row: &series::Model = &remote[i];
            let ghost upto = rows_view(remote@).take(i + 1);
            assert(upto.drop_last() =~= rows_view(remote@).take(i as int));
            assert(upto.last() == row@);
            match series_by_slug(db, row.slug.as_str()) {
                Some(local) => {
                    map.inbound.insert(row.id, local.id);
                    map.outbound.insert(local.id, row.id);
                },
                None => {},
            }
            i = i + 1;
        }
        assert(rows_view(remote@).take(i as int) =~= rows_view(remote@));
        map
    }

    /// The local id for a remote one, where a local series has that slug.
    pub fn to_local(&self, remote_id: i32) -> (r: Option<i32>)
        ensures
            match r {
                Some(id) => self@.inbound.contains_key(remote_id) && id
                    == self@.inbound[remote_id],
                None => !self@.inbound.contains_key(remote_id),
            },
    {
        match self.inbound.get(&remote_id) {
            Some(id) => Some(*id),
            None => None,
        }
    }

    /// The remote id for a local one, where the cloud has a series with that
    /// slug.
    pub fn to_remote(&self, local_id: i32) -> (r: Option<i32>)
        ensures
            match r {
                Some(id) => self@.outbound.contains_key(local_id) && id
                    == self@.outbound[local_id],
                None => !self@.outbound.contains_key(local_id),
            },
    {
        match self.outbound.get(&local_id) {
            Some(id) => Some(*id),
            None => None,
        }
    }

    /// Rewrites a post's series reference into the cloud's ids, ready to send.
    /// A series that exists only here has nothing to point at there, so the
    /// post goes up unfiled.
    pub fn apply_outbound(&self, post: &mut post::Model)
        ensures
            final(post)@ == outbound_post(old(post)@, self@),
    {
        match post.series_id {
            Some(local_id) => {
                post.series_id = self.to_remote(local_id);
                if post.series_id.is_none() {
                    post.series_order = None;
                }
            },
            None => {},
        }
    }
}

/// The series that a refreshed post belongs to here, and its place in it.
///
/// The cloud wins only where it names a series that this machine knows. No
/// series over there cannot be told from one that was never pushed, so the
/// local membership stays.
pub open spec fn resolved_series(
    remote: PostRow,
    existing: Option<PostRow>,
    pairs: SeriesPairs,
) -> (Option<i32>, Option<i32>) {
    match remote.series_id {
        Some(id) => if pairs.inbound.contains_key(id) {
            (Some(pairs.inbound[id]), remote.series_order)
        } else {
            membership(existing)
        },
        None => membership(existing),
    }
}

/// The series that a post is in, and its place in it; no place without a
/// series.
pub open spec fn membership(post: Option<PostRow>) -> (Option<i32>, Option<i32>) {
    match post {
        Some(local) => match local.series_id {
            Some(id) => (Some(id), local.series_order),
            None => (None, None),
        },
        None => (None, None),
    }
}

/// The row of an optional post.
pub open spec fn post_ref_row(m: Option<&post::Model>) -> Option<PostRow> {
    match m {
        Some(p) => Some(p@),
        None => None,
    }
}

/// The series that a refreshed post belongs to here, and its place in it.
pub fn resolve_series(
    remote: &post::Model,
    existing: Option<&post::Model>,
    series: &SeriesMap,
) -> (r: (Option<i32>, Option<i32>))
    ensures
        r == resolved_series(remote@, post_ref_row(existing), series@),
{
    if let Some(remote_id) = remote.series_id {
        if let Some(local_id) = series.to_local(remote_id) {
            return (Some(local_id), remote.series_order);
        }
    }
    match existing {
        Some(local) => match local.series_id {
            Some(id) => (Some(id), local.series_order),
            None => (None, None),
        },
        None => (None, None),
    }
}

// ─── One post ───────────────────────────────────────────────────────────────

/// The stage of a post whose publication flag is this.
pub open spec fn stage_for(published: bool) -> Seq<char> {
    if published {
        post_stage::PUBLISHED@
    } else {
        post_stage::DRAFT@
    }
}

/// The tables once the cloud's copy of a post has been taken as post `id`.
pub open spec fn taken(
    t: Tables,
    remote: PostRow,
    existing: Option<PostRow>,
    id: i32,
    pairs: SeriesPairs,
    now: i64,
) -> Tables {
    let (series_id, series_order) = resolved_series(remote, existing, pairs);
    let saved = PostRow { id, series_id, series_order, ..remote };
    Tables {
        posts: t.posts.insert(id, saved),
        stages: t.stages.insert(
            id,
            StageRow {
                post_id: id,
                stage: stage_for(remote.published),
                staged_at: remote.updated_at,
            },
        ),
        syncs: t.syncs.insert(
            id,
            agreed(id, fingerprint(saved, Seq::empty()), Some(remote.updated_at), now),
        ),
        stale: if existing matches Some(local) && local.updated_at != remote.updated_at {
            marked_stale(t.stale, remote.slug, now)
        } else {
            t.stale
        },
        ..t
    }
}

/// There are edits of this post here that the cloud has not accepted.
pub open spec fn has_unpushed_work(t: Tables, id: i32) -> bool {
    t.syncs.contains_key(id) && has_local_change(t.syncs[id])
}

/// The tables once one of the cloud's posts has been pulled.
pub open spec fn pulled(t: Tables, remote: PostRow, pairs: SeriesPairs, now: i64) -> Tables {
    match post_with_slug(t.posts, remote.slug) {
        Some(local) => if t.trash.contains_key(local.id) {
            t
        } else if has_unpushed_work(t, local.id) {
            Tables {
                syncs: t.syncs.insert(
                    local.id,
                    observed(t.syncs[local.id], remote.updated_at),
                ),
                ..t
            }
        } else {
            taken(t, remote, Some(local), local.id, pairs, now)
        },
        None => if t.tombstones.contains_key(remote.slug) {
            t
        } else {
            taken(t, remote, None, next_id(t.posts) as i32, pairs, now)
        },
    }
}

/// Pulling this post needs an id, and there is none left.
pub open spec fn needs_missing_id(t: Tables, remote: PostRow) -> bool {
    !slug_taken(t.posts, remote.slug) && !t.tombstones.contains_key(remote.slug) && next_id(
        t.posts,
    ) > i32::MAX
}

/// Whether a post has edits that the cloud has not accepted.
pub fn unpushed_work(db: &Store, id: i32) -> (r: bool)
    requires
        db.wf(),
    ensures
        r == has_unpushed_work(db@, id),
{
    match db.syncs.get(&id) {
        Some(row) => local_changed(row),
        None => false,
    }
}

/// Pulls one of the cloud's posts into the local tables, matched by slug.
///
/// The cloud wins unless this machine has changes of its own that were never
/// pushed: overwriting those would silently delete them. A post in the trash is
/// left alone, and so is one that was deleted here for good.
pub fn upsert_post_from_remote(
    db: &mut Store,
    remote: post::Model,
    series: &SeriesMap,
    now: i64,
) -> (r: AppResult<()>)
    requires
        old(db).wf(),
    ensures
        final(db).wf(),
        match r {
            Ok(_) => {
                &&& !needs_missing_id(old(db)@, remote@)
                &&& final(db)@ == pulled(old(db)@, remote@, series@, now)
            },
            Err(e) => {
                &&& needs_missing_id(old(db)@, remote@)
                &&& refused(e, IDS_EXHAUSTED)
                &&& final(db)@ == old(db)@
            },
        },
{
    let ghost t = db@;
    let existing: Option<post::Model> = post_by_slug(db, remote.slug.as_str());
    match &existing {
        Some(local) => {
            if db.trash.has(&local.id) {
                return Ok(());
            }
            if unpushed_work(db, local.id) {
                let _seen = sync_observe_remote(db, local.id, remote.updated_at);
                return Ok(());
            }
        },
        None => {
            if is_tombstoned(db, remote.slug.as_str()) {
                return Ok(());
            }
        },
    }
    let mut model: post::Model = remote;
    let remote_updated_at: i64 = model.updated_at;
    let (series_id, series_order) = resolve_series(&model, existing.as_ref(), series);
    model.series_id = series_id;
    model.series_order = series_order;
    let (saved, moved) = match existing {
        Some(local) => {
            proof {
                lemma_slug_holder(t.posts, local.id, model.slug@);
            }
            model.id = local.id;
            let moved: bool = local.updated_at != remote_updated_at;
            match post_update(db, model) {
                Ok(saved) => (saved, moved),
                Err(e) => {
                    return Err(e);
                },
            }
        },
        None => match post_create(db, model) {
            Ok(saved) => (saved, false),
            Err(e) => {
                return Err(e);
            },
        },
    };
    let stage: &'static str = if saved.published {
        post_stage::PUBLISHED
    } else {
        post_stage::DRAFT
    };
    let staged = stage_set(
        db,
        post_stage::Model {
            post_id: saved.id,
            stage: stage.to_owned(),
            staged_at: saved.updated_at,
        },
    );
    let empty: String = String::new();
    let hash: String = content_hash(&saved, empty.as_str());
    let agreement = sync_agree(db, saved.id, hash, Some(remote_updated_at), now);
    if moved {
        body_stale_set(db, saved.slug.as_str(), now);
    }
    assert(db@ == pulled(t, remote@, series@, now));
    Ok(())
}

// ─── The whole library ──────────────────────────────────────────────────────

/// One of the cloud's posts has this slug.
pub open spec fn remote_has(remote: Seq<PostRow>, slug: Seq<char>) -> bool {
    exists|i: int| 0 <= i < remote.len() && (#[trigger] remote[i]).slug == slug
}

/// The tables without the tombstones whose post the cloud no longer has: there
/// is nothing left for them to keep out.
pub open spec fn spent_tombstones_cleared(t: Tables, remote: Seq<PostRow>) -> Tables {
    Tables {
        tombstones: Map::new(
            |s: Seq<char>| t.tombstones.contains_key(s) && remote_has(remote, s),
            |s: Seq<char>| t.tombstones[s],
        ),
        ..t
    }
}

/// The tables once all of the cloud's posts have been pulled, in their order.
pub open spec fn all_pulled(
    t: Tables,
    remote: Seq<PostRow>,
    pairs: SeriesPairs,
    now: i64,
) -> Tables
    decreases remote.len(),
{
    if remote.len() == 0 {
        t
    } else {
        pulled(all_pulled(t, remote.drop_last(), pairs, now), remote.last(), pairs, now)
    }
}

/// A local post that goes because the cloud does not have it: it is not in the
/// trash, and everything in it was pushed.
pub open spec fn gone_upstream(t: Tables, remote: Seq<PostRow>, id: i32) -> bool {
    &&& t.posts.contains_key(id)
    &&& !remote_has(remote, t.posts[id].slug)
    &&& !t.trash.contains_key(id)
    &&& !has_unpushed_work(t, id)
}

pub open spec fn all_gone_upstream(t: Tables, remote: Seq<PostRow>) -> Set<i32> {
    Set::new(|id: i32| gone_upstream(t, remote, id))
}

/// The tables without these posts, and without what is kept about them.
pub open spec fn without_posts(t: Tables, gone: Set<i32>) -> Tables {
    Tables {
        posts: t.posts.remove_keys(gone),
        stages: t.stages.remove_keys(gone),
        syncs: t.syncs.remove_keys(gone),
        revisions: selected::<post_revision::Model>(
            t.revisions,
            |r: RevisionRow| !gone.contains(r.post_id),
        ),
        ..t
    }
}

/// The tables after a refresh.
pub open spec fn mirrored(
    t: Tables,
    remote: Seq<PostRow>,
    pairs: SeriesPairs,
    now: i64,
) -> Tables {
    let up = all_pulled(spent_tombstones_cleared(t, remote), remote, pairs, now);
    without_posts(up, all_gone_upstream(up, remote))
}

/// No post runs out of ids on the way.
pub open spec fn ids_suffice(
    t: Tables,
    remote: Seq<PostRow>,
    pairs: SeriesPairs,
    now: i64,
) -> bool {
    let start = spent_tombstones_cleared(t, remote);
    forall|n: int|
        0 <= n < remote.len() ==> !needs_missing_id(
            all_pulled(start, #[trigger] remote.take(n), pairs, now),
            remote[n],
        )
}

/// What a mirror did.
#[derive(Debug, PartialEq, Eq)]
pub struct Mirrored {
    pub upserted: usize,
    pub deleted: usize,
}

/// Whether one of `remote` has this slug.
fn has_remote(remote: &Vec<post::Model>, slug: &str) -> (r: bool)
    ensures
        r == remote_has(rows_view(remote@), slug@),
{
    let mut i: usize = 0;
    while i < remote.len()
        invariant
            i <= remote@.len(),
            forall|j: int| 0 <= j < i ==> (#[trigger] rows_view(remote@)[j]).slug != slug@,
        decreases remote@.len() - i,
    {
        if same(remote[i].slug.as_str(), slug) {
            assert(rows_view(remote@)[i as int].slug == slug@);
            return true;
        }
        i = i + 1;
    }
    false
}

/// Clears the tombstones whose post the cloud no longer has.
fn clear_spent_tombstones(db: &mut Store, remote: &Vec<post::Model>)
    requires
        old(db).wf(),
    ensures
        final(db).wf(),
        final(db)@ == spent_tombstones_cleared(old(db)@, rows_view(remote@)),
{
    let ghost t = db@;
    let ghost rv = rows_view(remote@);
    let mut kept: Table<crate::entities::post_tombstone::Model> = Table::new();
    let mut i: usize = 0;
    proof {
        db.tombstones.lemma_listed();
        kept.lemma_listed();
    }
    while i < db.tombstones.len()
        invariant
            i <= db.tombstones.listed().len(),
            db.wf(),
            kept.wf(),
            t == db@,
            rv == rows_view(remote@),
            forall|s: Seq<char>| #[trigger]
                kept@.contains_key(s) <==> remote_has(rv, s) && exists|j: int|
                    0 <= j < i && (#[trigger] db.tombstones.listed()[j]).slug == s,
            forall|s: Seq<char>| #[trigger]
                kept@.contains_key(s) ==> t.tombstones.contains_key(s) && kept@[s]
                    == t.tombstones[s],
        decreases db.tombstones.listed().len() - i,
    {
        let row = db.tombstones.row(i);
        proof {
            db.tombstones.lemma_listed();
            assert(db.tombstones.listed().contains(row@));
        }
        let ghost before = kept@;
        if has_remote(remote, row.slug.as_str()) {
            kept.put(row.clone());
        }
        proof {
            assert forall|s: Seq<char>| #[trigger]
                kept@.contains_key(s) <==> remote_has(rv, s) && exists|j: int|
                    0 <= j < i + 1 && (#[trigger] db.tombstones.listed()[j]).slug == s by {
                if kept@.contains_key(s) {
                    if before.contains_key(s) {
                        let j = choose|j: int|
                            0 <= j < i && (#[trigger] db.tombstones.listed()[j]).slug == s;
                        assert(db.tombstones.listed()[j].slug == s);
                    } else {
                        assert(db.tombstones.listed()[i as int].slug == s);
                    }
                }
                if remote_has(rv, s) && exists|j: int|
                    0 <= j < i + 1 && (#[trigger] db.tombstones.listed()[j]).slug == s {
                    let j = choose|j: int|
                        0 <= j < i + 1 && (#[trigger] db.tombstones.listed()[j]).slug == s;
                    if j < i {
                        assert(before.contains_key(s));
                    }
                }
            }
        }
        i = i + 1;
    }
    proof {
        assert forall|s: Seq<char>| kept@.contains_key(s) <==> t.tombstones.contains_key(s)
            && remote_has(rv, s) by {
            if t.tombstones.contains_key(s) && remote_has(rv, s) {
                assert(db.tombstones.listed().contains(t.tombstones[s]));
                let j = choose|j: int|
                    0 <= j < db.tombstones.listed().len() && db.tombstones.listed()[j]
                        == t.tombstones[s];
                assert(db.tombstones.listed()[j].slug == s);
            }
        }
        kept.lemma_listed();
    }
    db.tombstones = kept;
    proof {
        assert(db@.tombstones =~= spent_tombstones_cleared(t, rv).tombstones);
    }
}

/// Removes a post together with its stage, its sync record and its history.
fn drop_post(db: &mut Store, id: i32)
    requires
        old(db).wf(),
    ensures
        final(db).wf(),
        final(db)@ == without_posts(old(db)@, set![id]),
{
    let ghost t = db@;
    stage_clear(db, id);
    sync_clear(db, id);
    revisions_clear(db, id);
    post_delete(db, id);
    proof {
        let w = without_posts(t, set![id]);
        assert(db@.posts =~= w.posts);
        assert(db@.stages =~= w.stages);
        assert(db@.syncs =~= w.syncs);
        assert(db@.revisions =~= w.revisions);
    }
}

/// Taking posts out one after another is taking them out together.
proof fn lemma_without_one_more(t: Tables, gone: Set<i32>, id: i32)
    ensures
        without_posts(without_posts(t, gone), set![id]) == without_posts(t, gone.insert(id)),
{
    let a = without_posts(without_posts(t, gone), set![id]);
    let b = without_posts(t, gone.insert(id));
    assert(a.posts =~= b.posts);
    assert(a.stages =~= b.stages);
    assert(a.syncs =~= b.syncs);
    assert(a.revisions =~= b.revisions);
}

/// Removes the local posts that the cloud does not have, and reports how many.
fn drop_gone_upstream(db: &mut Store, remote: &Vec<post::Model>) -> (n: usize)
    requires
        old(db).wf(),
    ensures
        final(db).wf(),
        final(db)@ == without_posts(
            old(db)@,
            all_gone_upstream(old(db)@, rows_view(remote@)),
        ),
        n == all_gone_upstream(old(db)@, rows_view(remote@)).len(),
{
    let ghost t = db@;
    let ghost rv = rows_view(remote@);
    let ghost listed = db.posts.listed();
    let mut ids: Vec<i32> = Vec::new();
    let mut i: usize = 0;
    while i < db.posts.len()
        invariant
            i <= listed.len(),
            listed == db.posts.listed(),
            ids@.len() == i,
            forall|j: int| 0 <= j < i ==> ids@[j] == (#[trigger] listed[j]).id,
        decreases listed.len() - i,
    {
        ids.push(db.posts.row(i).id);
        i = i + 1;
    }
    let ghost mut gone: Set<i32> = Set::empty();
    let mut n: usize = 0;
    let mut k: usize = 0;
    proof {
        db.posts.lemma_listed();
        let w = without_posts(t, gone);
        assert(w.posts =~= t.posts);
        assert(w.stages =~= t.stages);
        assert(w.syncs =~= t.syncs);
        assert(w.revisions =~= t.revisions);
        assert forall|a: int, b: int| 0 <= a < b < ids@.len() implies ids@[a] != ids@[b] by {
            assert(listed.contains(listed[a]) && listed.contains(listed[b]));
            assert(listed[a] != listed[b]);
        }
        assert forall|a: int| 0 <= a < ids@.len() implies t.posts.contains_key(
            #[trigger] ids@[a],
        ) by {
            assert(listed.contains(listed[a]));
        }
        assert forall|id: i32| t.posts.contains_key(id) implies ids@.contains(id) by {
            assert(listed.contains(t.posts[id]));
            let p = choose|p: int| 0 <= p < listed.len() && listed[p] == t.posts[id];
            assert(ids@[p] == id);
        }
    }
    while k < ids.len()
        invariant
            k <= ids@.len(),
            n <= k,
            rv == rows_view(remote@),
            db.wf(),
            gone.finite(),
            n == gone.len(),
            db@ == without_posts(t, gone),
            forall|a: int, b: int| 0 <= a < b < ids@.len() ==> ids@[a] != ids@[b],
            forall|a: int| 0 <= a < ids@.len() ==> t.posts.contains_key(#[trigger] ids@[a]),
            forall|id: i32| #[trigger]
                gone.contains(id) <==> gone_upstream(t, rv, id) && ids@.take(k as int).contains(
                    id,
                ),
        decreases ids@.len() - k,
    {
        let id: i32 = ids[k];
        let ghost before = gone;
        proof {
            assert(ids@.take(k + 1) =~= ids@.take(k as int).push(id));
            lemma_push_contains(ids@.take(k as int), id);
            assert(!ids@.take(k as int).contains(id)) by {
                if ids@.take(k as int).contains(id) {
                    let a = choose|a: int| 0 <= a < k && ids@.take(k as int)[a] == id;
                    assert(ids@[a] == ids@[k as int]);
                }
            }
            assert(!gone.contains(id));
        }
        let doomed: bool = match db.posts.get(&id) {
            Some(local) => !has_remote(remote, local.slug.as_str()) && !db.trash.has(&id)
                && !unpushed_work(db, id),
            None => false,
        };
        assert(doomed == gone_upstream(t, rv, id));
        if doomed {
            drop_post(db, id);
            n = n + 1;
            proof {
                lemma_without_one_more(t, gone, id);
                gone = gone.insert(id);
            }
        }
        k = k + 1;
    }
    proof {
        assert(ids@.take(k as int) =~= ids@);
        assert(gone =~= all_gone_upstream(t, rv));
    }
    n
}

/// Mirrors the local posts onto the cloud's, matched by slug.
///
/// A post without an id left for it stops the refresh where it stands: the
/// posts before it have been pulled, and nothing has been removed.
pub fn mirror_posts(
    db: &mut Store,
    remote: Vec<post::Model>,
    remote_series: &Vec<series::Model>,
    now: i64,
) -> (r: AppResult<Mirrored>)
    requires
        old(db).wf(),
    ensures
        final(db).wf(),
        ({
            let rv = rows_view(remote@);
            let pairs = paired(old(db)@.series, rows_view(remote_series@));
            let start = spent_tombstones_cleared(old(db)@, rv);
            match r {
                Ok(m) => {
                    let up = all_pulled(start, rv, pairs, now);
                    &&& ids_suffice(old(db)@, rv, pairs, now)
                    &&& m.upserted == remote@.len()
                    &&& m.deleted == all_gone_upstream(up, rv).len()
                    &&& final(db)@ == mirrored(old(db)@, rv, pairs, now)
                },
                Err(e) => {
                    &&& refused(e, IDS_EXHAUSTED)
                    &&& exists|n: int|
                        #![trigger rv.take(n)]
                        0 <= n < rv.len() && final(db)@ == all_pulled(
                            start,
                            rv.take(n),
                            pairs,
                            now,
                        ) && needs_missing_id(final(db)@, rv[n])
                },
            }
        }),
{
    let series: SeriesMap = SeriesMap::build(db, remote_series);
    let ghost rv = rows_view(remote@);
    clear_spent_tombstones(db, &remote);
    let ghost start = db@;
    let mut i: usize = 0;
    assert(rv.take(0) =~= Seq::<PostRow>::empty());
    while i < remote.len()
        invariant
            i <= remote@.len(),
            rv == rows_view(remote@),
            db.wf(),
            series@ == paired(old(db)@.series, rows_view(remote_series@)),
            start == spent_tombstones_cleared(old(db)@, rv),
            db@ == all_pulled(start, rv.take(i as int), series@, now),
            forall|n: int|
                0 <= n < i ==> !needs_missing_id(
                    all_pulled(start, #[trigger] rv.take(n), series@, now),
                    rv[n],
                ),
        decreases remote@.len() - i,
    {
        proof {
            assert(rv.take(i + 1).drop_last() =~= rv.take(i as int));
            assert(rv.take(i + 1).last() == rv[i as int]);
        }
        match upsert_post_from_remote(db, remote[i].clone(), &series, now) {
            Ok(_) => {},
            Err(e) => {
                return Err(e);
            },
        }
        i = i + 1;
    }
    assert(rv.take(i as int) =~= rv);
    let deleted: usize = drop_gone_upstream(db, &remote);
    Ok(Mirrored { upserted: remote.len(), deleted })
}

}
