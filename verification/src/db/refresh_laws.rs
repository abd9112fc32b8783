//! What a refresh promises of the library as a whole.

use crate::db::mirror::{
    all_gone_upstream, all_pulled, gone_upstream, has_unpushed_work, ids_suffice, membership,
    mirrored, needs_missing_id, outbound_post, paired, pulled, remote_has, resolved_series,
    spent_tombstones_cleared, taken, SeriesPairs,
};
use crate::db::side_tables::{accounted, edited, observed, stage_of, sync_of};
use crate::db::{
    has_slug, is_largest, lemma_next_id_is_free, lemma_slug_holder, next_id, post_with_slug,
    series_has_slug, series_slug_taken, slug_taken, unique_series_slugs, Tables,
};
use crate::entities::post::PostRow;
use crate::entities::post_sync::SyncRow;
use crate::entities::series;
use crate::entities::series::SeriesRow;
use crate::sync_state::{has_local_change, has_remote_change, state_of, SyncState};
use crate::table::keyed;
use vstd::prelude::*;

verus! {

// ─── Ids ────────────────────────────────────────────────────────────────────

proof fn lemma_set_has_largest(s: Set<i32>)
    requires
        s.finite(),
        exists|k: i32| s.contains(k),
    ensures
        exists|k: i32| s.contains(k) && forall|j: i32| s.contains(j) ==> j <= k,
    decreases s.len(),
{
    let a = choose|k: i32| s.contains(k);
    let rest = s.remove(a);
    if exists|k: i32| rest.contains(k) {
        lemma_set_has_largest(rest);
        let b = choose|k: i32| rest.contains(k) && forall|j: i32| rest.contains(j) ==> j <= k;
        let top = if a < b { b } else { a };
        assert forall|j: i32| s.contains(j) implies j <= top by {
            if j != a {
                assert(rest.contains(j));
            }
        }
        assert(s.contains(top));
    } else {
        assert forall|j: i32| s.contains(j) implies j <= a by {
            if j != a {
                assert(rest.contains(j));
            }
        }
    }
}

/// The next id is used by no row.
pub proof fn next_id_is_free<V>(map: Map<i32, V>, k: i32)
    requires
        map.dom().finite(),
        map.contains_key(k),
    ensures
        k < next_id(map),
{
    assert(map.dom().contains(k));
    lemma_set_has_largest(map.dom());
    let top = choose|k: i32|
        map.dom().contains(k) && forall|j: i32| map.dom().contains(j) ==> j <= k;
    assert(is_largest(map, top)) by {
        assert forall|j: i32| map.contains_key(j) implies j <= top by {
            assert(map.dom().contains(j));
        }
    }
    lemma_next_id_is_free(map, k);
}

// ─── One post ───────────────────────────────────────────────────────────────

/// Pulling one post keeps the tables sound, and touches only the post with its
/// slug.
pub proof fn pulling_touches_one_post(t: Tables, remote: PostRow, pairs: SeriesPairs, now: i64)
    requires
        t.wf(),
        !needs_missing_id(t, remote),
    ensures
        pulled(t, remote, pairs, now).wf(),
        t.no_orphans() ==> pulled(t, remote, pairs, now).no_orphans(),
        pulled(t, remote, pairs, now).trash == t.trash,
        pulled(t, remote, pairs, now).tombstones == t.tombstones,
        pulled(t, remote, pairs, now).revisions == t.revisions,
        pulled(t, remote, pairs, now).series == t.series,
        pulled(t, remote, pairs, now).schedules == t.schedules,
        forall|id: i32| #[trigger]
            t.posts.contains_key(id) ==> pulled(t, remote, pairs, now).posts.contains_key(id),
        forall|id: i32| #[trigger]
            t.posts.contains_key(id) && t.posts[id].slug != remote.slug ==> {
                let p = pulled(t, remote, pairs, now);
                &&& p.posts[id] == t.posts[id]
                &&& sync_of(p, id) == sync_of(t, id)
                &&& stage_of(p, id) == stage_of(t, id)
            },
        forall|s: Seq<char>|
            s != remote.slug ==> (#[trigger] pulled(t, remote, pairs, now).stale.contains_key(s)
                <==> t.stale.contains_key(s)),
        forall|s: Seq<char>| #[trigger]
            slug_taken(t.posts, s) ==> slug_taken(pulled(t, remote, pairs, now).posts, s),
        forall|s: Seq<char>| #[trigger]
            slug_taken(pulled(t, remote, pairs, now).posts, s) ==> slug_taken(t.posts, s) || s
                == remote.slug,
{
    let p = pulled(t, remote, pairs, now);
    let n = next_id(t.posts) as i32;
    if slug_taken(t.posts, remote.slug) {
        let c = choose|k: i32| has_slug(t.posts, k, remote.slug);
        lemma_slug_holder(t.posts, c, remote.slug);
        assert(t.posts[c].id == c);
    } else if !t.tombstones.contains_key(remote.slug) {
        assert(!t.posts.contains_key(n)) by {
            if t.posts.contains_key(n) {
                next_id_is_free(t.posts, n);
            }
        }
    }
    assert(p.wf()) by {
        assert forall|a: i32, b: i32|
            #![trigger p.posts.contains_key(a), p.posts.contains_key(b)]
            p.posts.contains_key(a) && p.posts.contains_key(b) && p.posts[a].slug
                == p.posts[b].slug implies a == b by {
            if t.posts.contains_key(a) {
                assert(has_slug(t.posts, a, t.posts[a].slug));
            }
            if t.posts.contains_key(b) {
                assert(has_slug(t.posts, b, t.posts[b].slug));
            }
        }
    }
    assert forall|s: Seq<char>| #[trigger] slug_taken(t.posts, s) implies slug_taken(
        p.posts,
        s,
    ) by {
        let k = choose|k: i32| has_slug(t.posts, k, s);
        assert(has_slug(p.posts, k, s));
    }
    assert forall|s: Seq<char>| #[trigger] slug_taken(p.posts, s) implies slug_taken(t.posts, s)
        || s == remote.slug by {
        let k = choose|k: i32| has_slug(p.posts, k, s);
        if s != remote.slug {
            assert(has_slug(t.posts, k, s));
        }
    }
}

/// A post that is in the trash, or that has unpushed work, is not overwritten;
/// of the second, the cloud's version is noted.
pub proof fn pulling_spares_local_work(
    t: Tables,
    remote: PostRow,
    pairs: SeriesPairs,
    now: i64,
    id: i32,
)
    requires
        t.wf(),
        t.posts.contains_key(id),
        t.posts[id].slug == remote.slug,
    ensures
        t.trash.contains_key(id) ==> pulled(t, remote, pairs, now) == t,
        !t.trash.contains_key(id) && has_unpushed_work(t, id) ==> pulled(t, remote, pairs, now)
            == (Tables {
            syncs: t.syncs.insert(id, observed(t.syncs[id], remote.updated_at)),
            ..t
        }),
        !t.trash.contains_key(id) && !has_unpushed_work(t, id) ==> pulled(t, remote, pairs, now)
            == taken(t, remote, Some(t.posts[id]), id, pairs, now),
{
    assert(has_slug(t.posts, id, remote.slug));
    lemma_slug_holder(t.posts, id, remote.slug);
    assert(t.posts[id].id == id);
}

// ─── All posts ──────────────────────────────────────────────────────────────

/// No post runs out of ids on the way, from these tables on.
pub open spec fn ids_last(t: Tables, remote: Seq<PostRow>, pairs: SeriesPairs, now: i64) -> bool {
    forall|n: int|
        0 <= n < remote.len() ==> !needs_missing_id(
            all_pulled(t, #[trigger] remote.take(n), pairs, now),
            remote[n],
        )
}

proof fn lemma_ids_last_shorter(t: Tables, remote: Seq<PostRow>, pairs: SeriesPairs, now: i64)
    requires
        remote.len() > 0,
        ids_last(t, remote, pairs, now),
    ensures
        ids_last(t, remote.drop_last(), pairs, now),
        !needs_missing_id(all_pulled(t, remote.drop_last(), pairs, now), remote.last()),
{
    let r = remote.drop_last();
    assert forall|n: int| 0 <= n < r.len() implies !needs_missing_id(
        all_pulled(t, #[trigger] r.take(n), pairs, now),
        r[n],
    ) by {
        assert(r.take(n) =~= remote.take(n));
    }
    assert(remote.take(r.len() as int) =~= r);
}

/// What pulling all posts leaves as it was.
pub proof fn pulling_all(t: Tables, remote: Seq<PostRow>, pairs: SeriesPairs, now: i64)
    requires
        t.wf(),
        ids_last(t, remote, pairs, now),
    ensures
        all_pulled(t, remote, pairs, now).wf(),
        t.no_orphans() ==> all_pulled(t, remote, pairs, now).no_orphans(),
        all_pulled(t, remote, pairs, now).trash == t.trash,
        all_pulled(t, remote, pairs, now).tombstones == t.tombstones,
        all_pulled(t, remote, pairs, now).revisions == t.revisions,
        forall|id: i32| #[trigger]
            t.posts.contains_key(id) ==> all_pulled(t, remote, pairs, now).posts.contains_key(id),
    decreases remote.len(),
{
    if remote.len() > 0 {
        lemma_ids_last_shorter(t, remote, pairs, now);
        pulling_all(t, remote.drop_last(), pairs, now);
        pulling_touches_one_post(
            all_pulled(t, remote.drop_last(), pairs, now),
            remote.last(),
            pairs,
            now,
        );
    }
}

proof fn lemma_trashed_untouched(
    t: Tables,
    remote: Seq<PostRow>,
    pairs: SeriesPairs,
    now: i64,
    id: i32,
)
    requires
        t.wf(),
        ids_last(t, remote, pairs, now),
        t.posts.contains_key(id),
        t.trash.contains_key(id),
    ensures
        all_pulled(t, remote, pairs, now).posts[id] == t.posts[id],
        sync_of(all_pulled(t, remote, pairs, now), id) == sync_of(t, id),
        stage_of(all_pulled(t, remote, pairs, now), id) == stage_of(t, id),
    decreases remote.len(),
{
    if remote.len() > 0 {
        lemma_ids_last_shorter(t, remote, pairs, now);
        lemma_trashed_untouched(t, remote.drop_last(), pairs, now, id);
        pulling_all(t, remote.drop_last(), pairs, now);
        let p = all_pulled(t, remote.drop_last(), pairs, now);
        pulling_touches_one_post(p, remote.last(), pairs, now);
        if p.posts[id].slug == remote.last().slug {
            pulling_spares_local_work(p, remote.last(), pairs, now, id);
        }
    }
}

/// The fingerprints of a post are as they were.
pub open spec fn same_fingerprints(a: Tables, b: Tables, id: i32) -> bool {
    &&& a.syncs.contains_key(id)
    &&& b.syncs.contains_key(id)
    &&& a.syncs[id].local_hash == b.syncs[id].local_hash
    &&& a.syncs[id].synced_hash == b.syncs[id].synced_hash
}

proof fn lemma_unpushed_untouched(
    t: Tables,
    remote: Seq<PostRow>,
    pairs: SeriesPairs,
    now: i64,
    id: i32,
)
    requires
        t.wf(),
        ids_last(t, remote, pairs, now),
        t.posts.contains_key(id),
        !t.trash.contains_key(id),
        has_unpushed_work(t, id),
    ensures
        all_pulled(t, remote, pairs, now).posts[id] == t.posts[id],
        same_fingerprints(all_pulled(t, remote, pairs, now), t, id),
        stage_of(all_pulled(t, remote, pairs, now), id) == stage_of(t, id),
        all_pulled(t, remote, pairs, now).stale.contains_key(t.posts[id].slug)
            <==> t.stale.contains_key(t.posts[id].slug),
    decreases remote.len(),
{
    if remote.len() > 0 {
        lemma_ids_last_shorter(t, remote, pairs, now);
        lemma_unpushed_untouched(t, remote.drop_last(), pairs, now, id);
        pulling_all(t, remote.drop_last(), pairs, now);
        let p = all_pulled(t, remote.drop_last(), pairs, now);
        pulling_touches_one_post(p, remote.last(), pairs, now);
        assert(p.posts.contains_key(id));
        if p.posts[id].slug == remote.last().slug {
            pulling_spares_local_work(p, remote.last(), pairs, now, id);
        } else {
            let q = pulled(p, remote.last(), pairs, now);
            assert(sync_of(q, id) == sync_of(p, id));
        }
    }
}

proof fn lemma_buried_stays_out(
    t: Tables,
    remote: Seq<PostRow>,
    pairs: SeriesPairs,
    now: i64,
    slug: Seq<char>,
)
    requires
        t.wf(),
        ids_last(t, remote, pairs, now),
        !slug_taken(t.posts, slug),
        t.tombstones.contains_key(slug),
    ensures
        !slug_taken(all_pulled(t, remote, pairs, now).posts, slug),
    decreases remote.len(),
{
    if remote.len() > 0 {
        lemma_ids_last_shorter(t, remote, pairs, now);
        lemma_buried_stays_out(t, remote.drop_last(), pairs, now, slug);
        pulling_all(t, remote.drop_last(), pairs, now);
        pulling_touches_one_post(
            all_pulled(t, remote.drop_last(), pairs, now),
            remote.last(),
            pairs,
            now,
        );
    }
}

proof fn lemma_start(t: Tables, remote: Seq<PostRow>, pairs: SeriesPairs, now: i64)
    requires
        t.wf(),
        ids_suffice(t, remote, pairs, now),
    ensures
        spent_tombstones_cleared(t, remote).wf(),
        t.no_orphans() ==> spent_tombstones_cleared(t, remote).no_orphans(),
        ids_last(spent_tombstones_cleared(t, remote), remote, pairs, now),
{
}

// ─── The refresh ────────────────────────────────────────────────────────────

/// A refresh keeps the tables sound, and leaves no row about a post that it
/// removed.
pub proof fn a_refresh_keeps_the_tables_sound(
    t: Tables,
    remote: Seq<PostRow>,
    pairs: SeriesPairs,
    now: i64,
)
    requires
        t.wf(),
        ids_suffice(t, remote, pairs, now),
    ensures
        mirrored(t, remote, pairs, now).wf(),
        t.no_orphans() ==> mirrored(t, remote, pairs, now).no_orphans(),
{
    lemma_start(t, remote, pairs, now);
    pulling_all(spent_tombstones_cleared(t, remote), remote, pairs, now);
    let up = all_pulled(spent_tombstones_cleared(t, remote), remote, pairs, now);
    let m = mirrored(t, remote, pairs, now);
    assert forall|a: i32, b: i32|
        #![trigger m.posts.contains_key(a), m.posts.contains_key(b)]
        m.posts.contains_key(a) && m.posts.contains_key(b) && m.posts[a].slug
            == m.posts[b].slug implies a == b by {
        assert(up.posts.contains_key(a) && up.posts.contains_key(b));
    }
    assert(m.posts.dom() =~= up.posts.dom().difference(all_gone_upstream(up, remote)));
}

/// A post in the trash takes no part in a refresh: it is neither overwritten
/// nor removed, and neither are its stage, its sync record and its history.
pub proof fn a_refresh_leaves_the_trash_alone(
    t: Tables,
    remote: Seq<PostRow>,
    pairs: SeriesPairs,
    now: i64,
    id: i32,
)
    requires
        t.wf(),
        ids_suffice(t, remote, pairs, now),
        t.posts.contains_key(id),
        t.trash.contains_key(id),
    ensures
        mirrored(t, remote, pairs, now).trash == t.trash,
        mirrored(t, remote, pairs, now).posts.contains_key(id),
        mirrored(t, remote, pairs, now).posts[id] == t.posts[id],
        sync_of(mirrored(t, remote, pairs, now), id) == sync_of(t, id),
        stage_of(mirrored(t, remote, pairs, now), id) == stage_of(t, id),
        forall|k: i32| #[trigger]
            t.revisions.contains_key(k) && t.revisions[k].post_id == id ==> {
                &&& mirrored(t, remote, pairs, now).revisions.contains_key(k)
                &&& mirrored(t, remote, pairs, now).revisions[k] == t.revisions[k]
            },
{
    lemma_start(t, remote, pairs, now);
    let start = spent_tombstones_cleared(t, remote);
    pulling_all(start, remote, pairs, now);
    lemma_trashed_untouched(start, remote, pairs, now, id);
    let up = all_pulled(start, remote, pairs, now);
    assert(start.posts.contains_key(id));
    assert(!gone_upstream(up, remote, id));
}

/// A refresh does not touch a post with edits that were never pushed: neither
/// the post, nor its fingerprints, nor its stage, and its body is not called
/// stale. It stays whether or not the cloud still has it.
pub proof fn a_refresh_keeps_unpushed_work(
    t: Tables,
    remote: Seq<PostRow>,
    pairs: SeriesPairs,
    now: i64,
    id: i32,
)
    requires
        t.wf(),
        ids_suffice(t, remote, pairs, now),
        t.posts.contains_key(id),
        has_unpushed_work(t, id),
    ensures
        mirrored(t, remote, pairs, now).posts.contains_key(id),
        mirrored(t, remote, pairs, now).posts[id] == t.posts[id],
        same_fingerprints(mirrored(t, remote, pairs, now), t, id),
        stage_of(mirrored(t, remote, pairs, now), id) == stage_of(t, id),
        !t.trash.contains_key(id) ==> (mirrored(t, remote, pairs, now).stale.contains_key(
            t.posts[id].slug,
        ) <==> t.stale.contains_key(t.posts[id].slug)),
{
    lemma_start(t, remote, pairs, now);
    let start = spent_tombstones_cleared(t, remote);
    pulling_all(start, remote, pairs, now);
    let up = all_pulled(start, remote, pairs, now);
    assert(start.posts.contains_key(id));
    if t.trash.contains_key(id) {
        lemma_trashed_untouched(start, remote, pairs, now, id);
        assert(sync_of(up, id) == sync_of(start, id));
    } else {
        lemma_unpushed_untouched(start, remote, pairs, now, id);
    }
    assert(has_unpushed_work(up, id));
    assert(!gone_upstream(up, remote, id));
}

/// A post that was deleted here for good is not pulled back while the cloud
/// still has it; and once the cloud does not, its tombstone goes too.
pub proof fn a_refresh_does_not_undo_a_deletion(
    t: Tables,
    remote: Seq<PostRow>,
    pairs: SeriesPairs,
    now: i64,
    slug: Seq<char>,
)
    requires
        t.wf(),
        ids_suffice(t, remote, pairs, now),
        !slug_taken(t.posts, slug),
        t.tombstones.contains_key(slug),
    ensures
        remote_has(remote, slug) ==> !slug_taken(mirrored(t, remote, pairs, now).posts, slug)
            && mirrored(t, remote, pairs, now).tombstones.contains_key(slug),
        !remote_has(remote, slug) ==> !mirrored(t, remote, pairs, now).tombstones.contains_key(
            slug,
        ),
{
    lemma_start(t, remote, pairs, now);
    let start = spent_tombstones_cleared(t, remote);
    pulling_all(start, remote, pairs, now);
    let up = all_pulled(start, remote, pairs, now);
    let m = mirrored(t, remote, pairs, now);
    if remote_has(remote, slug) {
        lemma_buried_stays_out(start, remote, pairs, now, slug);
        if slug_taken(m.posts, slug) {
            let k = choose|k: i32| has_slug(m.posts, k, slug);
            assert(has_slug(up.posts, k, slug));
        }
    }
}

/// What is left after a refresh is in the cloud, or in the trash, or holds work
/// that was never pushed.
pub proof fn a_refresh_leaves_nothing_else(
    t: Tables,
    remote: Seq<PostRow>,
    pairs: SeriesPairs,
    now: i64,
    id: i32,
)
    requires
        mirrored(t, remote, pairs, now).posts.contains_key(id),
    ensures
        ({
            let m = mirrored(t, remote, pairs, now);
            remote_has(remote, m.posts[id].slug) || m.trash.contains_key(id) || has_unpushed_work(
                m,
                id,
            )
        }),
{
    let up = all_pulled(spent_tombstones_cleared(t, remote), remote, pairs, now);
    assert(!gone_upstream(up, remote, id));
}

/// The cloud may be taken for this slug: the post that has it here is neither in
/// the trash nor ahead of the cloud, and where there is none it was not deleted
/// here for good.
pub open spec fn may_take(t: Tables, slug: Seq<char>) -> bool {
    match post_with_slug(t.posts, slug) {
        Some(local) => !t.trash.contains_key(local.id) && !has_unpushed_work(t, local.id),
        None => !t.tombstones.contains_key(slug),
    }
}

/// The post with the cloud's slug is the cloud's copy, filed where
/// [`resolved_series`] says, and the two sides agree on it.
pub open spec fn holds_cloud_copy(t: Tables, remote: PostRow) -> bool {
    &&& slug_taken(t.posts, remote.slug)
    &&& {
        let p = post_with_slug(t.posts, remote.slug)->0;
        &&& p == (PostRow {
            id: p.id,
            series_id: p.series_id,
            series_order: p.series_order,
            ..remote
        })
        &&& t.posts.contains_key(p.id)
        &&& !has_unpushed_work(t, p.id)
        &&& t.syncs.contains_key(p.id)
        &&& !has_remote_change(t.syncs[p.id])
        &&& t.syncs[p.id].remote_updated_at == Some(remote.updated_at)
    }
}

proof fn lemma_others_keep_cloud_copy(
    t: Tables,
    other: PostRow,
    pairs: SeriesPairs,
    now: i64,
    remote: PostRow,
)
    requires
        t.wf(),
        !needs_missing_id(t, other),
        other.slug != remote.slug,
        holds_cloud_copy(t, remote),
    ensures
        holds_cloud_copy(pulled(t, other, pairs, now), remote),
{
    pulling_touches_one_post(t, other, pairs, now);
    let p = post_with_slug(t.posts, remote.slug)->0;
    let k = choose|k: i32| has_slug(t.posts, k, remote.slug);
    lemma_slug_holder(t.posts, k, remote.slug);
    assert(t.posts[k].id == k && p.id == k);
    let q = pulled(t, other, pairs, now);
    assert(has_slug(q.posts, k, remote.slug));
    lemma_slug_holder(q.posts, k, remote.slug);
    assert(sync_of(q, k) == sync_of(t, k));
}

proof fn lemma_others_keep_may_take(
    t: Tables,
    other: PostRow,
    pairs: SeriesPairs,
    now: i64,
    slug: Seq<char>,
)
    requires
        t.wf(),
        !needs_missing_id(t, other),
        other.slug != slug,
        may_take(t, slug),
    ensures
        may_take(pulled(t, other, pairs, now), slug),
{
    pulling_touches_one_post(t, other, pairs, now);
    let q = pulled(t, other, pairs, now);
    if slug_taken(t.posts, slug) {
        let k = choose|k: i32| has_slug(t.posts, k, slug);
        lemma_slug_holder(t.posts, k, slug);
        assert(t.posts[k].id == k);
        assert(has_slug(q.posts, k, slug));
        lemma_slug_holder(q.posts, k, slug);
        assert(sync_of(q, k) == sync_of(t, k));
    }
}

proof fn lemma_taking_holds_cloud_copy(t: Tables, remote: PostRow, pairs: SeriesPairs, now: i64)
    requires
        t.wf(),
        !needs_missing_id(t, remote),
        may_take(t, remote.slug),
    ensures
        holds_cloud_copy(pulled(t, remote, pairs, now), remote),
{
    pulling_touches_one_post(t, remote, pairs, now);
    let q = pulled(t, remote, pairs, now);
    if slug_taken(t.posts, remote.slug) {
        let k = choose|k: i32| has_slug(t.posts, k, remote.slug);
        lemma_slug_holder(t.posts, k, remote.slug);
        assert(t.posts[k].id == k);
        pulling_spares_local_work(t, remote, pairs, now, k);
        assert(has_slug(q.posts, k, remote.slug));
        lemma_slug_holder(q.posts, k, remote.slug);
    } else {
        let n = next_id(t.posts) as i32;
        assert(has_slug(q.posts, n, remote.slug));
        lemma_slug_holder(q.posts, n, remote.slug);
    }
}

proof fn lemma_pulled_holds_cloud_copy(
    t: Tables,
    remote: Seq<PostRow>,
    pairs: SeriesPairs,
    now: i64,
    i: int,
)
    requires
        t.wf(),
        ids_last(t, remote, pairs, now),
        0 <= i,
        forall|a: int, b: int|
            0 <= a < b < remote.len() ==> remote[a].slug != remote[b].slug,
        i < remote.len() ==> may_take(t, remote[i].slug),
    ensures
        i < remote.len() ==> holds_cloud_copy(all_pulled(t, remote, pairs, now), remote[i]),
    decreases remote.len(),
{
    if i < remote.len() {
        lemma_ids_last_shorter(t, remote, pairs, now);
        let r = remote.drop_last();
        pulling_all(t, r, pairs, now);
        let p = all_pulled(t, r, pairs, now);
        if i < r.len() {
            lemma_pulled_holds_cloud_copy(t, r, pairs, now, i);
            lemma_others_keep_cloud_copy(p, remote.last(), pairs, now, remote[i]);
        } else {
            lemma_may_take_lasts(t, r, pairs, now, remote.last().slug);
            lemma_taking_holds_cloud_copy(p, remote.last(), pairs, now);
        }
    }
}

proof fn lemma_may_take_lasts(
    t: Tables,
    remote: Seq<PostRow>,
    pairs: SeriesPairs,
    now: i64,
    slug: Seq<char>,
)
    requires
        t.wf(),
        ids_last(t, remote, pairs, now),
        may_take(t, slug),
        forall|a: int| 0 <= a < remote.len() ==> (#[trigger] remote[a]).slug != slug,
    ensures
        may_take(all_pulled(t, remote, pairs, now), slug),
    decreases remote.len(),
{
    if remote.len() > 0 {
        lemma_ids_last_shorter(t, remote, pairs, now);
        let r = remote.drop_last();
        assert forall|a: int| 0 <= a < r.len() implies (#[trigger] r[a]).slug != slug by {
            assert(r[a] == remote[a]);
        }
        lemma_may_take_lasts(t, r, pairs, now, slug);
        pulling_all(t, r, pairs, now);
        assert(remote[remote.len() - 1].slug != slug);
        lemma_others_keep_may_take(
            all_pulled(t, r, pairs, now),
            remote.last(),
            pairs,
            now,
            slug,
        );
    }
}

/// Where nothing stands in the way, the refreshed library holds the cloud's
/// copy of each of its posts, and reads clean on it.
pub proof fn a_refresh_takes_the_clouds_copy(
    t: Tables,
    remote: Seq<PostRow>,
    pairs: SeriesPairs,
    now: i64,
    i: int,
)
    requires
        t.wf(),
        ids_suffice(t, remote, pairs, now),
        0 <= i < remote.len(),
        forall|a: int, b: int|
            0 <= a < b < remote.len() ==> remote[a].slug != remote[b].slug,
        may_take(t, remote[i].slug),
    ensures
        holds_cloud_copy(mirrored(t, remote, pairs, now), remote[i]),
{
    lemma_start(t, remote, pairs, now);
    let start = spent_tombstones_cleared(t, remote);
    lemma_pulled_holds_cloud_copy(start, remote, pairs, now, i);
    pulling_all(start, remote, pairs, now);
    a_refresh_keeps_the_tables_sound(t, remote, pairs, now);
    let up = all_pulled(start, remote, pairs, now);
    let m = mirrored(t, remote, pairs, now);
    let k = choose|k: i32| has_slug(up.posts, k, remote[i].slug);
    lemma_slug_holder(up.posts, k, remote[i].slug);
    assert(up.posts[k].id == k);
    assert(remote_has(remote, remote[i].slug));
    assert(!gone_upstream(up, remote, k));
    assert(has_slug(m.posts, k, remote[i].slug));
    lemma_slug_holder(m.posts, k, remote[i].slug);
}

// ─── Sync states over time ──────────────────────────────────────────────────

/// The first look at the cloud is a baseline and not a change.
pub proof fn a_first_look_is_no_change(hash: Seq<char>, post_id: i32, seen: i64)
    ensures
        state_of(None, Some(observed(edited(None, post_id, hash), seen))) == SyncState::Modified,
{
}

/// The cloud moving under a local edit is a conflict, and neither copy is
/// touched by noticing it.
pub proof fn a_cloud_that_moves_under_an_edit_is_a_conflict(row: SyncRow, base: i64, seen: i64)
    requires
        has_local_change(row),
        row.remote_updated_at == Some(base),
        base != seen,
    ensures
        state_of(None, Some(observed(row, seen))) == SyncState::Conflict,
        observed(row, seen).local_hash == row.local_hash,
        observed(row, seen).synced_hash == row.synced_hash,
{
}

/// Keeping the local copy settles a conflict: what was an edit stays one, not
/// published, and the cloud's version is accounted for.
pub proof fn keeping_local_settles_a_conflict(row: SyncRow)
    requires
        state_of(None, Some(row)) == SyncState::Conflict,
    ensures
        state_of(None, Some(accounted(row, row.remote_seen_at))) == SyncState::Modified,
        accounted(row, row.remote_seen_at).local_hash == row.local_hash,
        accounted(row, row.remote_seen_at).synced_hash == row.synced_hash,
{
}

/// A push that records the version it wrote is not read as somebody else's
/// change by the refresh that follows; one that does not record it is.
pub proof fn a_recorded_push_does_not_conflict_with_itself(
    row: SyncRow,
    base: i64,
    pushed: i64,
)
    requires
        row.remote_updated_at == Some(base),
        base != pushed,
    ensures
        !has_remote_change(observed(accounted(row, Some(pushed)), pushed)),
        has_remote_change(observed(row, pushed)),
{
}

/// An edit after an agreement is a modification, and the cloud's fingerprint
/// stays on record.
pub proof fn an_edit_parts_the_fingerprints(row: SyncRow, hash: Seq<char>)
    requires
        row.synced_hash == Some(row.local_hash),
        hash != row.local_hash,
    ensures
        has_local_change(edited(Some(row), row.post_id, hash)),
        edited(Some(row), row.post_id, hash).synced_hash == row.synced_hash,
{
}

// ─── Series ─────────────────────────────────────────────────────────────────

/// What a pair of ids stands for: the local series and the remote row that have
/// one slug.
pub proof fn pairs_go_by_slug(series: Map<i32, SeriesRow>, remote: Seq<SeriesRow>, r: i32)
    requires
        keyed::<series::Model>(series),
        unique_series_slugs(series),
    ensures
        paired(series, remote).inbound.contains_key(r) ==> exists|i: int|
            0 <= i < remote.len() && (#[trigger] remote[i]).id == r && series.contains_key(
                paired(series, remote).inbound[r],
            ) && series[paired(series, remote).inbound[r]].slug == remote[i].slug,
    decreases remote.len(),
{
    if remote.len() > 0 {
        let rest = remote.drop_last();
        pairs_go_by_slug(series, rest, r);
        let slug = remote.last().slug;
        if paired(series, remote).inbound.contains_key(r) {
            if r == remote.last().id && series_slug_taken(series, slug) {
                let k = choose|k: i32| series_has_slug(series, k, slug);
                assert(series_has_slug(series, k, slug));
                assert(series[k].id == k);
                assert(remote[remote.len() - 1].id == r);
            } else {
                assert(paired(series, rest).inbound.contains_key(r));
                let i = choose|i: int|
                    0 <= i < rest.len() && (#[trigger] rest[i]).id == r && series.contains_key(
                        paired(series, rest).inbound[r],
                    ) && series[paired(series, rest).inbound[r]].slug == rest[i].slug;
                assert(remote[i] == rest[i]);
            }
        }
    }
}

/// Where the cloud's ids and slugs are each used once, translating a local id
/// out and back in gives the id again.
pub proof fn translation_is_undone(series: Map<i32, SeriesRow>, remote: Seq<SeriesRow>, l: i32)
    requires
        keyed::<series::Model>(series),
        unique_series_slugs(series),
        forall|a: int, b: int| 0 <= a < b < remote.len() ==> remote[a].id != remote[b].id,
        forall|a: int, b: int|
            0 <= a < b < remote.len() ==> remote[a].slug != remote[b].slug,
    ensures
        paired(series, remote).outbound.contains_key(l) ==> {
            let p = paired(series, remote);
            &&& p.inbound.contains_key(p.outbound[l])
            &&& p.inbound[p.outbound[l]] == l
        },
        paired(series, remote).outbound.contains_key(l) ==> exists|i: int|
            0 <= i < remote.len() && (#[trigger] remote[i]).id == paired(
                series,
                remote,
            ).outbound[l] && series.contains_key(l) && series[l].slug == remote[i].slug,
    decreases remote.len(),
{
    if remote.len() > 0 {
        let rest = remote.drop_last();
        translation_is_undone(series, rest, l);
        let slug = remote.last().slug;
        let p = paired(series, remote);
        let q = paired(series, rest);
        if p.outbound.contains_key(l) {
            if series_slug_taken(series, slug) {
                let k = choose|k: i32| series_has_slug(series, k, slug);
                assert(series_has_slug(series, k, slug));
                assert(series[k].id == k);
                if l == k {
                    assert(remote[remote.len() - 1].id == p.outbound[l]);
                } else {
                    let i = choose|i: int|
                        0 <= i < rest.len() && (#[trigger] rest[i]).id == q.outbound[l]
                            && series.contains_key(l) && series[l].slug == rest[i].slug;
                    assert(remote[i] == rest[i]);
                    assert(remote[i].id != remote[remote.len() - 1].id);
                }
            } else {
                let i = choose|i: int|
                    0 <= i < rest.len() && (#[trigger] rest[i]).id == q.outbound[l]
                        && series.contains_key(l) && series[l].slug == rest[i].slug;
                assert(remote[i] == rest[i]);
            }
        }
    }
}

/// The local id and the cloud's id stand for one series: the rows have one slug.
pub open spec fn one_series(
    series: Map<i32, SeriesRow>,
    remote: Seq<SeriesRow>,
    l: i32,
    r: i32,
) -> bool {
    series.contains_key(l) && exists|i: int|
        0 <= i < remote.len() && (#[trigger] remote[i]).id == r && remote[i].slug
            == series[l].slug
}

/// The pairing can be read both ways: where the cloud's ids and slugs are each used
/// once, a remote id stands for a local one just where that stands for the remote
/// one, and just where the two rows have one slug.
pub proof fn the_pairing_reads_both_ways(
    series: Map<i32, SeriesRow>,
    remote: Seq<SeriesRow>,
    l: i32,
    r: i32,
)
    requires
        keyed::<series::Model>(series),
        unique_series_slugs(series),
        forall|a: int, b: int| 0 <= a < b < remote.len() ==> remote[a].id != remote[b].id,
        forall|a: int, b: int|
            0 <= a < b < remote.len() ==> remote[a].slug != remote[b].slug,
    ensures
        ({
            let p = paired(series, remote);
            &&& one_series(series, remote, l, r) <==> p.inbound.contains_key(r) && p.inbound[r]
                == l
            &&& one_series(series, remote, l, r) <==> p.outbound.contains_key(l)
                && p.outbound[l] == r
        }),
    decreases remote.len(),
{
    if remote.len() > 0 {
        let n = remote.len() - 1;
        let rest = remote.drop_last();
        let last = remote.last();
        assert forall|a: int, b: int| 0 <= a < b < rest.len() implies rest[a].id != rest[b].id
            && rest[a].slug != rest[b].slug by {
            assert(rest[a] == remote[a] && rest[b] == remote[b]);
            assert(remote[a].id != remote[b].id && remote[a].slug != remote[b].slug);
        }
        the_pairing_reads_both_ways(series, rest, l, r);
        assert(remote[n] == last);
        let here = series.contains_key(l) && last.id == r && last.slug == series[l].slug;
        assert(one_series(series, remote, l, r) <==> one_series(series, rest, l, r) || here) by {
            if one_series(series, rest, l, r) {
                let i = choose|i: int|
                    0 <= i < rest.len() && (#[trigger] rest[i]).id == r && rest[i].slug
                        == series[l].slug;
                assert(remote[i] == rest[i]);
            }
            if one_series(series, remote, l, r) && !here {
                let i = choose|i: int|
                    0 <= i < remote.len() && (#[trigger] remote[i]).id == r && remote[i].slug
                        == series[l].slug;
                assert(rest[i] == remote[i]);
            }
        }
        if one_series(series, rest, l, r) {
            let i = choose|i: int|
                0 <= i < rest.len() && (#[trigger] rest[i]).id == r && rest[i].slug
                    == series[l].slug;
            assert(remote[i] == rest[i]);
            assert(remote[i].id != remote[n].id && remote[i].slug != remote[n].slug);
        }
        if series_slug_taken(series, last.slug) {
            let k = choose|k: i32| series_has_slug(series, k, last.slug);
            assert(series_has_slug(series, k, last.slug));
            assert(series[k].id == k);
            if series.contains_key(l) && series[l].slug == last.slug {
                assert(l == k);
            }
        } else if here {
            assert(series_has_slug(series, l, last.slug));
        }
    }
}

/// A post's filing survives the way up and back down, whether or not the cloud
/// knows its series.
pub proof fn filing_survives_the_round_trip(
    series: Map<i32, SeriesRow>,
    remote: Seq<SeriesRow>,
    post: PostRow,
)
    requires
        keyed::<series::Model>(series),
        unique_series_slugs(series),
        forall|a: int, b: int| 0 <= a < b < remote.len() ==> remote[a].id != remote[b].id,
        forall|a: int, b: int|
            0 <= a < b < remote.len() ==> remote[a].slug != remote[b].slug,
    ensures
        resolved_series(
            outbound_post(post, paired(series, remote)),
            Some(post),
            paired(series, remote),
        ) == membership(Some(post)),
{
    match post.series_id {
        Some(l) => {
            translation_is_undone(series, remote, l);
        },
        None => {},
    }
}

/// What goes up never carries a local id that the cloud did not pair with one
/// of its own, and never a place without a series that was lost on the way.
pub proof fn what_goes_up_is_in_the_clouds_ids(post: PostRow, pairs: SeriesPairs)
    ensures
        outbound_post(post, pairs).series_id matches Some(id) ==> exists|l: i32|
            #![trigger pairs.outbound[l]]
            pairs.outbound.contains_key(l) && pairs.outbound[l] == id && post.series_id == Some(l),
        post.series_id is Some && outbound_post(post, pairs).series_id is None ==> outbound_post(
            post,
            pairs,
        ).series_order is None,
{
    match post.series_id {
        Some(l) => {
            if pairs.outbound.contains_key(l) {
                assert(pairs.outbound[l] == pairs.outbound[l]);
            }
        },
        None => {},
    }
}

/// What goes up is the post as it is here, but for its series: every other column is
/// sent untouched, of a live post as of a draft, and a post in no series goes up as it
/// stands. A series that the cloud knows is named by the cloud's id and keeps its
/// place; one that it does not know goes up as none.
pub proof fn what_goes_up_is_the_post(post: PostRow, pairs: SeriesPairs)
    ensures
        ({
            let sent = outbound_post(post, pairs);
            &&& sent.id == post.id
            &&& sent.slug == post.slug
            &&& sent.title == post.title
            &&& sent.excerpt == post.excerpt
            &&& sent.tags == post.tags
            &&& sent.published == post.published
            &&& sent.published_at == post.published_at
            &&& sent.created_at == post.created_at
            &&& sent.updated_at == post.updated_at
            &&& post.series_id is None ==> sent == post
            &&& post.series_id matches Some(l) ==> if pairs.outbound.contains_key(l) {
                sent.series_id == Some(pairs.outbound[l]) && sent.series_order
                    == post.series_order
            } else {
                sent.series_id is None && sent.series_order is None
            }
        }),
{
}

/// The filing of a refreshed post: the cloud's where it names a series that is known
/// here, and otherwise what it was. No place is left without a series.
pub proof fn a_refresh_files_posts(
    remote: PostRow,
    existing: Option<PostRow>,
    pairs: SeriesPairs,
)
    ensures
        ({
            let filed = resolved_series(remote, existing, pairs);
            &&& remote.series_id is Some && pairs.inbound.contains_key(remote.series_id->0)
                ==> filed.0 == Some(pairs.inbound[remote.series_id->0]) && filed.1
                == remote.series_order
            &&& !(remote.series_id is Some && pairs.inbound.contains_key(remote.series_id->0)) ==> {
                &&& existing is None ==> filed.0 is None
                &&& existing matches Some(local) ==> filed.0 == local.series_id
                &&& existing is Some && existing->0.series_id is Some ==> filed.1
                    == existing->0.series_order
            }
            &&& filed.0 is None ==> filed.1 is None
        }),
{
}

/// Taking one of the cloud's posts writes all that it says under the local id, stages
/// it by its publication flag, and records that the two sides agree. The cached text
/// is called out of date just where the cloud's copy is another version than the one
/// here; a post that was not here has no cached text.
pub proof fn a_pulled_post_is_the_clouds(
    t: Tables,
    remote: PostRow,
    existing: Option<PostRow>,
    id: i32,
    pairs: SeriesPairs,
    now: i64,
)
    ensures
        ({
            let after = taken(t, remote, existing, id, pairs, now);
            let row = after.posts[id];
            &&& after.posts.contains_key(id)
            &&& row.id == id
            &&& row.slug == remote.slug
            &&& row.title == remote.title
            &&& row.excerpt == remote.excerpt
            &&& row.tags == remote.tags
            &&& row.published == remote.published
            &&& row.published_at == remote.published_at
            &&& row.created_at == remote.created_at
            &&& row.updated_at == remote.updated_at
            &&& (row.series_id, row.series_order) == resolved_series(remote, existing, pairs)
            &&& after.stages.contains_key(id)
            &&& after.stages[id].post_id == id
            &&& after.stages[id].staged_at == remote.updated_at
            &&& remote.published ==> after.stages[id].stage == "published"@
            &&& !remote.published ==> after.stages[id].stage == "draft"@
            &&& after.syncs.contains_key(id)
            &&& after.syncs[id].post_id == id
            &&& after.syncs[id].synced_hash == Some(after.syncs[id].local_hash)
            &&& after.syncs[id].synced_at == Some(now)
            &&& after.syncs[id].remote_updated_at == Some(remote.updated_at)
            &&& after.syncs[id].remote_seen_at == Some(remote.updated_at)
            &&& existing is Some && existing->0.updated_at != remote.updated_at
                ==> after.stale.contains_key(remote.slug)
            &&& (existing is None || existing->0.updated_at == remote.updated_at) ==> after.stale
                == t.stale
            &&& after.series == t.series
            &&& after.revisions == t.revisions
            &&& after.trash == t.trash
            &&& after.tombstones == t.tombstones
            &&& after.schedules == t.schedules
        }),
{
}

/// Whether there is unpushed work is read off the fingerprints alone: the one of what
/// is here and the one of what the cloud took. Neither the publication flag nor the
/// stage has a say.
pub proof fn unpushed_work_is_a_difference(t: Tables, id: i32)
    ensures
        has_unpushed_work(t, id) <==> t.syncs.contains_key(id) && t.syncs[id].synced_hash != Some(
            t.syncs[id].local_hash,
        ),
{
}

/// What a refresh removes is what the cloud no longer has, and nothing that is in the
/// trash or holds unpushed work; with such a post goes all that is kept about it, and
/// nothing about another.
pub proof fn a_refresh_removes_what_the_cloud_dropped(
    t: Tables,
    remote: Seq<PostRow>,
    pairs: SeriesPairs,
    now: i64,
    id: i32,
)
    requires
        t.wf(),
        ids_suffice(t, remote, pairs, now),
        t.posts.contains_key(id),
        forall|i: int| 0 <= i < remote.len() ==> (#[trigger] remote[i]).slug != t.posts[id].slug,
        !t.trash.contains_key(id),
        !t.syncs.contains_key(id) || t.syncs[id].synced_hash == Some(t.syncs[id].local_hash),
    ensures
        ({
            let m = mirrored(t, remote, pairs, now);
            &&& !m.posts.contains_key(id)
            &&& !m.stages.contains_key(id)
            &&& !m.syncs.contains_key(id)
            &&& forall|k: i32| #[trigger]
                m.revisions.contains_key(k) ==> t.revisions.contains_key(k) && m.revisions[k]
                    == t.revisions[k] && m.revisions[k].post_id != id
        }),
{
    lemma_start(t, remote, pairs, now);
    let start = spent_tombstones_cleared(t, remote);
    pulling_all(start, remote, pairs, now);
    lemma_absent_untouched(start, remote, pairs, now, id);
    let up = all_pulled(start, remote, pairs, now);
    assert(gone_upstream(up, remote, id));
    assert(all_gone_upstream(up, remote).contains(id));
}

proof fn lemma_absent_untouched(
    t: Tables,
    remote: Seq<PostRow>,
    pairs: SeriesPairs,
    now: i64,
    id: i32,
)
    requires
        t.wf(),
        ids_last(t, remote, pairs, now),
        t.posts.contains_key(id),
        forall|i: int| 0 <= i < remote.len() ==> (#[trigger] remote[i]).slug != t.posts[id].slug,
    ensures
        all_pulled(t, remote, pairs, now).posts.contains_key(id),
        all_pulled(t, remote, pairs, now).posts[id] == t.posts[id],
        sync_of(all_pulled(t, remote, pairs, now), id) == sync_of(t, id),
        stage_of(all_pulled(t, remote, pairs, now), id) == stage_of(t, id),
    decreases remote.len(),
{
    if remote.len() > 0 {
        let r = remote.drop_last();
        assert forall|i: int| 0 <= i < r.len() implies (#[trigger] r[i]).slug
            != t.posts[id].slug by {
            assert(r[i] == remote[i]);
        }
        lemma_ids_last_shorter(t, remote, pairs, now);
        lemma_absent_untouched(t, r, pairs, now, id);
        pulling_all(t, r, pairs, now);
        let p = all_pulled(t, r, pairs, now);
        assert(remote[remote.len() - 1].slug != t.posts[id].slug);
        pulling_touches_one_post(p, remote.last(), pairs, now);
    }
}

/// A refresh has no say in series, schedules and the trash.
pub proof fn a_refresh_leaves_other_tables_alone(
    t: Tables,
    remote: Seq<PostRow>,
    pairs: SeriesPairs,
    now: i64,
)
    requires
        t.wf(),
        ids_suffice(t, remote, pairs, now),
    ensures
        mirrored(t, remote, pairs, now).series == t.series,
        mirrored(t, remote, pairs, now).schedules == t.schedules,
        mirrored(t, remote, pairs, now).trash == t.trash,
{
    lemma_start(t, remote, pairs, now);
    lemma_series_and_schedules_stay(spent_tombstones_cleared(t, remote), remote, pairs, now);
}

proof fn lemma_series_and_schedules_stay(
    t: Tables,
    remote: Seq<PostRow>,
    pairs: SeriesPairs,
    now: i64,
)
    requires
        t.wf(),
        ids_last(t, remote, pairs, now),
    ensures
        all_pulled(t, remote, pairs, now).series == t.series,
        all_pulled(t, remote, pairs, now).schedules == t.schedules,
        all_pulled(t, remote, pairs, now).trash == t.trash,
    decreases remote.len(),
{
    if remote.len() > 0 {
        let r = remote.drop_last();
        lemma_ids_last_shorter(t, remote, pairs, now);
        lemma_series_and_schedules_stay(t, r, pairs, now);
        pulling_all(t, r, pairs, now);
        pulling_touches_one_post(all_pulled(t, r, pairs, now), remote.last(), pairs, now);
    }
}

/// Ids are handed out one after another: the first is 1, and the next is one more than
/// the largest in use.
pub proof fn ids_are_handed_out_in_turn<V>(map: Map<i32, V>, k: i32)
    requires
        map.dom().finite(),
    ensures
        (forall|j: i32| !map.contains_key(j)) ==> next_id(map) == 1,
        map.contains_key(k) && (forall|j: i32| #[trigger] map.contains_key(j) ==> j <= k)
            ==> next_id(map) == k + 1,
{
    if map.contains_key(k) && (forall|j: i32| #[trigger] map.contains_key(j) ==> j <= k) {
        assert(is_largest(map, k));
        lemma_next_id_is_free(map, k);
    }
}

/// A tombstone goes just where the cloud has no post with its slug any more, and no
/// other does.
pub proof fn which_tombstones_go(t: Tables, remote: Seq<PostRow>, slug: Seq<char>)
    ensures
        ({
            let after = spent_tombstones_cleared(t, remote);
            &&& after.tombstones.contains_key(slug) <==> t.tombstones.contains_key(slug)
                && exists|i: int| 0 <= i < remote.len() && (#[trigger] remote[i]).slug == slug
            &&& after.tombstones.contains_key(slug) ==> after.tombstones[slug]
                == t.tombstones[slug]
            &&& after == (Tables { tombstones: after.tombstones, ..t })
        }),
{
}

proof fn lemma_pull_takes_one_id(t: Tables, remote: PostRow, pairs: SeriesPairs, now: i64)
    requires
        t.wf(),
        !needs_missing_id(t, remote),
    ensures
        next_id(pulled(t, remote, pairs, now).posts) <= next_id(t.posts) + 1,
{
    pulling_touches_one_post(t, remote, pairs, now);
    let p = pulled(t, remote, pairs, now).posts;
    if exists|k: i32| p.contains_key(k) {
        lemma_set_has_largest(p.dom());
        let top = choose|k: i32|
            p.dom().contains(k) && forall|j: i32| p.dom().contains(j) ==> j <= k;
        assert(p.contains_key(top));
        assert(is_largest(p, top)) by {
            assert forall|j: i32| p.contains_key(j) implies j <= top by {
                assert(p.dom().contains(j));
            }
        }
        lemma_next_id_is_free(p, top);
        if t.posts.contains_key(top) {
            next_id_is_free(t.posts, top);
        } else {
            assert(top == next_id(t.posts) as i32);
            lemma_next_id_is_positive_or_known(t.posts);
        }
    } else {
        lemma_next_id_is_positive_or_known(t.posts);
        assert forall|k: i32| !t.posts.contains_key(k) by {
            if t.posts.contains_key(k) {
                assert(p.contains_key(k));
            }
        }
    }
}

proof fn lemma_next_id_is_positive_or_known<V>(map: Map<i32, V>)
    requires
        map.dom().finite(),
    ensures
        next_id(map) > i32::MIN,
        (forall|k: i32| !map.contains_key(k)) ==> next_id(map) == 1,
{
    if exists|k: i32| map.contains_key(k) {
        let k = choose|k: i32| map.contains_key(k);
        next_id_is_free(map, k);
    }
}

/// A refresh runs out of ids only where there are not as many left as the cloud has
/// posts: with enough of them it always goes through.
pub proof fn a_refresh_goes_through(
    t: Tables,
    remote: Seq<PostRow>,
    pairs: SeriesPairs,
    now: i64,
)
    requires
        t.wf(),
        next_id(t.posts) + remote.len() <= i32::MAX,
    ensures
        ids_suffice(t, remote, pairs, now),
{
    let start = spent_tombstones_cleared(t, remote);
    assert forall|n: int| 0 <= n < remote.len() implies !needs_missing_id(
        all_pulled(start, #[trigger] remote.take(n), pairs, now),
        remote[n],
    ) by {
        lemma_ids_after(start, remote.take(n), pairs, now);
    }
}

proof fn lemma_ids_after(t: Tables, remote: Seq<PostRow>, pairs: SeriesPairs, now: i64)
    requires
        t.wf(),
        next_id(t.posts) + remote.len() <= i32::MAX,
    ensures
        all_pulled(t, remote, pairs, now).wf(),
        next_id(all_pulled(t, remote, pairs, now).posts) <= next_id(t.posts) + remote.len(),
    decreases remote.len(),
{
    if remote.len() > 0 {
        let r = remote.drop_last();
        lemma_ids_after(t, r, pairs, now);
        let p = all_pulled(t, r, pairs, now);
        assert(!needs_missing_id(p, remote.last()));
        pulling_touches_one_post(p, remote.last(), pairs, now);
        lemma_pull_takes_one_id(p, remote.last(), pairs, now);
    }
}

/// An id is missing just where the cloud's post is new here, was not deleted here, and
/// no id is left.
pub proof fn when_an_id_is_missing(t: Tables, remote: PostRow)
    ensures
        needs_missing_id(t, remote) <==> {
            &&& forall|k: i32| #[trigger]
                t.posts.contains_key(k) ==> t.posts[k].slug != remote.slug
            &&& !t.tombstones.contains_key(remote.slug)
            &&& next_id(t.posts) > i32::MAX
        },
{
    if slug_taken(t.posts, remote.slug) {
        let k = choose|k: i32| has_slug(t.posts, k, remote.slug);
        assert(t.posts.contains_key(k));
    } else {
        assert forall|k: i32| #[trigger] t.posts.contains_key(k) implies t.posts[k].slug
            != remote.slug by {
            if t.posts[k].slug == remote.slug {
                assert(has_slug(t.posts, k, remote.slug));
            }
        }
    }
}

}
