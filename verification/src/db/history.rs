//! The revisions table: each post's history, newest first.

use crate::db::{fresh_id, next_id, refusal, refused, Store, Tables, IDS_EXHAUSTED};
use crate::entities::post_revision;
use crate::entities::post_revision::RevisionRow;
use crate::error::{AppError, AppResult};
use crate::table::{keyed, lemma_rearranged_lists, lists, rows_view, selected, sort, Order, Table};
use vstd::prelude::*;

verus! {

/// How many snapshots a post keeps before the oldest are dropped.
pub const REVISIONS_PER_POST: usize = 50;

/// Newest first; of snapshots taken in one second, the one taken last first.
pub open spec fn newer(a: RevisionRow, b: RevisionRow) -> bool {
    a.created_at > b.created_at || (a.created_at == b.created_at && a.id > b.id)
}

pub struct NewestFirst;

impl Order<post_revision::Model> for NewestFirst {
    open spec fn before(a: RevisionRow, b: RevisionRow) -> bool {
        newer(a, b)
    }

    fn is_before(a: &post_revision::Model, b: &post_revision::Model) -> (r: bool) {
        a.created_at > b.created_at || (a.created_at == b.created_at && a.id > b.id)
    }

    proof fn lemma_order(a: RevisionRow, b: RevisionRow, c: RevisionRow) {
    }
}

/// The snapshots of one post.
pub open spec fn of_post(revisions: Map<i32, RevisionRow>, post_id: i32) -> Map<i32, RevisionRow> {
    selected::<post_revision::Model>(revisions, |r: RevisionRow| r.post_id == post_id)
}

/// `h` lists the snapshots of one post, each newer than those after it.
pub open spec fn is_history(
    h: Seq<RevisionRow>,
    revisions: Map<i32, RevisionRow>,
    post_id: i32,
) -> bool {
    &&& lists::<post_revision::Model>(h, of_post(revisions, post_id))
    &&& forall|i: int, j: int| 0 <= i < j < h.len() ==> newer(h[i], h[j])
}

/// A post's snapshots, newest first.
pub open spec fn history(revisions: Map<i32, RevisionRow>, post_id: i32) -> Seq<RevisionRow> {
    choose|h: Seq<RevisionRow>| is_history(h, revisions, post_id)
}

/// Two descending sequences of the same snapshots are one.
proof fn lemma_descending_unique(a: Seq<RevisionRow>, b: Seq<RevisionRow>)
    requires
        forall|v: RevisionRow| #[trigger] a.contains(v) <==> b.contains(v),
        forall|i: int, j: int| 0 <= i < j < a.len() ==> newer(a[i], a[j]),
        forall|i: int, j: int| 0 <= i < j < b.len() ==> newer(b[i], b[j]),
    ensures
        a == b,
    decreases a.len(),
{
    if a.len() == 0 {
        if b.len() > 0 {
            assert(b.contains(b[0]));
            assert(a.contains(b[0]));
        }
        assert(a =~= b);
    } else {
        assert(a.contains(a[0]));
        let j = choose|j: int| 0 <= j < b.len() && b[j] == a[0];
        if j > 0 {
            assert(b.contains(b[0]));
            assert(a.contains(b[0]));
            let i = choose|i: int| 0 <= i < a.len() && a[i] == b[0];
            assert(newer(b[0], b[j]));
            assert(i > 0);
            assert(newer(a[0], a[i]));
        }
        let (x, y) = (a.drop_first(), b.drop_first());
        assert forall|v: RevisionRow| #[trigger] x.contains(v) <==> y.contains(v) by {
            if x.contains(v) {
                let i = choose|i: int| 0 <= i < x.len() && x[i] == v;
                assert(a[i + 1] == v);
                assert(newer(a[0], a[i + 1]));
                assert(a.contains(v));
                assert(b.contains(v));
                let k = choose|k: int| 0 <= k < b.len() && b[k] == v;
                assert(k > 0);
                assert(y[k - 1] == v);
            }
            if y.contains(v) {
                let i = choose|i: int| 0 <= i < y.len() && y[i] == v;
                assert(b[i + 1] == v);
                assert(newer(b[0], b[i + 1]));
                assert(b.contains(v));
                assert(a.contains(v));
                let k = choose|k: int| 0 <= k < a.len() && a[k] == v;
                assert(k > 0);
                assert(x[k - 1] == v);
            }
        }
        lemma_descending_unique(x, y);
        assert(a =~= seq![a[0]] + x);
        assert(b =~= seq![b[0]] + y);
    }
}

/// There is one history.
pub proof fn lemma_history(h: Seq<RevisionRow>, revisions: Map<i32, RevisionRow>, post_id: i32)
    requires
        is_history(h, revisions, post_id),
    ensures
        history(revisions, post_id) == h,
{
    let g = history(revisions, post_id);
    assert(is_history(g, revisions, post_id));
    lemma_descending_unique(g, h);
}

/// A post's snapshots, newest first.
pub fn revisions_for_post(db: &Store, post_id: i32) -> (out: Vec<post_revision::Model>)
    requires
        db.wf(),
    ensures
        rows_view(out@) == history(db@.revisions, post_id),
        is_history(rows_view(out@), db@.revisions, post_id),
{
    history_of(&db.revisions, post_id)
}

fn history_of(table: &Table<post_revision::Model>, post_id: i32) -> (out: Vec<
    post_revision::Model,
>)
    requires
        table.wf(),
        keyed::<post_revision::Model>(table@),
    ensures
        rows_view(out@) == history(table@, post_id),
        is_history(rows_view(out@), table@, post_id),
{
    let ghost p = |r: RevisionRow| r.post_id == post_id;
    let of_this_post = |r: &post_revision::Model| -> (b: bool)
        ensures
            b == (r@.post_id == post_id),
    {
        r.post_id == post_id
    };
    let found: Vec<post_revision::Model> = table.select(of_this_post, Ghost(p));
    let out: Vec<post_revision::Model> = sort::<post_revision::Model, NewestFirst>(found);
    proof {
        let v = rows_view(out@);
        lemma_rearranged_lists::<post_revision::Model>(
            rows_view(found@),
            v,
            of_post(table@, post_id),
        );
        assert forall|i: int, j: int| 0 <= i < j < v.len() implies newer(v[i], v[j]) by {
            assert(!NewestFirst::before(v[j], v[i]));
            assert(v.contains(v[i]) && v.contains(v[j]));
            assert(v[i] != v[j]);
        }
        lemma_history(v, table@, post_id);
    }
    out
}

/// The newest snapshot of a post, if it has any.
pub fn revision_head(db: &Store, post_id: i32) -> (r: Option<post_revision::Model>)
    requires
        db.wf(),
    ensures
        match r {
            Some(h) => {
                &&& history(db@.revisions, post_id).len() > 0
                &&& h@ == history(db@.revisions, post_id)[0]
            },
            None => history(db@.revisions, post_id).len() == 0,
        },
{
    let all: Vec<post_revision::Model> = revisions_for_post(db, post_id);
    if all.len() == 0 {
        None
    } else {
        assert(rows_view(all@)[0] == all@[0]@);
        Some(all[0].clone())
    }
}

/// One snapshot by its own id.
pub fn revision_get(db: &Store, id: i32) -> (r: Option<post_revision::Model>)
    requires
        db.wf(),
    ensures
        match r {
            Some(s) => db@.revisions.contains_key(id) && s@ == db@.revisions[id],
            None => !db@.revisions.contains_key(id),
        },
{
    match db.revisions.get(&id) {
        Some(s) => Some(s.clone()),
        None => None,
    }
}

/// The snapshots without those that stand at `from` or later in a post's
/// history.
pub open spec fn pruned(
    revisions: Map<i32, RevisionRow>,
    post_id: i32,
    from: int,
) -> Map<i32, RevisionRow> {
    Map::new(
        |k: i32|
            revisions.contains_key(k) && !(from <= history(revisions, post_id).index_of(
                revisions[k],
            ) && history(revisions, post_id).contains(revisions[k])),
        |k: i32| revisions[k],
    )
}

/// Drops what stands at `from` or later in a post's history.
fn drop_history(db: &mut Store, post_id: i32, from: usize)
    requires
        old(db).wf(),
    ensures
        final(db).wf(),
        final(db)@ == (Tables {
            revisions: pruned(old(db)@.revisions, post_id, from as int),
            ..old(db)@
        }),
{
    let ghost before = db@.revisions;
    let all: Vec<post_revision::Model> = revisions_for_post(db, post_id);
    let ghost h = rows_view(all@);
    let start: usize = if from < all.len() {
        from
    } else {
        all.len()
    };
    let mut i: usize = start;
    proof {
        assert(h.subrange(start as int, start as int) =~= Seq::<RevisionRow>::empty());
    }
    while i < all.len()
        invariant
            start <= i <= all@.len(),
            h == rows_view(all@),
            is_history(h, before, post_id),
            keyed::<post_revision::Model>(before),
            db.wf(),
            db@ == (Tables { revisions: db@.revisions, ..old(db)@ }),
            forall|k: i32| #[trigger]
                db@.revisions.contains_key(k) <==> before.contains_key(k) && !h.subrange(
                    start as int,
                    i as int,
                ).contains(before[k]),
            forall|k: i32| #[trigger]
                db@.revisions.contains_key(k) ==> db@.revisions[k] == before[k],
        decreases all@.len() - i,
    {
        let id: i32 = all[i].id;
        proof {
            assert(h[i as int] == all@[i as int]@);
            assert(h.contains(h[i as int]));
            assert(h.subrange(start as int, i + 1) =~= h.subrange(start as int, i as int).push(
                h[i as int],
            ));
            crate::table::lemma_push_contains(h.subrange(start as int, i as int), h[i as int]);
        }
        db.revisions.remove(&id);
        proof {
            db.revisions.lemma_listed();
        }
        i = i + 1;
    }
    proof {
        assert forall|k: i32| before.contains_key(k) implies (h.subrange(
            start as int,
            i as int,
        ).contains(before[k]) <==> (from <= h.index_of(before[k]) && h.contains(before[k]))) by {
            let tail = h.subrange(start as int, i as int);
            if tail.contains(before[k]) {
                let p = choose|p: int| 0 <= p < tail.len() && tail[p] == before[k];
                assert(h[start + p] == before[k]);
                assert(h.contains(before[k]));
                let c = h.index_of(before[k]);
                assert(h[c] == before[k]);
                assert(c == start + p);
            }
            if h.contains(before[k]) && from <= h.index_of(before[k]) {
                let c = h.index_of(before[k]);
                assert(h[c] == before[k]);
                assert(tail[c - start] == before[k]);
            }
        }
        assert(db@.revisions =~= pruned(before, post_id, from as int));
    }
}

/// The snapshots once `created` has been added and its post's history cut to
/// its newest [`REVISIONS_PER_POST`].
pub open spec fn recorded(revisions: Map<i32, RevisionRow>, created: RevisionRow) -> Map<
    i32,
    RevisionRow,
> {
    pruned(
        revisions.insert(created.id, created),
        created.post_id,
        REVISIONS_PER_POST as int,
    )
}

/// Records a snapshot and drops what its post's history then holds past
/// [`REVISIONS_PER_POST`]. The id is assigned here, whatever the model says.
pub fn revision_add(db: &mut Store, model: post_revision::Model) -> (r: AppResult<
    post_revision::Model,
>)
    requires
        old(db).wf(),
    ensures
        final(db).wf(),
        match r {
            Ok(s) => {
                &&& old(db)@.posts.contains_key(model.post_id)
                &&& next_id(old(db)@.revisions) <= i32::MAX
                &&& s@ == (RevisionRow { id: next_id(old(db)@.revisions) as i32, ..model@ })
                &&& final(db)@ == (Tables {
                    revisions: recorded(old(db)@.revisions, s@),
                    ..old(db)@
                })
            },
            Err(e) => {
                &&& final(db)@ == old(db)@
                &&& if old(db)@.posts.contains_key(model.post_id) {
                    next_id(old(db)@.revisions) > i32::MAX && refused(e, IDS_EXHAUSTED)
                } else {
                    e == AppError::PostVanished(model.post_id)
                }
            },
        },
{
    let post_id: i32 = model.post_id;
    if !db.posts.has(&post_id) {
        return Err(AppError::PostVanished(post_id));
    }
    match fresh_id(&db.revisions) {
        Some(id) => {
            let mut created: post_revision::Model = model;
            created.id = id;
            db.revisions.put(created.clone());
            proof {
                db.revisions.lemma_listed();
            }
            drop_history(db, post_id, REVISIONS_PER_POST);
            Ok(created)
        },
        None => Err(refusal(IDS_EXHAUSTED)),
    }
}

/// The snapshots without those of one post.
pub open spec fn without_post(revisions: Map<i32, RevisionRow>, post_id: i32) -> Map<
    i32,
    RevisionRow,
> {
    selected::<post_revision::Model>(revisions, |r: RevisionRow| r.post_id != post_id)
}

/// Forgets a post's history.
pub fn revisions_clear(db: &mut Store, post_id: i32)
    requires
        old(db).wf(),
    ensures
        final(db).wf(),
        final(db)@ == (Tables {
            revisions: without_post(old(db)@.revisions, post_id),
            ..old(db)@
        }),
{
    let ghost before = db@.revisions;
    proof {
        db.revisions.lemma_listed();
    }
    let all: Vec<post_revision::Model> = revisions_for_post(db, post_id);
    drop_history(db, post_id, 0);
    proof {
        let h = rows_view(all@);
        assert forall|k: i32| before.contains_key(k) implies ((0 <= h.index_of(before[k])
            && h.contains(before[k])) <==> before[k].post_id == post_id) by {
            let m = of_post(before, post_id);
            assert(h.contains(before[k]) <==> m.contains_key(before[k].id) && m[before[k].id]
                == before[k]);
            if h.contains(before[k]) {
                let c = h.index_of(before[k]);
                assert(h[c] == before[k]);
            }
        }
        assert(db@.revisions =~= without_post(before, post_id));
    }
}

// ─── Laws ───────────────────────────────────────────────────────────────────

/// Cutting a history keeps its newest snapshots, in their order, and no more
/// than it is cut to.
pub proof fn pruning_keeps_the_newest(
    revisions: Map<i32, RevisionRow>,
    post_id: i32,
    h: Seq<RevisionRow>,
    from: int,
)
    requires
        keyed::<post_revision::Model>(revisions),
        is_history(h, revisions, post_id),
        0 <= from,
    ensures
        is_history(
            h.take(if from < h.len() { from } else { h.len() as int }),
            pruned(revisions, post_id, from),
            post_id,
        ),
{
    let n = if from < h.len() { from } else { h.len() as int };
    let g = h.take(n);
    let m = pruned(revisions, post_id, from);
    lemma_history(h, revisions, post_id);
    assert forall|v: RevisionRow| #[trigger] g.contains(v) <==> of_post(m, post_id).contains_key(
        v.id,
    ) && of_post(m, post_id)[v.id] == v by {
        if g.contains(v) {
            let i = choose|i: int| 0 <= i < g.len() && g[i] == v;
            assert(h[i] == v && h.contains(v));
            let c = h.index_of(v);
            assert(h[c] == v && c == i);
        }
        if of_post(m, post_id).contains_key(v.id) && of_post(m, post_id)[v.id] == v {
            assert(of_post(revisions, post_id).contains_key(v.id));
            assert(h.contains(v));
            let c = h.index_of(v);
            assert(h[c] == v && c < from);
            assert(g[c] == v);
        }
    }
    assert(g.no_duplicates());
}

/// The cap holds from the first snapshot on: once one has been recorded, a
/// post's history is never longer than [`REVISIONS_PER_POST`], and it starts
/// with the newest.
pub proof fn recording_holds_the_cap(
    revisions: Map<i32, RevisionRow>,
    created: RevisionRow,
    h: Seq<RevisionRow>,
)
    requires
        keyed::<post_revision::Model>(revisions),
        is_history(h, revisions.insert(created.id, created), created.post_id),
    ensures
        history(recorded(revisions, created), created.post_id).len() <= REVISIONS_PER_POST,
        history(recorded(revisions, created), created.post_id) == h.take(
            if REVISIONS_PER_POST < h.len() { REVISIONS_PER_POST as int } else { h.len() as int },
        ),
{
    let all = revisions.insert(created.id, created);
    pruning_keeps_the_newest(all, created.post_id, h, REVISIONS_PER_POST as int);
    let n = if REVISIONS_PER_POST < h.len() { REVISIONS_PER_POST as int } else { h.len() as int };
    lemma_history(h.take(n), recorded(revisions, created), created.post_id);
}

/// Recording a snapshot of one post, or forgetting its history, leaves every
/// other post's snapshots as they were.
pub proof fn other_histories_stay(
    revisions: Map<i32, RevisionRow>,
    created: RevisionRow,
    h: Seq<RevisionRow>,
    k: i32,
)
    requires
        keyed::<post_revision::Model>(revisions),
        is_history(h, revisions.insert(created.id, created), created.post_id),
        !revisions.contains_key(created.id),
        revisions.contains_key(k),
        revisions[k].post_id != created.post_id,
    ensures
        recorded(revisions, created).contains_key(k),
        recorded(revisions, created)[k] == revisions[k],
        without_post(revisions, created.post_id).contains_key(k),
        without_post(revisions, created.post_id)[k] == revisions[k],
{
    let all = revisions.insert(created.id, created);
    lemma_history(h, all, created.post_id);
    assert(h.contains(all[k]) ==> of_post(all, created.post_id).contains_key(all[k].id));
}

/// Forgetting a post's history takes all of it, and nothing of any other.
pub proof fn a_history_is_forgotten_whole(
    revisions: Map<i32, RevisionRow>,
    post_id: i32,
    k: i32,
)
    ensures
        without_post(revisions, post_id).contains_key(k) <==> revisions.contains_key(k)
            && revisions[k].post_id != post_id,
        without_post(revisions, post_id).contains_key(k) ==> without_post(revisions, post_id)[k]
            == revisions[k],
{
}

/// A history holds the snapshots of its post and of no other, all of them, and comes
/// with the newest first.
pub proof fn a_history_is_of_one_post(
    h: Seq<RevisionRow>,
    revisions: Map<i32, RevisionRow>,
    post_id: i32,
    k: i32,
    i: int,
    j: int,
)
    requires
        keyed::<post_revision::Model>(revisions),
        is_history(h, revisions, post_id),
        0 <= i < j < h.len(),
    ensures
        h[i].post_id == post_id,
        h[i].created_at >= h[j].created_at,
        revisions.contains_key(k) && revisions[k].post_id == post_id ==> h.contains(revisions[k]),
{
    assert(h.contains(h[i]));
    let m = of_post(revisions, post_id);
    assert(m.contains_key(h[i].id) && m[h[i].id] == h[i]);
    assert(newer(h[i], h[j]));
    if revisions.contains_key(k) && revisions[k].post_id == post_id {
        assert(revisions[k].id == k);
        assert(m.contains_key(revisions[k].id) && m[revisions[k].id] == revisions[k]);
    }
}

}
