//! Reading tables as lists.

use crate::db::{refusal, refused, Store, Tables, DUPLICATE_SLUG};
use crate::entities::post;
use crate::entities::post::PostRow;
use crate::entities::post_schedule;
use crate::entities::post_schedule::ScheduleRow;
use crate::entities::post_body_stale;
use crate::entities::post_body_stale::StaleRow;
use crate::entities::post_stage;
use crate::entities::post_stage::StageRow;
use crate::entities::post_sync;
use crate::entities::post_sync::SyncRow;
use crate::entities::post_trash;
use crate::entities::series;
use crate::entities::series::SeriesRow;
use crate::error::AppResult;
use crate::table::{
    in_order, lemma_push_contains, lemma_rearranged_lists, lists, rows_view, selected, sort, Order,
    Row, Table,
};
use crate::text::{same, views};
use vstd::prelude::*;

verus! {

// ─── Orders ─────────────────────────────────────────────────────────────────

/// Posts, newest first.
pub struct NewestPosts;

impl Order<post::Model> for NewestPosts {
    open spec fn before(a: PostRow, b: PostRow) -> bool {
        a.created_at > b.created_at
    }

    fn is_before(a: &post::Model, b: &post::Model) -> (r: bool) {
        a.created_at > b.created_at
    }

    proof fn lemma_order(a: PostRow, b: PostRow, c: PostRow) {
    }
}

/// Series, newest first.
pub struct NewestSeries;

impl Order<series::Model> for NewestSeries {
    open spec fn before(a: SeriesRow, b: SeriesRow) -> bool {
        a.created_at > b.created_at
    }

    fn is_before(a: &series::Model, b: &series::Model) -> (r: bool) {
        a.created_at > b.created_at
    }

    proof fn lemma_order(a: SeriesRow, b: SeriesRow, c: SeriesRow) {
    }
}

/// Schedules, soonest first.
pub struct SoonestSchedules;

impl Order<post_schedule::Model> for SoonestSchedules {
    open spec fn before(a: ScheduleRow, b: ScheduleRow) -> bool {
        a.publish_at < b.publish_at
    }

    fn is_before(a: &post_schedule::Model, b: &post_schedule::Model) -> (r: bool) {
        a.publish_at < b.publish_at
    }

    proof fn lemma_order(a: ScheduleRow, b: ScheduleRow, c: ScheduleRow) {
    }
}

/// A post in the trash, as the trash view reads it.
#[derive(Debug, PartialEq, Eq)]
pub struct TrashedPost {
    pub post: post::Model,
    /// When it went (Unix seconds): what the view sorts and dates by.
    pub trashed_at: i64,
}

/// What a post in the trash says.
pub struct TrashedRow {
    pub post: PostRow,
    pub trashed_at: i64,
}

impl View for TrashedPost {
    type V = TrashedRow;

    open spec fn view(&self) -> TrashedRow {
        TrashedRow { post: self.post@, trashed_at: self.trashed_at }
    }
}

impl Row for TrashedPost {
    type Key = i32;

    open spec fn key_of(row: TrashedRow) -> i32 {
        row.post.id
    }

    fn has_key(&self, key: &i32) -> (r: bool) {
        self.post.id == *key
    }

    fn key(&self) -> (r: i32) {
        self.post.id
    }

    fn copy(&self) -> (r: Self) {
        TrashedPost { post: self.post.clone(), trashed_at: self.trashed_at }
    }
}

/// Trashed posts, most recently thrown away first; of those that went in one
/// second, the newest first.
pub struct LastTrashed;

impl Order<TrashedPost> for LastTrashed {
    open spec fn before(a: TrashedRow, b: TrashedRow) -> bool {
        a.trashed_at > b.trashed_at || (a.trashed_at == b.trashed_at && a.post.created_at
            > b.post.created_at)
    }

    fn is_before(a: &TrashedPost, b: &TrashedPost) -> (r: bool) {
        a.trashed_at > b.trashed_at || (a.trashed_at == b.trashed_at && a.post.created_at
            > b.post.created_at)
    }

    proof fn lemma_order(a: TrashedRow, b: TrashedRow, c: TrashedRow) {
    }
}

// ─── Lists ──────────────────────────────────────────────────────────────────

/// The posts that are in the library.
pub open spec fn active_posts(t: Tables) -> Map<i32, PostRow> {
    selected::<post::Model>(t.posts, |p: PostRow| !t.trash.contains_key(p.id))
}

/// The posts that are in the trash, with when they went.
pub open spec fn trashed_posts(t: Tables) -> Map<i32, TrashedRow> {
    Map::new(
        |k: i32| t.posts.contains_key(k) && t.trash.contains_key(k),
        |k: i32| TrashedRow { post: t.posts[k], trashed_at: t.trash[k].trashed_at },
    )
}

/// The posts of the library that are in this stage.
pub open spec fn staged_posts(t: Tables, stage: Seq<char>) -> Map<i32, PostRow> {
    selected::<post::Model>(
        t.posts,
        |p: PostRow|
            !t.trash.contains_key(p.id) && t.stages.contains_key(p.id) && t.stages[p.id].stage
                == stage,
    )
}

/// Every post, newest first.
pub fn list_all_posts(db: &Store) -> (out: Vec<post::Model>)
    requires
        db.wf(),
    ensures
        lists::<post::Model>(rows_view(out@), db@.posts),
        in_order::<post::Model, NewestPosts>(rows_view(out@)),
{
    let ghost p = |r: PostRow| true;
    let any = |r: &post::Model| -> (b: bool)
        ensures
            b,
    {
        true
    };
    let found: Vec<post::Model> = db.posts.select(any, Ghost(p));
    let out: Vec<post::Model> = sort::<post::Model, NewestPosts>(found);
    proof {
        assert(selected::<post::Model>(db@.posts, p) =~= db@.posts);
        lemma_rearranged_lists::<post::Model>(rows_view(found@), rows_view(out@), db@.posts);
    }
    out
}

/// The library as everything except the trash view sees it: newest first,
/// without the posts in the trash.
pub fn list_active_posts(db: &Store) -> (out: Vec<post::Model>)
    requires
        db.wf(),
    ensures
        lists::<post::Model>(rows_view(out@), active_posts(db@)),
        in_order::<post::Model, NewestPosts>(rows_view(out@)),
{
    let ghost p = |r: PostRow| !db@.trash.contains_key(r.id);
    let trash: &Table<post_trash::Model> = &db.trash;
    let keep = |r: &post::Model| -> (b: bool)
        requires
            trash.wf(),
        ensures
            b == !trash@.contains_key(r@.id),
    {
        !trash.has(&r.id)
    };
    let found: Vec<post::Model> = db.posts.select(keep, Ghost(p));
    let out: Vec<post::Model> = sort::<post::Model, NewestPosts>(found);
    proof {
        assert(selected::<post::Model>(db@.posts, p) =~= active_posts(db@));
        lemma_rearranged_lists::<post::Model>(
            rows_view(found@),
            rows_view(out@),
            active_posts(db@),
        );
    }
    out
}

/// The posts in this stage, newest first. A thrown-away draft is not one of the
/// drafts.
pub fn posts_in_stage(db: &Store, stage: &str) -> (out: Vec<post::Model>)
    requires
        db.wf(),
    ensures
        lists::<post::Model>(rows_view(out@), staged_posts(db@, stage@)),
        in_order::<post::Model, NewestPosts>(rows_view(out@)),
{
    let ghost p = |r: PostRow|
        !db@.trash.contains_key(r.id) && db@.stages.contains_key(r.id) && db@.stages[r.id].stage
            == stage@;
    let trash: &Table<post_trash::Model> = &db.trash;
    let stages: &Table<post_stage::Model> = &db.stages;
    let keep = |r: &post::Model| -> (b: bool)
        requires
            trash.wf(),
            stages.wf(),
        ensures
            b == (!trash@.contains_key(r@.id) && stages@.contains_key(r@.id)
                && stages@[r@.id].stage == stage@),
    {
        !trash.has(&r.id) && match stages.get(&r.id) {
            Some(s) => same(s.stage.as_str(), stage),
            None => false,
        }
    };
    let found: Vec<post::Model> = db.posts.select(keep, Ghost(p));
    let out: Vec<post::Model> = sort::<post::Model, NewestPosts>(found);
    proof {
        assert(selected::<post::Model>(db@.posts, p) =~= staged_posts(db@, stage@));
        lemma_rearranged_lists::<post::Model>(
            rows_view(found@),
            rows_view(out@),
            staged_posts(db@, stage@),
        );
    }
    out
}

/// The trash, most recently thrown away first.
pub fn list_trashed_posts(db: &Store) -> (out: Vec<TrashedPost>)
    requires
        db.wf(),
    ensures
        lists::<TrashedPost>(rows_view(out@), trashed_posts(db@)),
        in_order::<TrashedPost, LastTrashed>(rows_view(out@)),
{
    let ghost listed = db.posts.listed();
    let mut found: Vec<TrashedPost> = Vec::new();
    let mut i: usize = 0;
    while i < db.posts.len()
        invariant
            db.wf(),
            listed == db.posts.listed(),
            i <= listed.len(),
            rows_view(found@).no_duplicates(),
            forall|v: TrashedRow| #[trigger]
                rows_view(found@).contains(v) <==> listed.take(i as int).contains(v.post)
                    && db@.trash.contains_key(v.post.id) && db@.trash[v.post.id].trashed_at
                    == v.trashed_at,
        decreases listed.len() - i,
    {
        let row: &post::Model = db.posts.row(i);
        let ghost before = rows_view(found@);
        proof {
            db.posts.lemma_listed();
            assert(listed.take(i + 1) =~= listed.take(i as int).push(row@));
            lemma_push_contains(listed.take(i as int), row@);
            assert(!listed.take(i as int).contains(row@)) by {
                if listed.take(i as int).contains(row@) {
                    let j = choose|j: int| 0 <= j < i && listed.take(i as int)[j] == row@;
                    assert(listed[j] == listed[i as int]);
                }
            }
        }
        match db.trash.get(&row.id) {
            Some(t) => {
                let pair = TrashedPost { post: row.clone(), trashed_at: t.trashed_at };
                let ghost v = pair@;
                found.push(pair);
                proof {
                    assert(rows_view(found@) =~= before.push(v));
                    lemma_push_contains(before, v);
                }
            },
            None => {},
        }
        i = i + 1;
    }
    let out: Vec<TrashedPost> = sort::<TrashedPost, LastTrashed>(found);
    proof {
        db.posts.lemma_listed();
        assert(listed.take(i as int) =~= listed);
        let m = trashed_posts(db@);
        assert forall|v: TrashedRow| #[trigger]
            rows_view(found@).contains(v) <==> m.contains_key(v.post.id) && m[v.post.id] == v by {
            assert(listed.contains(v.post) <==> db@.posts.contains_key(v.post.id)
                && db@.posts[v.post.id] == v.post);
        }
        assert(lists::<TrashedPost>(rows_view(found@), m));
        lemma_rearranged_lists::<TrashedPost>(rows_view(found@), rows_view(out@), m);
    }
    out
}

/// Every series, newest first.
pub fn list_series(db: &Store) -> (out: Vec<series::Model>)
    requires
        db.wf(),
    ensures
        lists::<series::Model>(rows_view(out@), db@.series),
        in_order::<series::Model, NewestSeries>(rows_view(out@)),
{
    let ghost p = |r: SeriesRow| true;
    let any = |r: &series::Model| -> (b: bool)
        ensures
            b,
    {
        true
    };
    let found: Vec<series::Model> = db.series.select(any, Ghost(p));
    let out: Vec<series::Model> = sort::<series::Model, NewestSeries>(found);
    proof {
        assert(selected::<series::Model>(db@.series, p) =~= db@.series);
        lemma_rearranged_lists::<series::Model>(rows_view(found@), rows_view(out@), db@.series);
    }
    out
}

/// Every schedule that this machine knows about, soonest first.
pub fn schedules_all(db: &Store) -> (out: Vec<post_schedule::Model>)
    requires
        db.wf(),
    ensures
        lists::<post_schedule::Model>(rows_view(out@), db@.schedules),
        in_order::<post_schedule::Model, SoonestSchedules>(rows_view(out@)),
{
    let ghost p = |r: ScheduleRow| true;
    let any = |r: &post_schedule::Model| -> (b: bool)
        ensures
            b,
    {
        true
    };
    let found: Vec<post_schedule::Model> = db.schedules.select(any, Ghost(p));
    let out: Vec<post_schedule::Model> = sort::<post_schedule::Model, SoonestSchedules>(found);
    proof {
        assert(selected::<post_schedule::Model>(db@.schedules, p) =~= db@.schedules);
        lemma_rearranged_lists::<post_schedule::Model>(
            rows_view(found@),
            rows_view(out@),
            db@.schedules,
        );
    }
    out
}

/// A post in the library is listed as one of its posts, and a post in the trash
/// is listed there: each post in exactly one of the two.
pub proof fn each_post_is_listed_once(t: Tables, id: i32)
    requires
        t.wf(),
        t.posts.contains_key(id),
    ensures
        active_posts(t).contains_key(id) <==> !trashed_posts(t).contains_key(id),
        active_posts(t).contains_key(id) ==> active_posts(t)[id] == t.posts[id],
        trashed_posts(t).contains_key(id) ==> trashed_posts(t)[id].post == t.posts[id],
{
}

/// Trashing a post and taking it back out leaves the library as it was.
pub proof fn restoring_undoes_trashing(t: Tables, id: i32, at: i64)
    requires
        t.wf(),
        !t.trash.contains_key(id),
    ensures
        crate::db::side_tables::binned(t.trash, id, at).remove(id) == t.trash,
{
    assert(crate::db::side_tables::binned(t.trash, id, at).remove(id) =~= t.trash);
}

// ─── Schedules ──────────────────────────────────────────────────────────────

/// Two of these schedules are for one slug.
pub open spec fn repeats_a_slug(rows: Seq<ScheduleRow>) -> bool {
    exists|i: int, j: int|
        0 <= i < j < rows.len() && (#[trigger] rows[i]).slug == (#[trigger] rows[j]).slug
}

/// Replaces the local schedules with what the cloud holds, and reports how many
/// that is.
///
/// Wholesale, because the cloud is authoritative here: a row that it no longer
/// has has been dealt with. Nothing changes where two rows are for one slug.
pub fn mirror_schedules(db: &mut Store, remote: Vec<post_schedule::Model>) -> (r: AppResult<usize>)
    requires
        old(db).wf(),
    ensures
        final(db).wf(),
        match r {
            Ok(n) => {
                &&& !repeats_a_slug(rows_view(remote@))
                &&& n == remote@.len()
                &&& final(db)@ == (Tables { schedules: final(db)@.schedules, ..old(db)@ })
                &&& lists::<post_schedule::Model>(rows_view(remote@), final(db)@.schedules)
            },
            Err(e) => {
                &&& repeats_a_slug(rows_view(remote@))
                &&& refused(e, DUPLICATE_SLUG)
                &&& final(db)@ == old(db)@
            },
        },
{
    let ghost rv = rows_view(remote@);
    let mut table: Table<post_schedule::Model> = Table::new();
    let mut i: usize = 0;
    proof {
        table.lemma_listed();
    }
    while i < remote.len()
        invariant
            db.wf(),
            db@ == old(db)@,
            rv == rows_view(remote@),
            i <= remote@.len(),
            table.wf(),
            !repeats_a_slug(rv.take(i as int)),
            table.listed() == rv.take(i as int),
        decreases remote@.len() - i,
    {
        let row: &post_schedule::Model = &remote[i];
        let ghost prefix = rv.take(i as int);
        proof {
            table.lemma_listed();
            assert(rv[i as int] == row@);
            assert(rv.take(i + 1) =~= prefix.push(row@));
        }
        if table.has(&row.slug) {
            proof {
                assert(prefix.contains(table@[row@.slug]));
                let j = choose|j: int| 0 <= j < i && prefix[j] == table@[row@.slug];
                assert(rv[j].slug == rv[i as int].slug);
            }
            return Err(refusal(DUPLICATE_SLUG));
        }
        proof {
            assert(!repeats_a_slug(prefix.push(row@))) by {
                if repeats_a_slug(prefix.push(row@)) {
                    let (a, b) = choose|a: int, b: int|
                        0 <= a < b < prefix.push(row@).len() && (#[trigger] prefix.push(
                            row@,
                        )[a]).slug == (#[trigger] prefix.push(row@)[b]).slug;
                    if b < i {
                        assert(prefix[a].slug == prefix[b].slug);
                    } else {
                        assert(prefix.contains(prefix[a]));
                    }
                }
            }
        }
        table.put(row.clone());
        i = i + 1;
    }
    proof {
        assert(rv.take(i as int) =~= rv);
        table.lemma_listed();
    }
    db.schedules = table;
    Ok(remote.len())
}

// ─── Side tables whole ──────────────────────────────────────────────────────

/// Every post's stage.
pub fn stages_all(db: &Store) -> (out: Vec<post_stage::Model>)
    requires
        db.wf(),
    ensures
        lists::<post_stage::Model>(rows_view(out@), db@.stages),
{
    let ghost p = |r: StageRow| true;
    let any = |r: &post_stage::Model| -> (b: bool)
        ensures
            b,
    {
        true
    };
    let out: Vec<post_stage::Model> = db.stages.select(any, Ghost(p));
    assert(selected::<post_stage::Model>(db@.stages, p) =~= db@.stages);
    out
}

/// Every post's sync record.
pub fn sync_all(db: &Store) -> (out: Vec<post_sync::Model>)
    requires
        db.wf(),
    ensures
        lists::<post_sync::Model>(rows_view(out@), db@.syncs),
{
    let ghost p = |r: SyncRow| true;
    let any = |r: &post_sync::Model| -> (b: bool)
        ensures
            b,
    {
        true
    };
    let out: Vec<post_sync::Model> = db.syncs.select(any, Ghost(p));
    assert(selected::<post_sync::Model>(db@.syncs, p) =~= db@.syncs);
    out
}

/// Every cached body that is behind the cloud's.
pub fn stale_bodies(db: &Store) -> (out: Vec<post_body_stale::Model>)
    requires
        db.wf(),
    ensures
        lists::<post_body_stale::Model>(rows_view(out@), db@.stale),
{
    let ghost p = |r: StaleRow| true;
    let any = |r: &post_body_stale::Model| -> (b: bool)
        ensures
            b,
    {
        true
    };
    let out: Vec<post_body_stale::Model> = db.stale.select(any, Ghost(p));
    assert(selected::<post_body_stale::Model>(db@.stale, p) =~= db@.stale);
    out
}

/// The ids of the posts in the trash.
pub fn trashed_ids(db: &Store) -> (out: Vec<i32>)
    requires
        db.wf(),
    ensures
        out@.no_duplicates(),
        forall|id: i32| #[trigger] out@.contains(id) <==> db@.trash.contains_key(id),
{
    let ghost listed = db.trash.listed();
    let mut out: Vec<i32> = Vec::new();
    let mut i: usize = 0;
    while i < db.trash.len()
        invariant
            i <= listed.len(),
            listed == db.trash.listed(),
            out@.len() == i,
            forall|j: int| 0 <= j < i ==> out@[j] == (#[trigger] listed[j]).post_id,
        decreases listed.len() - i,
    {
        out.push(db.trash.row(i).post_id);
        i = i + 1;
    }
    proof {
        db.trash.lemma_listed();
        assert forall|a: int, b: int| 0 <= a < b < out@.len() implies out@[a] != out@[b] by {
            assert(listed.contains(listed[a]) && listed.contains(listed[b]));
            assert(listed[a] != listed[b]);
        }
        assert forall|id: i32| #[trigger] out@.contains(id) <==> db@.trash.contains_key(id) by {
            if out@.contains(id) {
                let j = choose|j: int| 0 <= j < out@.len() && out@[j] == id;
                assert(listed.contains(listed[j]));
            }
            if db@.trash.contains_key(id) {
                assert(listed.contains(db@.trash[id]));
                let j = choose|j: int| 0 <= j < listed.len() && listed[j] == db@.trash[id];
                assert(out@[j] == id);
            }
        }
    }
    out
}

/// The slugs that were deleted here for good.
pub fn tombstoned_slugs(db: &Store) -> (out: Vec<String>)
    requires
        db.wf(),
    ensures
        views(out@).no_duplicates(),
        forall|s: Seq<char>| #[trigger]
            views(out@).contains(s) <==> db@.tombstones.contains_key(s),
{
    let ghost listed = db.tombstones.listed();
    let mut out: Vec<String> = Vec::new();
    let mut i: usize = 0;
    while i < db.tombstones.len()
        invariant
            i <= listed.len(),
            listed == db.tombstones.listed(),
            out@.len() == i,
            forall|j: int| 0 <= j < i ==> views(out@)[j] == (#[trigger] listed[j]).slug,
        decreases listed.len() - i,
    {
        let ghost before = views(out@);
        out.push(db.tombstones.row(i).slug.clone());
        assert(views(out@) =~= before.push(listed[i as int].slug));
        i = i + 1;
    }
    proof {
        db.tombstones.lemma_listed();
        let v = views(out@);
        assert forall|a: int, b: int| 0 <= a < b < v.len() implies v[a] != v[b] by {
            assert(listed.contains(listed[a]) && listed.contains(listed[b]));
            assert(listed[a] != listed[b]);
        }
        assert forall|s: Seq<char>| #[trigger]
            v.contains(s) <==> db@.tombstones.contains_key(s) by {
            if v.contains(s) {
                let j = choose|j: int| 0 <= j < v.len() && v[j] == s;
                assert(listed.contains(listed[j]));
            }
            if db@.tombstones.contains_key(s) {
                assert(listed.contains(db@.tombstones[s]));
                let j = choose|j: int| 0 <= j < listed.len() && listed[j] == db@.tombstones[s];
                assert(v[j] == s);
            }
        }
    }
    out
}

/// The library is every post that is not in the trash, live or draft; the trash every
/// post that is, with when it went; and a stage lists the posts of the library that
/// are in it.
pub proof fn what_is_listed(t: Tables, id: i32, stage: Seq<char>)
    requires
        t.wf(),
    ensures
        active_posts(t).contains_key(id) <==> t.posts.contains_key(id) && !t.trash.contains_key(
            id,
        ),
        active_posts(t).contains_key(id) ==> active_posts(t)[id] == t.posts[id],
        trashed_posts(t).contains_key(id) <==> t.posts.contains_key(id) && t.trash.contains_key(
            id,
        ),
        trashed_posts(t).contains_key(id) ==> trashed_posts(t)[id].post == t.posts[id]
            && trashed_posts(t)[id].trashed_at == t.trash[id].trashed_at,
        staged_posts(t, stage).contains_key(id) <==> t.posts.contains_key(id)
            && !t.trash.contains_key(id) && t.stages.contains_key(id) && t.stages[id].stage
            == stage,
        staged_posts(t, stage).contains_key(id) ==> staged_posts(t, stage)[id] == t.posts[id],
{
    if t.posts.contains_key(id) {
        assert(t.posts[id].id == id);
    }
}

/// Lists come in order: no post stands before a newer one, no schedule before a sooner
/// one, and nothing in the trash before what went later.
pub proof fn lists_come_in_order(
    posts: Seq<PostRow>,
    schedules: Seq<ScheduleRow>,
    trashed: Seq<TrashedRow>,
    i: int,
    j: int,
)
    requires
        in_order::<post::Model, NewestPosts>(posts),
        in_order::<post_schedule::Model, SoonestSchedules>(schedules),
        in_order::<TrashedPost, LastTrashed>(trashed),
        0 <= i < j,
    ensures
        j < posts.len() ==> posts[i].created_at >= posts[j].created_at,
        j < schedules.len() ==> schedules[i].publish_at <= schedules[j].publish_at,
        j < trashed.len() ==> trashed[i].trashed_at >= trashed[j].trashed_at,
{
    if j < posts.len() {
        assert(!NewestPosts::before(posts[j], posts[i]));
    }
    if j < schedules.len() {
        assert(!SoonestSchedules::before(schedules[j], schedules[i]));
    }
    if j < trashed.len() {
        assert(!LastTrashed::before(trashed[j], trashed[i]));
    }
}

/// Schedules repeat a slug just where two of them have one.
pub proof fn when_schedules_repeat_a_slug(rows: Seq<ScheduleRow>, i: int, j: int)
    ensures
        0 <= i < j < rows.len() && rows[i].slug == rows[j].slug ==> repeats_a_slug(rows),
        (forall|a: int, b: int|
            0 <= a < b < rows.len() ==> (#[trigger] rows[a]).slug != (#[trigger] rows[b]).slug)
            ==> !repeats_a_slug(rows),
{
}

}
