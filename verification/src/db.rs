//! The local tables, and everything that reads or writes them.
//!
//! A [`Store`] is the whole of them. Each operation says what it does to the
//! tables as a change of [`Tables`], the mathematical picture of a store, and
//! leaves every table that it does not name as it was. The picture is what
//! survives: a store is read from disk before an operation and written back
//! after it.

use crate::entities::post;
use crate::entities::post::PostRow;
use crate::entities::post_body_stale;
use crate::entities::post_body_stale::StaleRow;
use crate::entities::post_revision;
use crate::entities::post_revision::RevisionRow;
use crate::entities::post_schedule;
use crate::entities::post_schedule::ScheduleRow;
use crate::entities::post_stage;
use crate::entities::post_stage::StageRow;
use crate::entities::post_sync;
use crate::entities::post_sync::SyncRow;
use crate::entities::post_tombstone;
use crate::entities::post_tombstone::TombstoneRow;
use crate::entities::post_trash;
use crate::entities::post_trash::TrashRow;
use crate::entities::series;
use crate::entities::series::SeriesRow;
use crate::error::{AppError, AppResult};
use crate::table::{keyed, Row, Table};
use crate::text::same;
use vstd::prelude::*;

pub mod disk;
pub mod history;
pub mod listings;
pub mod mirror;
pub mod refresh_laws;
pub mod series_rows;
pub mod setup;
pub mod side_tables;

verus! {

/// The local tables.
pub struct Store {
    pub posts: Table<post::Model>,
    pub series: Table<series::Model>,
    pub stages: Table<post_stage::Model>,
    pub syncs: Table<post_sync::Model>,
    pub revisions: Table<post_revision::Model>,
    pub trash: Table<post_trash::Model>,
    pub tombstones: Table<post_tombstone::Model>,
    pub schedules: Table<post_schedule::Model>,
    pub stale: Table<post_body_stale::Model>,
}

/// What the local tables hold.
pub struct Tables {
    pub posts: Map<i32, PostRow>,
    pub series: Map<i32, SeriesRow>,
    pub stages: Map<i32, StageRow>,
    pub syncs: Map<i32, SyncRow>,
    pub revisions: Map<i32, RevisionRow>,
    pub trash: Map<i32, TrashRow>,
    pub tombstones: Map<Seq<char>, TombstoneRow>,
    pub schedules: Map<Seq<char>, ScheduleRow>,
    pub stale: Map<Seq<char>, StaleRow>,
}

impl View for Store {
    type V = Tables;

    open spec fn view(&self) -> Tables {
        Tables {
            posts: self.posts@,
            series: self.series@,
            stages: self.stages@,
            syncs: self.syncs@,
            revisions: self.revisions@,
            trash: self.trash@,
            tombstones: self.tombstones@,
            schedules: self.schedules@,
            stale: self.stale@,
        }
    }
}

/// Some post has this slug.
pub open spec fn slug_taken(posts: Map<i32, PostRow>, slug: Seq<char>) -> bool {
    exists|k: i32| has_slug(posts, k, slug)
}

/// Post `k` has this slug.
pub open spec fn has_slug(posts: Map<i32, PostRow>, k: i32, slug: Seq<char>) -> bool {
    posts.contains_key(k) && posts[k].slug == slug
}

/// Another post than `id` has this slug.
pub open spec fn slug_elsewhere(posts: Map<i32, PostRow>, id: i32, slug: Seq<char>) -> bool {
    exists|k: i32| #[trigger] has_slug(posts, k, slug) && k != id
}

/// The post that has this slug.
pub open spec fn post_with_slug(posts: Map<i32, PostRow>, slug: Seq<char>) -> Option<PostRow> {
    if slug_taken(posts, slug) {
        Some(posts[choose|k: i32| has_slug(posts, k, slug)])
    } else {
        None
    }
}

/// No two posts have one slug.
pub open spec fn unique_slugs(posts: Map<i32, PostRow>) -> bool {
    forall|a: i32, b: i32|
        #![trigger posts.contains_key(a), posts.contains_key(b)]
        posts.contains_key(a) && posts.contains_key(b) && posts[a].slug == posts[b].slug ==> a == b
}

/// Series `k` has this slug.
pub open spec fn series_has_slug(series: Map<i32, SeriesRow>, k: i32, slug: Seq<char>) -> bool {
    series.contains_key(k) && series[k].slug == slug
}

/// Some series has this slug.
pub open spec fn series_slug_taken(series: Map<i32, SeriesRow>, slug: Seq<char>) -> bool {
    exists|k: i32| series_has_slug(series, k, slug)
}

/// The series that has this slug.
pub open spec fn series_with_slug(series: Map<i32, SeriesRow>, slug: Seq<char>) -> Option<
    SeriesRow,
> {
    if series_slug_taken(series, slug) {
        Some(series[choose|k: i32| series_has_slug(series, k, slug)])
    } else {
        None
    }
}

/// No two series have one slug.
pub open spec fn unique_series_slugs(series: Map<i32, SeriesRow>) -> bool {
    forall|a: i32, b: i32|
        #![trigger series.contains_key(a), series.contains_key(b)]
        series.contains_key(a) && series.contains_key(b) && series[a].slug == series[b].slug ==> a
            == b
}

impl Tables {
    /// Each row stands under its key, and slugs name one post and one series.
    pub open spec fn wf(self) -> bool {
        &&& keyed::<post::Model>(self.posts)
        &&& keyed::<series::Model>(self.series)
        &&& keyed::<post_stage::Model>(self.stages)
        &&& keyed::<post_sync::Model>(self.syncs)
        &&& keyed::<post_revision::Model>(self.revisions)
        &&& keyed::<post_trash::Model>(self.trash)
        &&& keyed::<post_tombstone::Model>(self.tombstones)
        &&& keyed::<post_schedule::Model>(self.schedules)
        &&& keyed::<post_body_stale::Model>(self.stale)
        &&& unique_slugs(self.posts)
        &&& unique_series_slugs(self.series)
        &&& self.posts.dom().finite()
    }

    /// Every stage, sync record and revision is about a post that exists.
    pub open spec fn no_orphans(self) -> bool {
        &&& forall|k: i32| #[trigger] self.stages.contains_key(k) ==> self.posts.contains_key(k)
        &&& forall|k: i32| #[trigger] self.syncs.contains_key(k) ==> self.posts.contains_key(k)
        &&& forall|k: i32| #[trigger]
            self.revisions.contains_key(k) ==> self.posts.contains_key(self.revisions[k].post_id)
    }

    /// The post with this id is in the library: it exists and is not in the
    /// trash.
    pub open spec fn active(self, id: i32) -> bool {
        self.posts.contains_key(id) && !self.trash.contains_key(id)
    }
}

impl Store {
    /// The tables are sound.
    pub open spec fn wf(self) -> bool {
        &&& self.posts.wf()
        &&& self.series.wf()
        &&& self.stages.wf()
        &&& self.syncs.wf()
        &&& self.revisions.wf()
        &&& self.trash.wf()
        &&& self.tombstones.wf()
        &&& self.schedules.wf()
        &&& self.stale.wf()
        &&& self@.wf()
    }

    /// Tables without a row.
    pub fn new() -> (r: Self)
        ensures
            r.wf(),
            r@.no_orphans(),
            r@.posts == Map::<i32, PostRow>::empty(),
            r@.series == Map::<i32, SeriesRow>::empty(),
            r@.stages == Map::<i32, StageRow>::empty(),
            r@.syncs == Map::<i32, SyncRow>::empty(),
            r@.revisions == Map::<i32, RevisionRow>::empty(),
            r@.trash == Map::<i32, TrashRow>::empty(),
            r@.tombstones == Map::<Seq<char>, TombstoneRow>::empty(),
            r@.schedules == Map::<Seq<char>, ScheduleRow>::empty(),
            r@.stale == Map::<Seq<char>, StaleRow>::empty(),
    {
        Store {
            posts: Table::new(),
            series: Table::new(),
            stages: Table::new(),
            syncs: Table::new(),
            revisions: Table::new(),
            trash: Table::new(),
            tombstones: Table::new(),
            schedules: Table::new(),
            stale: Table::new(),
        }
    }
}

/// The post with this slug is the one that has it.
pub proof fn lemma_slug_holder(posts: Map<i32, PostRow>, k: i32, slug: Seq<char>)
    requires
        unique_slugs(posts),
        has_slug(posts, k, slug),
    ensures
        slug_taken(posts, slug),
        post_with_slug(posts, slug) == Some(posts[k]),
        forall|j: i32| has_slug(posts, j, slug) ==> j == k,
{
    let c = choose|j: i32| has_slug(posts, j, slug);
    assert(has_slug(posts, c, slug));
    assert(posts.contains_key(c) && posts.contains_key(k));
}

/// The series with this slug is the one that has it.
pub proof fn lemma_series_slug_holder(series: Map<i32, SeriesRow>, k: i32, slug: Seq<char>)
    requires
        unique_series_slugs(series),
        series_has_slug(series, k, slug),
    ensures
        series_slug_taken(series, slug),
        series_with_slug(series, slug) == Some(series[k]),
{
    let c = choose|j: i32| series_has_slug(series, j, slug);
    assert(series_has_slug(series, c, slug));
    assert(series.contains_key(c) && series.contains_key(k));
}

// ─── Ids ────────────────────────────────────────────────────────────────────

/// `k` is the largest id in use.
pub open spec fn is_largest<V>(map: Map<i32, V>, k: i32) -> bool {
    map.contains_key(k) && forall|j: i32| map.contains_key(j) ==> j <= k
}

/// The id that the next row gets: one more than the largest in use, or 1.
pub open spec fn next_id<V>(map: Map<i32, V>) -> int {
    if exists|k: i32| map.contains_key(k) {
        (choose|k: i32| is_largest(map, k)) + 1
    } else {
        1
    }
}

/// The next id is in use nowhere.
pub proof fn lemma_next_id_is_free<V>(map: Map<i32, V>, k: i32)
    requires
        exists|j: i32| is_largest(map, j),
    ensures
        is_largest(map, k) ==> next_id(map) == k + 1,
        map.contains_key(k) ==> k < next_id(map),
{
    let j = choose|j: i32| is_largest(map, j);
    assert(map.contains_key(j));
}

/// The id that the next row of a table gets, where there is one left.
pub fn fresh_id<R: Row<Key = i32>>(table: &Table<R>) -> (r: Option<i32>)
    requires
        table.wf(),
    ensures
        match r {
            Some(id) => id == next_id(table@) && !table@.contains_key(id),
            None => next_id(table@) > i32::MAX,
        },
{
    let mut i: usize = 0;
    let mut top: Option<i32> = None;
    proof {
        table.lemma_listed();
    }
    while i < table.len()
        invariant
            i <= table.listed().len(),
            table.wf(),
            top matches Some(m) ==> table@.contains_key(m) && forall|j: int|
                0 <= j < i ==> R::key_of(#[trigger] table.listed()[j])@ <= m,
            top is None ==> i == 0,
        decreases table.listed().len() - i,
    {
        proof {
            table.lemma_listed();
            assert(table.listed().contains(table.listed()[i as int]));
        }
        let k: i32 = table.row(i).key();
        match top {
            Some(m) => {
                if m < k {
                    top = Some(k);
                }
            },
            None => {
                top = Some(k);
            },
        }
        i = i + 1;
    }
    match top {
        Some(m) => {
            proof {
                assert forall|j: i32| table@.contains_key(j) implies j <= m by {
                    assert(table.listed().contains(table@[j]));
                    let p = choose|p: int|
                        0 <= p < table.listed().len() && table.listed()[p] == table@[j];
                    assert(R::key_of(table.listed()[p]) == j);
                }
                assert(is_largest(table@, m));
                lemma_next_id_is_free(table@, m);
            }
            if m == i32::MAX {
                None
            } else {
                proof {
                    if table@.contains_key((m + 1) as i32) {
                        lemma_next_id_is_free(table@, (m + 1) as i32);
                    }
                }
                Some(m + 1)
            }
        },
        None => {
            proof {
                assert forall|j: i32| !table@.contains_key(j) by {
                    if table@.contains_key(j) {
                        assert(table.listed().contains(table@[j]));
                    }
                }
            }
            Some(1)
        },
    }
}

// ─── Posts ──────────────────────────────────────────────────────────────────

/// The row of an optional post.
pub open spec fn post_row(m: Option<post::Model>) -> Option<PostRow> {
    match m {
        Some(p) => Some(p@),
        None => None,
    }
}

/// Why a write that would give two rows one slug is refused.
pub const DUPLICATE_SLUG: &'static str = "UNIQUE constraint failed: slug";

/// Why a new row is refused once the ids have run out.
pub const IDS_EXHAUSTED: &'static str = "no id is left for another row";

/// Why an update that finds no row is refused.
pub const NOTHING_UPDATED: &'static str = "None of the records are updated";

/// `e` is the database's refusal for this reason.
pub open spec fn refused(e: AppError, reason: &'static str) -> bool {
    e matches AppError::Db(m) && m@ == reason@
}

/// The database's refusal for a reason.
pub(crate) fn refusal(reason: &'static str) -> (e: AppError)
    ensures
        refused(e, reason),
{
    AppError::Db(reason.to_owned())
}

/// One post by id.
pub fn post_get(db: &Store, id: i32) -> (r: Option<post::Model>)
    requires
        db.wf(),
    ensures
        match r {
            Some(p) => db@.posts.contains_key(id) && p@ == db@.posts[id],
            None => !db@.posts.contains_key(id),
        },
{
    match db.posts.get(&id) {
        Some(p) => Some(p.clone()),
        None => None,
    }
}

/// The post with this slug, if there is one.
pub fn post_by_slug(db: &Store, slug: &str) -> (r: Option<post::Model>)
    requires
        db.wf(),
    ensures
        post_row(r) == post_with_slug(db@.posts, slug@),
        r matches Some(p) ==> has_slug(db@.posts, p.id, slug@) && db@.posts[p.id] == p@,
{
    let mut i: usize = 0;
    proof {
        db.posts.lemma_listed();
    }
    while i < db.posts.len()
        invariant
            i <= db.posts.listed().len(),
            db.wf(),
            forall|j: int| 0 <= j < i ==> (#[trigger] db.posts.listed()[j]).slug != slug@,
        decreases db.posts.listed().len() - i,
    {
        let row: &post::Model = db.posts.row(i);
        if same(row.slug.as_str(), slug) {
            proof {
                db.posts.lemma_listed();
                assert(db.posts.listed().contains(row@));
                lemma_slug_holder(db@.posts, row.id, slug@);
            }
            return Some(row.clone());
        }
        i = i + 1;
    }
    proof {
        if slug_taken(db@.posts, slug@) {
            let k = choose|k: i32| has_slug(db@.posts, k, slug@);
            assert(db.posts.listed().contains(db@.posts[k]));
        }
    }
    None
}

/// Puts a new post in. Its id is assigned here, whatever the model says; a slug
/// that another post has is refused.
pub fn post_create(db: &mut Store, model: post::Model) -> (r: AppResult<post::Model>)
    requires
        old(db).wf(),
    ensures
        final(db).wf(),
        match r {
            Ok(p) => {
                &&& !slug_taken(old(db)@.posts, model.slug@)
                &&& next_id(old(db)@.posts) <= i32::MAX
                &&& !old(db)@.posts.contains_key(p.id)
                &&& p@ == (PostRow { id: next_id(old(db)@.posts) as i32, ..model@ })
                &&& final(db)@ == (Tables {
                    posts: old(db)@.posts.insert(p.id, p@),
                    ..old(db)@
                })
            },
            Err(e) => {
                &&& final(db)@ == old(db)@
                &&& if slug_taken(old(db)@.posts, model.slug@) {
                    refused(e, DUPLICATE_SLUG)
                } else {
                    next_id(old(db)@.posts) > i32::MAX && refused(e, IDS_EXHAUSTED)
                }
            },
        },
{
    let ghost posts = db@.posts;
    match post_by_slug(db, model.slug.as_str()) {
        Some(p) => {
            return Err(refusal(DUPLICATE_SLUG));
        },
        None => {},
    }
    match fresh_id(&db.posts) {
        Some(id) => {
            let mut created: post::Model = model;
            created.id = id;
            db.posts.put(created.clone());
            proof {
                assert forall|a: i32, b: i32|
                    #![trigger db@.posts.contains_key(a), db@.posts.contains_key(b)]
                    db@.posts.contains_key(a) && db@.posts.contains_key(b) && db@.posts[a].slug
                        == db@.posts[b].slug implies a == b by {
                    if a == id && b != id {
                        assert(has_slug(posts, b, model.slug@));
                    }
                    if b == id && a != id {
                        assert(has_slug(posts, a, model.slug@));
                    }
                }
                db.posts.lemma_listed();
            }
            Ok(created)
        },
        None => Err(refusal(IDS_EXHAUSTED)),
    }
}

/// Writes over the post with the model's id. Refused where there is none, and
/// where another post has the model's slug.
pub fn post_update(db: &mut Store, model: post::Model) -> (r: AppResult<post::Model>)
    requires
        old(db).wf(),
    ensures
        final(db).wf(),
        match r {
            Ok(p) => {
                &&& old(db)@.posts.contains_key(model.id)
                &&& !slug_elsewhere(old(db)@.posts, model.id, model.slug@)
                &&& p@ == model@
                &&& final(db)@ == (Tables {
                    posts: old(db)@.posts.insert(model.id, model@),
                    ..old(db)@
                })
            },
            Err(e) => {
                &&& final(db)@ == old(db)@
                &&& if old(db)@.posts.contains_key(model.id) {
                    &&& slug_elsewhere(old(db)@.posts, model.id, model.slug@)
                    &&& refused(e, DUPLICATE_SLUG)
                } else {
                    refused(e, NOTHING_UPDATED)
                }
            },
        },
{
    let ghost posts = db@.posts;
    if !db.posts.has(&model.id) {
        return Err(refusal(NOTHING_UPDATED));
    }
    match post_by_slug(db, model.slug.as_str()) {
        Some(p) => {
            proof {
                lemma_slug_holder(posts, p.id, model.slug@);
            }
            if p.id != model.id {
                assert(has_slug(posts, p.id, model.slug@));
                return Err(refusal(DUPLICATE_SLUG));
            }
        },
        None => {},
    }
    let saved: post::Model = model.clone();
    db.posts.put(model);
    proof {
        assert forall|a: i32, b: i32|
            #![trigger db@.posts.contains_key(a), db@.posts.contains_key(b)]
            db@.posts.contains_key(a) && db@.posts.contains_key(b) && db@.posts[a].slug
                == db@.posts[b].slug implies a == b by {
            if a == model.id && b != model.id {
                assert(has_slug(posts, b, model.slug@));
            } else if b == model.id && a != model.id {
                assert(has_slug(posts, a, model.slug@));
            } else {
                assert(posts.contains_key(a) && posts.contains_key(b));
            }
        }
        db.posts.lemma_listed();
    }
    Ok(saved)
}

/// Takes the post with this id out. Where there is none, nothing happens.
pub fn post_delete(db: &mut Store, id: i32)
    requires
        old(db).wf(),
    ensures
        final(db).wf(),
        final(db)@ == (Tables { posts: old(db)@.posts.remove(id), ..old(db)@ }),
{
    let ghost posts = db@.posts;
    db.posts.remove(&id);
    proof {
        db.posts.lemma_listed();
        assert forall|a: i32, b: i32|
            #![trigger db@.posts.contains_key(a), db@.posts.contains_key(b)]
            db@.posts.contains_key(a) && db@.posts.contains_key(b) && db@.posts[a].slug
                == db@.posts[b].slug implies a == b by {
            assert(posts.contains_key(a) && posts.contains_key(b));
        }
    }
}

}
