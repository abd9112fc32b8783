//! The tables as rows: how a store is read from disk and written back.

use crate::db::{Store, Tables};
use crate::entities::post;
use crate::entities::post::PostRow;
use crate::entities::series;
use crate::entities::series::SeriesRow;
use crate::entities::post_stage;
use crate::entities::post_stage::StageRow;
use crate::entities::post_sync;
use crate::entities::post_sync::SyncRow;
use crate::entities::post_revision;
use crate::entities::post_revision::RevisionRow;
use crate::entities::post_trash;
use crate::entities::post_trash::TrashRow;
use crate::entities::post_tombstone;
use crate::entities::post_tombstone::TombstoneRow;
use crate::entities::post_schedule;
use crate::entities::post_schedule::ScheduleRow;
use crate::entities::post_body_stale;
use crate::entities::post_body_stale::StaleRow;
use crate::table::{lists, repeats_key, rows_view, Table};
use crate::text::same;
use vstd::prelude::*;

verus! {

/// The rows of every table.
pub struct Rows {
    pub posts: Vec<post::Model>,
    pub series: Vec<series::Model>,
    pub stages: Vec<post_stage::Model>,
    pub syncs: Vec<post_sync::Model>,
    pub revisions: Vec<post_revision::Model>,
    pub trash: Vec<post_trash::Model>,
    pub tombstones: Vec<post_tombstone::Model>,
    pub schedules: Vec<post_schedule::Model>,
    pub stale: Vec<post_body_stale::Model>,
}

/// What the rows of every table say.
pub struct RowsSpec {
    pub posts: Seq<PostRow>,
    pub series: Seq<SeriesRow>,
    pub stages: Seq<StageRow>,
    pub syncs: Seq<SyncRow>,
    pub revisions: Seq<RevisionRow>,
    pub trash: Seq<TrashRow>,
    pub tombstones: Seq<TombstoneRow>,
    pub schedules: Seq<ScheduleRow>,
    pub stale: Seq<StaleRow>,
}

impl View for Rows {
    type V = RowsSpec;

    open spec fn view(&self) -> RowsSpec {
        RowsSpec {
            posts: rows_view(self.posts@),
            series: rows_view(self.series@),
            stages: rows_view(self.stages@),
            syncs: rows_view(self.syncs@),
            revisions: rows_view(self.revisions@),
            trash: rows_view(self.trash@),
            tombstones: rows_view(self.tombstones@),
            schedules: rows_view(self.schedules@),
            stale: rows_view(self.stale@),
        }
    }
}

/// Two of these posts have one slug.
pub open spec fn posts_repeat_a_slug(rows: Seq<PostRow>) -> bool {
    exists|i: int, j: int|
        0 <= i < j < rows.len() && (#[trigger] rows[i]).slug == (#[trigger] rows[j]).slug
}

/// Two of these series have one slug.
pub open spec fn series_repeat_a_slug(rows: Seq<SeriesRow>) -> bool {
    exists|i: int, j: int|
        0 <= i < j < rows.len() && (#[trigger] rows[i]).slug == (#[trigger] rows[j]).slug
}

/// The rows can stand in tables: no key stands twice, and no slug of a post or of a
/// series.
pub open spec fn can_stand(rows: RowsSpec) -> bool {
    &&& !repeats_key::<post::Model>(rows.posts)
    &&& !repeats_key::<series::Model>(rows.series)
    &&& !repeats_key::<post_stage::Model>(rows.stages)
    &&& !repeats_key::<post_sync::Model>(rows.syncs)
    &&& !repeats_key::<post_revision::Model>(rows.revisions)
    &&& !repeats_key::<post_trash::Model>(rows.trash)
    &&& !repeats_key::<post_tombstone::Model>(rows.tombstones)
    &&& !repeats_key::<post_schedule::Model>(rows.schedules)
    &&& !repeats_key::<post_body_stale::Model>(rows.stale)
    &&& !posts_repeat_a_slug(rows.posts)
    &&& !series_repeat_a_slug(rows.series)
}

/// The tables hold just these rows.
pub open spec fn holds_rows(t: Tables, rows: RowsSpec) -> bool {
    &&& lists::<post::Model>(rows.posts, t.posts)
    &&& lists::<series::Model>(rows.series, t.series)
    &&& lists::<post_stage::Model>(rows.stages, t.stages)
    &&& lists::<post_sync::Model>(rows.syncs, t.syncs)
    &&& lists::<post_revision::Model>(rows.revisions, t.revisions)
    &&& lists::<post_trash::Model>(rows.trash, t.trash)
    &&& lists::<post_tombstone::Model>(rows.tombstones, t.tombstones)
    &&& lists::<post_schedule::Model>(rows.schedules, t.schedules)
    &&& lists::<post_body_stale::Model>(rows.stale, t.stale)
}

fn posts_share_a_slug(rows: &Vec<post::Model>) -> (r: bool)
    ensures
        r == posts_repeat_a_slug(rows_view(rows@)),
{
    let ghost all = rows_view(rows@);
    let mut i: usize = 0;
    while i < rows.len()
        invariant
            i <= rows@.len(),
            all == rows_view(rows@),
            forall|a: int, b: int|
                0 <= a < i && a < b < all.len() ==> (#[trigger] all[a]).slug != (
                #[trigger] all[b]).slug,
        decreases rows@.len() - i,
    {
        let mut j: usize = i + 1;
        while j < rows.len()
            invariant
                i < j <= rows@.len(),
                all == rows_view(rows@),
                forall|b: int| i < b < j ==> all[i as int].slug != (#[trigger] all[b]).slug,
            decreases rows@.len() - j,
        {
            if same(rows[i].slug.as_str(), rows[j].slug.as_str()) {
                assert(all[i as int].slug == all[j as int].slug);
                return true;
            }
            j = j + 1;
        }
        i = i + 1;
    }
    false
}

fn series_share_a_slug(rows: &Vec<series::Model>) -> (r: bool)
    ensures
        r == series_repeat_a_slug(rows_view(rows@)),
{
    let ghost all = rows_view(rows@);
    let mut i: usize = 0;
    while i < rows.len()
        invariant
            i <= rows@.len(),
            all == rows_view(rows@),
            forall|a: int, b: int|
                0 <= a < i && a < b < all.len() ==> (#[trigger] all[a]).slug != (
                #[trigger] all[b]).slug,
        decreases rows@.len() - i,
    {
        let mut j: usize = i + 1;
        while j < rows.len()
            invariant
                i < j <= rows@.len(),
                all == rows_view(rows@),
                forall|b: int| i < b < j ==> all[i as int].slug != (#[trigger] all[b]).slug,
            decreases rows@.len() - j,
        {
            if same(rows[i].slug.as_str(), rows[j].slug.as_str()) {
                assert(all[i as int].slug == all[j as int].slug);
                return true;
            }
            j = j + 1;
        }
        i = i + 1;
    }
    false
}

impl Store {
    /// The store that holds these rows, unless they cannot stand in tables.
    pub fn from_rows(rows: &Rows) -> (r: Option<Store>)
        ensures
            match r {
                Some(db) => db.wf() && can_stand(rows@) && holds_rows(db@, rows@),
                None => !can_stand(rows@),
            },
    {
        if posts_share_a_slug(&rows.posts) || series_share_a_slug(&rows.series) {
            return None;
        }
        let posts: Table<post::Model> = match Table::from_rows(&rows.posts) {
            Some(t) => t,
            None => {
                return None;
            },
        };
        let series: Table<series::Model> = match Table::from_rows(&rows.series) {
            Some(t) => t,
            None => {
                return None;
            },
        };
        let stages: Table<post_stage::Model> = match Table::from_rows(&rows.stages) {
            Some(t) => t,
            None => {
                return None;
            },
        };
        let syncs: Table<post_sync::Model> = match Table::from_rows(&rows.syncs) {
            Some(t) => t,
            None => {
                return None;
            },
        };
        let revisions: Table<post_revision::Model> = match Table::from_rows(&rows.revisions) {
            Some(t) => t,
            None => {
                return None;
            },
        };
        let trash: Table<post_trash::Model> = match Table::from_rows(&rows.trash) {
            Some(t) => t,
            None => {
                return None;
            },
        };
        let tombstones: Table<post_tombstone::Model> = match Table::from_rows(&rows.tombstones) {
            Some(t) => t,
            None => {
                return None;
            },
        };
        let schedules: Table<post_schedule::Model> = match Table::from_rows(&rows.schedules) {
            Some(t) => t,
            None => {
                return None;
            },
        };
        let stale: Table<post_body_stale::Model> = match Table::from_rows(&rows.stale) {
            Some(t) => t,
            None => {
                return None;
            },
        };
        proof {
            posts.lemma_listed();
            series.lemma_listed();
            stages.lemma_listed();
            syncs.lemma_listed();
            revisions.lemma_listed();
            trash.lemma_listed();
            tombstones.lemma_listed();
            schedules.lemma_listed();
            stale.lemma_listed();
            let p = rows_view(rows.posts@);
            assert forall|a: i32, b: i32|
                #![trigger posts@.contains_key(a), posts@.contains_key(b)]
                posts@.contains_key(a) && posts@.contains_key(b) && posts@[a].slug
                    == posts@[b].slug implies a == b by {
                assert(p.contains(posts@[a]) && p.contains(posts@[b]));
                let i = choose|i: int| 0 <= i < p.len() && p[i] == posts@[a];
                let j = choose|j: int| 0 <= j < p.len() && p[j] == posts@[b];
                if i < j {
                    assert(p[i].slug == p[j].slug);
                } else if j < i {
                    assert(p[j].slug == p[i].slug);
                }
            }
            let s = rows_view(rows.series@);
            assert forall|a: i32, b: i32|
                #![trigger series@.contains_key(a), series@.contains_key(b)]
                series@.contains_key(a) && series@.contains_key(b) && series@[a].slug
                    == series@[b].slug implies a == b by {
                assert(s.contains(series@[a]) && s.contains(series@[b]));
                let i = choose|i: int| 0 <= i < s.len() && s[i] == series@[a];
                let j = choose|j: int| 0 <= j < s.len() && s[j] == series@[b];
                if i < j {
                    assert(s[i].slug == s[j].slug);
                } else if j < i {
                    assert(s[j].slug == s[i].slug);
                }
            }
        }
        Some(
            Store {
                posts,
                series,
                stages,
                syncs,
                revisions,
                trash,
                tombstones,
                schedules,
                stale,
            },
        )
    }

    /// The rows of every table.
    pub fn to_rows(&self) -> (rows: Rows)
        requires
            self.wf(),
        ensures
            holds_rows(self@, rows@),
            can_stand(rows@),
    {
        proof {
            self.posts.lemma_listed();
            self.series.lemma_listed();
            self.stages.lemma_listed();
            self.syncs.lemma_listed();
            self.revisions.lemma_listed();
            self.trash.lemma_listed();
            self.tombstones.lemma_listed();
            self.schedules.lemma_listed();
            self.stale.lemma_listed();
        }
        let rows = Rows {
            posts: self.posts.to_rows(),
            series: self.series.to_rows(),
            stages: self.stages.to_rows(),
            syncs: self.syncs.to_rows(),
            revisions: self.revisions.to_rows(),
            trash: self.trash.to_rows(),
            tombstones: self.tombstones.to_rows(),
            schedules: self.schedules.to_rows(),
            stale: self.stale.to_rows(),
        };
        proof {
            lemma_listed_once::<post::Model>(rows@.posts, self@.posts);
            lemma_listed_once::<series::Model>(rows@.series, self@.series);
            lemma_listed_once::<post_stage::Model>(rows@.stages, self@.stages);
            lemma_listed_once::<post_sync::Model>(rows@.syncs, self@.syncs);
            lemma_listed_once::<post_revision::Model>(rows@.revisions, self@.revisions);
            lemma_listed_once::<post_trash::Model>(rows@.trash, self@.trash);
            lemma_listed_once::<post_tombstone::Model>(rows@.tombstones, self@.tombstones);
            lemma_listed_once::<post_schedule::Model>(rows@.schedules, self@.schedules);
            lemma_listed_once::<post_body_stale::Model>(rows@.stale, self@.stale);
            let p = rows@.posts;
            if posts_repeat_a_slug(p) {
                let (i, j) = choose|i: int, j: int|
                    0 <= i < j < p.len() && (#[trigger] p[i]).slug == (#[trigger] p[j]).slug;
                assert(p.contains(p[i]) && p.contains(p[j]));
                assert(self@.posts.contains_key(p[i].id) && self@.posts.contains_key(p[j].id));
            }
            let s = rows@.series;
            if series_repeat_a_slug(s) {
                let (i, j) = choose|i: int, j: int|
                    0 <= i < j < s.len() && (#[trigger] s[i]).slug == (#[trigger] s[j]).slug;
                assert(s.contains(s[i]) && s.contains(s[j]));
                assert(self@.series.contains_key(s[i].id) && self@.series.contains_key(s[j].id));
            }
        }
        rows
    }
}

/// A listing of a map names no key twice.
proof fn lemma_listed_once<R: crate::table::Row>(
    rows: Seq<R::V>,
    map: Map<<R::Key as View>::V, R::V>,
)
    requires
        lists::<R>(rows, map),
    ensures
        !repeats_key::<R>(rows),
{
    if repeats_key::<R>(rows) {
        let (i, j) = choose|i: int, j: int|
            0 <= i < j < rows.len() && R::key_of(#[trigger] rows[i]) == R::key_of(
                #[trigger] rows[j],
            );
        assert(rows.contains(rows[i]) && rows.contains(rows[j]));
        assert(rows[i] == rows[j]);
    }
}

/// Two maps that hold the same rows, each under its own key, are one map.
proof fn lemma_same_map<R: crate::table::Row>(
    rows: Seq<R::V>,
    a: Map<<R::Key as View>::V, R::V>,
    b: Map<<R::Key as View>::V, R::V>,
)
    requires
        lists::<R>(rows, a),
        lists::<R>(rows, b),
        crate::table::keyed::<R>(a),
        crate::table::keyed::<R>(b),
    ensures
        a == b,
{
    assert forall|k: <R::Key as View>::V| a.contains_key(k) == b.contains_key(k) by {
        if a.contains_key(k) {
            assert(rows.contains(a[k]));
        }
        if b.contains_key(k) {
            assert(rows.contains(b[k]));
        }
    }
    assert forall|k: <R::Key as View>::V| a.contains_key(k) implies a[k] == b[k] by {
        assert(rows.contains(a[k]));
    }
    assert(a =~= b);
}

/// What was written is what is read: the tables that hold some rows are the only
/// ones that do.
pub proof fn what_is_written_is_read_back(a: Tables, b: Tables, rows: RowsSpec)
    requires
        a.wf(),
        b.wf(),
        holds_rows(a, rows),
        holds_rows(b, rows),
    ensures
        a == b,
{
    lemma_same_map::<post::Model>(rows.posts, a.posts, b.posts);
    lemma_same_map::<series::Model>(rows.series, a.series, b.series);
    lemma_same_map::<post_stage::Model>(rows.stages, a.stages, b.stages);
    lemma_same_map::<post_sync::Model>(rows.syncs, a.syncs, b.syncs);
    lemma_same_map::<post_revision::Model>(rows.revisions, a.revisions, b.revisions);
    lemma_same_map::<post_trash::Model>(rows.trash, a.trash, b.trash);
    lemma_same_map::<post_tombstone::Model>(rows.tombstones, a.tombstones, b.tombstones);
    lemma_same_map::<post_schedule::Model>(rows.schedules, a.schedules, b.schedules);
    lemma_same_map::<post_body_stale::Model>(rows.stale, a.stale, b.stale);
}

}
