//! The series table.

use crate::db::{
    fresh_id, lemma_series_slug_holder, next_id, refusal, refused, series_has_slug,
    series_slug_taken, series_with_slug, Store, Tables, DUPLICATE_SLUG, IDS_EXHAUSTED,
    NOTHING_UPDATED,
};
use crate::entities::post;
use crate::entities::post::PostRow;
use crate::entities::series;
use crate::entities::series::SeriesRow;
use crate::error::AppResult;
use crate::text::same;
use vstd::prelude::*;

verus! {

/// The row of an optional series.
pub open spec fn series_row(m: Option<series::Model>) -> Option<SeriesRow> {
    match m {
        Some(s) => Some(s@),
        None => None,
    }
}

/// One series by id.
pub fn series_get(db: &Store, id: i32) -> (r: Option<series::Model>)
    requires
        db.wf(),
    ensures
        match r {
            Some(s) => db@.series.contains_key(id) && s@ == db@.series[id],
            None => !db@.series.contains_key(id),
        },
{
    match db.series.get(&id) {
        Some(s) => Some(s.clone()),
        None => None,
    }
}

/// The series with this slug, if there is one.
///
/// The slug is what this machine and the cloud agree on, so it is what a series
/// is looked up by whenever a remote row has to be matched to a local one.
pub fn series_by_slug(db: &Store, slug: &str) -> (r: Option<series::Model>)
    requires
        db.wf(),
    ensures
        series_row(r) == series_with_slug(db@.series, slug@),
        r matches Some(s) ==> series_has_slug(db@.series, s.id, slug@) && db@.series[s.id] == s@,
{
    let mut i: usize = 0;
    proof {
        db.series.lemma_listed();
    }
    while i < db.series.len()
        invariant
            i <= db.series.listed().len(),
            db.wf(),
            forall|j: int| 0 <= j < i ==> (#[trigger] db.series.listed()[j]).slug != slug@,
        decreases db.series.listed().len() - i,
    {
        let row: &series::Model = db.series.row(i);
        if same(row.slug.as_str(), slug) {
            proof {
                db.series.lemma_listed();
                assert(db.series.listed().contains(row@));
                lemma_series_slug_holder(db@.series, row.id, slug@);
            }
            return Some(row.clone());
        }
        i = i + 1;
    }
    proof {
        if series_slug_taken(db@.series, slug@) {
            let k = choose|k: i32| series_has_slug(db@.series, k, slug@);
            assert(db.series.listed().contains(db@.series[k]));
        }
    }
    None
}

/// Puts a new series in. Its id is assigned here, whatever the model says; a
/// slug that another series has is refused.
pub fn series_create(db: &mut Store, model: series::Model) -> (r: AppResult<series::Model>)
    requires
        old(db).wf(),
    ensures
        final(db).wf(),
        match r {
            Ok(s) => {
                &&& !series_slug_taken(old(db)@.series, model.slug@)
                &&& next_id(old(db)@.series) <= i32::MAX
                &&& !old(db)@.series.contains_key(s.id)
                &&& s@ == (SeriesRow { id: next_id(old(db)@.series) as i32, ..model@ })
                &&& final(db)@ == (Tables {
                    series: old(db)@.series.insert(s.id, s@),
                    ..old(db)@
                })
            },
            Err(e) => {
                &&& final(db)@ == old(db)@
                &&& if series_slug_taken(old(db)@.series, model.slug@) {
                    refused(e, DUPLICATE_SLUG)
                } else {
                    next_id(old(db)@.series) > i32::MAX && refused(e, IDS_EXHAUSTED)
                }
            },
        },
{
    let ghost series = db@.series;
    match series_by_slug(db, model.slug.as_str()) {
        Some(s) => {
            return Err(refusal(DUPLICATE_SLUG));
        },
        None => {},
    }
    match fresh_id(&db.series) {
        Some(id) => {
            let mut created: series::Model = model;
            created.id = id;
            db.series.put(created.clone());
            proof {
                assert forall|a: i32, b: i32|
                    #![trigger db@.series.contains_key(a), db@.series.contains_key(b)]
                    db@.series.contains_key(a) && db@.series.contains_key(b) && db@.series[a].slug
                        == db@.series[b].slug implies a == b by {
                    if a == id && b != id {
                        assert(series_has_slug(series, b, model.slug@));
                    }
                    if b == id && a != id {
                        assert(series_has_slug(series, a, model.slug@));
                    }
                }
                db.series.lemma_listed();
            }
            Ok(created)
        },
        None => Err(refusal(IDS_EXHAUSTED)),
    }
}

/// Writes over the series with the model's id. Refused where there is none, and
/// where another series has the model's slug.
pub fn series_update(db: &mut Store, model: series::Model) -> (r: AppResult<series::Model>)
    requires
        old(db).wf(),
    ensures
        final(db).wf(),
        match r {
            Ok(s) => {
                &&& old(db)@.series.contains_key(model.id)
                &&& forall|k: i32|
                    series_has_slug(old(db)@.series, k, model.slug@) ==> k == model.id
                &&& s@ == model@
                &&& final(db)@ == (Tables {
                    series: old(db)@.series.insert(model.id, model@),
                    ..old(db)@
                })
            },
            Err(e) => {
                &&& final(db)@ == old(db)@
                &&& if old(db)@.series.contains_key(model.id) {
                    &&& exists|k: i32|
                        series_has_slug(old(db)@.series, k, model.slug@) && k != model.id
                    &&& refused(e, DUPLICATE_SLUG)
                } else {
                    refused(e, NOTHING_UPDATED)
                }
            },
        },
{
    let ghost series = db@.series;
    if !db.series.has(&model.id) {
        return Err(refusal(NOTHING_UPDATED));
    }
    match series_by_slug(db, model.slug.as_str()) {
        Some(s) => {
            if s.id != model.id {
                assert(series_has_slug(series, s.id, model.slug@));
                return Err(refusal(DUPLICATE_SLUG));
            }
            assert forall|k: i32| series_has_slug(series, k, model.slug@) implies k
                == model.id by {
                assert(series.contains_key(k) && series.contains_key(s.id));
            }
        },
        None => {},
    }
    let saved: series::Model = model.clone();
    db.series.put(model);
    proof {
        assert forall|a: i32, b: i32|
            #![trigger db@.series.contains_key(a), db@.series.contains_key(b)]
            db@.series.contains_key(a) && db@.series.contains_key(b) && db@.series[a].slug
                == db@.series[b].slug implies a == b by {
            if a == model.id && b != model.id {
                assert(series_has_slug(series, b, model.slug@));
            } else if b == model.id && a != model.id {
                assert(series_has_slug(series, a, model.slug@));
            } else {
                assert(series.contains_key(a) && series.contains_key(b));
            }
        }
        db.series.lemma_listed();
    }
    Ok(saved)
}

/// Takes the series with this id out. Where there is none, nothing happens.
pub fn series_delete(db: &mut Store, id: i32)
    requires
        old(db).wf(),
    ensures
        final(db).wf(),
        final(db)@ == (Tables { series: old(db)@.series.remove(id), ..old(db)@ }),
{
    let ghost series = db@.series;
    db.series.remove(&id);
    proof {
        db.series.lemma_listed();
        assert forall|a: i32, b: i32|
            #![trigger db@.series.contains_key(a), db@.series.contains_key(b)]
            db@.series.contains_key(a) && db@.series.contains_key(b) && db@.series[a].slug
                == db@.series[b].slug implies a == b by {
            assert(series.contains_key(a) && series.contains_key(b));
        }
    }
}

/// The series table once the cloud's row has been brought in, matched by slug:
/// the local id and creation time stay where there is a local row.
pub open spec fn series_pulled(series: Map<i32, SeriesRow>, remote: SeriesRow) -> Map<
    i32,
    SeriesRow,
> {
    match series_with_slug(series, remote.slug) {
        Some(local) => series.insert(
            local.id,
            SeriesRow { id: local.id, created_at: local.created_at, ..remote },
        ),
        None => series.insert(
            next_id(series) as i32,
            SeriesRow { id: next_id(series) as i32, ..remote },
        ),
    }
}

/// Brings a series that the cloud has into the local table, matched by slug.
///
/// The local id is kept where a row exists, because posts point at it. The only
/// refusal is that a new row is needed and no id is left for it.
pub fn upsert_series_from_remote(db: &mut Store, remote: series::Model) -> (r: AppResult<()>)
    requires
        old(db).wf(),
    ensures
        final(db).wf(),
        match r {
            Ok(_) => {
                &&& series_slug_taken(old(db)@.series, remote.slug@) || next_id(old(db)@.series)
                    <= i32::MAX
                &&& final(db)@ == (Tables {
                    series: series_pulled(old(db)@.series, remote@),
                    ..old(db)@
                })
            },
            Err(e) => {
                &&& !series_slug_taken(old(db)@.series, remote.slug@)
                &&& next_id(old(db)@.series) > i32::MAX
                &&& refused(e, IDS_EXHAUSTED)
                &&& final(db)@ == old(db)@
            },
        },
{
    let mut model: series::Model = remote;
    match series_by_slug(db, model.slug.as_str()) {
        Some(local) => {
            assert(series_has_slug(db@.series, local.id, model.slug@));
            assert forall|k: i32| series_has_slug(db@.series, k, model.slug@) implies k
                == local.id by {
                assert(db@.series.contains_key(k) && db@.series.contains_key(local.id));
            }
            model.id = local.id;
            model.created_at = local.created_at;
            match series_update(db, model) {
                Ok(_) => Ok(()),
                Err(e) => Err(e),
            }
        },
        None => match series_create(db, model) {
            Ok(_) => Ok(()),
            Err(e) => Err(e),
        },
    }
}

/// Brings a series down that this machine does not have. One that it has is
/// left as it is, whatever the cloud says of it.
pub fn adopt_series_from_remote(db: &mut Store, remote: series::Model) -> (r: AppResult<()>)
    requires
        old(db).wf(),
    ensures
        final(db).wf(),
        match r {
            Ok(_) => if series_slug_taken(old(db)@.series, remote.slug@) {
                final(db)@ == old(db)@
            } else {
                &&& next_id(old(db)@.series) <= i32::MAX
                &&& final(db)@ == (Tables {
                    series: series_pulled(old(db)@.series, remote@),
                    ..old(db)@
                })
            },
            Err(e) => {
                &&& !series_slug_taken(old(db)@.series, remote.slug@)
                &&& next_id(old(db)@.series) > i32::MAX
                &&& refused(e, IDS_EXHAUSTED)
                &&& final(db)@ == old(db)@
            },
        },
{
    match series_by_slug(db, remote.slug.as_str()) {
        Some(local) => {
            assert(series_has_slug(db@.series, local.id, remote.slug@));
            Ok(())
        },
        None => match series_create(db, remote) {
            Ok(_) => Ok(()),
            Err(e) => Err(e),
        },
    }
}

// ─── Membership ─────────────────────────────────────────────────────────────

/// The post out of series `id`; a post that is not in it as it was.
pub open spec fn unfiled(post: PostRow, id: i32) -> PostRow {
    if post.series_id == Some(id) {
        PostRow { series_id: None, series_order: None, ..post }
    } else {
        post
    }
}

/// The posts filed under series `id`.
pub open spec fn filed_under(posts: Map<i32, PostRow>, id: i32) -> Set<i32> {
    Set::new(|k: i32| posts.contains_key(k) && posts[k].series_id == Some(id))
}

/// Takes every post out of a series, and reports how many were moved.
pub fn unfile_series(db: &mut Store, series_id: i32) -> (n: u64)
    requires
        old(db).wf(),
    ensures
        final(db).wf(),
        final(db)@ == (Tables {
            posts: old(db)@.posts.map_values(|p: PostRow| unfiled(p, series_id)),
            ..old(db)@
        }),
        filed_under(old(db)@.posts, series_id).finite(),
        n == filed_under(old(db)@.posts, series_id).len(),
{
    let ghost posts = db@.posts;
    let ghost listed = db.posts.listed();
    let len: usize = db.posts.len();
    let mut ids: Vec<i32> = Vec::new();
    let mut i: usize = 0;
    proof {
        db.posts.lemma_listed();
    }
    let ghost mut found: Set<i32> = Set::empty();
    while i < len
        invariant
            len == listed.len(),
            listed == db.posts.listed(),
            posts == db.posts@,
            db.wf(),
            i <= len,
            found.finite(),
            found.len() == ids@.len(),
            ids@.len() <= i,
            forall|k: i32| found.contains(k) <==> ids@.contains(k),
            forall|k: i32|
                found.contains(k) <==> exists|j: int|
                    0 <= j < i && (#[trigger] listed[j]).id == k && listed[j].series_id == Some(
                        series_id,
                    ),
        decreases len - i,
    {
        let row: &post::Model = db.posts.row(i);
        let hit: bool = match row.series_id {
            Some(s) => s == series_id,
            None => false,
        };
        proof {
            db.posts.lemma_listed();
            let v = listed[i as int];
            if hit {
                assert(!found.contains(v.id)) by {
                    if found.contains(v.id) {
                        let j = choose|j: int|
                            0 <= j < i && (#[trigger] listed[j]).id == v.id && listed[j].series_id
                                == Some(series_id);
                        assert(listed.contains(listed[j]) && listed.contains(v));
                        assert(listed[j] == v);
                    }
                }
            }
        }
        if hit {
            let ghost before = ids@;
            let ghost was = found;
            ids.push(row.id);
            proof {
                found = found.insert(listed[i as int].id);
                crate::table::lemma_push_contains(before, listed[i as int].id);
                assert forall|k: i32| found.contains(k) <==> exists|j: int|
                    0 <= j < i + 1 && (#[trigger] listed[j]).id == k && listed[j].series_id
                        == Some(series_id) by {
                    if found.contains(k) {
                        if k == listed[i as int].id {
                            assert(listed[i as int].series_id == Some(series_id));
                        } else {
                            assert(was.contains(k));
                        }
                    }
                }
            }
        }
        i = i + 1;
    }
    proof {
        assert forall|k: i32| found.contains(k) <==> filed_under(posts, series_id).contains(k) by {
            if found.contains(k) {
                let j = choose|j: int|
                    0 <= j < len && (#[trigger] listed[j]).id == k && listed[j].series_id == Some(
                        series_id,
                    );
                assert(listed.contains(listed[j]));
            }
            if filed_under(posts, series_id).contains(k) {
                assert(listed.contains(posts[k]));
                let j = choose|j: int| 0 <= j < len && listed[j] == posts[k];
                assert(listed[j].id == k);
            }
        }
        assert(found =~= filed_under(posts, series_id));
    }
    let mut n: usize = 0;
    while n < ids.len()
        invariant
            n <= ids@.len(),
            db.wf(),
            forall|k: i32| ids@.contains(k) <==> filed_under(posts, series_id).contains(k),
            db@ == (Tables { posts: db@.posts, ..old(db)@ }),
            forall|k: i32| db@.posts.contains_key(k) <==> posts.contains_key(k),
            forall|k: i32| #[trigger]
                posts.contains_key(k) ==> db@.posts[k] == (if ids@.take(n as int).contains(k) {
                    unfiled(posts[k], series_id)
                } else {
                    posts[k]
                }),
        decreases ids@.len() - n,
    {
        let id: i32 = ids[n];
        proof {
            assert(ids@.contains(id));
            assert(ids@.take(n + 1) =~= ids@.take(n as int).push(id));
            crate::table::lemma_push_contains(ids@.take(n as int), id);
        }
        let ghost before = db@;
        match db.posts.get(&id) {
            Some(p) => {
                let mut out: post::Model = p.clone();
                out.series_id = None;
                out.series_order = None;
                db.posts.put(out);
                proof {
                    db.posts.lemma_listed();
                    assert forall|a: i32, b: i32|
                        #![trigger db@.posts.contains_key(a), db@.posts.contains_key(b)]
                        db@.posts.contains_key(a) && db@.posts.contains_key(b)
                            && db@.posts[a].slug == db@.posts[b].slug implies a == b by {
                        assert(before.posts.contains_key(a) && before.posts.contains_key(b));
                    }
                }
            },
            None => {},
        }
        n = n + 1;
    }
    proof {
        assert(ids@.take(n as int) =~= ids@);
        assert(db@.posts =~= posts.map_values(|p: PostRow| unfiled(p, series_id)));
    }
    n as u64
}

/// Deletes a series: its posts come out of it and then it goes, and the number
/// of posts that came out is reported.
pub fn delete_series(db: &mut Store, id: i32) -> (n: u64)
    requires
        old(db).wf(),
    ensures
        final(db).wf(),
        final(db)@ == (Tables {
            posts: old(db)@.posts.map_values(|p: PostRow| unfiled(p, id)),
            series: old(db)@.series.remove(id),
            ..old(db)@
        }),
        n == filed_under(old(db)@.posts, id).len(),
{
    let n: u64 = unfile_series(db, id);
    series_delete(db, id);
    n
}

/// After a series is deleted no post points at it.
pub proof fn deleting_a_series_leaves_no_post_in_it(posts: Map<i32, PostRow>, id: i32, k: i32)
    requires
        posts.contains_key(k),
    ensures
        posts.map_values(|p: PostRow| unfiled(p, id))[k].series_id != Some(id),
        posts[k].series_id != Some(id) ==> posts.map_values(|p: PostRow| unfiled(p, id))[k]
            == posts[k],
{
}

/// Bringing one of the cloud's series in takes what the cloud says of it: a series that
/// is here keeps its id, to which posts point, and when it was made; one that is not
/// gets an id of its own. No other series changes.
pub proof fn a_series_is_brought_in(
    series: Map<i32, SeriesRow>,
    remote: SeriesRow,
    id: i32,
    other: i32,
)
    requires
        crate::table::keyed::<series::Model>(series),
        crate::db::unique_series_slugs(series),
        other != id,
    ensures
        series.contains_key(id) && series[id].slug == remote.slug ==> {
            let after = series_pulled(series, remote);
            &&& after.contains_key(id)
            &&& after[id].id == id
            &&& after[id].slug == remote.slug
            &&& after[id].title == remote.title
            &&& after[id].description == remote.description
            &&& after[id].created_at == series[id].created_at
            &&& after.contains_key(other) == series.contains_key(other)
            &&& series.contains_key(other) ==> after[other] == series[other]
        },
        !series_slug_taken(series, remote.slug) && id == next_id(series) ==> {
            let after = series_pulled(series, remote);
            &&& after.contains_key(id)
            &&& after[id] == (SeriesRow { id, ..remote })
            &&& after.contains_key(other) == series.contains_key(other)
            &&& series.contains_key(other) ==> after[other] == series[other]
        },
{
    if series.contains_key(id) && series[id].slug == remote.slug {
        assert(series_has_slug(series, id, remote.slug));
        assert forall|k: i32| series_has_slug(series, k, remote.slug) implies k == id by {
            assert(series.contains_key(k) && series.contains_key(id));
        }
        assert(series[id].id == id);
    }
}

/// Deleting a series takes its posts out of it and does nothing else to any post.
pub proof fn a_series_is_emptied(post: PostRow, id: i32)
    ensures
        ({
            let after = unfiled(post, id);
            &&& post.series_id == Some(id) ==> after.series_id is None && after.series_order
                is None
            &&& post.series_id != Some(id) ==> after == post
            &&& after.id == post.id
            &&& after.slug == post.slug
            &&& after.title == post.title
            &&& after.excerpt == post.excerpt
            &&& after.tags == post.tags
            &&& after.published == post.published
            &&& after.published_at == post.published_at
            &&& after.created_at == post.created_at
            &&& after.updated_at == post.updated_at
        }),
{
}

/// The posts of a series are those that are filed under it, live or not.
pub proof fn which_posts_are_filed(posts: Map<i32, PostRow>, id: i32, k: i32)
    ensures
        filed_under(posts, id).contains(k) <==> posts.contains_key(k) && posts[k].series_id
            == Some(id),
{
}

}
