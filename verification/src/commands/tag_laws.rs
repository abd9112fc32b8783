//! Laws of tag sweeps.

use crate::commands::tags::{
    after_change, after_retag, body_in, carriers, counts_tags, in_use, names_tag, origin_of, renamed,
    retagged, sweep_of, sweeps_library, swept, users, without, CachedBodyRow, MostUsed, SkipReason,
    SkippedRow, Sweep, Swept, TagChangeSpec, TagCount, TagCountRow,
};
use crate::db::listings::{active_posts, NewestPosts};
use crate::db::side_tables::sync_of;
use crate::db::Tables;
use crate::entities::post;
use crate::entities::post::PostRow;
use crate::json::{tags_column, tags_in};
use crate::revisions::after_snapshot;
use crate::sync_state::fingerprint;
use crate::table::{in_order, lemma_push_contains, lists, Order};
use crate::text::{firsts, lemma_firsts_contains};
use vstd::prelude::*;

verus! {

/// After a rename the old name is gone, the new one stands for both, every other
/// tag is as it was, and nothing stands twice.
pub proof fn a_rename_folds_the_two_together(
    tags: Seq<Seq<char>>,
    from: Seq<char>,
    to: Seq<char>,
    other: Seq<char>,
)
    requires
        from != to,
        other != from,
        other != to,
    ensures
        ({
            let after = after_change(tags, TagChangeSpec::Rename { from, to });
            &&& !after.contains(from)
            &&& after.contains(to) <==> tags.contains(from) || tags.contains(to)
            &&& after.contains(other) <==> tags.contains(other)
            &&& after.no_duplicates()
        }),
{
    let r = renamed(tags, from, to);
    lemma_firsts_contains(r);
    let after = after_change(tags, TagChangeSpec::Rename { from, to });
    assert(after == firsts(r));
    assert(after.contains(from) <==> r.contains(from));
    assert(after.contains(to) <==> r.contains(to));
    assert(after.contains(other) <==> r.contains(other));
    if tags.contains(from) {
        let i = choose|i: int| 0 <= i < tags.len() && tags[i] == from;
        assert(r[i] == to);
    }
    if tags.contains(to) {
        let i = choose|i: int| 0 <= i < tags.len() && tags[i] == to;
        assert(r[i] == to);
    }
    if tags.contains(other) {
        let i = choose|i: int| 0 <= i < tags.len() && tags[i] == other;
        assert(r[i] == other);
    }
    if r.contains(to) {
        let i = choose|i: int| 0 <= i < r.len() && r[i] == to;
        assert(tags.contains(tags[i]));
    }
    if r.contains(other) {
        let i = choose|i: int| 0 <= i < r.len() && r[i] == other;
        assert(tags.contains(tags[i]));
    }
}

/// Where nothing stood twice, a rename of a tag to a name that the post does not
/// have changes that one name and nothing else: the order stays.
pub proof fn a_rename_keeps_the_order(tags: Seq<Seq<char>>, from: Seq<char>, to: Seq<char>)
    requires
        tags.no_duplicates(),
        !tags.contains(to),
    ensures
        after_change(tags, TagChangeSpec::Rename { from, to }) == renamed(tags, from, to),
{
    let r = renamed(tags, from, to);
    assert forall|i: int, j: int| 0 <= i < j < r.len() implies r[i] != r[j] by {
        assert(tags[i] != tags[j]);
        assert(tags.contains(tags[i]) && tags.contains(tags[j]));
    }
    lemma_firsts_of_distinct(r);
}

proof fn lemma_firsts_of_distinct(list: Seq<Seq<char>>)
    requires
        list.no_duplicates(),
    ensures
        firsts(list) == list,
    decreases list.len(),
{
    if list.len() > 0 {
        lemma_firsts_of_distinct(list.drop_last());
        assert(!list.drop_last().contains(list.last()));
        assert(firsts(list) =~= list);
    } else {
        assert(firsts(list) =~= list);
    }
}

/// A tag that was added is there, and adding it again changes nothing.
pub proof fn a_tag_is_not_added_twice(tags: Seq<Seq<char>>, tag: Seq<char>)
    ensures
        ({
            let after = after_change(tags, TagChangeSpec::Add(tag));
            &&& after.contains(tag)
            &&& after_change(after, TagChangeSpec::Add(tag)) == after
            &&& forall|other: Seq<char>|
                other != tag ==> (#[trigger] after.contains(other) <==> tags.contains(other))
        }),
{
    lemma_push_contains(tags, tag);
}

/// A tag that was taken off is gone, and every other one is still there.
pub proof fn a_tag_taken_off_is_gone(tags: Seq<Seq<char>>, tag: Seq<char>)
    ensures
        ({
            let after = after_change(tags, TagChangeSpec::Remove(tag));
            &&& !after.contains(tag)
            &&& forall|other: Seq<char>|
                other != tag ==> (#[trigger] after.contains(other) <==> tags.contains(other))
        }),
    decreases tags.len(),
{
    if tags.len() > 0 {
        a_tag_taken_off_is_gone(tags.drop_last(), tag);
        lemma_push_contains(tags.drop_last(), tags.last());
        lemma_push_contains(without(tags.drop_last(), tag), tags.last());
        assert(tags =~= tags.drop_last().push(tags.last()));
    }
}

/// A sweep leaves a post exactly as it is where the post is not named, is in the
/// trash, or has no current text here; it moves no post in or out of any table
/// but the history.
pub proof fn a_sweep_leaves_the_rest_alone(
    t: Tables,
    ids: Seq<i32>,
    change: TagChangeSpec,
    bodies: Seq<CachedBodyRow>,
    now: i64,
    k: i32,
)
    requires
        t.posts.contains_key(k),
        ({
            ||| !ids.contains(k)
            ||| t.trash.contains_key(k)
            ||| body_in(bodies, t.posts[k].slug) is None
            ||| t.stale.contains_key(t.posts[k].slug)
        }),
    ensures
        ({
            let after = swept(t, ids, change, bodies, now).tables;
            &&& after.posts.dom() == t.posts.dom()
            &&& after.posts[k] == t.posts[k]
            &&& sync_of(after, k) == sync_of(t, k)
            &&& after.series == t.series
            &&& after.stages == t.stages
            &&& after.trash == t.trash
            &&& after.tombstones == t.tombstones
            &&& after.schedules == t.schedules
            &&& after.stale == t.stale
        }),
    decreases ids.len(),
{
    if ids.len() > 0 {
        let rest = ids.drop_last();
        if rest.contains(k) {
            let i = choose|i: int| 0 <= i < rest.len() && rest[i] == k;
            assert(ids[i] == k);
        }
        a_sweep_leaves_the_rest_alone(t, rest, change, bodies, now, k);
        let s = swept(t, rest, change, bodies, now).tables;
        let id = ids.last();
        assert(ids.contains(id));
        let after = swept(t, ids, change, bodies, now).tables;
        assert(after.posts.dom() =~= t.posts.dom());
    }
}

/// A post that a sweep rewrites keeps everything but its tags and the time of
/// its last change, has the fingerprint of what it says now, and has the version
/// from before at the head of its history unless that was there already.
pub proof fn a_sweep_marks_what_it_rewrites(
    t: Tables,
    id: i32,
    change: TagChangeSpec,
    body: Seq<char>,
    now: i64,
)
    ensures
        ({
            let before = t.posts[id];
            let after = after_retag(t, id, change, body, now);
            &&& after.posts[id] == (PostRow {
                tags: after.posts[id].tags,
                updated_at: now,
                ..before
            })
            &&& after.syncs[id].local_hash == fingerprint(after.posts[id], body)
            &&& sync_of(t, id) matches Some(row) ==> after.syncs[id].synced_hash
                == row.synced_hash
            &&& after.revisions == after_snapshot(
                t,
                before,
                crate::commands::tags::origin_of(change),
                Some(body),
                now,
            ).revisions
        }),
{
}

/// The posts that a sweep of the library goes over are those that carry the tag, live
/// or not, all of them and in their order.
pub proof fn every_carrier_is_swept(posts: Seq<PostRow>, tag: Seq<char>)
    ensures
        carriers(posts, tag) == posts.filter(
            |p: PostRow| tags_in(p.tags).contains(tag),
        ).map_values(|p: PostRow| p.id),
    decreases posts.len(),
{
    reveal(Seq::filter);
    let carries = |p: PostRow| tags_in(p.tags).contains(tag);
    let id = |p: PostRow| p.id;
    if posts.len() > 0 {
        let rest = posts.drop_last();
        every_carrier_is_swept(rest, tag);
        if carries(posts.last()) {
            assert(posts.filter(carries).map_values(id) =~= rest.filter(carries).map_values(
                id,
            ).push(posts.last().id));
        }
    } else {
        assert(posts.filter(carries).map_values(id) =~= Seq::<i32>::empty());
    }
}

/// The text that is held for a slug is found where there is one, and is one that is
/// held for it.
pub proof fn a_held_text_is_found(bodies: Seq<CachedBodyRow>, slug: Seq<char>)
    ensures
        body_in(bodies, slug) is None <==> (forall|i: int|
            0 <= i < bodies.len() ==> (#[trigger] bodies[i]).slug != slug),
        body_in(bodies, slug) matches Some(text) ==> exists|i: int|
            0 <= i < bodies.len() && (#[trigger] bodies[i]).slug == slug && bodies[i].body == text,
    decreases bodies.len(),
{
    if bodies.len() > 0 {
        let rest = bodies.drop_last();
        a_held_text_is_found(rest, slug);
        let n = bodies.len() - 1;
        assert(bodies[n] == bodies.last());
        assert forall|i: int| 0 <= i < n implies rest[i] == #[trigger] bodies[i] by {}
        if bodies.last().slug != slug {
            if body_in(rest, slug) is None {
                assert forall|i: int| 0 <= i < bodies.len() implies (#[trigger] bodies[i]).slug
                    != slug by {
                    if i < n {
                        assert(rest[i].slug != slug);
                    }
                }
            } else {
                let i = choose|i: int|
                    0 <= i < rest.len() && (#[trigger] rest[i]).slug == slug && Some(rest[i].body)
                        == body_in(rest, slug);
                assert(bodies[i].slug == slug);
            }
        }
    }
}

/// What a sweep that goes over a post once does to it is decided by the post as it
/// stood: the posts before it do not matter.
proof fn lemma_swept_apart(
    t: Tables,
    ids: Seq<i32>,
    change: TagChangeSpec,
    bodies: Seq<CachedBodyRow>,
    now: i64,
    k: i32,
)
    requires
        !ids.contains(k),
        t.posts.contains_key(k),
    ensures
        ({
            let s = swept(t, ids, change, bodies, now).tables;
            &&& sweep_of(s, k, change, bodies) == sweep_of(t, k, change, bodies)
            &&& s.posts.contains_key(k)
            &&& s.posts[k] == t.posts[k]
            &&& sync_of(s, k) == sync_of(t, k)
        }),
{
    a_sweep_leaves_the_rest_alone(t, ids, change, bodies, now, k);
}

/// A sweep reaches every post that it is asked to go over: one of the library whose
/// tags the change would touch, and whose text is here and current, has its tags
/// changed, whichever place it has in the list, and is marked as changed now. One
/// whose text is not here, or is out of date, is reported with that reason.
pub proof fn a_sweep_reaches_every_post(
    t: Tables,
    ids: Seq<i32>,
    change: TagChangeSpec,
    bodies: Seq<CachedBodyRow>,
    now: i64,
    k: i32,
)
    requires
        ids.no_duplicates(),
        ids.contains(k),
        t.posts.contains_key(k),
        !t.trash.contains_key(k),
        after_change(tags_in(t.posts[k].tags), change) != tags_in(t.posts[k].tags),
    ensures
        ({
            let s = swept(t, ids, change, bodies, now);
            let post = t.posts[k];
            &&& match body_in(bodies, post.slug) {
                None => s.skipped.contains(
                    SkippedRow { id: k, title: post.title, reason: SkipReason::BodyNotCached },
                ),
                Some(text) => if t.stale.contains_key(post.slug) {
                    s.skipped.contains(
                        SkippedRow { id: k, title: post.title, reason: SkipReason::BodyStale },
                    )
                } else {
                    &&& s.tables.posts.contains_key(k)
                    &&& s.tables.posts[k].tags == Some(
                        tags_column(after_change(tags_in(post.tags), change)),
                    )
                    &&& s.tables.posts[k].updated_at == now
                    &&& s.tables.posts[k].title == post.title
                    &&& s.tables.posts[k].slug == post.slug
                    &&& s.tables.posts[k].published == post.published
                    &&& s.tables.posts[k].published_at == post.published_at
                    &&& s.tables.syncs.contains_key(k)
                    &&& s.tables.syncs[k].local_hash == fingerprint(s.tables.posts[k], text)
                }
            }
        }),
    decreases ids.len(),
{
    let rest = ids.drop_last();
    let s = swept(t, rest, change, bodies, now);
    let all = swept(t, ids, change, bodies, now);
    let id = ids.last();
    assert(ids[ids.len() - 1] == id);
    assert(!rest.contains(id)) by {
        if rest.contains(id) {
            let i = choose|i: int| 0 <= i < rest.len() && rest[i] == id;
            assert(ids[i] == ids[ids.len() - 1]);
        }
    }
    if k == id {
        lemma_swept_apart(t, rest, change, bodies, now, k);
        match sweep_of(s.tables, k, change, bodies) {
            Sweep::Skip(reason) => {
                assert(all.skipped[s.skipped.len() as int] == (SkippedRow {
                    id: k,
                    title: t.posts[k].title,
                    reason,
                }));
            },
            _ => {},
        }
    } else {
        let i = choose|i: int| 0 <= i < ids.len() && ids[i] == k;
        assert(rest[i] == k);
        assert(rest.no_duplicates()) by {
            assert forall|a: int, b: int| 0 <= a < rest.len() && 0 <= b < rest.len() && a
                != b implies rest[a] != rest[b] by {
                assert(ids[a] != ids[b]);
            }
        }
        a_sweep_reaches_every_post(t, rest, change, bodies, now, k);
        assert forall|row: SkippedRow| s.skipped.contains(row) implies #[trigger] all.skipped.contains(
            row,
        ) by {
            let j = choose|j: int| 0 <= j < s.skipped.len() && s.skipped[j] == row;
            assert(all.skipped[j] == row);
        }
    }
}

/// A sweep rewrites this post: it is in the library, its tags would change, and its
/// text is here and current.
pub open spec fn is_rewritten(
    t: Tables,
    change: TagChangeSpec,
    bodies: Seq<CachedBodyRow>,
    k: i32,
) -> bool {
    &&& t.posts.contains_key(k)
    &&& !t.trash.contains_key(k)
    &&& after_change(tags_in(t.posts[k].tags), change) != tags_in(t.posts[k].tags)
    &&& body_in(bodies, t.posts[k].slug) is Some
    &&& !t.stale.contains_key(t.posts[k].slug)
}

/// The number that a sweep gives back is that of the posts it rewrote.
pub proof fn a_sweep_counts_what_it_rewrites(
    t: Tables,
    ids: Seq<i32>,
    change: TagChangeSpec,
    bodies: Seq<CachedBodyRow>,
    now: i64,
)
    requires
        ids.no_duplicates(),
    ensures
        swept(t, ids, change, bodies, now).changed == ids.filter(
            |k: i32| is_rewritten(t, change, bodies, k),
        ).len(),
    decreases ids.len(),
{
    reveal(Seq::filter);
    if ids.len() > 0 {
        let rest = ids.drop_last();
        let id = ids.last();
        assert(rest.no_duplicates()) by {
            assert forall|a: int, b: int| 0 <= a < rest.len() && 0 <= b < rest.len() && a
                != b implies rest[a] != rest[b] by {
                assert(ids[a] != ids[b]);
            }
        }
        assert(!rest.contains(id)) by {
            if rest.contains(id) {
                let i = choose|i: int| 0 <= i < rest.len() && rest[i] == id;
                assert(ids[i] == ids[ids.len() - 1]);
            }
        }
        a_sweep_counts_what_it_rewrites(t, rest, change, bodies, now);
        let s = swept(t, rest, change, bodies, now).tables;
        lemma_swept_posts(t, rest, change, bodies, now);
        if t.posts.contains_key(id) {
            lemma_swept_apart(t, rest, change, bodies, now, id);
        } else {
            assert(!s.posts.contains_key(id));
        }
    }
}

proof fn lemma_swept_posts(
    t: Tables,
    ids: Seq<i32>,
    change: TagChangeSpec,
    bodies: Seq<CachedBodyRow>,
    now: i64,
)
    ensures
        swept(t, ids, change, bodies, now).tables.posts.dom() == t.posts.dom(),
    decreases ids.len(),
{
    if ids.len() > 0 {
        lemma_swept_posts(t, ids.drop_last(), change, bodies, now);
        assert(swept(t, ids, change, bodies, now).tables.posts.dom() =~= t.posts.dom());
    }
}

/// Taking a tag off keeps the others in their order; putting one on puts it at the
/// end; and putting one on and taking it off again leaves the tags as they were.
pub proof fn tags_keep_their_order(tags: Seq<Seq<char>>, tag: Seq<char>)
    ensures
        after_change(tags, TagChangeSpec::Remove(tag)) == tags.filter(|t: Seq<char>| t != tag),
        !tags.contains(tag) ==> after_change(tags, TagChangeSpec::Add(tag)) == tags.push(tag),
        tags.contains(tag) ==> after_change(tags, TagChangeSpec::Add(tag)) == tags,
        !tags.contains(tag) ==> after_change(
            after_change(tags, TagChangeSpec::Add(tag)),
            TagChangeSpec::Remove(tag),
        ) == tags,
    decreases tags.len(),
{
    lemma_without_is_filter(tags, tag);
    if !tags.contains(tag) {
        let more = tags.push(tag);
        assert(more.drop_last() =~= tags);
        lemma_without_absent(tags, tag);
    }
}

proof fn lemma_without_is_filter(tags: Seq<Seq<char>>, tag: Seq<char>)
    ensures
        without(tags, tag) == tags.filter(|t: Seq<char>| t != tag),
    decreases tags.len(),
{
    reveal(Seq::filter);
    if tags.len() > 0 {
        lemma_without_is_filter(tags.drop_last(), tag);
    }
}

proof fn lemma_without_absent(tags: Seq<Seq<char>>, tag: Seq<char>)
    requires
        !tags.contains(tag),
    ensures
        without(tags, tag) == tags,
    decreases tags.len(),
{
    if tags.len() > 0 {
        let rest = tags.drop_last();
        assert(!rest.contains(tag)) by {
            if rest.contains(tag) {
                let i = choose|i: int| 0 <= i < rest.len() && rest[i] == tag;
                assert(tags[i] == tag);
            }
        }
        assert(tags[tags.len() - 1] != tag);
        lemma_without_absent(rest, tag);
        assert(rest.push(tags.last()) =~= tags);
    } else {
        assert(without(tags, tag) =~= tags);
    }
}

/// A post counts for a tag where it is in the library and its column holds the tag,
/// live or not; and a sweep says in the history what it was.
pub proof fn who_uses_a_tag(t: Tables, tag: Seq<char>, k: i32, change: TagChangeSpec)
    ensures
        users(t, tag).contains(k) <==> t.posts.contains_key(k) && !t.trash.contains_key(k)
            && tags_in(t.posts[k].tags).contains(tag),
        change is Rename ==> origin_of(change) == "tag_rename"@,
        !(change is Rename) ==> origin_of(change) == "bulk_tag"@,
{
}

/// What a sweep makes of a post that it rewrites: the tags that the change leaves, the
/// time, and nothing else.
pub proof fn a_rewritten_post_is_the_post(post: PostRow, change: TagChangeSpec, now: i64)
    ensures
        ({
            let after = retagged(post, change, now);
            &&& after.tags == Some(tags_column(after_change(tags_in(post.tags), change)))
            &&& after.updated_at == now
            &&& after.id == post.id
            &&& after.slug == post.slug
            &&& after.title == post.title
            &&& after.excerpt == post.excerpt
            &&& after.published == post.published
            &&& after.published_at == post.published_at
            &&& after.series_id == post.series_id
            &&& after.series_order == post.series_order
            &&& after.created_at == post.created_at
        }),
{
}

/// Renaming a tag reaches every post of the library that carries it, live or not: where
/// the text is here and current, the old name is gone from its tags and the new one is
/// there.
pub proof fn a_rename_reaches_every_carrier(
    t: Tables,
    from: Seq<char>,
    to: Seq<char>,
    bodies: Seq<CachedBodyRow>,
    now: i64,
    s: Swept,
    k: i32,
)
    requires
        t.wf(),
        from != to,
        sweeps_library(t, from, TagChangeSpec::Rename { from, to }, bodies, now, s),
        t.posts.contains_key(k),
        !t.trash.contains_key(k),
        tags_in(t.posts[k].tags).contains(from),
        body_in(bodies, t.posts[k].slug) is Some,
        !t.stale.contains_key(t.posts[k].slug),
    ensures
        ({
            let after = after_change(
                tags_in(t.posts[k].tags),
                TagChangeSpec::Rename { from, to },
            );
            &&& s.tables.posts[k].tags == Some(tags_column(after))
            &&& !after.contains(from)
            &&& after.contains(to)
        }),
{
    let change = TagChangeSpec::Rename { from, to };
    let posts = choose|posts: Seq<PostRow>|
        lists::<post::Model>(posts, active_posts(t)) && in_order::<post::Model, NewestPosts>(posts)
            && s == swept(t, #[trigger] carriers(posts, from), change, bodies, now);
    let ids = carriers(posts, from);
    let tags = tags_in(t.posts[k].tags);
    let other = Seq::<char>::empty().push('a') + from + to;
    assert(other.len() > from.len() && other.len() > to.len());
    a_rename_folds_the_two_together(tags, from, to, other);
    assert(t.posts[k].id == k);
    assert(active_posts(t).contains_key(k) && active_posts(t)[k] == t.posts[k]);
    assert(posts.contains(t.posts[k]));
    lemma_carriers(posts, from);
    let i = choose|i: int| 0 <= i < posts.len() && posts[i] == t.posts[k];
    assert(ids.contains(posts[i].id));
    assert forall|a: int, b: int| 0 <= a < b < posts.len() implies posts[a].id
        != posts[b].id by {
        assert(posts.contains(posts[a]) && posts.contains(posts[b]));
        if posts[a].id == posts[b].id {
            assert(posts[a] == posts[b]);
        }
    }
    lemma_carriers_distinct(posts, from);
    a_sweep_reaches_every_post(t, ids, change, bodies, now, k);
}

proof fn lemma_carriers(posts: Seq<PostRow>, tag: Seq<char>)
    ensures
        forall|i: int|
            #![trigger posts[i]]
            0 <= i < posts.len() && tags_in(posts[i].tags).contains(tag) ==> carriers(
                posts,
                tag,
            ).contains(posts[i].id),
        forall|v: i32| #[trigger]
            carriers(posts, tag).contains(v) ==> exists|i: int|
                0 <= i < posts.len() && (#[trigger] posts[i]).id == v,
    decreases posts.len(),
{
    if posts.len() > 0 {
        let rest = posts.drop_last();
        lemma_carriers(rest, tag);
        lemma_push_contains(carriers(rest, tag), posts.last().id);
        assert forall|i: int|
            #![trigger posts[i]]
            0 <= i < posts.len() && tags_in(posts[i].tags).contains(tag) implies carriers(
            posts,
            tag,
        ).contains(posts[i].id) by {
            if i < rest.len() {
                assert(rest[i] == posts[i]);
            }
        }
        assert forall|v: i32| #[trigger] carriers(posts, tag).contains(v) implies exists|i: int|
            0 <= i < posts.len() && (#[trigger] posts[i]).id == v by {
            if carriers(rest, tag).contains(v) {
                let i = choose|i: int| 0 <= i < rest.len() && (#[trigger] rest[i]).id == v;
                assert(posts[i].id == v);
            } else {
                assert(posts[posts.len() - 1].id == v);
            }
        }
    }
}

proof fn lemma_carriers_distinct(posts: Seq<PostRow>, tag: Seq<char>)
    requires
        forall|a: int, b: int| 0 <= a < b < posts.len() ==> posts[a].id != posts[b].id,
    ensures
        carriers(posts, tag).no_duplicates(),
    decreases posts.len(),
{
    if posts.len() > 0 {
        let rest = posts.drop_last();
        assert forall|a: int, b: int| 0 <= a < b < rest.len() implies rest[a].id
            != rest[b].id by {
            assert(posts[a].id != posts[b].id);
        }
        lemma_carriers_distinct(rest, tag);
        lemma_carriers(rest, tag);
        let before = carriers(rest, tag);
        assert(!before.contains(posts.last().id)) by {
            if before.contains(posts.last().id) {
                let i = choose|i: int|
                    0 <= i < rest.len() && (#[trigger] rest[i]).id == posts.last().id;
                assert(posts[i].id != posts[posts.len() - 1].id);
            }
        }
    }
}

/// The list of tags has every tag that is in use, once, with how many posts carry it,
/// the most used first.
pub proof fn every_tag_in_use_is_counted(t: Tables, tags: Seq<TagCountRow>, name: Seq<char>, k: i32)
    requires
        counts_tags(t, tags),
        in_order::<TagCount, MostUsed>(tags),
        t.posts.contains_key(k),
        !t.trash.contains_key(k),
        tags_in(t.posts[k].tags).contains(name),
    ensures
        exists|i: int|
            0 <= i < tags.len() && (#[trigger] tags[i]).name == name && tags[i].posts == users(
                t,
                name,
            ).len(),
        forall|i: int, j: int|
            #![trigger tags[i], tags[j]]
            0 <= i < j < tags.len() ==> tags[i].posts >= tags[j].posts && tags[i].name
                != tags[j].name,
{
    assert(users(t, name).contains(k));
    assert(in_use(t, name));
    assert(names_tag(tags, name));
    assert forall|i: int, j: int|
        #![trigger tags[i], tags[j]]
        0 <= i < j < tags.len() implies tags[i].posts >= tags[j].posts && tags[i].name
        != tags[j].name by {
        assert(!MostUsed::before(tags[j], tags[i]));
    }
}

}
