//! Tags: what is in use, and sweeps that rename, add or take off a tag.
//!
//! A sweep is careful with what it writes. Tags are part of what a reader
//! notices of a post, so a post can be marked as edited only where its text is
//! here to take a fingerprint of, and an edit without that mark would be undone
//! by the next refresh. A post whose text is missing, or is known to be behind
//! the cloud's, is left alone and reported.

use crate::db::listings::{active_posts, list_active_posts, NewestPosts};
use crate::db::side_tables::{
    body_is_stale, edited, sync_of, sync_set_local, trash_get,
};
use crate::db::{has_slug, post_get, post_update, Store, Tables};
use crate::entities::post;
use crate::entities::post::PostRow;
use crate::entities::post_revision;
use crate::error::{AppError, AppResult};
use crate::json::{tags_column, tags_from_json, tags_in, tags_to_column};
use crate::revisions::{after_snapshot, record_or_skip};
use crate::sync_state::{content_hash, fingerprint};
use crate::table::{in_order, lemma_push_contains, lists, rows_view, sort, Order};
use crate::text::{
    comes_before, copy_list, firsts, holds, is_before, lemma_order_total, lemma_order_transitive,
    push_new, same, same_list, trim, trimmed, views,
};
use vstd::prelude::*;

verus! {

// ─── One post's tags ────────────────────────────────────────────────────────

/// A post's tags, read out of the JSON column. A column that is not a JSON array
/// of strings reads as no tags.
pub fn tags_of(post: &post::Model) -> (out: Vec<String>)
    ensures
        views(out@) == tags_in(post@.tags),
{
    tags_from_json(&post.tags)
}

/// `tags` with the name `to` in place of `from`.
pub open spec fn renamed(tags: Seq<Seq<char>>, from: Seq<char>, to: Seq<char>) -> Seq<Seq<char>> {
    Seq::new(tags.len(), |i: int| if tags[i] == from { to } else { tags[i] })
}

/// `tags` without `tag`.
pub open spec fn without(tags: Seq<Seq<char>>, tag: Seq<char>) -> Seq<Seq<char>>
    decreases tags.len(),
{
    if tags.len() == 0 {
        Seq::empty()
    } else {
        let before = without(tags.drop_last(), tag);
        if tags.last() == tag {
            before
        } else {
            before.push(tags.last())
        }
    }
}

/// Replaces `from` by `to`. The order stays, and a name that ends up there twice
/// is kept once, where it first stands: renaming onto a tag that the post has is
/// the merge of the two.
pub fn rewrite_tags(tags: Vec<String>, from: &str, to: &str) -> (out: Vec<String>)
    ensures
        views(out@) == firsts(renamed(views(tags@), from@, to@)),
{
    let ghost all = renamed(views(tags@), from@, to@);
    let mut out: Vec<String> = Vec::new();
    let mut i: usize = 0;
    assert(views(out@) =~= firsts(all.take(0)));
    while i < tags.len()
        invariant
            i <= tags@.len(),
            all == renamed(views(tags@), from@, to@),
            views(out@) == firsts(all.take(i as int)),
        decreases tags@.len() - i,
    {
        assert(all.take(i + 1).drop_last() =~= all.take(i as int));
        if same(tags[i].as_str(), from) {
            push_new(&mut out, to.to_owned());
        } else {
            push_new(&mut out, tags[i].clone());
        }
        i = i + 1;
    }
    assert(all.take(i as int) =~= all);
    out
}

fn tags_without(tags: &Vec<String>, tag: &str) -> (out: Vec<String>)
    ensures
        views(out@) == without(views(tags@), tag@),
{
    let ghost all = views(tags@);
    let mut out: Vec<String> = Vec::new();
    let mut i: usize = 0;
    assert(views(out@) =~= without(all.take(0), tag@));
    while i < tags.len()
        invariant
            i <= tags@.len(),
            all == views(tags@),
            views(out@) == without(all.take(i as int), tag@),
        decreases tags@.len() - i,
    {
        let ghost before = views(out@);
        assert(all.take(i + 1).drop_last() =~= all.take(i as int));
        if !same(tags[i].as_str(), tag) {
            out.push(tags[i].clone());
            assert(views(out@) =~= before.push(all[i as int]));
        }
        i = i + 1;
    }
    assert(all.take(i as int) =~= all);
    out
}

/// What a sweep does to a list of tags.
pub enum TagChange {
    Rename { from: String, to: String },
    Add(String),
    Remove(String),
}

/// What a [`TagChange`] says.
pub enum TagChangeSpec {
    Rename { from: Seq<char>, to: Seq<char> },
    Add(Seq<char>),
    Remove(Seq<char>),
}

impl View for TagChange {
    type V = TagChangeSpec;

    open spec fn view(&self) -> TagChangeSpec {
        match *self {
            TagChange::Rename { from, to } => TagChangeSpec::Rename { from: from@, to: to@ },
            TagChange::Add(tag) => TagChangeSpec::Add(tag@),
            TagChange::Remove(tag) => TagChangeSpec::Remove(tag@),
        }
    }
}

/// The tags after the change.
pub open spec fn after_change(tags: Seq<Seq<char>>, change: TagChangeSpec) -> Seq<Seq<char>> {
    match change {
        TagChangeSpec::Rename { from, to } => firsts(renamed(tags, from, to)),
        TagChangeSpec::Add(tag) => if tags.contains(tag) {
            tags
        } else {
            tags.push(tag)
        },
        TagChangeSpec::Remove(tag) => without(tags, tag),
    }
}

/// The history entry that a sweep leaves names what kind of sweep it was.
pub open spec fn origin_of(change: TagChangeSpec) -> Seq<char> {
    match change {
        TagChangeSpec::Rename { from, to } => post_revision::TAG_RENAME@,
        _ => post_revision::BULK_TAG@,
    }
}

impl TagChange {
    fn applied_to(&self, tags: Vec<String>) -> (out: Vec<String>)
        ensures
            views(out@) == after_change(views(tags@), self@),
    {
        match self {
            TagChange::Rename { from, to } => rewrite_tags(tags, from.as_str(), to.as_str()),
            TagChange::Add(tag) => {
                let mut out: Vec<String> = tags;
                push_new(&mut out, tag.clone());
                out
            },
            TagChange::Remove(tag) => tags_without(&tags, tag.as_str()),
        }
    }

    fn origin(&self) -> (out: &'static str)
        ensures
            out@ == origin_of(self@),
    {
        match self {
            TagChange::Rename { from, to } => post_revision::TAG_RENAME,
            TagChange::Add(tag) => post_revision::BULK_TAG,
            TagChange::Remove(tag) => post_revision::BULK_TAG,
        }
    }
}

// ─── A sweep ────────────────────────────────────────────────────────────────

/// Why a post was left out of a sweep. Both are cured by opening the post once.
#[derive(Debug, Clone, Copy, PartialEq, Eq, Structural)]
pub enum SkipReason {
    /// Its Markdown is not on this machine.
    BodyNotCached,
    /// Its cached Markdown is behind the cloud's.
    BodyStale,
}

/// A post that the change would touch and that was left exactly as it was.
#[derive(Debug, PartialEq, Eq)]
pub struct Skipped {
    pub id: i32,
    pub title: String,
    pub reason: SkipReason,
}

/// What a [`Skipped`] says.
pub struct SkippedRow {
    pub id: i32,
    pub title: Seq<char>,
    pub reason: SkipReason,
}

impl View for Skipped {
    type V = SkippedRow;

    open spec fn view(&self) -> SkippedRow {
        SkippedRow { id: self.id, title: self.title@, reason: self.reason }
    }
}

/// What a sweep did, and what it deliberately did not do.
#[derive(Debug, PartialEq, Eq)]
pub struct TagRenamed {
    /// Posts whose tag list changed.
    pub changed: usize,
    /// Posts that were not rewritten although the change would touch them.
    pub skipped: Vec<Skipped>,
}

/// A post's Markdown as this machine holds it.
pub struct CachedBody {
    pub slug: String,
    pub body: String,
}

/// What a [`CachedBody`] says.
pub struct CachedBodyRow {
    pub slug: Seq<char>,
    pub body: Seq<char>,
}

impl View for CachedBody {
    type V = CachedBodyRow;

    open spec fn view(&self) -> CachedBodyRow {
        CachedBodyRow { slug: self.slug@, body: self.body@ }
    }
}

/// The Markdown held for `slug`.
pub open spec fn body_in(bodies: Seq<CachedBodyRow>, slug: Seq<char>) -> Option<Seq<char>>
    decreases bodies.len(),
{
    if bodies.len() == 0 {
        None
    } else if bodies.last().slug == slug {
        Some(bodies.last().body)
    } else {
        body_in(bodies.drop_last(), slug)
    }
}

fn find_body<'a>(bodies: &'a Vec<CachedBody>, slug: &str) -> (r: Option<&'a String>)
    ensures
        match r {
            Some(b) => body_in(rows_view(bodies@), slug@) == Some(b@),
            None => body_in(rows_view(bodies@), slug@) is None,
        },
{
    let ghost all = rows_view(bodies@);
    let mut i: usize = bodies.len();
    assert(all.take(i as int) =~= all);
    while i > 0
        invariant
            i <= bodies@.len(),
            all == rows_view(bodies@),
            body_in(all, slug@) == body_in(all.take(i as int), slug@),
        decreases i,
    {
        i = i - 1;
        assert(all.take(i + 1).drop_last() =~= all.take(i as int));
        assert(all.take(i + 1).last() == bodies@[i as int]@);
        if same(bodies[i].slug.as_str(), slug) {
            return Some(&bodies[i].body);
        }
    }
    None
}

/// What a sweep finds to do about one post.
pub enum Sweep {
    /// The post is not there, is in the trash, or has nothing to change.
    Unaffected,
    /// The change cannot be recorded, for this reason.
    Skip(SkipReason),
    /// The tags are rewritten, with the text as given.
    Rewrite(Seq<char>),
}

pub open spec fn sweep_of(
    t: Tables,
    id: i32,
    change: TagChangeSpec,
    bodies: Seq<CachedBodyRow>,
) -> Sweep {
    if !t.active(id) {
        Sweep::Unaffected
    } else {
        let post = t.posts[id];
        if after_change(tags_in(post.tags), change) == tags_in(post.tags) {
            Sweep::Unaffected
        } else {
            match body_in(bodies, post.slug) {
                None => Sweep::Skip(SkipReason::BodyNotCached),
                Some(body) => if t.stale.contains_key(post.slug) {
                    Sweep::Skip(SkipReason::BodyStale)
                } else {
                    Sweep::Rewrite(body)
                },
            }
        }
    }
}

/// The post with its tags changed.
pub open spec fn retagged(post: PostRow, change: TagChangeSpec, now: i64) -> PostRow {
    PostRow {
        tags: Some(tags_column(after_change(tags_in(post.tags), change))),
        updated_at: now,
        ..post
    }
}

/// The tables after the tags of one post were rewritten: the version before is
/// in the history, and the post is marked as edited.
pub open spec fn after_retag(
    t: Tables,
    id: i32,
    change: TagChangeSpec,
    body: Seq<char>,
    now: i64,
) -> Tables {
    let post = t.posts[id];
    let s = after_snapshot(t, post, origin_of(change), Some(body), now);
    let changed = retagged(post, change, now);
    Tables {
        posts: t.posts.insert(id, changed),
        syncs: t.syncs.insert(id, edited(sync_of(t, id), id, fingerprint(changed, body))),
        revisions: s.revisions,
        ..t
    }
}

/// A sweep in mid course.
pub struct Swept {
    pub tables: Tables,
    pub changed: nat,
    pub skipped: Seq<SkippedRow>,
}

/// A sweep over `ids`, one after the other.
pub open spec fn swept(
    t: Tables,
    ids: Seq<i32>,
    change: TagChangeSpec,
    bodies: Seq<CachedBodyRow>,
    now: i64,
) -> Swept
    decreases ids.len(),
{
    if ids.len() == 0 {
        Swept { tables: t, changed: 0, skipped: Seq::empty() }
    } else {
        let s = swept(t, ids.drop_last(), change, bodies, now);
        let id = ids.last();
        match sweep_of(s.tables, id, change, bodies) {
            Sweep::Unaffected => s,
            Sweep::Skip(reason) => Swept {
                skipped: s.skipped.push(
                    SkippedRow { id, title: s.tables.posts[id].title, reason },
                ),
                ..s
            },
            Sweep::Rewrite(body) => Swept {
                tables: after_retag(s.tables, id, change, body, now),
                changed: s.changed + 1,
                ..s
            },
        }
    }
}

/// One post of a sweep.
fn retag_one(
    db: &mut Store,
    id: i32,
    change: &TagChange,
    bodies: &Vec<CachedBody>,
    now: i64,
    changed: &mut usize,
    skipped: &mut Vec<Skipped>,
)
    requires
        old(db).wf(),
        *old(changed) < usize::MAX,
    ensures
        final(db).wf(),
        match sweep_of(old(db)@, id, change@, rows_view(bodies@)) {
            Sweep::Unaffected => {
                &&& final(db)@ == old(db)@
                &&& *final(changed) == *old(changed)
                &&& rows_view(final(skipped)@) == rows_view(old(skipped)@)
            },
            Sweep::Skip(reason) => {
                &&& final(db)@ == old(db)@
                &&& *final(changed) == *old(changed)
                &&& rows_view(final(skipped)@) == rows_view(old(skipped)@).push(
                    SkippedRow { id, title: old(db)@.posts[id].title, reason },
                )
            },
            Sweep::Rewrite(body) => {
                &&& final(db)@ == after_retag(old(db)@, id, change@, body, now)
                &&& *final(changed) == *old(changed) + 1
                &&& rows_view(final(skipped)@) == rows_view(old(skipped)@)
            },
        },
{
    let ghost t = db@;
    let post: post::Model = match post_get(db, id) {
        Some(p) => p,
        None => {
            return;
        },
    };
    if trash_get(db, id).is_some() {
        return;
    }
    let before: Vec<String> = tags_of(&post);
    let after: Vec<String> = change.applied_to(copy_list(&before));
    if same_list(&after, &before) {
        return;
    }
    let ghost noted = rows_view(skipped@);
    let body: String = match find_body(bodies, post.slug.as_str()) {
        Some(b) => b.clone(),
        None => {
            let s = Skipped {
                id,
                title: post.title,
                reason: SkipReason::BodyNotCached,
            };
            let ghost v = s@;
            skipped.push(s);
            assert(rows_view(skipped@) =~= noted.push(v));
            return;
        },
    };
    if body_is_stale(db, post.slug.as_str()) {
        let s = Skipped { id, title: post.title, reason: SkipReason::BodyStale };
        let ghost v = s@;
        skipped.push(s);
        assert(rows_view(skipped@) =~= noted.push(v));
        return;
    }
    record_or_skip(db, &post, change.origin(), Some(body.clone()), now);
    let mut updated: post::Model = post.clone();
    updated.tags = Some(tags_to_column(&after));
    updated.updated_at = now;
    proof {
        assert(updated@ == retagged(t.posts[id], change@, now));
        assert forall|k: i32| has_slug(db@.posts, k, updated.slug@) implies k == updated.id by {
            assert(t.posts.contains_key(k) && t.posts.contains_key(id));
        }
    }
    let hash: String = content_hash(&updated, body.as_str());
    let _ = post_update(db, updated);
    let _ = sync_set_local(db, id, hash);
    *changed = *changed + 1;
    assert(db@ == after_retag(t, id, change@, body@, now));
}

/// Applies a change to the tags of each post named. A post that is not there, is
/// in the trash, or has nothing to change is passed over without a word; one
/// whose text is missing or stale is reported; every other one has the version
/// before put in its history, its tags rewritten and the edit marked.
pub fn retag(
    db: &mut Store,
    ids: &Vec<i32>,
    change: &TagChange,
    bodies: &Vec<CachedBody>,
    now: i64,
) -> (r: TagRenamed)
    requires
        old(db).wf(),
    ensures
        final(db).wf(),
        ({
            let s = swept(old(db)@, ids@, change@, rows_view(bodies@), now);
            &&& final(db)@ == s.tables
            &&& r.changed == s.changed
            &&& rows_view(r.skipped@) == s.skipped
        }),
{
    let ghost t = db@;
    let ghost b = rows_view(bodies@);
    let mut changed: usize = 0;
    let mut skipped: Vec<Skipped> = Vec::new();
    let mut i: usize = 0;
    let count: usize = ids.len();
    proof {
        assert(ids@.take(0) =~= Seq::empty());
        assert(swept(t, Seq::empty(), change@, b, now) == (Swept {
            tables: t,
            changed: 0,
            skipped: Seq::empty(),
        }));
        assert(rows_view(skipped@) =~= Seq::empty());
    }
    while i < count
        invariant
            i <= count,
            count == ids@.len(),
            changed <= i,
            db.wf(),
            t == old(db)@,
            b == rows_view(bodies@),
            db@ == swept(t, ids@.take(i as int), change@, b, now).tables,
            changed == swept(t, ids@.take(i as int), change@, b, now).changed,
            rows_view(skipped@) == swept(t, ids@.take(i as int), change@, b, now).skipped,
        decreases count - i,
    {
        assert(ids@.take(i + 1).drop_last() =~= ids@.take(i as int));
        retag_one(db, ids[i], change, bodies, now, &mut changed, &mut skipped);
        i = i + 1;
    }
    assert(ids@.take(i as int) =~= ids@);
    TagRenamed { changed, skipped }
}


// ─── The sweeps ─────────────────────────────────────────────────────────────

/// The ids of the posts that carry `tag`, in the order of the posts.
pub open spec fn carriers(posts: Seq<PostRow>, tag: Seq<char>) -> Seq<i32>
    decreases posts.len(),
{
    if posts.len() == 0 {
        Seq::empty()
    } else {
        let before = carriers(posts.drop_last(), tag);
        if tags_in(posts.last().tags).contains(tag) {
            before.push(posts.last().id)
        } else {
            before
        }
    }
}

fn posts_carrying(posts: &Vec<post::Model>, tag: &str) -> (out: Vec<i32>)
    ensures
        out@ == carriers(rows_view(posts@), tag@),
{
    let ghost all = rows_view(posts@);
    let mut out: Vec<i32> = Vec::new();
    let mut i: usize = 0;
    assert(out@ =~= carriers(all.take(0), tag@));
    while i < posts.len()
        invariant
            i <= posts@.len(),
            all == rows_view(posts@),
            out@ == carriers(all.take(i as int), tag@),
        decreases posts@.len() - i,
    {
        assert(all.take(i + 1).drop_last() =~= all.take(i as int));
        if holds(&tags_of(&posts[i]), tag) {
            out.push(posts[i].id);
        }
        i = i + 1;
    }
    assert(all.take(i as int) =~= all);
    out
}

/// `s` is a sweep over every post of the library that carries `tag`, newest
/// first.
pub open spec fn sweeps_library(
    t: Tables,
    tag: Seq<char>,
    change: TagChangeSpec,
    bodies: Seq<CachedBodyRow>,
    now: i64,
    s: Swept,
) -> bool {
    exists|posts: Seq<PostRow>|
        lists::<post::Model>(posts, active_posts(t)) && in_order::<post::Model, NewestPosts>(posts)
            && s == swept(t, #[trigger] carriers(posts, tag), change, bodies, now)
}

/// Renames `from` to `to` on every post of the library that carries it. Renaming
/// onto a tag that exists folds the two together.
pub fn rename_tag(
    db: &mut Store,
    from: &str,
    to: &str,
    bodies: &Vec<CachedBody>,
    now: i64,
) -> (r: AppResult<TagRenamed>)
    requires
        old(db).wf(),
    ensures
        final(db).wf(),
        match r {
            Err(e) => {
                &&& trimmed(from@).len() == 0 || trimmed(to@).len() == 0
                &&& e is EmptyTag
                &&& final(db)@ == old(db)@
            },
            Ok(done) => {
                &&& trimmed(from@).len() > 0 && trimmed(to@).len() > 0
                &&& if trimmed(from@) == trimmed(to@) {
                    done.changed == 0 && done.skipped@.len() == 0 && final(db)@ == old(db)@
                } else {
                    sweeps_library(
                        old(db)@,
                        trimmed(from@),
                        TagChangeSpec::Rename { from: trimmed(from@), to: trimmed(to@) },
                        rows_view(bodies@),
                        now,
                        (Swept {
                            tables: final(db)@,
                            changed: done.changed as nat,
                            skipped: rows_view(done.skipped@),
                        }),
                    )
                }
            },
        },
{
    let from: &str = trim(from);
    let to: &str = trim(to);
    if from.is_empty() || to.is_empty() {
        return Err(AppError::EmptyTag);
    }
    if same(from, to) {
        return Ok(TagRenamed { changed: 0, skipped: Vec::new() });
    }
    let posts: Vec<post::Model> = list_active_posts(db);
    let ids: Vec<i32> = posts_carrying(&posts, from);
    let change = TagChange::Rename { from: from.to_owned(), to: to.to_owned() };
    let done: TagRenamed = retag(db, &ids, &change, bodies, now);
    assert(ids@ == carriers(rows_view(posts@), from@));
    Ok(done)
}

/// Adds a tag to each of `ids`, leaving a post that carries it alone.
pub fn add_tag_to_posts(
    db: &mut Store,
    ids: &Vec<i32>,
    tag: &str,
    bodies: &Vec<CachedBody>,
    now: i64,
) -> (r: AppResult<TagRenamed>)
    requires
        old(db).wf(),
    ensures
        final(db).wf(),
        match r {
            Err(e) => trimmed(tag@).len() == 0 && e is EmptyTag && final(db)@ == old(db)@,
            Ok(done) => {
                let s = swept(
                    old(db)@,
                    ids@,
                    TagChangeSpec::Add(trimmed(tag@)),
                    rows_view(bodies@),
                    now,
                );
                &&& trimmed(tag@).len() > 0
                &&& final(db)@ == s.tables
                &&& done.changed == s.changed
                &&& rows_view(done.skipped@) == s.skipped
            },
        },
{
    let tag: &str = trim(tag);
    if tag.is_empty() {
        return Err(AppError::EmptyTag);
    }
    Ok(retag(db, ids, &TagChange::Add(tag.to_owned()), bodies, now))
}

/// Takes a tag off each of `ids`, leaving a post that does not carry it alone.
pub fn remove_tag_from_posts(
    db: &mut Store,
    ids: &Vec<i32>,
    tag: &str,
    bodies: &Vec<CachedBody>,
    now: i64,
) -> (r: AppResult<TagRenamed>)
    requires
        old(db).wf(),
    ensures
        final(db).wf(),
        match r {
            Err(e) => trimmed(tag@).len() == 0 && e is EmptyTag && final(db)@ == old(db)@,
            Ok(done) => {
                let s = swept(
                    old(db)@,
                    ids@,
                    TagChangeSpec::Remove(trimmed(tag@)),
                    rows_view(bodies@),
                    now,
                );
                &&& trimmed(tag@).len() > 0
                &&& final(db)@ == s.tables
                &&& done.changed == s.changed
                &&& rows_view(done.skipped@) == s.skipped
            },
        },
{
    let tag: &str = trim(tag);
    if tag.is_empty() {
        return Err(AppError::EmptyTag);
    }
    Ok(retag(db, ids, &TagChange::Remove(tag.to_owned()), bodies, now))
}

// ─── The tags in use ────────────────────────────────────────────────────────

/// A tag, and how many posts carry it.
#[derive(Debug, PartialEq, Eq)]
pub struct TagCount {
    pub name: String,
    pub posts: usize,
}

/// What a [`TagCount`] says.
pub struct TagCountRow {
    pub name: Seq<char>,
    pub posts: usize,
}

impl View for TagCount {
    type V = TagCountRow;

    open spec fn view(&self) -> TagCountRow {
        TagCountRow { name: self.name@, posts: self.posts }
    }
}

/// The most used tags first, and tags used as often by name.
pub struct MostUsed;

impl Order<TagCount> for MostUsed {
    open spec fn before(a: TagCountRow, b: TagCountRow) -> bool {
        a.posts > b.posts || (a.posts == b.posts && comes_before(a.name, b.name))
    }

    fn is_before(a: &TagCount, b: &TagCount) -> (r: bool) {
        a.posts > b.posts || (a.posts == b.posts && is_before(a.name.as_str(), b.name.as_str()))
    }

    proof fn lemma_order(a: TagCountRow, b: TagCountRow, c: TagCountRow) {
        lemma_order_total(a.name, b.name);
        lemma_order_total(b.name, c.name);
        lemma_order_total(a.name, c.name);
        if comes_before(a.name, b.name) && comes_before(b.name, c.name) {
            lemma_order_transitive(a.name, b.name, c.name);
        }
    }
}

/// The posts of the library that carry `tag`.
pub open spec fn users(t: Tables, tag: Seq<char>) -> Set<i32> {
    Set::new(|k: i32| t.active(k) && tags_in(t.posts[k].tags).contains(tag))
}

fn tag_lists(posts: &Vec<post::Model>) -> (out: Vec<Vec<String>>)
    ensures
        out@.len() == posts@.len(),
        forall|i: int|
            0 <= i < out@.len() ==> views((#[trigger] out@[i])@) == tags_in(posts@[i]@.tags),
{
    let mut out: Vec<Vec<String>> = Vec::new();
    let mut i: usize = 0;
    while i < posts.len()
        invariant
            i <= posts@.len(),
            out@.len() == i,
            forall|j: int|
                0 <= j < i ==> views((#[trigger] out@[j])@) == tags_in(posts@[j]@.tags),
        decreases posts@.len() - i,
    {
        out.push(tags_of(&posts[i]));
        i = i + 1;
    }
    out
}

/// Every name in any of `lists`, once.
fn names_in(lists: &Vec<Vec<String>>) -> (out: Vec<String>)
    ensures
        views(out@).no_duplicates(),
        forall|name: Seq<char>| #[trigger]
            views(out@).contains(name) <==> exists|i: int|
                0 <= i < lists@.len() && views((#[trigger] lists@[i])@).contains(name),
{
    let mut out: Vec<String> = Vec::new();
    let mut i: usize = 0;
    assert(views(out@) =~= Seq::empty());
    while i < lists.len()
        invariant
            i <= lists@.len(),
            views(out@).no_duplicates(),
            forall|name: Seq<char>| #[trigger]
                views(out@).contains(name) <==> exists|k: int|
                    0 <= k < i && views((#[trigger] lists@[k])@).contains(name),
        decreases lists@.len() - i,
    {
        let ghost held = views(out@);
        let ghost tags = views(lists@[i as int]@);
        let mut j: usize = 0;
        while j < lists[i].len()
            invariant
                i < lists@.len(),
                j <= lists@[i as int]@.len(),
                tags == views(lists@[i as int]@),
                views(out@).no_duplicates(),
                forall|name: Seq<char>| #[trigger]
                    views(out@).contains(name) <==> held.contains(name) || tags.take(
                        j as int,
                    ).contains(name),
            decreases lists@[i as int]@.len() - j,
        {
            proof {
                assert(tags.take(j + 1) =~= tags.take(j as int).push(tags[j as int]));
                lemma_push_contains(tags.take(j as int), tags[j as int]);
                lemma_push_contains(views(out@), tags[j as int]);
            }
            push_new(&mut out, lists[i][j].clone());
            j = j + 1;
        }
        proof {
            assert(tags.take(j as int) =~= tags);
            assert forall|name: Seq<char>| #[trigger]
                views(out@).contains(name) <==> exists|k: int|
                    0 <= k < i + 1 && views((#[trigger] lists@[k])@).contains(name) by {
                if held.contains(name) {
                    let k = choose|k: int|
                        0 <= k < i && views((#[trigger] lists@[k])@).contains(name);
                    assert(views(lists@[k]@).contains(name));
                }
                if tags.contains(name) {
                    assert(views(lists@[i as int]@).contains(name));
                }
            }
        }
        i = i + 1;
    }
    out
}

/// How many of `lists` hold `name`.
fn count_of(lists: &Vec<Vec<String>>, name: &str, ids: Ghost<Seq<i32>>) -> (n: usize)
    requires
        ids@.len() == lists@.len(),
        ids@.no_duplicates(),
    ensures
        n == Set::new(
            |k: i32|
                exists|i: int|
                    0 <= i < lists@.len() && ids@[i] == k && views(
                        (#[trigger] lists@[i])@,
                    ).contains(name@),
        ).len(),
{
    let mut n: usize = 0;
    let mut i: usize = 0;
    let ghost mut found: Set<i32> = Set::empty();
    while i < lists.len()
        invariant
            i <= lists@.len(),
            n <= i,
            ids@.len() == lists@.len(),
            ids@.no_duplicates(),
            found.finite(),
            n == found.len(),
            forall|k: i32| #[trigger]
                found.contains(k) <==> exists|j: int|
                    0 <= j < i && ids@[j] == k && views((#[trigger] lists@[j])@).contains(name@),
        decreases lists@.len() - i,
    {
        let ghost before = found;
        let held: bool = holds(&lists[i], name);
        if held {
            proof {
                found = found.insert(ids@[i as int]);
            }
            n = n + 1;
        }
        proof {
            assert forall|k: i32| #[trigger]
                found.contains(k) <==> exists|j: int|
                    0 <= j < i + 1 && ids@[j] == k && views((#[trigger] lists@[j])@).contains(
                        name@,
                    ) by {
                if before.contains(k) {
                    let j = choose|j: int|
                        0 <= j < i && ids@[j] == k && views((#[trigger] lists@[j])@).contains(
                            name@,
                        );
                    assert(views(lists@[j]@).contains(name@));
                }
                if held && k == ids@[i as int] {
                    assert(views(lists@[i as int]@).contains(name@));
                }
            }
        }
        i = i + 1;
    }
    assert(found =~= Set::new(
        |k: i32|
            exists|j: int|
                0 <= j < lists@.len() && ids@[j] == k && views((#[trigger] lists@[j])@).contains(
                    name@,
                ),
    ));
    n
}

/// `tags` is what is in use: each tag that a post of the library carries, once,
/// with how many carry it.
pub open spec fn counts_tags(t: Tables, tags: Seq<TagCountRow>) -> bool {
    &&& forall|i: int, j: int|
        0 <= i < j < tags.len() ==> tags[i].name != tags[j].name
    &&& forall|i: int|
        0 <= i < tags.len() ==> (#[trigger] tags[i]).posts == users(t, tags[i].name).len()
    &&& forall|name: Seq<char>| #[trigger] names_tag(tags, name) <==> in_use(t, name)
}

/// A count is given for `name`.
pub open spec fn names_tag(tags: Seq<TagCountRow>, name: Seq<char>) -> bool {
    exists|i: int| 0 <= i < tags.len() && (#[trigger] tags[i]).name == name
}

/// A post of the library carries `name`.
pub open spec fn in_use(t: Tables, name: Seq<char>) -> bool {
    exists|k: i32| #[trigger] users(t, name).contains(k)
}

/// Every tag in use with its count, most used first and ties broken by name. The
/// exact names count: `Rust` and `rust` are two tags.
pub fn list_tags(db: &Store) -> (out: Vec<TagCount>)
    requires
        db.wf(),
    ensures
        counts_tags(db@, rows_view(out@)),
        in_order::<TagCount, MostUsed>(rows_view(out@)),
{
    let posts: Vec<post::Model> = list_active_posts(db);
    let ghost rows = rows_view(posts@);
    let ghost ids = Seq::new(rows.len(), |i: int| rows[i].id);
    let lists: Vec<Vec<String>> = tag_lists(&posts);
    let names: Vec<String> = names_in(&lists);
    let mut counts: Vec<TagCount> = Vec::new();
    let mut i: usize = 0;
    proof {
        assert forall|a: int, b: int| 0 <= a < b < ids.len() implies ids[a] != ids[b] by {
            assert(rows.contains(rows[a]) && rows.contains(rows[b]));
            assert(rows[a] != rows[b]);
        }
        assert forall|name: Seq<char>, k: i32| #[trigger]
            users(db@, name).contains(k) <==> exists|j: int|
                0 <= j < lists@.len() && ids[j] == k && views((#[trigger] lists@[j])@).contains(
                    name,
                ) by {
            if users(db@, name).contains(k) {
                assert(rows.contains(db@.posts[k]));
                let j = choose|j: int| 0 <= j < rows.len() && rows[j] == db@.posts[k];
                assert(views(lists@[j]@).contains(name));
                assert(ids[j] == k);
            }
            if exists|j: int|
                0 <= j < lists@.len() && ids[j] == k && views((#[trigger] lists@[j])@).contains(
                    name,
                ) {
                let j = choose|j: int|
                    0 <= j < lists@.len() && ids[j] == k && views(
                        (#[trigger] lists@[j])@,
                    ).contains(name);
                assert(rows.contains(rows[j]));
            }
        }
    }
    while i < names.len()
        invariant
            i <= names@.len(),
            counts@.len() == i,
            ids.len() == lists@.len(),
            ids.no_duplicates(),
            forall|name: Seq<char>, k: i32| #[trigger]
                users(db@, name).contains(k) <==> exists|j: int|
                    0 <= j < lists@.len() && ids[j] == k && views(
                        (#[trigger] lists@[j])@,
                    ).contains(name),
            forall|j: int|
                0 <= j < i ==> (#[trigger] counts@[j]).name@ == views(names@)[j]
                    && counts@[j].posts == users(db@, views(names@)[j]).len(),
        decreases names@.len() - i,
    {
        let posts: usize = count_of(&lists, names[i].as_str(), Ghost(ids));
        proof {
            let name = views(names@)[i as int];
            assert(users(db@, name) =~= Set::new(
                |k: i32|
                    exists|j: int|
                        0 <= j < lists@.len() && ids[j] == k && views(
                            (#[trigger] lists@[j])@,
                        ).contains(name),
            ));
        }
        counts.push(TagCount { name: names[i].clone(), posts });
        i = i + 1;
    }
    let out: Vec<TagCount> = sort::<TagCount, MostUsed>(counts);
    proof {
        let c = rows_view(counts@);
        let s = rows_view(out@);
        let n = views(names@);
        assert(counts_tags(db@, c)) by {
            assert forall|name: Seq<char>| #[trigger]
                names_tag(c, name) <==> in_use(db@, name) by {
                if names_tag(c, name) {
                    let i = choose|i: int| 0 <= i < c.len() && (#[trigger] c[i]).name == name;
                    assert(n[i] == name);
                    assert(n.contains(name));
                    let j = choose|j: int|
                        0 <= j < lists@.len() && views((#[trigger] lists@[j])@).contains(name);
                    assert(users(db@, name).contains(ids[j]));
                }
                if in_use(db@, name) {
                    let k = choose|k: i32| #[trigger] users(db@, name).contains(k);
                    let j = choose|j: int|
                        0 <= j < lists@.len() && ids[j] == k && views(
                            (#[trigger] lists@[j])@,
                        ).contains(name);
                    assert(views(lists@[j]@).contains(name));
                    assert(n.contains(name));
                    let i = choose|i: int| 0 <= i < n.len() && n[i] == name;
                    assert(c[i].name == name);
                }
            }
        }
        lemma_counts_rearranged(db@, c, s);
    }
    out
}

proof fn lemma_counts_rearranged(t: Tables, a: Seq<TagCountRow>, b: Seq<TagCountRow>)
    requires
        counts_tags(t, a),
        a.to_multiset() == b.to_multiset(),
    ensures
        counts_tags(t, b),
{
    assert(a.no_duplicates());
    a.lemma_multiset_has_no_duplicates();
    b.lemma_multiset_has_no_duplicates_conv();
    assert forall|v: TagCountRow| #[trigger] b.contains(v) <==> a.contains(v) by {
        vstd::seq_lib::to_multiset_contains(a, v);
        vstd::seq_lib::to_multiset_contains(b, v);
    }
    assert forall|i: int, j: int| 0 <= i < j < b.len() implies b[i].name != b[j].name by {
        assert(b.contains(b[i]) && b.contains(b[j]));
        assert(a.contains(b[i]) && a.contains(b[j]));
        let x = choose|x: int| 0 <= x < a.len() && a[x] == b[i];
        let y = choose|y: int| 0 <= y < a.len() && a[y] == b[j];
        assert(x != y);
        if x < y {
            assert(a[x].name != a[y].name);
        } else {
            assert(a[y].name != a[x].name);
        }
    }
    assert forall|i: int| 0 <= i < b.len() implies (#[trigger] b[i]).posts == users(
        t,
        b[i].name,
    ).len() by {
        assert(b.contains(b[i]));
        let x = choose|x: int| 0 <= x < a.len() && a[x] == b[i];
        assert(a[x].posts == users(t, a[x].name).len());
    }
    assert forall|name: Seq<char>| #[trigger] names_tag(b, name) <==> in_use(t, name) by {
        assert(names_tag(a, name) <==> in_use(t, name));
        if names_tag(b, name) {
            let i = choose|i: int| 0 <= i < b.len() && (#[trigger] b[i]).name == name;
            assert(b.contains(b[i]));
            let x = choose|x: int| 0 <= x < a.len() && a[x] == b[i];
            assert(a[x].name == name);
        }
        if in_use(t, name) {
            let x = choose|x: int| 0 <= x < a.len() && (#[trigger] a[x]).name == name;
            assert(a.contains(a[x]));
            assert(b.contains(a[x]));
            let i = choose|i: int| 0 <= i < b.len() && b[i] == a[x];
            assert(b[i].name == name);
        }
    }
}

}
