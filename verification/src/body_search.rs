//! Searching what posts say, not only what they are called.
//!
//! Bodies are not reliably on this machine, so a search has two answers: what
//! matched, and what could not be looked at. While the second is not empty,
//! finding nothing is no evidence that there is nothing.

use crate::db::Store;
use crate::entities::post;
use crate::entities::post::PostRow;
use crate::media_usage::Unchecked;
use crate::table::rows_view;
use crate::text::{has_text, opt_view, trim, trimmed};
use vstd::prelude::*;

verus! {

/// A text in small letters, by Unicode's rules.
pub uninterp spec fn lowercase_of(s: Seq<char>) -> Seq<char>;

/// `str::to_lowercase`: the text in small letters, by Unicode's rules. What
/// those make of it is left to the name [`lowercase_of`].
#[verifier::external_body]
fn to_lowercase(s: &str) -> (out: String)
    ensures
        out@ == lowercase_of(s@),
{
    s.to_lowercase()
}

/// A post whose body could not be searched, and why.
#[derive(Debug, PartialEq, Eq)]
pub struct Unsearched {
    pub id: i32,
    pub title: String,
    pub reason: Unchecked,
}

pub struct UnsearchedRow {
    pub id: i32,
    pub title: Seq<char>,
    pub reason: Unchecked,
}

impl View for Unsearched {
    type V = UnsearchedRow;

    open spec fn view(&self) -> UnsearchedRow {
        UnsearchedRow { id: self.id, title: self.title@, reason: self.reason }
    }
}

/// What a search of bodies found, and what it could not see.
#[derive(Debug, PartialEq, Eq)]
pub struct BodyMatches {
    /// The posts whose cached Markdown holds the query.
    pub matched: Vec<i32>,
    /// The posts that were not searched.
    pub unsearched: Vec<Unsearched>,
}

impl Default for BodyMatches {
    fn default() -> (r: Self)
        ensures
            r.matched@.len() == 0,
            r.unsearched@.len() == 0,
    {
        BodyMatches { matched: Vec::new(), unsearched: Vec::new() }
    }
}

/// Whether a text holds another, both in small letters already.
pub fn holds_text(haystack_lower: &str, needle_lower: &str) -> (r: bool)
    ensures
        r == has_text(haystack_lower@, needle_lower@),
{
    crate::text::contains(haystack_lower, needle_lower)
}

/// Whether a text holds another, whatever the letters' case: the needle comes
/// in small letters, the text is put in them here.
pub fn contains(haystack: &str, needle_lower: &str) -> (r: bool)
    ensures
        r == has_text(lowercase_of(haystack@), needle_lower@),
{
    holds_text(to_lowercase(haystack).as_str(), needle_lower)
}

/// A post and its Markdown as this machine holds it; none where it does not.
pub struct SearchedPost {
    pub post: post::Model,
    pub body: Option<String>,
}

pub struct SearchedRow {
    pub post: PostRow,
    pub body: Option<Seq<char>>,
}

impl View for SearchedPost {
    type V = SearchedRow;

    open spec fn view(&self) -> SearchedRow {
        SearchedRow { post: self.post@, body: opt_view(self.body) }
    }
}

/// A post's body holds the query.
pub open spec fn matches_query(p: SearchedRow, needle: Seq<char>) -> bool {
    p.body matches Some(b) && has_text(lowercase_of(b), needle)
}

/// Why a post counts as not searched, if it does. A stale body can still match,
/// but a miss in it says nothing about what readers are served.
pub open spec fn unsearched_reason(
    p: SearchedRow,
    stale: Set<Seq<char>>,
    needle: Seq<char>,
) -> Option<Unchecked> {
    if p.body is None {
        Some(Unchecked::BodyNotCached)
    } else if stale.contains(p.post.slug) && !matches_query(p, needle) {
        Some(Unchecked::BodyStale)
    } else {
        None
    }
}

/// The posts that match, in their order.
pub open spec fn matching_ids(posts: Seq<SearchedRow>, needle: Seq<char>) -> Seq<i32>
    decreases posts.len(),
{
    if posts.len() == 0 {
        Seq::empty()
    } else {
        let before = matching_ids(posts.drop_last(), needle);
        if matches_query(posts.last(), needle) {
            before.push(posts.last().post.id)
        } else {
            before
        }
    }
}

/// The posts that were not searched, in their order.
pub open spec fn unsearched_rows(
    posts: Seq<SearchedRow>,
    stale: Set<Seq<char>>,
    needle: Seq<char>,
) -> Seq<UnsearchedRow>
    decreases posts.len(),
{
    if posts.len() == 0 {
        Seq::empty()
    } else {
        let before = unsearched_rows(posts.drop_last(), stale, needle);
        let p = posts.last();
        match unsearched_reason(p, stale, needle) {
            Some(reason) => before.push(
                UnsearchedRow { id: p.post.id, title: p.post.title, reason },
            ),
            None => before,
        }
    }
}

/// Searches the bodies that this machine has, for a query in small letters.
pub fn search_for(db: &Store, posts: &Vec<SearchedPost>, needle: &str) -> (r: BodyMatches)
    requires
        db.wf(),
    ensures
        r.matched@ == matching_ids(rows_view(posts@), needle@),
        rows_view(r.unsearched@) == unsearched_rows(
            rows_view(posts@),
            db@.stale.dom(),
            needle@,
        ),
{
    let ghost all = rows_view(posts@);
    let mut found: BodyMatches = BodyMatches::default();
    let mut i: usize = 0;
    proof {
        assert(all.take(0) =~= Seq::<SearchedRow>::empty());
        assert(found.matched@ =~= Seq::<i32>::empty());
        assert(rows_view(found.unsearched@) =~= Seq::<UnsearchedRow>::empty());
    }
    while i < posts.len()
        invariant
            i <= posts@.len(),
            all == rows_view(posts@),
            db.wf(),
            found.matched@ == matching_ids(all.take(i as int), needle@),
            rows_view(found.unsearched@) == unsearched_rows(
                all.take(i as int),
                db@.stale.dom(),
                needle@,
            ),
        decreases posts@.len() - i,
    {
        let p: &SearchedPost = &posts[i];
        let ghost before = rows_view(found.unsearched@);
        proof {
            assert(all.take(i + 1).drop_last() =~= all.take(i as int));
            assert(all.take(i + 1).last() == p@);
        }
        match &p.body {
            None => {
                let u = Unsearched {
                    id: p.post.id,
                    title: p.post.title.clone(),
                    reason: Unchecked::BodyNotCached,
                };
                let ghost v = u@;
                found.unsearched.push(u);
                assert(rows_view(found.unsearched@) =~= before.push(v));
            },
            Some(body) => {
                if contains(body.as_str(), needle) {
                    found.matched.push(p.post.id);
                } else if db.stale.has(&p.post.slug) {
                    let u = Unsearched {
                        id: p.post.id,
                        title: p.post.title.clone(),
                        reason: Unchecked::BodyStale,
                    };
                    let ghost v = u@;
                    found.unsearched.push(u);
                    assert(rows_view(found.unsearched@) =~= before.push(v));
                }
            },
        }
        i = i + 1;
    }
    assert(all.take(i as int) =~= all);
    found
}

/// Searches the bodies that this machine has. A blank query finds nothing and
/// looks at nothing.
pub fn search(db: &Store, posts: &Vec<SearchedPost>, query: &str) -> (r: BodyMatches)
    requires
        db.wf(),
    ensures
        ({
            let needle = lowercase_of(trimmed(query@));
            if needle.len() == 0 {
                r.matched@.len() == 0 && r.unsearched@.len() == 0
            } else {
                &&& r.matched@ == matching_ids(rows_view(posts@), needle)
                &&& rows_view(r.unsearched@) == unsearched_rows(
                    rows_view(posts@),
                    db@.stale.dom(),
                    needle,
                )
            }
        }),
{
    let needle: String = to_lowercase(trim(query));
    if needle.as_str().is_empty() {
        return BodyMatches::default();
    }
    search_for(db, posts, needle.as_str())
}

/// A post is reported one way or the other unless it was searched and does not
/// match: no body that could not be read passes for a miss.
pub proof fn only_a_searched_post_is_a_miss(
    p: SearchedRow,
    stale: Set<Seq<char>>,
    needle: Seq<char>,
)
    requires
        !matches_query(p, needle),
        unsearched_reason(p, stale, needle) is None,
    ensures
        p.body is Some,
        !stale.contains(p.post.slug),
{
}

/// A search finds every post whose text holds the query in small letters, live or not,
/// in their order, and no other.
pub proof fn every_match_is_found(posts: Seq<SearchedRow>, needle: Seq<char>)
    ensures
        matching_ids(posts, needle) == posts.filter(
            |p: SearchedRow| p.body is Some && has_text(lowercase_of(p.body->0), needle),
        ).map_values(|p: SearchedRow| p.post.id),
    decreases posts.len(),
{
    reveal(Seq::filter);
    let found = |p: SearchedRow| p.body is Some && has_text(lowercase_of(p.body->0), needle);
    let id = |p: SearchedRow| p.post.id;
    if posts.len() > 0 {
        let rest = posts.drop_last();
        every_match_is_found(rest, needle);
        if found(posts.last()) {
            assert(posts.filter(found).map_values(id) =~= rest.filter(found).map_values(id).push(
                posts.last().post.id,
            ));
        }
    } else {
        assert(posts.filter(found).map_values(id) =~= Seq::<i32>::empty());
    }
}

/// A search owns up to every post that it could not read, and to every one whose text
/// here is out of date and holds no match, with the reason, in their order; and to no
/// other.
pub proof fn every_blind_spot_is_reported(
    posts: Seq<SearchedRow>,
    stale: Set<Seq<char>>,
    needle: Seq<char>,
)
    ensures
        unsearched_rows(posts, stale, needle) == posts.filter(
            |p: SearchedRow|
                p.body is None || (stale.contains(p.post.slug) && !has_text(
                    lowercase_of(p.body->0),
                    needle,
                )),
        ).map_values(
            |p: SearchedRow|
                UnsearchedRow {
                    id: p.post.id,
                    title: p.post.title,
                    reason: if p.body is None {
                        Unchecked::BodyNotCached
                    } else {
                        Unchecked::BodyStale
                    },
                },
        ),
    decreases posts.len(),
{
    reveal(Seq::filter);
    let blind = |p: SearchedRow|
        p.body is None || (stale.contains(p.post.slug) && !has_text(
            lowercase_of(p.body->0),
            needle,
        ));
    let row = |p: SearchedRow|
        UnsearchedRow {
            id: p.post.id,
            title: p.post.title,
            reason: if p.body is None {
                Unchecked::BodyNotCached
            } else {
                Unchecked::BodyStale
            },
        };
    if posts.len() > 0 {
        let rest = posts.drop_last();
        every_blind_spot_is_reported(rest, stale, needle);
        if blind(posts.last()) {
            assert(posts.filter(blind).map_values(row) =~= rest.filter(blind).map_values(
                row,
            ).push(row(posts.last())));
        }
    } else {
        assert(posts.filter(blind).map_values(row) =~= Seq::<UnsearchedRow>::empty());
    }
}

}
