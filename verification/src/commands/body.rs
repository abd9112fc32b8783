//! Reading a post's Markdown: from this machine, or from the cloud.
//!
//! [`read_post_markdown`] says where the text is to come from. Where that is the cloud,
//! the caller downloads and [`after_download`] says what to do with what came: a
//! body that was written here while the download was out wins over it.

use crate::db::side_tables::{body_is_stale, body_stale_clear, sync_get, sync_of};
use crate::db::{post_by_slug, post_with_slug, Store, Tables};
use crate::error::{AppError, AppResult};
use crate::media_keys::{body_key, body_key_of, is_safe_slug, safe_slug};
use crate::sync_state::{has_local_change, local_changed};
use crate::text::opt_view;
use vstd::prelude::*;

verus! {

/// The cached body of `slug` holds work that this machine has not pushed. A post
/// that the tables have never heard of has none.
pub open spec fn local_edits(t: Tables, slug: Seq<char>) -> bool {
    match post_with_slug(t.posts, slug) {
        Some(post) => sync_of(t, post.id) matches Some(row) && has_local_change(row),
        None => false,
    }
}

/// Whether the cached body of `slug` holds work that this machine has not
/// pushed: the question to ask before it is replaced.
pub fn has_local_edits(db: &Store, slug: &str) -> (r: bool)
    requires
        db.wf(),
    ensures
        r == local_edits(db@, slug@),
{
    match post_by_slug(db, slug) {
        Some(post) => match sync_get(db, post.id) {
            Some(row) => local_changed(&row),
            None => false,
        },
        None => false,
    }
}

/// The cached body may be served: it is not marked as behind the cloud's, or it
/// is this machine's own newer text.
pub open spec fn cache_is_good(t: Tables, slug: Seq<char>) -> bool {
    local_edits(t, slug) || !t.stale.contains_key(slug)
}

/// Where a post's text is to be read from.
pub enum BodySource {
    /// It is here.
    Local(String),
    /// It has to be downloaded, from this key.
    Download(String),
}

/// Where the text of `slug` is to be read from, given what is cached here.
/// Without credentials a text that is not here is unknown, which is not the same
/// as empty.
pub fn read_post_markdown(
    db: &Store,
    slug: &str,
    cached: Option<String>,
    configured: bool,
) -> (r: AppResult<BodySource>)
    requires
        db.wf(),
    ensures
        match r {
            Ok(BodySource::Local(text)) => {
                &&& safe_slug(slug@)
                &&& cache_is_good(db@, slug@)
                &&& cached == Some(text)
            },
            Ok(BodySource::Download(key)) => {
                &&& safe_slug(slug@)
                &&& !cache_is_good(db@, slug@) || cached is None
                &&& configured
                &&& key@ == body_key_of(slug@)
            },
            Err(e) => if safe_slug(slug@) {
                &&& !cache_is_good(db@, slug@) || cached is None
                &&& !configured
                &&& e matches AppError::BodyUnavailable(s) && s@ == slug@
            } else {
                e matches AppError::InvalidSlug(s) && s@ == slug@
            },
        },
{
    if !is_safe_slug(slug) {
        return Err(AppError::InvalidSlug(slug.to_owned()));
    }
    if has_local_edits(db, slug) || !body_is_stale(db, slug) {
        match cached {
            Some(text) => {
                return Ok(BodySource::Local(text));
            },
            None => {},
        }
    }
    if !configured {
        return Err(AppError::BodyUnavailable(slug.to_owned()));
    }
    Ok(BodySource::Download(body_key(slug)))
}

/// What to do with a download.
pub enum Downloaded {
    /// Answer with this text, and leave the cached file alone.
    Answer(String),
    /// Answer with this text and cache it. Once it is in place, [`cached`] is
    /// owed.
    Cache(String),
}

/// What a read answers.
pub open spec fn answer_of(d: Downloaded) -> Seq<char> {
    match d {
        Downloaded::Answer(text) => text@,
        Downloaded::Cache(text) => text@,
    }
}

impl Downloaded {
    /// What a read answers.
    pub fn into_text(self) -> (text: String)
        ensures
            text@ == answer_of(self),
    {
        match self {
            Downloaded::Answer(text) => text,
            Downloaded::Cache(text) => text,
        }
    }
}

/// What to do with what the cloud gave for `slug`, `None` where it has nothing.
/// Whoever wrote the body while the download was out wins: there are local edits
/// now, or the file is not as it was. `current` is what the file says now.
pub fn after_download(
    db: &Store,
    slug: &str,
    file_unchanged: bool,
    current: Option<String>,
    downloaded: Option<String>,
) -> (r: Downloaded)
    requires
        db.wf(),
    ensures
        answer_of(r) == if local_edits(db@, slug@) || !file_unchanged {
            match opt_view(current) {
                Some(text) => text,
                None => match opt_view(downloaded) {
                    Some(text) => text,
                    None => Seq::empty(),
                },
            }
        } else {
            match opt_view(downloaded) {
                Some(text) => text,
                None => Seq::empty(),
            }
        },
        r is Cache <==> !local_edits(db@, slug@) && file_unchanged && downloaded is Some,
{
    let fetched: bool = downloaded.is_some();
    let text: String = match downloaded {
        Some(text) => text,
        None => {
            let none: String = String::new();
            assert(none@ =~= Seq::empty());
            none
        },
    };
    if has_local_edits(db, slug) || !file_unchanged {
        match current {
            Some(held) => Downloaded::Answer(held),
            None => Downloaded::Answer(text),
        }
    } else if fetched {
        Downloaded::Cache(text)
    } else {
        Downloaded::Answer(text)
    }
}

/// The cloud's copy of `slug` is cached: it is current.
pub fn cached(db: &mut Store, slug: &str)
    requires
        old(db).wf(),
    ensures
        final(db).wf(),
        final(db)@ == (Tables { stale: old(db)@.stale.remove(slug@), ..old(db)@ }),
{
    body_stale_clear(db, slug);
}

/// Text that this machine has not pushed is served whatever a refresh has said of
/// it, so no mark can turn into a way of losing a draft.
pub proof fn unpushed_text_is_served(t: Tables, slug: Seq<char>)
    requires
        local_edits(t, slug),
    ensures
        cache_is_good(t, slug),
{
}

/// Whether a post has text that was not pushed is read off its two fingerprints; a
/// slug that no post has, has none. Text that was pushed is served unless a refresh
/// called it out of date.
pub proof fn what_is_served(t: Tables, id: i32, slug: Seq<char>)
    requires
        t.wf(),
    ensures
        t.posts.contains_key(id) && t.posts[id].slug == slug ==> (local_edits(t, slug)
            <==> t.syncs.contains_key(id) && t.syncs[id].synced_hash != Some(
            t.syncs[id].local_hash,
        )),
        (forall|k: i32| #[trigger] t.posts.contains_key(k) ==> t.posts[k].slug != slug)
            ==> !local_edits(t, slug),
        !local_edits(t, slug) ==> (cache_is_good(t, slug) <==> !t.stale.contains_key(slug)),
{
    if t.posts.contains_key(id) && t.posts[id].slug == slug {
        assert(crate::db::has_slug(t.posts, id, slug));
        crate::db::lemma_slug_holder(t.posts, id, slug);
        assert(t.posts[id].id == id);
    }
    if forall|k: i32| #[trigger] t.posts.contains_key(k) ==> t.posts[k].slug != slug {
        assert(!crate::db::slug_taken(t.posts, slug)) by {
            if crate::db::slug_taken(t.posts, slug) {
                let k = choose|k: i32| crate::db::has_slug(t.posts, k, slug);
                assert(t.posts.contains_key(k));
            }
        }
    }
}

}
