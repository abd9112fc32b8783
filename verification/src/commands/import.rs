//! Importing a Markdown file as a draft.
//!
//! The row goes first: the slug decides whether the import may exist, and a
//! refusal has to come while a post that has the slug still has its body.
//!
//! 1. [`import_article`] creates the row. The caller then writes the body.
//! 2. [`Import::finish`] stages the post as a draft and marks it as edited, or
//!    [`Import::not_written`] takes the row out again.

use crate::commands::slugs::{
    a_free_slug_is_free, first_free, slug_for, slug_or, unique_slug,
};
use crate::db::side_tables::{edited, stage_set, sync_of, sync_set_local};
use crate::db::{
    next_id, post_create, post_delete, refused, slug_taken, Store, Tables, IDS_EXHAUSTED,
};
use crate::entities::post;
use crate::entities::post::PostRow;
use crate::entities::post_stage;
use crate::entities::post_stage::StageRow;
use crate::error::{AppError, AppResult};
use crate::frontmatter::{stripped, strip_frontmatter};
use crate::json::{csv_tags, tags_column, tags_to_json};
use crate::sync_state::{content_hash, fingerprint};
use vstd::prelude::*;

verus! {

/// An import whose row is written and whose body is not.
pub struct Import {
    pub created: post::Model,
    /// The document without its front matter.
    pub body: String,
    pub now: i64,
}

/// The name of a file as a title.
pub open spec fn title_of(stem: Option<&str>) -> Seq<char> {
    match stem {
        Some(s) => s@,
        None => "untitled"@,
    }
}

/// Starts the import of a file called `stem` (nothing where the name is not
/// text): creates the post, with a slug that no post has.
pub fn import_article(db: &mut Store, stem: Option<&str>, content: &str, now: i64) -> (r: AppResult<
    Import,
>)
    requires
        old(db).wf(),
    ensures
        final(db).wf(),
        match r {
            Ok(i) => {
                &&& next_id(old(db)@.posts) <= i32::MAX
                &&& first_free(
                    |s: Seq<char>| slug_taken(old(db)@.posts, s),
                    slug_or(title_of(stem), "post-"@, now),
                    i.created.slug@,
                )
                &&& i.created@ == (PostRow {
                    id: next_id(old(db)@.posts) as i32,
                    slug: i.created.slug@,
                    title: title_of(stem),
                    excerpt: None,
                    tags: Some(tags_column(csv_tags(Seq::empty()))),
                    published: false,
                    published_at: None,
                    series_id: None,
                    series_order: None,
                    created_at: now,
                    updated_at: now,
                })
                &&& i.body@ == stripped(content@)
                &&& i.now == now
                &&& final(db)@ == (Tables {
                    posts: old(db)@.posts.insert(i.created.id, i.created@),
                    ..old(db)@
                })
            },
            Err(e) => {
                &&& next_id(old(db)@.posts) > i32::MAX
                &&& refused(e, IDS_EXHAUSTED)
                &&& final(db)@ == old(db)@
            },
        },
{
    let title: &str = match stem {
        Some(s) => s,
        None => "untitled",
    };
    let base: String = slug_for(title, "post-", now);
    let slug: String = unique_slug(db, base.as_str());
    proof {
        let taken = |s: Seq<char>| slug_taken(db@.posts, s);
        a_free_slug_is_free(taken, base@, slug@, slug@);
        assert(!taken(slug@));
        reveal_strlit("");
        assert(""@ =~= Seq::<char>::empty());
    }
    let post = post::Model {
        id: 0,
        slug,
        title: title.to_owned(),
        excerpt: None,
        tags: Some(tags_to_json("")),
        published: false,
        published_at: None,
        series_id: None,
        series_order: None,
        created_at: now,
        updated_at: now,
    };
    match post_create(db, post) {
        Ok(created) => Ok(Import { created, body: strip_frontmatter(content).to_owned(), now }),
        Err(e) => Err(e),
    }
}

impl Import {
    /// The body could not be written: the row goes, rather than open as a
    /// document that reads as if it were empty.
    pub fn not_written(self, db: &mut Store)
        requires
            old(db).wf(),
        ensures
            final(db).wf(),
            final(db)@ == (Tables {
                posts: old(db)@.posts.remove(self.created.id),
                ..old(db)@
            }),
    {
        post_delete(db, self.created.id);
    }

    /// Stages the post as a draft and marks it as an edit that the cloud has never
    /// seen. Gives the title back.
    pub fn finish(self, db: &mut Store) -> (r: AppResult<String>)
        requires
            old(db).wf(),
        ensures
            final(db).wf(),
            ({
                let t = old(db)@;
                let id = self.created.id;
                match r {
                    Ok(title) => {
                        &&& t.posts.contains_key(id)
                        &&& title@ == self.created.title@
                        &&& final(db)@ == (Tables {
                            stages: t.stages.insert(
                                id,
                                StageRow {
                                    post_id: id,
                                    stage: post_stage::DRAFT@,
                                    staged_at: self.now,
                                },
                            ),
                            syncs: t.syncs.insert(
                                id,
                                edited(
                                    sync_of(t, id),
                                    id,
                                    fingerprint(self.created@, self.body@),
                                ),
                            ),
                            ..t
                        })
                    },
                    Err(e) => {
                        &&& !t.posts.contains_key(id)
                        &&& e == AppError::PostVanished(id)
                        &&& final(db)@ == t
                    },
                }
            }),
    {
        let stage = post_stage::Model {
            post_id: self.created.id,
            stage: post_stage::DRAFT.to_owned(),
            staged_at: self.now,
        };
        match stage_set(db, stage) {
            Err(e) => {
                return Err(e);
            },
            Ok(_) => {},
        }
        let hash: String = content_hash(&self.created, self.body.as_str());
        match sync_set_local(db, self.created.id, hash) {
            Err(e) => Err(e),
            Ok(_) => Ok(self.created.title),
        }
    }
}

/// An import is called what its file is called, whatever that is.
pub proof fn an_import_is_called_by_its_file(stem: &str)
    ensures
        title_of(Some(stem)) == stem@,
        title_of(None) == "untitled"@,
{
}

}
