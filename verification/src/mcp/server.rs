//! What the tools of the endpoint do.
//!
//! Drafting is unrestricted and publishing is not: nothing here reaches the cloud.
//! A client and somebody at the editor go through the same code.

use crate::commands::media::{MediaItem, MediaItemRow};
use crate::commands::save::{save_origin, save_post, save_started, Save};
use crate::db::listings;
use crate::db::listings::{active_posts, list_active_posts, NewestPosts, NewestSeries};
use crate::db::side_tables::{
    body_stale_clear, edited, stage_get, stage_of, stage_set, sync_get, sync_of, sync_set_local,
    trash_get,
};
use crate::db::{
    has_slug, post_get, post_update, slug_elsewhere, Store, Tables,
};
use crate::entities::post;
use crate::entities::post::PostRow;
use crate::entities::post_revision;
use crate::entities::post_stage;
use crate::entities::post_stage::StageRow;
use crate::entities::series;
use crate::entities::series::SeriesRow;
use crate::error::{AppError, AppResult};
use crate::json;
use crate::json::{tags_column, tags_in, tags_to_column, trim_tags, trimmed_tags};
use crate::mcp::publish::{
    enqueue, get, is_open, new_request, open_for_post, PublishRequest, Queue,
};
use crate::revisions::{after_snapshot, record_or_skip};
use crate::sync_state;
use crate::sync_state::{content_hash, fingerprint, state_of, SyncState};
use crate::table::{in_order, lists, rows_view};
use crate::text::{
    copy_opt, int_text, join, joined, opt_view, signed_decimal, trim, trimmed, views,
};
use vstd::prelude::*;
use vstd::string::StringExecFns;

verus! {

/// Why a tool failed: what was sent is at fault, or something here is.
#[derive(Debug, PartialEq, Eq)]
pub enum ToolError {
    Invalid(String),
    Internal(String),
}

/// A tool's result.
pub type ToolResult<T> = Result<T, ToolError>;

/// `e` says that what was sent is at fault.
pub open spec fn is_invalid(e: ToolError, why: Seq<char>) -> bool {
    e matches ToolError::Invalid(m) && m@ == why
}

// ─── What a client sees ─────────────────────────────────────────────────────

/// A post as a client sees it: tags decoded, stage and state with it.
#[derive(Debug, PartialEq, Eq)]
pub struct PostOut {
    pub id: i32,
    pub slug: String,
    pub title: String,
    pub excerpt: Option<String>,
    pub tags: Vec<String>,
    pub published: bool,
    pub published_at: Option<i64>,
    pub series_id: Option<i32>,
    pub series_order: Option<i32>,
    pub created_at: i64,
    pub updated_at: i64,
    /// `draft`, `published` or `sync_failed`.
    pub stage: Option<String>,
    /// Whether the copy here is what readers are served.
    pub sync_state: SyncState,
    /// The Markdown, where one post was asked for.
    pub body: Option<String>,
}

/// What a [`PostOut`] says.
pub struct PostOutRow {
    pub id: i32,
    pub slug: Seq<char>,
    pub title: Seq<char>,
    pub excerpt: Option<Seq<char>>,
    pub tags: Seq<Seq<char>>,
    pub published: bool,
    pub published_at: Option<i64>,
    pub series_id: Option<i32>,
    pub series_order: Option<i32>,
    pub created_at: i64,
    pub updated_at: i64,
    pub stage: Option<Seq<char>>,
    pub sync_state: SyncState,
    pub body: Option<Seq<char>>,
}

impl View for PostOut {
    type V = PostOutRow;

    open spec fn view(&self) -> PostOutRow {
        PostOutRow {
            id: self.id,
            slug: self.slug@,
            title: self.title@,
            excerpt: opt_view(self.excerpt),
            tags: views(self.tags@),
            published: self.published,
            published_at: self.published_at,
            series_id: self.series_id,
            series_order: self.series_order,
            created_at: self.created_at,
            updated_at: self.updated_at,
            stage: opt_view(self.stage),
            sync_state: self.sync_state,
            body: opt_view(self.body),
        }
    }
}

/// A post with its stage and state, as a client sees it.
pub open spec fn shown(
    post: PostRow,
    stage: Option<Seq<char>>,
    sync_state: SyncState,
    body: Option<Seq<char>>,
) -> PostOutRow {
    PostOutRow {
        id: post.id,
        slug: post.slug,
        title: post.title,
        excerpt: post.excerpt,
        tags: tags_in(post.tags),
        published: post.published,
        published_at: post.published_at,
        series_id: post.series_id,
        series_order: post.series_order,
        created_at: post.created_at,
        updated_at: post.updated_at,
        stage,
        sync_state,
        body,
    }
}

/// A post with its stage and state, as a client sees it.
pub fn to_out(
    post: post::Model,
    stage: Option<String>,
    sync_state: SyncState,
    body: Option<String>,
) -> (out: PostOut)
    ensures
        out@ == shown(post@, opt_view(stage), sync_state, opt_view(body)),
{
    let tags: Vec<String> = json::tags_from_json(&post.tags);
    PostOut {
        id: post.id,
        slug: post.slug,
        title: post.title,
        excerpt: post.excerpt,
        tags,
        published: post.published,
        published_at: post.published_at,
        series_id: post.series_id,
        series_order: post.series_order,
        created_at: post.created_at,
        updated_at: post.updated_at,
        stage,
        sync_state,
        body,
    }
}

/// The name of a post's stage.
pub open spec fn stage_name(t: Tables, id: i32) -> Option<Seq<char>> {
    match stage_of(t, id) {
        Some(s) => Some(s.stage),
        None => None,
    }
}

/// A post as a client sees it, with what the tables say of it.
pub open spec fn shown_in(t: Tables, post: PostRow, body: Option<Seq<char>>) -> PostOutRow {
    shown(
        post,
        stage_name(t, post.id),
        state_of(stage_of(t, post.id), sync_of(t, post.id)),
        body,
    )
}

/// A post as a client sees it, with what the tables say of it: the two facts that
/// the desktop's list shows, read in the same way.
pub fn describe(db: &Store, post: post::Model, body: Option<String>) -> (out: PostOut)
    requires
        db.wf(),
    ensures
        out@ == shown_in(db@, post@, opt_view(body)),
{
    let stage: Option<post_stage::Model> = stage_get(db, post.id);
    let sync = sync_get(db, post.id);
    let state: SyncState = sync_state::derive(stage.as_ref(), sync.as_ref());
    let name: Option<String> = match stage {
        Some(s) => Some(s.stage),
        None => None,
    };
    to_out(post, name, state, body)
}

/// A series as a client sees it.
#[derive(Debug, PartialEq, Eq)]
pub struct SeriesOut {
    pub id: i32,
    pub slug: String,
    pub title: String,
    pub description: Option<String>,
    pub created_at: i64,
}

impl View for SeriesOut {
    type V = SeriesRow;

    open spec fn view(&self) -> SeriesRow {
        SeriesRow {
            id: self.id,
            slug: self.slug@,
            title: self.title@,
            description: opt_view(self.description),
            created_at: self.created_at,
        }
    }
}

/// An object of the media library as a client sees it.
#[derive(Debug, PartialEq, Eq)]
pub struct MediaOut {
    pub key: String,
    pub name: String,
    pub size: u64,
}

// ─── What a client sends ────────────────────────────────────────────────────

pub struct GetPostParams {
    pub id: i32,
}

pub struct CreateDraftParams {
    /// The title, from which the slug is made.
    pub title: String,
    pub tags: Vec<String>,
    /// The Markdown, which may be empty.
    pub body: String,
}

pub struct UpdateDraftParams {
    pub id: i32,
    /// A new title. The slug never changes.
    pub title: Option<String>,
    /// The tags in place of those there are.
    pub tags: Option<Vec<String>>,
    /// The Markdown in place of what there is.
    pub body: Option<String>,
}

pub struct RequestPublishParams {
    pub post_id: i32,
    /// Why the post should go live.
    pub reason: Option<String>,
}

pub struct PublishStatusParams {
    pub request_id: String,
}

/// Tags the way a save takes them: with commas between, and without the blank ones.
pub fn tags_to_csv(tags: &Vec<String>) -> (out: String)
    ensures
        out@ == joined(trimmed_tags(views(tags@)), ","@),
{
    join(&trim_tags(tags), ",")
}

// ─── Reading ────────────────────────────────────────────────────────────────

fn about(before: &str, id: i32, after: &str) -> (out: String)
    ensures
        out@ == before@ + int_text(id as int) + after@,
{
    let mut out: String = before.to_owned();
    out.append(signed_decimal(id as i64).as_str());
    out.append(after);
    out
}

/// The message that there is no such post.
pub open spec fn no_post(id: i32) -> Seq<char> {
    "No post with id "@ + int_text(id as int) + ""@
}

/// The message that the post is in the trash.
pub open spec fn post_in_trash(id: i32) -> Seq<char> {
    "Post "@ + int_text(id as int) + " is in the trash"@
}

/// The message that the post went while it was being edited.
pub open spec fn post_gone(id: i32) -> Seq<char> {
    "Post "@ + int_text(id as int) + " no longer exists"@
}

/// One post. One in the trash is refused, and told apart from one that is not
/// there: the client may have read the id before the post was thrown away.
pub fn load_post(db: &Store, id: i32) -> (r: ToolResult<post::Model>)
    requires
        db.wf(),
    ensures
        match r {
            Ok(p) => db@.active(id) && p@ == db@.posts[id],
            Err(e) => if db@.posts.contains_key(id) {
                db@.trash.contains_key(id) && is_invalid(e, post_in_trash(id))
            } else {
                is_invalid(e, no_post(id))
            },
        },
{
    match post_get(db, id) {
        Some(post) => {
            if trash_get(db, id).is_some() {
                return Err(ToolError::Invalid(about("Post ", id, " is in the trash")));
            }
            Ok(post)
        },
        None => Err(ToolError::Invalid(about("No post with id ", id, ""))),
    }
}

/// The posts of the library as clients see them.
pub open spec fn all_shown(t: Tables, posts: Seq<PostRow>) -> Seq<PostOutRow> {
    Seq::new(posts.len(), |i: int| shown_in(t, posts[i], None))
}

/// Every post of the library, newest first, without the bodies.
pub fn list_posts(db: &Store) -> (out: Vec<PostOut>)
    requires
        db.wf(),
    ensures
        exists|posts: Seq<PostRow>|
            lists::<post::Model>(posts, active_posts(db@)) && in_order::<post::Model, NewestPosts>(
                posts,
            ) && rows_view(out@) == #[trigger] all_shown(db@, posts),
{
    let posts: Vec<post::Model> = list_active_posts(db);
    let ghost rows = rows_view(posts@);
    let mut out: Vec<PostOut> = Vec::new();
    let mut i: usize = 0;
    while i < posts.len()
        invariant
            i <= posts@.len(),
            db.wf(),
            rows == rows_view(posts@),
            out@.len() == i,
            forall|j: int| 0 <= j < i ==> (#[trigger] out@[j])@ == shown_in(db@, rows[j], None),
        decreases posts@.len() - i,
    {
        out.push(describe(db, posts[i].clone(), None));
        i = i + 1;
    }
    assert(rows_view(out@) =~= all_shown(db@, rows));
    out
}

/// One post with its Markdown.
pub fn get_post(db: &Store, post: post::Model, body: String) -> (out: PostOut)
    requires
        db.wf(),
    ensures
        out@ == shown_in(db@, post@, Some(body@)),
{
    describe(db, post, Some(body))
}

/// Every series, newest first.
pub fn list_series(db: &Store) -> (out: Vec<SeriesOut>)
    requires
        db.wf(),
    ensures
        lists::<series::Model>(rows_view(out@), db@.series),
        in_order::<series::Model, NewestSeries>(rows_view(out@)),
{
    let all: Vec<series::Model> = listings::list_series(db);
    let ghost rows = rows_view(all@);
    let mut out: Vec<SeriesOut> = Vec::new();
    let mut i: usize = 0;
    while i < all.len()
        invariant
            i <= all@.len(),
            rows == rows_view(all@),
            out@.len() == i,
            forall|j: int| 0 <= j < i ==> (#[trigger] out@[j])@ == rows[j],
        decreases all@.len() - i,
    {
        let s: &series::Model = &all[i];
        out.push(
            SeriesOut {
                id: s.id,
                slug: s.slug.clone(),
                title: s.title.clone(),
                description: copy_opt(&s.description),
                created_at: s.created_at,
            },
        );
        i = i + 1;
    }
    assert(rows_view(out@) =~= rows);
    out
}

impl View for MediaOut {
    type V = MediaItemRow;

    open spec fn view(&self) -> MediaItemRow {
        MediaItemRow { key: self.key@, name: self.name@, size: self.size }
    }
}

/// The media library as a client sees it.
pub fn list_media(items: &Vec<MediaItem>) -> (out: Vec<MediaOut>)
    ensures
        rows_view(out@) == rows_view(items@),
{
    let mut out: Vec<MediaOut> = Vec::new();
    let mut i: usize = 0;
    while i < items.len()
        invariant
            i <= items@.len(),
            out@.len() == i,
            forall|j: int| 0 <= j < i ==> (#[trigger] out@[j])@ == items@[j]@,
        decreases items@.len() - i,
    {
        let item: &MediaItem = &items[i];
        out.push(
            MediaOut { key: item.key.clone(), name: item.name.clone(), size: item.size },
        );
        i = i + 1;
    }
    assert(rows_view(out@) =~= rows_view(items@));
    out
}

// ─── Drafting ───────────────────────────────────────────────────────────────

/// The message that a title is needed.
pub open spec fn needs_title() -> Seq<char> {
    "title must not be empty"@
}

/// Starts creating a post as a draft: a save that does not publish.
pub fn create_draft(db: &Store, params: CreateDraftParams, now: i64) -> (r: ToolResult<
    AppResult<Save>,
>)
    requires
        db.wf(),
    ensures
        match r {
            Ok(started) => {
                &&& trimmed(params.title@).len() > 0
                &&& save_started(
                    db@,
                    None,
                    trimmed(params.title@),
                    joined(trimmed_tags(views(params.tags@)), ","@),
                    params.body@,
                    false,
                    save_origin(false),
                    now,
                    started,
                )
            },
            Err(e) => trimmed(params.title@).len() == 0 && is_invalid(e, needs_title()),
        },
{
    let title: String = trim(params.title.as_str()).to_owned();
    if title.as_str().is_empty() {
        return Err(ToolError::Invalid("title must not be empty".to_owned()));
    }
    let tags: String = tags_to_csv(&params.tags);
    Ok(save_post(db, None, title, tags.as_str(), params.body, false, now))
}

/// An edit that is decided and not yet written.
pub struct Edit {
    /// The post as it stood when the edit came.
    pub original: post::Model,
    /// The new title, where one was sent.
    pub title: Option<String>,
    /// The new tags column, where tags were sent.
    pub tags: Option<String>,
    /// The new text, where one was sent.
    pub body: Option<String>,
    pub now: i64,
}

/// A tags column out of a list as it was sent.
pub open spec fn column_of(tags: Option<Vec<String>>) -> Option<Seq<char>> {
    match tags {
        Some(list) => Some(tags_column(trimmed_tags(views(list@)))),
        None => None,
    }
}

/// A title as it was sent, without the space round it.
pub open spec fn title_sent(title: Option<String>) -> Option<Seq<char>> {
    match title {
        Some(t) => Some(trimmed(t@)),
        None => None,
    }
}

/// Starts editing a post. The caller then finds the text that the post will have:
/// what was sent, or what there is.
pub fn update_draft(db: &Store, params: UpdateDraftParams, now: i64) -> (r: ToolResult<Edit>)
    requires
        db.wf(),
    ensures
        match r {
            Ok(e) => {
                &&& db@.active(params.id)
                &&& title_sent(params.title) matches Some(t) ==> t.len() > 0
                &&& e.original@ == db@.posts[params.id]
                &&& opt_view(e.title) == title_sent(params.title)
                &&& opt_view(e.tags) == column_of(params.tags)
                &&& e.body == params.body
                &&& e.now == now
            },
            Err(e) => if !db@.posts.contains_key(params.id) {
                is_invalid(e, no_post(params.id))
            } else if db@.trash.contains_key(params.id) {
                is_invalid(e, post_in_trash(params.id))
            } else {
                &&& title_sent(params.title) matches Some(t) && t.len() == 0
                &&& is_invalid(e, needs_title())
            },
        },
{
    let original: post::Model = match load_post(db, params.id) {
        Ok(p) => p,
        Err(e) => {
            return Err(e);
        },
    };
    let title: Option<String> = match params.title {
        Some(t) => {
            let title: String = trim(t.as_str()).to_owned();
            if title.as_str().is_empty() {
                return Err(ToolError::Invalid("title must not be empty".to_owned()));
            }
            Some(title)
        },
        None => None,
    };
    let tags: Option<String> = match params.tags {
        Some(list) => Some(tags_to_column(&trim_tags(&list))),
        None => None,
    };
    Ok(Edit { original, title, tags, body: params.body, now })
}

/// An edit whose row is written and whose text, where one was sent, is about to be
/// moved into place.
pub struct Edited {
    pub saved: post::Model,
    /// The text that was sent.
    pub body: Option<String>,
    /// Whether the post was live when the row was written.
    pub was_published: bool,
}

/// The post as an edit leaves it: what was sent over the row as it stands, and
/// nothing else. A column that changed while the edit was under way keeps its
/// change.
pub open spec fn merged(
    current: PostRow,
    title: Option<Seq<char>>,
    tags: Option<Seq<char>>,
    now: i64,
) -> PostRow {
    PostRow {
        title: match title {
            Some(t) => t,
            None => current.title,
        },
        tags: match tags {
            Some(t) => Some(t),
            None => current.tags,
        },
        updated_at: now,
        ..current
    }
}

impl Edit {
    /// Keeps the version from before in the history, with `old_body`, the cached
    /// text, and writes what was sent over the row as it stands now.
    pub fn commit(self, db: &mut Store, old_body: Option<String>) -> (r: ToolResult<Edited>)
        requires
            old(db).wf(),
        ensures
            final(db).wf(),
            ({
                let t = old(db)@;
                let id = self.original.id;
                let kept = after_snapshot(
                    t,
                    self.original@,
                    post_revision::MCP@,
                    opt_view(old_body),
                    self.now,
                );
                match r {
                    Ok(e) => {
                        &&& t.active(id)
                        &&& e.saved@ == merged(
                            t.posts[id],
                            opt_view(self.title),
                            opt_view(self.tags),
                            self.now,
                        )
                        &&& e.body == self.body
                        &&& e.was_published == t.posts[id].published
                        &&& final(db)@ == (Tables { posts: t.posts.insert(id, e.saved@), ..kept })
                    },
                    Err(e) => {
                        &&& final(db)@ == kept
                        &&& if t.trash.contains_key(id) {
                            is_invalid(e, post_in_trash(id))
                        } else {
                            !t.posts.contains_key(id) && is_invalid(e, post_gone(id))
                        }
                    },
                }
            }),
    {
        let id: i32 = self.original.id;
        record_or_skip(db, &self.original, post_revision::MCP, old_body, self.now);
        if trash_get(db, id).is_some() {
            return Err(ToolError::Invalid(about("Post ", id, " is in the trash")));
        }
        let current: post::Model = match post_get(db, id) {
            Some(p) => p,
            None => {
                return Err(ToolError::Invalid(about("Post ", id, " no longer exists")));
            },
        };
        let was_published: bool = current.published;
        let mut model: post::Model = current;
        match self.title {
            Some(t) => {
                model.title = t;
            },
            None => {},
        }
        match self.tags {
            Some(t) => {
                model.tags = Some(t);
            },
            None => {},
        }
        model.updated_at = self.now;
        proof {
            assert(!slug_elsewhere(db@.posts, id, model.slug@)) by {
                if slug_elsewhere(db@.posts, id, model.slug@) {
                    let k = choose|k: i32| #[trigger]
                        has_slug(db@.posts, k, model.slug@) && k != id;
                    assert(db@.posts.contains_key(k) && db@.posts.contains_key(id));
                }
            }
        }
        match post_update(db, model) {
            Ok(saved) => Ok(Edited { saved, body: self.body, was_published }),
            Err(e) => Err(ToolError::Internal(e.message())),
        }
    }
}

/// The text that an edit leaves the post with.
pub open spec fn edited_body(
    sent: Option<Seq<char>>,
    on_disk: Option<Seq<char>>,
    read_before: Seq<char>,
) -> Seq<char> {
    match sent {
        Some(text) => text,
        None => match on_disk {
            Some(text) => text,
            None => read_before,
        },
    }
}

/// The tables after an edit: marked as one that is not pushed, and staged as a
/// draft unless the post is live.
pub open spec fn edit_recorded(
    t: Tables,
    saved: PostRow,
    body: Seq<char>,
    was_published: bool,
) -> Tables {
    Tables {
        syncs: t.syncs.insert(
            saved.id,
            edited(sync_of(t, saved.id), saved.id, fingerprint(saved, body)),
        ),
        stages: if was_published {
            t.stages
        } else {
            t.stages.insert(
                saved.id,
                StageRow {
                    post_id: saved.id,
                    stage: post_stage::DRAFT@,
                    staged_at: saved.updated_at,
                },
            )
        },
        ..t
    }
}

impl Edited {
    /// Takes off the mark that the cached text is out of date. Owed before a text
    /// that was sent is moved into place.
    pub fn before_move(&self, db: &mut Store)
        requires
            old(db).wf(),
        ensures
            final(db).wf(),
            final(db)@ == (Tables { stale: old(db)@.stale.remove(self.saved.slug@), ..old(db)@ }),
    {
        body_stale_clear(db, self.saved.slug.as_str());
    }

    /// Records the edit as one that has not been pushed. A live post stays live and
    /// keeps its stage. Where no text was sent, what is on disk now counts, and what
    /// was read before only where that cannot be read.
    pub fn finish(self, db: &mut Store, on_disk: Option<String>, read_before: String) -> (r:
        ToolResult<PostOut>)
        requires
            old(db).wf(),
        ensures
            final(db).wf(),
            if old(db)@.posts.contains_key(self.saved.id) {
                &&& final(db)@ == edit_recorded(
                    old(db)@,
                    self.saved@,
                    edited_body(opt_view(self.body), opt_view(on_disk), read_before@),
                    self.was_published,
                )
                &&& r matches Ok(out) && out@ == shown_in(final(db)@, self.saved@, None)
            } else {
                &&& final(db)@ == old(db)@
                &&& r matches Err(ToolError::Internal(m)) && m@ == AppError::PostVanished(
                    self.saved.id,
                ).text()
            },
    {
        let body: String = match self.body {
            Some(text) => text,
            None => match on_disk {
                Some(text) => text,
                None => read_before,
            },
        };
        let hash: String = content_hash(&self.saved, body.as_str());
        match sync_set_local(db, self.saved.id, hash) {
            Err(e) => {
                return Err(ToolError::Internal(e.message()));
            },
            Ok(_) => {},
        }
        if !self.was_published {
            let stage = post_stage::Model {
                post_id: self.saved.id,
                stage: post_stage::DRAFT.to_owned(),
                staged_at: self.saved.updated_at,
            };
            match stage_set(db, stage) {
                Err(e) => {
                    return Err(ToolError::Internal(e.message()));
                },
                Ok(_) => {},
            }
        }
        Ok(describe(db, self.saved, None))
    }
}

// ─── Asking to publish ──────────────────────────────────────────────────────

/// Asks for a post to be published. Nothing is published: the request waits for
/// somebody. A post has one open request at a time, and who asks again is handed
/// that one.
pub fn request_publish(db: &Store, queue: &mut Queue, params: RequestPublishParams) -> (r:
    ToolResult<PublishRequest>)
    requires
        db.wf(),
        old(queue).wf(),
    ensures
        final(queue).wf(),
        ({
            let id = params.post_id;
            match r {
                Ok(q) => {
                    &&& db@.active(id)
                    &&& if exists|k: Seq<char>| #[trigger]
                        old(queue)@.contains_key(k) && is_open(old(queue)@[k], id) {
                        &&& old(queue)@.contains_key(q.id@)
                        &&& old(queue)@[q.id@] == q@
                        &&& is_open(q@, id)
                        &&& final(queue)@ == old(queue)@
                    } else {
                        &&& q@ == new_request(
                            q.id@,
                            q.requested_at,
                            id,
                            db@.posts[id].slug,
                            db@.posts[id].title,
                            opt_view(params.reason),
                        )
                        &&& final(queue)@ == old(queue)@.insert(q.id@, q@)
                    }
                },
                Err(e) => {
                    &&& final(queue)@ == old(queue)@
                    &&& if db@.posts.contains_key(id) {
                        db@.trash.contains_key(id) && is_invalid(e, post_in_trash(id))
                    } else {
                        is_invalid(e, no_post(id))
                    }
                },
            }
        }),
{
    let post: post::Model = match load_post(db, params.post_id) {
        Ok(p) => p,
        Err(e) => {
            return Err(e);
        },
    };
    match open_for_post(queue, post.id) {
        Some(existing) => {
            return Ok(existing);
        },
        None => {},
    }
    Ok(enqueue(queue, post.id, post.slug, post.title, params.reason))
}

/// Where a request stands.
pub fn publish_status(queue: &Queue, params: PublishStatusParams) -> (r: ToolResult<PublishRequest>)
    requires
        queue.wf(),
    ensures
        match r {
            Ok(q) => queue@.contains_key(params.request_id@) && q@ == queue@[params.request_id@],
            Err(e) => !queue@.contains_key(params.request_id@) && is_invalid(
                e,
                "No publish request "@ + params.request_id@,
            ),
        },
{
    match get(queue, params.request_id.as_str()) {
        Some(q) => Ok(q),
        None => Err(
            ToolError::Invalid(crate::text::plus("No publish request ", params.request_id.as_str())),
        ),
    }
}

// ─── Laws ───────────────────────────────────────────────────────────────────

/// A client's edit changes no column but the title, the tags and the time of the
/// change, and those only where they were sent: it neither publishes a post nor
/// takes one down.
pub proof fn an_edit_touches_only_what_was_sent(
    current: PostRow,
    title: Option<Seq<char>>,
    tags: Option<Seq<char>>,
    now: i64,
)
    ensures
        ({
            let after = merged(current, title, tags, now);
            &&& after == (PostRow {
                title: after.title,
                tags: after.tags,
                updated_at: now,
                ..current
            })
            &&& title is None ==> after.title == current.title
            &&& tags is None ==> after.tags == current.tags
        }),
{
}

/// An edit of a live post leaves its stage alone; one of a post that is not live
/// leaves it a draft.
pub proof fn an_edit_does_not_move_a_live_post(
    t: Tables,
    saved: PostRow,
    body: Seq<char>,
    was_published: bool,
)
    ensures
        was_published ==> stage_of(edit_recorded(t, saved, body, was_published), saved.id)
            == stage_of(t, saved.id),
        !was_published ==> stage_name(
            edit_recorded(t, saved, body, was_published),
            saved.id,
        ) == Some(post_stage::DRAFT@),
{
}

/// A client sees of a post what the app shows of it: every column, the tags that its
/// column holds, its stage and its state, and the text where it was asked for.
pub proof fn a_client_sees_the_post(t: Tables, post: PostRow, body: Option<Seq<char>>)
    ensures
        ({
            let out = shown_in(t, post, body);
            &&& out.id == post.id
            &&& out.slug == post.slug
            &&& out.title == post.title
            &&& out.excerpt == post.excerpt
            &&& out.tags == tags_in(post.tags)
            &&& out.published == post.published
            &&& out.published_at == post.published_at
            &&& out.series_id == post.series_id
            &&& out.series_order == post.series_order
            &&& out.created_at == post.created_at
            &&& out.updated_at == post.updated_at
            &&& t.stages.contains_key(post.id) ==> out.stage == Some(t.stages[post.id].stage)
            &&& !t.stages.contains_key(post.id) ==> out.stage is None
            &&& out.sync_state == state_of(stage_of(t, post.id), sync_of(t, post.id))
            &&& out.body == body
        }),
{
}

/// What a client sent is what the post says afterwards, whatever it said before, and
/// what it did not send stays.
pub proof fn an_edit_writes_what_was_sent(
    current: PostRow,
    title: Option<Seq<char>>,
    tags: Option<Seq<char>>,
    now: i64,
)
    ensures
        ({
            let after = merged(current, title, tags, now);
            &&& title matches Some(t) ==> after.title == t
            &&& title is None ==> after.title == current.title
            &&& tags matches Some(t) ==> after.tags == Some(t)
            &&& tags is None ==> after.tags == current.tags
            &&& after.updated_at == now
            &&& after.id == current.id
            &&& after.slug == current.slug
            &&& after.excerpt == current.excerpt
            &&& after.published == current.published
            &&& after.published_at == current.published_at
            &&& after.series_id == current.series_id
            &&& after.series_order == current.series_order
            &&& after.created_at == current.created_at
        }),
{
}

/// A client's edit is recorded as one that was not pushed: the fingerprint is that of
/// what the post says now, what is known of the cloud stays, and nothing is said of
/// any other post.
pub proof fn an_edit_is_recorded_as_unpushed(
    t: Tables,
    saved: PostRow,
    body: Seq<char>,
    was_published: bool,
    other: i32,
)
    requires
        other != saved.id,
    ensures
        ({
            let after = edit_recorded(t, saved, body, was_published);
            &&& after.syncs.contains_key(saved.id)
            &&& after.syncs[saved.id].local_hash == fingerprint(saved, body)
            &&& t.syncs.contains_key(saved.id) ==> after.syncs[saved.id].synced_hash
                == t.syncs[saved.id].synced_hash
            &&& !t.syncs.contains_key(saved.id) ==> after.syncs[saved.id].synced_hash is None
            &&& sync_of(after, other) == sync_of(t, other)
            &&& stage_of(after, other) == stage_of(t, other)
            &&& after.posts == t.posts
            &&& after.series == t.series
            &&& after.revisions == t.revisions
            &&& after.trash == t.trash
            &&& after.tombstones == t.tombstones
            &&& after.schedules == t.schedules
            &&& after.stale == t.stale
        }),
{
}

/// The text that an edit leaves the post with: the one that was sent, be it empty or
/// not; else the one on disk now; else the one that was read before.
pub proof fn an_edit_leaves_the_text(text: Seq<char>, held: Seq<char>, before: Seq<char>)
    ensures
        edited_body(Some(text), Some(held), before) == text,
        edited_body(Some(text), None, before) == text,
        edited_body(None, Some(held), before) == held,
        edited_body(None, None, before) == before,
{
}

/// What a client sent is taken without the space round it: the title, and of the tags
/// those that are not blank.
pub proof fn what_was_sent_is_taken(title: String, tags: Vec<String>)
    ensures
        title_sent(Some(title)) == Some(trimmed(title@)),
        title_sent(None) is None,
        column_of(Some(tags)) == Some(tags_column(trimmed_tags(views(tags@)))),
        column_of(None) is None,
{
}

/// The list of posts that a client gets has every one of them, in their order, without
/// the text.
pub proof fn a_client_sees_every_post(t: Tables, posts: Seq<PostRow>, i: int)
    requires
        0 <= i < posts.len(),
    ensures
        all_shown(t, posts).len() == posts.len(),
        all_shown(t, posts)[i] == shown_in(t, posts[i], None),
{
}

}
