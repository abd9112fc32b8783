//! The errors that every fallible operation reports.
//!
//! An error reaches the frontend as its text, so [`AppError::message`] is what
//! somebody reads. What went wrong outside this library is carried as the text
//! that the failing part gave for it.

use crate::mcp::publish::PublishState;
use crate::text::{decimal, decimal_of, has_text, int_text, occurs_at, signed_decimal};
use vstd::prelude::*;
use vstd::string::StringExecFns;

verus! {

/// A result over [`AppError`].
pub type AppResult<T> = Result<T, AppError>;

/// Why an operation failed.
#[derive(Debug, PartialEq, Eq)]
pub enum AppError {
    // Dialogs
    /// A file picker was dismissed. The frontend compares this text to tell a
    /// dismissed dialog from a failure.
    Cancelled,
    UnsupportedPathFormat,
    // Session and configuration
    NotConfigured,
    MissingEnv(&'static str),
    InvalidPublicUrl,
    /// A key pattern that was refused; the text is the reason.
    InvalidPattern(&'static str),
    NoPublicUrl,
    // Cloudflare
    /// The request never completed.
    Http(String),
    /// A status other than success from R2 or D1.
    Cloudflare { service: &'static str, op: &'static str, status: String, body: String },
    /// A success status whose body says that the call failed.
    CloudflareApi { service: &'static str, op: &'static str, message: String },
    NotUtf8(String),
    // Storage
    Db(String),
    DbInit { context: &'static str, source: String },
    Io { context: &'static str, source: String },
    Json { context: &'static str, source: String },
    AppDataDir(String),
    Join { context: &'static str, source: String },
    // Posts
    PostNotFound(i32),
    InvalidSlug(String),
    /// The post's Markdown is not on this machine and there are no credentials to
    /// fetch it with: its body is unknown, which is not the same as empty.
    BodyUnavailable(String),
    InvalidStage(String),
    EmptyTag,
    SlugFixedByPublication(String),
    SlugFixedBySchedule(String),
    SlugTaken(String),
    SeriesNotFound(i32),
    /// Saved here, but not pushed; the cause is kept.
    PublishSyncFailed(Box<AppError>),
    CloudSyncFailed(Box<AppError>),
    PartialSync { synced: usize, failed: usize },
    // Media
    UnsupportedMedia,
    UnsupportedImage(String),
    UnsupportedThumbnail,
    NotAMediaKey(String),
    MediaKeyHasNoExtension(String),
    MediaNotFound(String),
    /// A deletion refused because posts point at the object, or because some post
    /// could not be checked.
    MediaInUse { key: String, posts: usize, unchecked_posts: usize },
    Image { context: &'static str, source: String },
    // MCP endpoint
    PortTooLow,
    Bind { port: u16, source: String },
    NoPublishRequest(String),
    /// A claim or a rejection of a request that is no longer waiting.
    PublishRequestNotPending { id: String, state: PublishState },
    PublishRequestVanished(String),
    PostVanished(i32),
    PostInTrash(String),
    PostNotInTrash(String),
    RemotePostGone(String),
    RemotePostMissing(String),
    NotConflicted(i32),
    // Scheduled publishing
    AlreadyPublished(String),
    ScheduleInThePast(i64),
    NotScheduled(String),
    ScheduleNotPending(String),
    ScheduledPostCannotBeTrashed(String),
    // Revisions
    RevisionNotFound(i32),
    // Updater
    UpdaterUnavailable(String),
    UpdateCheck(String),
    UpdateFailed(String),
    UpdateStatePoisoned,
    NoPendingUpdate,
}

impl AppError {
    /// The text shown for the error.
    pub open spec fn text(self) -> Seq<char>
        decreases self,
    {
        match self {
            AppError::Cancelled => "cancelled"@,
            AppError::UnsupportedPathFormat => "Unsupported path format on this platform"@,
            AppError::NotConfigured => "Not signed in to Cloudflare"@,
            AppError::MissingEnv(x) => "Environment variable `"@ + x@ + "` is not set"@,
            AppError::InvalidPublicUrl => "R2 Public URL must start with http:// or https://"@,
            AppError::InvalidPattern(x) => x@,
            AppError::NoPublicUrl => "No R2 public URL is configured, so image links cannot be written. Sign out and sign in again to set it."@,
            AppError::Http(x) => "Cloudflare request failed: "@ + x@,
            AppError::Cloudflare { service, op, status, body } => service@ + " "@ + op@ + " error ("@ + status@ + "): "@ + body@,
            AppError::CloudflareApi { service, op, message } => service@ + " "@ + op@ + " failed: "@ + message@,
            AppError::NotUtf8(x) => "R2 object is not valid UTF-8: "@ + x@,
            AppError::Db(x) => x@,
            AppError::DbInit { context, source } => context@ + ": "@ + source@,
            AppError::Io { context, source } => context@ + ": "@ + source@,
            AppError::Json { context, source } => context@ + ": "@ + source@,
            AppError::AppDataDir(x) => "Cannot resolve app data dir: "@ + x@,
            AppError::Join { context, source } => context@ + ": "@ + source@,
            AppError::PostNotFound(x) => "post "@ + int_text(x as int) + " not found"@,
            AppError::InvalidSlug(x) => "Invalid post slug: "@ + x@,
            AppError::BodyUnavailable(x) => "The text of `"@ + x@ + "` is not on this machine and Cloudflare is not configured, so it cannot be read. Sign in and try again."@,
            AppError::InvalidStage(x) => "Invalid stage `"@ + x@ + "` (expected `draft`, `published`, or `sync_failed`)"@,
            AppError::EmptyTag => "A tag cannot be empty"@,
            AppError::SlugFixedByPublication(x) => "Post `"@ + x@ + "` has been published, so its slug cannot change"@,
            AppError::SlugFixedBySchedule(x) => "Post `"@ + x@ + "` is scheduled to be published, so its slug cannot change"@,
            AppError::SlugTaken(x) => "Slug `"@ + x@ + "` is already in use"@,
            AppError::SeriesNotFound(x) => "series "@ + int_text(x as int) + " not found"@,
            AppError::PublishSyncFailed(x) => "post saved locally but publish sync failed: "@ + x.text(),
            AppError::CloudSyncFailed(x) => "post updated locally but cloud sync failed: "@ + x.text(),
            AppError::PartialSync { synced, failed } => "synced "@ + decimal_of(synced as nat) + ", "@ + decimal_of(failed as nat) + " failed to sync"@,
            AppError::UnsupportedMedia => "Unsupported media type"@,
            AppError::UnsupportedImage(x) => "Unsupported image type: "@ + x@,
            AppError::UnsupportedThumbnail => "Unsupported thumbnail type"@,
            AppError::NotAMediaKey(x) => "Not a media library key: "@ + x@,
            AppError::MediaKeyHasNoExtension(x) => "Media object has no extension: "@ + x@,
            AppError::MediaNotFound(x) => "Media object not found: "@ + x@,
            AppError::MediaInUse { key, posts, unchecked_posts } => key@ + " is used by "@ + decimal_of(posts as nat) + " post(s), and "@ + decimal_of(unchecked_posts as nat) + " post(s) could not be checked; deleting it may break them"@,
            AppError::Image { context, source } => context@ + ": "@ + source@,
            AppError::PortTooLow => "Port must be 1024 or above"@,
            AppError::Bind { port, source } => "Cannot listen on 127.0.0.1:"@ + decimal_of(port as nat) + ": "@ + source@,
            AppError::NoPublishRequest(x) => "No publish request "@ + x@,
            AppError::PublishRequestNotPending { id, state } => "Publish request "@ + id@ + " is already "@ + state.name_of(),
            AppError::PublishRequestVanished(x) => "Publish request "@ + x@ + " vanished"@,
            AppError::PostVanished(x) => "Post "@ + int_text(x as int) + " no longer exists"@,
            AppError::PostInTrash(x) => "Post `"@ + x@ + "` is in the trash, so it cannot be published"@,
            AppError::PostNotInTrash(x) => "Post `"@ + x@ + "` is not in the trash, so it was not deleted"@,
            AppError::RemotePostGone(x) => "Post `"@ + x@ + "` no longer exists in the cloud, so there is no cloud version to keep"@,
            AppError::RemotePostMissing(x) => "Post `"@ + x@ + "` is not in Cloudflare D1, so there was no cloud row to update"@,
            AppError::NotConflicted(x) => "Post "@ + int_text(x as int) + " is not in conflict"@,
            AppError::AlreadyPublished(x) => "Post `"@ + x@ + "` is already published, so there is nothing to schedule"@,
            AppError::ScheduleInThePast(_) => "A publication cannot be scheduled for a time that has already passed"@,
            AppError::NotScheduled(x) => "Post `"@ + x@ + "` has no schedule"@,
            AppError::ScheduleNotPending(x) => "Post `"@ + x@ + "` is no longer waiting to be published — it is being published now, or already has been. Refresh to see where it stands."@,
            AppError::ScheduledPostCannotBeTrashed(x) => "Post `"@ + x@ + "` is scheduled to be published. Cancel the schedule first — it runs in Cloudflare, so deleting the post here would not stop it."@,
            AppError::RevisionNotFound(x) => "revision "@ + int_text(x as int) + " not found"@,
            AppError::UpdaterUnavailable(x) => "Updater unavailable: "@ + x@,
            AppError::UpdateCheck(x) => "Could not reach GitHub Releases: "@ + x@,
            AppError::UpdateFailed(x) => "Update failed: "@ + x@,
            AppError::UpdateStatePoisoned => "Update state is poisoned"@,
            AppError::NoPendingUpdate => "No update is pending — run a check first"@,
        }
    }

    /// The text shown for the error.
    pub fn message(&self) -> (out: String)
        ensures
            out@ == self.text(),
        decreases *self,
    {
        let mut out: String = String::new();
        match self {
            AppError::Cancelled => {
                out.append("cancelled");
            },
            AppError::UnsupportedPathFormat => {
                out.append("Unsupported path format on this platform");
            },
            AppError::NotConfigured => {
                out.append("Not signed in to Cloudflare");
            },
            AppError::MissingEnv(x) => {
                out.append("Environment variable `");
                out.append(x);
                out.append("` is not set");
            },
            AppError::InvalidPublicUrl => {
                out.append("R2 Public URL must start with http:// or https://");
            },
            AppError::InvalidPattern(x) => {
                out.append(x);
            },
            AppError::NoPublicUrl => {
                out.append("No R2 public URL is configured, so image links cannot be written. Sign out and sign in again to set it.");
            },
            AppError::Http(x) => {
                out.append("Cloudflare request failed: ");
                out.append(x.as_str());
            },
            AppError::Cloudflare { service, op, status, body } => {
                out.append(service);
                out.append(" ");
                out.append(op);
                out.append(" error (");
                out.append(status.as_str());
                out.append("): ");
                out.append(body.as_str());
            },
            AppError::CloudflareApi { service, op, message } => {
                out.append(service);
                out.append(" ");
                out.append(op);
                out.append(" failed: ");
                out.append(message.as_str());
            },
            AppError::NotUtf8(x) => {
                out.append("R2 object is not valid UTF-8: ");
                out.append(x.as_str());
            },
            AppError::Db(x) => {
                out.append(x.as_str());
            },
            AppError::DbInit { context, source } => {
                out.append(context);
                out.append(": ");
                out.append(source.as_str());
            },
            AppError::Io { context, source } => {
                out.append(context);
                out.append(": ");
                out.append(source.as_str());
            },
            AppError::Json { context, source } => {
                out.append(context);
                out.append(": ");
                out.append(source.as_str());
            },
            AppError::AppDataDir(x) => {
                out.append("Cannot resolve app data dir: ");
                out.append(x.as_str());
            },
            AppError::Join { context, source } => {
                out.append(context);
                out.append(": ");
                out.append(source.as_str());
            },
            AppError::PostNotFound(x) => {
                out.append("post ");
                out.append(signed_decimal(*x as i64).as_str());
                out.append(" not found");
            },
            AppError::InvalidSlug(x) => {
                out.append("Invalid post slug: ");
                out.append(x.as_str());
            },
            AppError::BodyUnavailable(x) => {
                out.append("The text of `");
                out.append(x.as_str());
                out.append("` is not on this machine and Cloudflare is not configured, so it cannot be read. Sign in and try again.");
            },
            AppError::InvalidStage(x) => {
                out.append("Invalid stage `");
                out.append(x.as_str());
                out.append("` (expected `draft`, `published`, or `sync_failed`)");
            },
            AppError::EmptyTag => {
                out.append("A tag cannot be empty");
            },
            AppError::SlugFixedByPublication(x) => {
                out.append("Post `");
                out.append(x.as_str());
                out.append("` has been published, so its slug cannot change");
            },
            AppError::SlugFixedBySchedule(x) => {
                out.append("Post `");
                out.append(x.as_str());
                out.append("` is scheduled to be published, so its slug cannot change");
            },
            AppError::SlugTaken(x) => {
                out.append("Slug `");
                out.append(x.as_str());
                out.append("` is already in use");
            },
            AppError::SeriesNotFound(x) => {
                out.append("series ");
                out.append(signed_decimal(*x as i64).as_str());
                out.append(" not found");
            },
            AppError::PublishSyncFailed(x) => {
                out.append("post saved locally but publish sync failed: ");
                out.append(x.message().as_str());
            },
            AppError::CloudSyncFailed(x) => {
                out.append("post updated locally but cloud sync failed: ");
                out.append(x.message().as_str());
            },
            AppError::PartialSync { synced, failed } => {
                out.append("synced ");
                out.append(decimal(*synced as u128).as_str());
                out.append(", ");
                out.append(decimal(*failed as u128).as_str());
                out.append(" failed to sync");
            },
            AppError::UnsupportedMedia => {
                out.append("Unsupported media type");
            },
            AppError::UnsupportedImage(x) => {
                out.append("Unsupported image type: ");
                out.append(x.as_str());
            },
            AppError::UnsupportedThumbnail => {
                out.append("Unsupported thumbnail type");
            },
            AppError::NotAMediaKey(x) => {
                out.append("Not a media library key: ");
                out.append(x.as_str());
            },
            AppError::MediaKeyHasNoExtension(x) => {
                out.append("Media object has no extension: ");
                out.append(x.as_str());
            },
            AppError::MediaNotFound(x) => {
                out.append("Media object not found: ");
                out.append(x.as_str());
            },
            AppError::MediaInUse { key, posts, unchecked_posts } => {
                out.append(key.as_str());
                out.append(" is used by ");
                out.append(decimal(*posts as u128).as_str());
                out.append(" post(s), and ");
                out.append(decimal(*unchecked_posts as u128).as_str());
                out.append(" post(s) could not be checked; deleting it may break them");
            },
            AppError::Image { context, source } => {
                out.append(context);
                out.append(": ");
                out.append(source.as_str());
            },
            AppError::PortTooLow => {
                out.append("Port must be 1024 or above");
            },
            AppError::Bind { port, source } => {
                out.append("Cannot listen on 127.0.0.1:");
                out.append(decimal(*port as u128).as_str());
                out.append(": ");
                out.append(source.as_str());
            },
            AppError::NoPublishRequest(x) => {
                out.append("No publish request ");
                out.append(x.as_str());
            },
            AppError::PublishRequestNotPending { id, state } => {
                out.append("Publish request ");
                out.append(id.as_str());
                out.append(" is already ");
                out.append(state.name());
            },
            AppError::PublishRequestVanished(x) => {
                out.append("Publish request ");
                out.append(x.as_str());
                out.append(" vanished");
            },
            AppError::PostVanished(x) => {
                out.append("Post ");
                out.append(signed_decimal(*x as i64).as_str());
                out.append(" no longer exists");
            },
            AppError::PostInTrash(x) => {
                out.append("Post `");
                out.append(x.as_str());
                out.append("` is in the trash, so it cannot be published");
            },
            AppError::PostNotInTrash(x) => {
                out.append("Post `");
                out.append(x.as_str());
                out.append("` is not in the trash, so it was not deleted");
            },
            AppError::RemotePostGone(x) => {
                out.append("Post `");
                out.append(x.as_str());
                out.append("` no longer exists in the cloud, so there is no cloud version to keep");
            },
            AppError::RemotePostMissing(x) => {
                out.append("Post `");
                out.append(x.as_str());
                out.append("` is not in Cloudflare D1, so there was no cloud row to update");
            },
            AppError::NotConflicted(x) => {
                out.append("Post ");
                out.append(signed_decimal(*x as i64).as_str());
                out.append(" is not in conflict");
            },
            AppError::AlreadyPublished(x) => {
                out.append("Post `");
                out.append(x.as_str());
                out.append("` is already published, so there is nothing to schedule");
            },
            AppError::ScheduleInThePast(_) => {
                out.append("A publication cannot be scheduled for a time that has already passed");
            },
            AppError::NotScheduled(x) => {
                out.append("Post `");
                out.append(x.as_str());
                out.append("` has no schedule");
            },
            AppError::ScheduleNotPending(x) => {
                out.append("Post `");
                out.append(x.as_str());
                out.append("` is no longer waiting to be published — it is being published now, or already has been. Refresh to see where it stands.");
            },
            AppError::ScheduledPostCannotBeTrashed(x) => {
                out.append("Post `");
                out.append(x.as_str());
                out.append("` is scheduled to be published. Cancel the schedule first — it runs in Cloudflare, so deleting the post here would not stop it.");
            },
            AppError::RevisionNotFound(x) => {
                out.append("revision ");
                out.append(signed_decimal(*x as i64).as_str());
                out.append(" not found");
            },
            AppError::UpdaterUnavailable(x) => {
                out.append("Updater unavailable: ");
                out.append(x.as_str());
            },
            AppError::UpdateCheck(x) => {
                out.append("Could not reach GitHub Releases: ");
                out.append(x.as_str());
            },
            AppError::UpdateFailed(x) => {
                out.append("Update failed: ");
                out.append(x.as_str());
            },
            AppError::UpdateStatePoisoned => {
                out.append("Update state is poisoned");
            },
            AppError::NoPendingUpdate => {
                out.append("No update is pending — run a check first");
            },
        }
        assert(out@ =~= self.text());
        out
    }

    /// An I/O failure, labelled with the operation that caused it.
    pub fn io(context: &'static str, source: String) -> (r: Self)
        ensures
            r == (AppError::Io { context, source }),
    {
        AppError::Io { context, source }
    }

    /// A JSON failure, labelled with what was being handled.
    pub fn json(context: &'static str, source: String) -> (r: Self)
        ensures
            r == (AppError::Json { context, source }),
    {
        AppError::Json { context, source }
    }

    /// A database failure during startup, labelled with the step.
    pub fn db_init(context: &'static str, source: String) -> (r: Self)
        ensures
            r == (AppError::DbInit { context, source }),
    {
        AppError::DbInit { context, source }
    }

    /// A panic on another thread, labelled with what it was running.
    pub fn join(context: &'static str, source: String) -> (r: Self)
        ensures
            r == (AppError::Join { context, source }),
    {
        AppError::Join { context, source }
    }

    /// An image decoding or encoding failure, labelled with the direction.
    pub fn image(context: &'static str, source: String) -> (r: Self)
        ensures
            r == (AppError::Image { context, source }),
    {
        AppError::Image { context, source }
    }
}

proof fn lemma_stands_within(before: Seq<char>, what: Seq<char>, after: Seq<char>)
    ensures
        has_text(before + what + after, what),
        has_text(before + what, what),
{
    let s = before + what + after;
    let n = before.len() as int;
    assert(s.subrange(n, n + what.len()) =~= what);
    assert(occurs_at(s, what, n));
    let t = before + what;
    assert(t.subrange(n, n + what.len()) =~= what);
    assert(occurs_at(t, what, n));
}

/// A message names what it is about, whatever that is called.
pub proof fn a_message_names_what_it_is_about(what: String, context: &'static str, id: i32)
    ensures
        has_text(AppError::InvalidSlug(what).text(), what@),
        has_text(AppError::BodyUnavailable(what).text(), what@),
        has_text(AppError::InvalidStage(what).text(), what@),
        has_text(AppError::SlugFixedByPublication(what).text(), what@),
        has_text(AppError::SlugFixedBySchedule(what).text(), what@),
        has_text(AppError::SlugTaken(what).text(), what@),
        has_text(AppError::UnsupportedImage(what).text(), what@),
        has_text(AppError::NotAMediaKey(what).text(), what@),
        has_text(AppError::MediaKeyHasNoExtension(what).text(), what@),
        has_text(AppError::MediaNotFound(what).text(), what@),
        has_text(AppError::NoPublishRequest(what).text(), what@),
        has_text(AppError::PublishRequestVanished(what).text(), what@),
        has_text(AppError::PostInTrash(what).text(), what@),
        has_text(AppError::PostNotInTrash(what).text(), what@),
        has_text(AppError::RemotePostGone(what).text(), what@),
        has_text(AppError::RemotePostMissing(what).text(), what@),
        has_text(AppError::AlreadyPublished(what).text(), what@),
        has_text(AppError::NotScheduled(what).text(), what@),
        has_text(AppError::ScheduleNotPending(what).text(), what@),
        has_text(AppError::ScheduledPostCannotBeTrashed(what).text(), what@),
        has_text((AppError::Io { context, source: what }).text(), what@),
        has_text((AppError::Io { context, source: what }).text(), context@),
        has_text(AppError::PostNotFound(id).text(), int_text(id as int)),
        has_text(AppError::PostVanished(id).text(), int_text(id as int)),
        has_text(AppError::SeriesNotFound(id).text(), int_text(id as int)),
        has_text(AppError::NotConflicted(id).text(), int_text(id as int)),
        has_text(AppError::RevisionNotFound(id).text(), int_text(id as int)),
{
    let w = what@;
    let n = int_text(id as int);
    assert forall|a: Seq<char>, b: Seq<char>| #[trigger] has_text(a + w + b, w) by {
        lemma_stands_within(a, w, b);
    }
    assert forall|a: Seq<char>| #[trigger] has_text(a + w, w) by {
        lemma_stands_within(a, w, Seq::empty());
    }
    assert forall|a: Seq<char>, b: Seq<char>| #[trigger] has_text(a + n + b, n) by {
        lemma_stands_within(a, n, b);
    }
    let c = context@;
    assert(c + ": "@ + w =~= Seq::<char>::empty() + c + (": "@ + w));
    lemma_stands_within(Seq::empty(), c, ": "@ + w);
}

/// A failure that wraps another tells the other's cause.
pub proof fn a_wrapped_failure_keeps_its_cause(cause: AppError)
    ensures
        has_text(AppError::PublishSyncFailed(Box::new(cause)).text(), cause.text()),
        has_text(AppError::CloudSyncFailed(Box::new(cause)).text(), cause.text()),
{
    lemma_stands_within(
        "post saved locally but publish sync failed: "@,
        cause.text(),
        Seq::empty(),
    );
    lemma_stands_within(
        "post updated locally but cloud sync failed: "@,
        cause.text(),
        Seq::empty(),
    );
}

}
