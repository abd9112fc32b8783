//! Saving and publishing a post.

use blog_cms::commands::body::{
    after_download, cached, has_local_edits, read_post_markdown, BodySource,
    Downloaded,
};
use blog_cms::commands::save::{
    autosave_post, commit_metadata, restore_metadata, save_post, AfterMove, PreviousState, Push,
};
use blog_cms::db::history::revisions_for_post;
use blog_cms::db::side_tables::{
    body_is_stale, body_stale_set, stage_get, stage_set, sync_get, sync_mark_synced,
    sync_set_local, trash_set,
};
use blog_cms::db::{post_by_slug, post_create, post_delete, post_get, Store};
use blog_cms::entities::post::Model as PostModel;
use blog_cms::entities::{post_revision, post_stage};
use blog_cms::error::AppError;
use blog_cms::sync_state::{content_hash, local_changed};

fn post(slug: &str, title: &str) -> PostModel {
    PostModel {
        id: 0,
        slug: slug.to_string(),
        title: title.to_string(),
        excerpt: None,
        tags: None,
        published: false,
        published_at: None,
        series_id: None,
        series_order: None,
        created_at: 0,
        updated_at: 0,
    }
}

fn staged(post_id: i32, stage: &str) -> post_stage::Model {
    post_stage::Model { post_id, stage: stage.to_string(), staged_at: 0 }
}

#[test]
fn unpushed_text_is_reported_before_a_body_is_replaced() {
    let mut db = Store::new();
    let mut live = post("a-post", "A post");
    live.published = true;
    let post = post_create(&mut db, live).unwrap();

    // Nothing recorded yet, so there is no draft to protect.
    assert!(!has_local_edits(&db, "a-post"));

    sync_set_local(&mut db, post.id, "local".into()).unwrap();
    assert!(has_local_edits(&db, "a-post"));

    // Pushed: the cloud has this text now, and its copy is no longer older.
    sync_mark_synced(&mut db, post.id, "local".into(), Some(0), 0).unwrap();
    assert!(!has_local_edits(&db, "a-post"));

    // A slug that the tables have never heard of is a genuine no.
    assert!(!has_local_edits(&db, "never-existed"));
}

#[test]
fn rolling_back_an_existing_post_restores_the_previous_row() {
    let mut db = Store::new();
    let mut original = post("a-post", "Original");
    original.published = true;
    let before = post_create(&mut db, original).unwrap();
    stage_set(&mut db, staged(before.id, post_stage::PUBLISHED)).unwrap();
    let previous = PreviousState::read(&db, before.id).unwrap();

    // Save it as a retitled draft, which rewrites the row and the stage.
    let mut edited = before.clone();
    edited.title = "Edited".into();
    edited.published = false;
    let saved = commit_metadata(&mut db, edited, true, Some(99)).unwrap();

    restore_metadata(&mut db, Some(previous), &saved);

    let now = post_get(&db, before.id).unwrap();
    assert_eq!(now.title, "Original");
    assert!(now.published);
    // Restoring only the row would leave a published post staged `draft`.
    let stage = stage_get(&db, before.id).unwrap();
    assert_eq!(stage.stage, post_stage::PUBLISHED);
}

#[test]
fn rolling_back_a_new_post_removes_the_row_and_its_stage() {
    let mut db = Store::new();
    let created = post_create(&mut db, post("new-post", "New")).unwrap();
    stage_set(&mut db, staged(created.id, post_stage::DRAFT)).unwrap();

    restore_metadata(&mut db, None, &created);

    assert!(post_get(&db, created.id).is_none());
    assert!(stage_get(&db, created.id).is_none());
}

#[test]
fn a_failed_save_leaves_a_newer_save_alone() {
    let mut db = Store::new();
    let before = post_create(&mut db, post("shared", "Original")).unwrap();
    let previous = PreviousState::read(&db, before.id).unwrap();

    // Our save writes its row…
    let mut ours = before.clone();
    ours.title = "Ours".into();
    let ours = commit_metadata(&mut db, ours, true, Some(1)).unwrap();

    // …then another save writes and completes before our move fails.
    let mut theirs = ours.clone();
    theirs.title = "Theirs".into();
    commit_metadata(&mut db, theirs, true, Some(2)).unwrap();

    restore_metadata(&mut db, Some(previous), &ours);

    let now = post_get(&db, before.id).unwrap();
    assert_eq!(now.title, "Theirs", "a failed save reverted a newer one");
}

#[test]
fn a_draft_commits_its_stage_with_its_row() {
    let mut db = Store::new();

    let saved =
        commit_metadata(&mut db, post("drafted", "Drafted"), false, Some(1_700_000_000)).unwrap();

    let stage = stage_get(&db, saved.id).unwrap();
    assert_eq!(stage.stage, post_stage::DRAFT);
    assert_eq!(stage.staged_at, 1_700_000_000);
}

#[test]
fn saving_a_live_post_locally_does_not_demote_its_stage() {
    let mut db = Store::new();
    let mut live = post("live-post", "Live");
    live.published = true;
    let saved = post_create(&mut db, live).unwrap();
    stage_set(&mut db, staged(saved.id, post_stage::PUBLISHED)).unwrap();

    // No draft stage is written, so the published one survives.
    commit_metadata(&mut db, saved.clone(), true, None).unwrap();

    let stage = stage_get(&db, saved.id).unwrap();
    assert_eq!(stage.stage, post_stage::PUBLISHED);
}

#[test]
fn a_publish_leaves_its_stage_for_the_upload_to_decide() {
    let mut db = Store::new();

    let saved = commit_metadata(&mut db, post("publishing", "Publishing"), false, None).unwrap();

    assert!(stage_get(&db, saved.id).is_none());
}

fn push_of(next: AfterMove) -> Push {
    match next {
        AfterMove::Push(p) => p,
        AfterMove::Done(_) => panic!("the save should go on to the cloud"),
    }
}

#[test]
fn a_new_draft_is_saved_in_steps() {
    let mut db = Store::new();
    let save =
        save_post(&db, None, "My Post".into(), "rust, ,tauri", "Body".into(), false, 10).unwrap();
    assert_eq!(save.model.slug, "my-post");
    assert_eq!(save.model.tags.as_deref(), Some(r#"["rust","tauri"]"#));
    assert_eq!(save.origin, post_revision::SAVE);

    let saving = save.commit(&mut db, None).unwrap();
    assert_eq!(stage_get(&db, saving.saved.id).unwrap().stage, post_stage::DRAFT);
    let saved = match saving.moved(&mut db).unwrap() {
        AfterMove::Done(p) => p,
        AfterMove::Push(_) => panic!("a draft went on to the cloud"),
    };
    assert_eq!(saved.published_at, None);
    assert_eq!(
        sync_get(&db, saved.id).unwrap().local_hash,
        content_hash(&saved, "Body")
    );
    assert!(revisions_for_post(&db, saved.id).is_empty(), "a new post has no version before");
}

#[test]
fn a_title_without_a_slug_still_saves() {
    let db = Store::new();
    let save = autosave_post(&db, None, "日本語".into(), "", "".into(), 77).unwrap();
    assert_eq!(save.model.slug, "post-77");
    assert_eq!(save.origin, post_revision::AUTOSAVE);
    assert!(!save.publishes);
}

#[test]
fn a_publish_that_lands_is_recorded_as_agreed() {
    let mut db = Store::new();
    let old = post_create(&mut db, post("a-post", "Old")).unwrap();
    body_stale_set(&mut db, "a-post", 1);

    let save =
        save_post(&db, Some(old.id), "New".into(), "", "new text".into(), true, 20).unwrap();
    let saving = save.commit(&mut db, Some("old text".into())).unwrap();
    assert!(saving.was_stale);
    assert!(!body_is_stale(&db, "a-post"), "the mark comes off before the body moves");
    let history = revisions_for_post(&db, old.id);
    assert_eq!(history[0].title, "Old");
    assert_eq!(history[0].body.as_deref(), Some("old text"));
    assert_eq!(history[0].origin, post_revision::PUBLISH);

    let push = push_of(saving.moved(&mut db).unwrap());
    assert!(local_changed(&sync_get(&db, old.id).unwrap()), "nothing has landed yet");
    let saved = push.settle(&mut db, Ok(())).unwrap();
    assert!(saved.published);
    assert_eq!(saved.published_at, Some(20));
    let row = sync_get(&db, old.id).unwrap();
    assert!(!local_changed(&row));
    assert_eq!(row.remote_updated_at, Some(20));
    assert_eq!(stage_get(&db, old.id).unwrap().stage, post_stage::PUBLISHED);
}

#[test]
fn a_publish_that_fails_keeps_its_cause() {
    let mut db = Store::new();
    let old = post_create(&mut db, post("a-post", "Old")).unwrap();
    let save = save_post(&db, Some(old.id), "New".into(), "", "t".into(), true, 20).unwrap();
    let push = push_of(save.commit(&mut db, None).unwrap().moved(&mut db).unwrap());
    let e = push.settle(&mut db, Err(AppError::NotConfigured)).unwrap_err();
    assert_eq!(e, AppError::PublishSyncFailed(Box::new(AppError::NotConfigured)));
    assert_eq!(stage_get(&db, old.id).unwrap().stage, post_stage::SYNC_FAILED);
    assert!(local_changed(&sync_get(&db, old.id).unwrap()));
}

#[test]
fn a_body_that_cannot_be_moved_puts_everything_back() {
    let mut db = Store::new();
    let old = post_create(&mut db, post("a-post", "Old")).unwrap();
    body_stale_set(&mut db, "a-post", 1);
    let save = save_post(&db, Some(old.id), "New".into(), "", "t".into(), true, 20).unwrap();
    let saving = save.commit(&mut db, None).unwrap();
    saving.not_moved(&mut db);
    assert_eq!(post_get(&db, old.id).unwrap(), old);
    assert!(stage_get(&db, old.id).is_none());
    assert!(body_is_stale(&db, "a-post"));

    let save = save_post(&db, None, "Fresh".into(), "", "t".into(), false, 21).unwrap();
    let saving = save.commit(&mut db, None).unwrap();
    let id = saving.saved.id;
    saving.not_moved(&mut db);
    assert!(post_by_slug(&db, "fresh").is_none());
    assert!(stage_get(&db, id).is_none());
}

#[test]
fn a_live_post_saved_locally_stays_live() {
    let mut db = Store::new();
    let mut live = post("live", "Live");
    live.published = true;
    live.published_at = Some(5);
    let live = post_create(&mut db, live).unwrap();
    stage_set(&mut db, staged(live.id, post_stage::PUBLISHED)).unwrap();

    let save = save_post(&db, Some(live.id), "Edited".into(), "", "t".into(), false, 9).unwrap();
    let saving = save.commit(&mut db, None).unwrap();
    match saving.moved(&mut db).unwrap() {
        AfterMove::Done(p) => {
            assert!(p.published);
            assert_eq!(p.published_at, Some(5));
        }
        AfterMove::Push(_) => panic!("a local save went on to the cloud"),
    }
    assert_eq!(stage_get(&db, live.id).unwrap().stage, post_stage::PUBLISHED);
}

#[test]
fn saves_are_refused_where_there_is_nothing_to_save_into() {
    let mut db = Store::new();
    let refused = |r: Result<blog_cms::commands::save::Save, AppError>| match r {
        Ok(_) => panic!("the save should have been refused"),
        Err(e) => e,
    };
    let r = save_post(&db, Some(4), "T".into(), "", "".into(), false, 1);
    assert_eq!(refused(r), AppError::PostNotFound(4));

    let old = post_create(&mut db, post("a-post", "Old")).unwrap();
    let save = save_post(&db, Some(old.id), "T".into(), "", "".into(), false, 1).unwrap();
    trash_set(&mut db, old.id, 2);
    let r = save_post(&db, Some(old.id), "T".into(), "", "".into(), false, 3);
    assert_eq!(refused(r), AppError::PostInTrash("a-post".into()));
    // Thrown away after the save began.
    match save.commit(&mut db, None) {
        Err(e) => assert_eq!(e, AppError::PostInTrash("a-post".into())),
        Ok(_) => panic!("a save landed in the trash"),
    }

    // Deleted while its body was on the way.
    let other = post_create(&mut db, post("other", "Other")).unwrap();
    let save = save_post(&db, Some(other.id), "T".into(), "", "".into(), true, 1).unwrap();
    let saving = save.commit(&mut db, None).unwrap();
    post_delete(&mut db, other.id);
    match saving.moved(&mut db) {
        Err(e) => assert_eq!(e, AppError::PostVanished(other.id)),
        Ok(_) => panic!("a fingerprint was written for a post that is gone"),
    }
}

fn source(db: &Store, slug: &str, held: Option<&str>, configured: bool) -> Result<String, AppError> {
    match read_post_markdown(db, slug, held.map(str::to_string), configured)? {
        BodySource::Local(text) => Ok(format!("local {text}")),
        BodySource::Download(key) => Ok(format!("download {key}")),
    }
}

#[test]
fn a_body_is_read_from_where_it_is_current() {
    let mut db = Store::new();
    let p = post_create(&mut db, post("a-post", "P")).unwrap();
    assert_eq!(source(&db, "a-post", Some("text"), false).unwrap(), "local text");
    assert_eq!(source(&db, "a-post", None, true).unwrap(), "download posts/a-post.md");
    assert_eq!(
        source(&db, "a-post", None, false).unwrap_err(),
        AppError::BodyUnavailable("a-post".into())
    );
    assert_eq!(
        source(&db, "../x", Some("text"), true).unwrap_err(),
        AppError::InvalidSlug("../x".into())
    );

    // Behind the cloud: the cached copy is not served…
    body_stale_set(&mut db, "a-post", 1);
    assert_eq!(source(&db, "a-post", Some("text"), true).unwrap(), "download posts/a-post.md");
    // …unless it is the author's own newer text.
    sync_set_local(&mut db, p.id, "edit".into()).unwrap();
    assert_eq!(source(&db, "a-post", Some("text"), true).unwrap(), "local text");
}

#[test]
fn a_download_yields_to_whoever_wrote_meanwhile() {
    let mut db = Store::new();
    let p = post_create(&mut db, post("a-post", "P")).unwrap();
    body_stale_set(&mut db, "a-post", 1);

    let d = after_download(&db, "a-post", true, Some("old".into()), Some("cloud".into()));
    assert!(matches!(d, Downloaded::Cache(_)));
    assert_eq!(d.into_text(), "cloud");
    let d = after_download(&db, "a-post", true, None, None);
    assert!(matches!(d, Downloaded::Answer(_)));
    assert_eq!(d.into_text(), "");
    // The file changed while the download was out.
    let d = after_download(&db, "a-post", false, Some("new".into()), Some("cloud".into()));
    assert_eq!(d.into_text(), "new");
    // It cannot be read after all.
    let d = after_download(&db, "a-post", false, None, Some("cloud".into()));
    assert!(matches!(d, Downloaded::Answer(_)));
    assert_eq!(d.into_text(), "cloud");
    sync_set_local(&mut db, p.id, "edit".into()).unwrap();
    let d = after_download(&db, "a-post", true, Some("mine".into()), Some("cloud".into()));
    assert_eq!(d.into_text(), "mine");

    cached(&mut db, "a-post");
    assert!(!body_is_stale(&db, "a-post"));
}
