//! The history of posts.

use blog_cms::commands::library::{get_revision, list_revisions};
use blog_cms::db::history::revisions_for_post;
use blog_cms::db::{post_create, Store};
use blog_cms::entities::post::Model as PostModel;
use blog_cms::entities::post_revision;
use blog_cms::entities::post_revision::Model as RevisionModel;
use blog_cms::error::AppError;
use blog_cms::revisions::{apply, record, AUTOSAVE_COALESCE_SECS};

fn post(title: &str) -> PostModel {
    PostModel {
        id: 1,
        slug: "a-post".into(),
        title: title.into(),
        excerpt: None,
        tags: None,
        published: false,
        published_at: None,
        series_id: None,
        series_order: None,
        created_at: 0,
        updated_at: 0,
    }
}

#[test]
fn a_snapshot_holds_the_post_as_it_stood() {
    let mut db = Store::new();
    let saved = post_create(&mut db, post("Original")).unwrap();

    let revision = record(&mut db, &saved, post_revision::SAVE, Some("first draft".into()), 1)
        .unwrap()
        .expect("the first snapshot of a post is never a duplicate");

    assert_eq!(revision.post_id, saved.id);
    assert_eq!(revision.title, "Original");
    assert_eq!(revision.body.as_deref(), Some("first draft"));
    assert_eq!(revision.origin, post_revision::SAVE);
}

#[test]
fn an_unchanged_post_is_not_snapshotted_twice() {
    let mut db = Store::new();
    let saved = post_create(&mut db, post("Original")).unwrap();

    assert!(record(&mut db, &saved, post_revision::SAVE, Some("body".into()), 1)
        .unwrap()
        .is_some());
    assert!(
        record(&mut db, &saved, post_revision::PUBLISH, Some("body".into()), 2)
            .unwrap()
            .is_none(),
        "the same content was stored twice"
    );
    assert_eq!(revisions_for_post(&db, saved.id).len(), 1);

    // A real change is recorded, on either side of the row.
    let mut edited = saved.clone();
    edited.title = "Retitled".into();
    assert!(record(&mut db, &edited, post_revision::SAVE, Some("body".into()), 3)
        .unwrap()
        .is_some());
    assert!(record(&mut db, &edited, post_revision::SAVE, Some("new body".into()), 4)
        .unwrap()
        .is_some());
    assert_eq!(revisions_for_post(&db, saved.id).len(), 3);
}

#[test]
fn an_absent_body_is_not_an_empty_one() {
    let mut db = Store::new();
    let saved = post_create(&mut db, post("Original")).unwrap();

    let none = record(&mut db, &saved, post_revision::SAVE, None, 1).unwrap().unwrap();
    assert_eq!(none.body, None);

    let empty = record(&mut db, &saved, post_revision::SAVE, Some(String::new()), 2)
        .unwrap()
        .expect("an empty body is a change from no body at all");
    assert_eq!(empty.body.as_deref(), Some(""));
}

#[test]
fn restoring_content_leaves_publication_and_identity_alone() {
    let mut live = post("Current title");
    live.published = true;
    live.published_at = Some(1_700_000_000);
    live.series_id = Some(4);

    let revision = RevisionModel {
        id: 9,
        post_id: 1,
        title: "Old title".into(),
        excerpt: Some("Old excerpt".into()),
        tags: Some(r#"["rust"]"#.into()),
        // Taken while the post was still a draft.
        published: false,
        body: Some("old body".into()),
        origin: post_revision::SAVE.into(),
        created_at: 0,
    };

    let restored = apply(live.clone(), &revision);

    assert_eq!(restored.title, "Old title");
    assert_eq!(restored.excerpt.as_deref(), Some("Old excerpt"));
    assert_eq!(restored.tags.as_deref(), Some(r#"["rust"]"#));
    assert!(restored.published, "a content rollback unpublished the post");
    assert_eq!(restored.published_at, live.published_at);
    assert_eq!(restored.slug, live.slug, "the slug moved, breaking published links");
    assert_eq!(restored.series_id, live.series_id);
}

#[test]
fn a_summary_counts_characters_and_leaves_the_text_out() {
    let mut db = Store::new();
    let saved = post_create(&mut db, post("Original")).unwrap();
    record(&mut db, &saved, post_revision::SAVE, Some("naïve".into()), 1).unwrap();
    record(&mut db, &saved, post_revision::PUBLISH, None, 2).unwrap();

    let all = list_revisions(&db, saved.id);
    assert_eq!(all.len(), 2);
    assert_eq!(all[0].origin, post_revision::PUBLISH);
    assert_eq!(all[0].body_chars, None);
    assert_eq!(all[1].body_chars, Some(5));

    assert_eq!(get_revision(&db, all[1].id).unwrap().body.as_deref(), Some("naïve"));
    assert_eq!(get_revision(&db, 99).unwrap_err(), AppError::RevisionNotFound(99));
}

#[test]
fn a_typing_session_leaves_one_version() {
    let mut db = Store::new();
    let saved = post_create(&mut db, post("Original")).unwrap();
    let start = 1_000;
    assert!(record(&mut db, &saved, post_revision::AUTOSAVE, Some("before".into()), start)
        .unwrap()
        .is_some());
    // Flushes that follow closely add nothing, whatever was typed.
    for at in [start + 2, start + AUTOSAVE_COALESCE_SECS] {
        assert!(record(&mut db, &saved, post_revision::AUTOSAVE, Some(format!("{at}")), at)
            .unwrap()
            .is_none());
    }
    assert_eq!(revisions_for_post(&db, saved.id)[0].body.as_deref(), Some("before"));
    // A later one does, and so does any other edit.
    let later = start + AUTOSAVE_COALESCE_SECS + 1;
    assert!(record(&mut db, &saved, post_revision::AUTOSAVE, Some("later".into()), later)
        .unwrap()
        .is_some());
    assert!(record(&mut db, &saved, post_revision::SAVE, Some("saved".into()), later)
        .unwrap()
        .is_some());
    // After that edit a session starts anew.
    assert!(record(&mut db, &saved, post_revision::AUTOSAVE, Some("anew".into()), later + 1)
        .unwrap()
        .is_some());
    assert_eq!(revisions_for_post(&db, saved.id).len(), 4);
}
