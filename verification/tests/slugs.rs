//! Slugs.

use blog_cms::commands::posts::{refuse_rename, rename_post_slug};
use blog_cms::commands::slugs::{slug_for, slugify, unique_series_slug, unique_slug};
use blog_cms::db::series_rows::series_create;
use blog_cms::db::side_tables::{schedule_set, sync_agree, sync_set_local, trash_set};
use blog_cms::db::{post_create, post_get, Store};
use blog_cms::entities::post::Model as PostModel;
use blog_cms::entities::post_schedule;
use blog_cms::entities::series::Model as SeriesModel;
use blog_cms::error::AppError;

fn draft(slug: &str) -> PostModel {
    PostModel {
        id: 0,
        slug: slug.to_string(),
        title: slug.to_string(),
        excerpt: None,
        tags: None,
        published: false,
        published_at: None,
        series_id: None,
        series_order: None,
        created_at: 0,
        updated_at: 0,
    }
}

fn a_post(slug: &str, published: bool) -> PostModel {
    let mut post = draft(slug);
    post.published = published;
    post
}

#[test]
fn a_free_slug_is_left_alone() {
    let db = Store::new();
    assert_eq!(unique_slug(&db, "my-post"), "my-post");
}

#[test]
fn a_taken_slug_moves_to_the_next_free_number() {
    let mut db = Store::new();

    post_create(&mut db, draft("my-post")).unwrap();
    assert_eq!(unique_slug(&db, "my-post"), "my-post-2");

    // Suffixed slugs are themselves posts, so the search steps past them.
    post_create(&mut db, draft("my-post-2")).unwrap();
    assert_eq!(unique_slug(&db, "my-post"), "my-post-3");

    // Nothing here touches an unrelated name.
    assert_eq!(unique_slug(&db, "other-post"), "other-post");
}

#[test]
fn a_taken_series_slug_moves_to_the_next_free_number() {
    let mut db = Store::new();
    let series = |slug: &str| SeriesModel {
        id: 0,
        slug: slug.to_string(),
        title: slug.to_string(),
        description: None,
        created_at: 0,
    };

    assert_eq!(unique_series_slug(&db, "rust"), "rust");

    series_create(&mut db, series("rust")).unwrap();
    assert_eq!(unique_series_slug(&db, "rust"), "rust-2");

    series_create(&mut db, series("rust-2")).unwrap();
    assert_eq!(unique_series_slug(&db, "rust"), "rust-3");

    // Posts and series number their slugs separately.
    post_create(&mut db, draft("rust")).unwrap();
    assert_eq!(unique_series_slug(&db, "tauri"), "tauri");
}

#[test]
fn the_database_refuses_a_duplicate_slug() {
    let mut db = Store::new();
    post_create(&mut db, draft("taken")).unwrap();
    assert!(post_create(&mut db, draft("taken")).is_err());
}

#[test]
fn text_becomes_a_slug() {
    assert_eq!(slugify("Hello, World!"), "hello-world");
    assert_eq!(slugify("  --A  b--C_ "), "a-b-c");
    assert_eq!(slugify("日本語"), "");
    assert_eq!(slugify(&slugify("Rust & Tauri 2.0")), slugify("Rust & Tauri 2.0"));
}

#[test]
fn a_title_without_a_slug_takes_the_time() {
    assert_eq!(slug_for("日本語", "post-", 1_700_000_000), "post-1700000000");
    assert_eq!(slug_for("Rust", "post-", 1_700_000_000), "rust");
}

fn refusal_for(db: &Store, id: i32, to: &str) -> Option<String> {
    let post = post_get(db, id).unwrap();
    match refuse_rename(db, &post, to) {
        Ok(()) => None,
        Err(AppError::SlugFixedByPublication(_)) => Some("published".into()),
        Err(AppError::SlugFixedBySchedule(_)) => Some("scheduled".into()),
        Err(AppError::SlugTaken(_)) => Some("taken".into()),
        Err(e) => Some(format!("unexpected: {}", e.message())),
    }
}

#[test]
fn a_draft_that_has_never_left_this_machine_may_be_renamed() {
    let mut db = Store::new();
    let post = post_create(&mut db, a_post("typoo", false)).unwrap();
    // Edited locally, never pushed.
    sync_set_local(&mut db, post.id, "local".to_string()).unwrap();

    assert_eq!(refusal_for(&db, post.id, "typo"), None);
}

#[test]
fn a_published_post_is_refused() {
    let mut db = Store::new();
    let post = post_create(&mut db, a_post("live", true)).unwrap();

    assert_eq!(refusal_for(&db, post.id, "different").as_deref(), Some("published"));
}

#[test]
fn a_scheduled_post_is_refused_even_though_it_is_not_published() {
    let mut db = Store::new();
    let post = post_create(&mut db, a_post("pending", false)).unwrap();
    schedule_set(
        &mut db,
        post_schedule::Model {
            slug: "pending".to_string(),
            publish_at: 100,
            state: post_schedule::PENDING.to_string(),
            error: None,
            updated_at: 0,
        },
    );

    assert!(!post_get(&db, post.id).unwrap().published);
    assert_eq!(refusal_for(&db, post.id, "different").as_deref(), Some("scheduled"));
}

#[test]
fn a_post_that_was_pushed_and_unpublished_is_refused() {
    let mut db = Store::new();
    let post = post_create(&mut db, a_post("was-live", false)).unwrap();
    sync_agree(&mut db, post.id, "pushed".to_string(), Some(100), 100).unwrap();

    // Same refusal as a live post, and the same reason: its objects are out there.
    assert_eq!(refusal_for(&db, post.id, "different").as_deref(), Some("published"));
}

#[test]
fn a_slug_held_by_a_trashed_post_is_refused() {
    let mut db = Store::new();
    let draft = post_create(&mut db, a_post("draft", false)).unwrap();
    let binned = post_create(&mut db, a_post("wanted", false)).unwrap();
    trash_set(&mut db, binned.id, 100);

    assert_eq!(refusal_for(&db, draft.id, "wanted").as_deref(), Some("taken"));
}

#[test]
fn a_rename_moves_the_slug_and_says_what_it_was() {
    let mut db = Store::new();
    let post = post_create(&mut db, draft("typoo")).unwrap();

    let (renamed, from) = rename_post_slug(&mut db, post.id, " typo ", 9).unwrap();
    assert_eq!(renamed.slug, "typo");
    assert_eq!(renamed.updated_at, 9);
    assert_eq!(from.as_deref(), Some("typoo"));
    assert_eq!(post_get(&db, post.id).unwrap().slug, "typo");

    // The slug that it has is no change.
    let (same, from) = rename_post_slug(&mut db, post.id, "typo", 10).unwrap();
    assert_eq!(same.updated_at, 9);
    assert_eq!(from, None);

    assert_eq!(
        rename_post_slug(&mut db, post.id, "../up", 11).unwrap_err(),
        AppError::InvalidSlug("../up".to_string())
    );
    assert_eq!(
        rename_post_slug(&mut db, 99, "free", 11).unwrap_err(),
        AppError::PostNotFound(99)
    );
    trash_set(&mut db, post.id, 12);
    assert_eq!(
        rename_post_slug(&mut db, post.id, "other", 13).unwrap_err(),
        AppError::PostInTrash("typo".to_string())
    );
}

#[test]
fn a_slug_keeps_letters_and_digits() {
    let text = "--Rust & C++: Part 2 (of 3)! ";
    let slug = slugify(text);
    assert_eq!(slug, "rust-c-part-2-of-3");
    assert_eq!(slug.replace('-', ""), "rustcpart2of3");
}
