//! Tags and sweeps over them.

use blog_cms::commands::tags::{
    add_tag_to_posts, list_tags, remove_tag_from_posts, rename_tag, retag, rewrite_tags, tags_of,
    CachedBody, SkipReason, TagChange, TagCount,
};
use blog_cms::db::history::revisions_for_post;
use blog_cms::db::side_tables::{body_stale_set, sync_get, trash_set};
use blog_cms::db::{post_create, post_get, Store};
use blog_cms::entities::{post, post_revision};
use blog_cms::error::AppError;
use blog_cms::json::{tags_from_json, tags_to_column, tags_to_json};
use blog_cms::sync_state;

fn tags(items: &[&str]) -> Vec<String> {
    items.iter().map(|s| s.to_string()).collect()
}

#[test]
fn a_rename_keeps_the_other_tags_where_they_were() {
    assert_eq!(
        rewrite_tags(tags(&["rust", "Tauri", "sqlite"]), "Tauri", "tauri"),
        tags(&["rust", "tauri", "sqlite"])
    );
}

#[test]
fn renaming_onto_an_existing_tag_folds_the_two_together() {
    assert_eq!(
        rewrite_tags(tags(&["Rust", "sqlite", "rust"]), "Rust", "rust"),
        tags(&["rust", "sqlite"])
    );
}

#[test]
fn a_post_without_the_tag_is_untouched() {
    assert_eq!(
        rewrite_tags(tags(&["rust", "tauri"]), "python", "py"),
        tags(&["rust", "tauri"])
    );
}

#[test]
fn an_existing_duplicate_is_collapsed() {
    assert_eq!(
        rewrite_tags(tags(&["rust", "rust", "tauri"]), "tauri", "tauri-2"),
        tags(&["rust", "tauri-2"])
    );
}

#[test]
fn renaming_the_only_tag_leaves_one_tag() {
    assert_eq!(rewrite_tags(tags(&["old"]), "old", "new"), tags(&["new"]));
}

fn a_post(slug: &str, items: &[&str]) -> post::Model {
    post::Model {
        id: 0,
        slug: slug.to_string(),
        title: slug.to_string(),
        excerpt: None,
        tags: Some(tags_to_column(&tags(items))),
        published: true,
        published_at: None,
        series_id: None,
        series_order: None,
        created_at: 0,
        updated_at: 0,
    }
}

fn bodies(of: &[(&str, &str)]) -> Vec<CachedBody> {
    of.iter().map(|(s, b)| CachedBody { slug: s.to_string(), body: b.to_string() }).collect()
}

fn add(tag: &str) -> TagChange {
    TagChange::Add(tag.to_string())
}

fn locally_edited(db: &Store, id: i32) -> bool {
    sync_get(db, id).is_some_and(|row| sync_state::local_changed(&row))
}

fn snapshotted(db: &Store, id: i32) -> usize {
    revisions_for_post(db, id).len()
}

#[test]
fn a_post_with_a_body_is_tagged_and_marked_edited() {
    let mut db = Store::new();
    let post = post_create(&mut db, a_post("hello", &["rust"])).unwrap();
    let env = bodies(&[("hello", "# Hello\n")]);

    let out = retag(&mut db, &vec![post.id], &add("tauri"), &env, 5);

    assert_eq!(out.changed, 1);
    assert!(out.skipped.is_empty());
    let after = post_get(&db, post.id).unwrap();
    assert_eq!(tags_of(&after), vec!["rust".to_string(), "tauri".to_string()]);
    assert_eq!(after.updated_at, 5);
    assert!(
        locally_edited(&db, post.id),
        "the edit was not marked, so a refresh would undo it"
    );
    let history = revisions_for_post(&db, post.id);
    assert_eq!(history.len(), 1);
    assert_eq!(history[0].origin, post_revision::BULK_TAG);
    assert_eq!(history[0].body.as_deref(), Some("# Hello\n"));
}

#[test]
fn a_stale_body_is_not_fingerprinted() {
    let mut db = Store::new();
    let post = post_create(&mut db, a_post("stale", &["rust"])).unwrap();
    body_stale_set(&mut db, "stale", 100);
    let env = bodies(&[("stale", "text this machine has not caught up with\n")]);

    let out = retag(&mut db, &vec![post.id], &add("tauri"), &env, 5);

    assert_eq!(out.changed, 0);
    assert_eq!(out.skipped.len(), 1);
    assert_eq!(out.skipped[0].reason, SkipReason::BodyStale);
    assert!(
        !locally_edited(&db, post.id),
        "a stale body was fingerprinted, which stops the refresh that would have replaced it"
    );
    assert_eq!(tags_of(&post_get(&db, post.id).unwrap()), vec!["rust".to_string()]);
    assert_eq!(snapshotted(&db, post.id), 0);
}

#[test]
fn a_missing_body_is_reported_as_not_cached() {
    let mut db = Store::new();
    let post = post_create(&mut db, a_post("absent", &["rust"])).unwrap();
    let env = bodies(&[]);

    let out = retag(&mut db, &vec![post.id], &add("tauri"), &env, 5);

    assert_eq!(out.changed, 0);
    assert_eq!(out.skipped.len(), 1);
    assert_eq!(out.skipped[0].reason, SkipReason::BodyNotCached);
}

#[test]
fn a_trashed_post_is_left_alone() {
    let mut db = Store::new();
    let post = post_create(&mut db, a_post("binned", &["rust"])).unwrap();
    trash_set(&mut db, post.id, 100);
    let env = bodies(&[("binned", "# Binned\n")]);

    let out = retag(&mut db, &vec![post.id], &add("tauri"), &env, 5);

    assert_eq!(out.changed, 0);
    assert!(
        out.skipped.is_empty(),
        "a trashed post was never eligible, so it is not a skip to report"
    );
    assert_eq!(tags_of(&post_get(&db, post.id).unwrap()), vec!["rust".to_string()]);
    assert!(!locally_edited(&db, post.id));
    assert_eq!(snapshotted(&db, post.id), 0);
}

#[test]
fn a_post_with_nothing_to_change_is_not_reported() {
    let mut db = Store::new();
    // Carries the tag already, and has no body.
    let post = post_create(&mut db, a_post("already", &["rust", "tauri"])).unwrap();
    let env = bodies(&[]);

    let out = retag(&mut db, &vec![post.id], &add("tauri"), &env, 5);

    assert_eq!(out.changed, 0);
    assert!(
        out.skipped.is_empty(),
        "a post that needed no edit was reported as one the edit could not be recorded for"
    );
}

#[test]
fn renaming_sweeps_the_posts_that_carry_the_tag() {
    let mut db = Store::new();
    let one = post_create(&mut db, a_post("one", &["Rust", "sqlite"])).unwrap();
    let two = post_create(&mut db, a_post("two", &["rust", "Rust"])).unwrap();
    let other = post_create(&mut db, a_post("other", &["sqlite"])).unwrap();
    let env = bodies(&[("one", "1"), ("two", "2"), ("other", "3")]);

    let out = rename_tag(&mut db, " Rust ", "rust", &env, 7).unwrap();
    assert_eq!(out.changed, 2);
    assert_eq!(tags_of(&post_get(&db, one.id).unwrap()), tags(&["rust", "sqlite"]));
    assert_eq!(tags_of(&post_get(&db, two.id).unwrap()), tags(&["rust"]));
    assert_eq!(post_get(&db, other.id).unwrap().updated_at, 0);
    assert_eq!(revisions_for_post(&db, one.id)[0].origin, post_revision::TAG_RENAME);

    assert_eq!(rename_tag(&mut db, "  ", "x", &env, 8).unwrap_err(), AppError::EmptyTag);
    assert_eq!(rename_tag(&mut db, "x", "", &env, 8).unwrap_err(), AppError::EmptyTag);
    assert_eq!(rename_tag(&mut db, "rust", "rust", &env, 8).unwrap().changed, 0);
}

#[test]
fn a_tag_is_added_and_taken_off_again() {
    let mut db = Store::new();
    let post = post_create(&mut db, a_post("one", &["rust"])).unwrap();
    let env = bodies(&[("one", "1")]);

    let ids = vec![post.id, 99];
    assert_eq!(add_tag_to_posts(&mut db, &ids, " sqlite ", &env, 1).unwrap().changed, 1);
    assert_eq!(add_tag_to_posts(&mut db, &ids, "sqlite", &env, 2).unwrap().changed, 0);
    assert_eq!(tags_of(&post_get(&db, post.id).unwrap()), tags(&["rust", "sqlite"]));
    assert_eq!(remove_tag_from_posts(&mut db, &ids, "rust", &env, 3).unwrap().changed, 1);
    assert_eq!(tags_of(&post_get(&db, post.id).unwrap()), tags(&["sqlite"]));
    assert_eq!(
        add_tag_to_posts(&mut db, &ids, " ", &env, 4).unwrap_err(),
        AppError::EmptyTag
    );
    assert_eq!(
        remove_tag_from_posts(&mut db, &ids, "", &env, 4).unwrap_err(),
        AppError::EmptyTag
    );
}

#[test]
fn tags_are_listed_by_use_and_name() {
    let mut db = Store::new();
    post_create(&mut db, a_post("one", &["rust", "rust", "zig"])).unwrap();
    post_create(&mut db, a_post("two", &["Rust", "ada"])).unwrap();
    post_create(&mut db, a_post("three", &["zig"])).unwrap();
    let binned = post_create(&mut db, a_post("four", &["rust"])).unwrap();
    trash_set(&mut db, binned.id, 1);

    let count = |name: &str, posts: usize| TagCount { name: name.to_string(), posts };
    assert_eq!(
        list_tags(&db),
        vec![count("zig", 2), count("Rust", 1), count("ada", 1), count("rust", 1)]
    );
}

#[test]
fn tags_are_stored_as_a_json_array() {
    assert_eq!(tags_to_json(" rust, ,tauri "), r#"["rust","tauri"]"#);
    assert_eq!(tags_to_json(""), "[]");
    assert_eq!(tags_from_json(&Some(r#"["a \"b\"","c"]"#.to_string())), tags(&["a \"b\"", "c"]));
    assert_eq!(
        tags_from_json(&Some(tags_to_column(&tags(&["quo\"te", "back\\slash", "ü"])))),
        tags(&["quo\"te", "back\\slash", "ü"])
    );
}
