//! What a refresh may delete.

use blog_cms::db::mirror::mirror_posts;
use blog_cms::db::side_tables::{sync_agree, sync_set_local};
use blog_cms::db::{post_by_slug, post_create, Store};
use blog_cms::entities::post;

fn a_post(slug: &str) -> post::Model {
    post::Model {
        id: 0,
        slug: slug.to_string(),
        title: slug.to_string(),
        excerpt: None,
        tags: None,
        published: true,
        published_at: None,
        series_id: None,
        series_order: None,
        created_at: 0,
        updated_at: 0,
    }
}
#[test]
fn a_refresh_keeps_a_post_whose_local_edits_were_never_pushed() {
    let mut db = Store::new();
    let post = post_create(&mut db, a_post("edited-here")).unwrap();

    // Pushed once — both sides agreed on `published`.
    sync_agree(&mut db, post.id, "published".to_string(), Some(100), 100).unwrap();
    // Then edited locally, which is all autosave writes.
    sync_set_local(&mut db, post.id, "edited".to_string()).unwrap();

    // The cloud no longer has it.
    mirror_posts(&mut db, vec![], &vec![], 0).unwrap();

    assert!(
        post_by_slug(&db, "edited-here").is_some(),
        "the refresh deleted a post carrying edits that exist nowhere else"
    );
}
#[test]
fn a_refresh_keeps_a_post_that_was_never_pushed() {
    let mut db = Store::new();
    let post = post_create(&mut db, a_post("never-pushed")).unwrap();
    sync_set_local(&mut db, post.id, "local".to_string()).unwrap();

    mirror_posts(&mut db, vec![], &vec![], 0).unwrap();

    assert!(post_by_slug(&db, "never-pushed").is_some());
}
#[test]
fn a_refresh_still_deletes_a_post_that_matches_the_cloud() {
    let mut db = Store::new();
    let post = post_create(&mut db, a_post("in-agreement")).unwrap();
    sync_agree(&mut db, post.id, "same".to_string(), Some(100), 100).unwrap();

    let result = mirror_posts(&mut db, vec![], &vec![], 0).unwrap();

    assert!(post_by_slug(&db, "in-agreement").is_none());
    assert_eq!(result.deleted, 1);
}
