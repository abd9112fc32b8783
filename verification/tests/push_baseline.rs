//! What a push records of the version that it wrote.

use blog_cms::db::side_tables::{
    sync_accept_remote_baseline, sync_agree, sync_get, sync_observe_remote, sync_set_local,
};
use blog_cms::db::{post_create, Store};
use blog_cms::entities::post;
use blog_cms::sync_state;
use blog_cms::sync_state::SyncState;


fn a_post(slug: &str) -> post::Model {
    post::Model {
        id: 0,
        slug: slug.to_string(),
        title: slug.to_string(),
        excerpt: None,
        tags: None,
        published: true,
        published_at: None,
        series_id: None,
        series_order: None,
        created_at: 0,
        updated_at: 500,
    }
}
fn after_a_push(advance: bool) -> SyncState {
    let mut db = Store::new();
    let post = post_create(&mut db, a_post("mine-alone")).unwrap();

    sync_agree(&mut db, post.id, "v1".to_string(), Some(100), 100).unwrap();
    sync_set_local(&mut db, post.id, "v2".to_string()).unwrap();
    if advance {
        sync_accept_remote_baseline(&mut db, post.id, Some(500));
    }

    // The refresh that follows sees the row this machine just wrote.
    sync_observe_remote(&mut db, post.id, 500);

    let sync = sync_get(&db, post.id);
    sync_state::derive(None, sync.as_ref())
}
#[test]
fn a_push_does_not_leave_the_post_in_conflict_with_itself() {
    assert_eq!(after_a_push(true), SyncState::Modified);
}
#[test]
fn without_recording_the_pushed_version_it_conflicts_with_itself() {
    assert_eq!(after_a_push(false), SyncState::Conflict);
}
