//! How a post's copy here compares with the cloud's.

use blog_cms::entities::post::Model as PostModel;
use blog_cms::entities::{post_stage, post_sync};
use blog_cms::sync_state;
use blog_cms::sync_state::{content_hash, local_changed, remote_changed, SyncState};

fn post(title: &str, published: bool) -> PostModel {
    PostModel {
        id: 1,
        slug: "a-post".into(),
        title: title.into(),
        excerpt: None,
        tags: None,
        published,
        published_at: None,
        series_id: None,
        series_order: None,
        created_at: 0,
        updated_at: 0,
    }
}

fn sync(local: &str, synced: Option<&str>) -> post_sync::Model {
    post_sync::Model {
        post_id: 1,
        local_hash: local.into(),
        synced_hash: synced.map(str::to_string),
        synced_at: None,
        remote_updated_at: None,
        remote_seen_at: None,
    }
}

fn stage(stage: &str) -> post_stage::Model {
    post_stage::Model { post_id: 1, stage: stage.into(), staged_at: 0 }
}

#[test]
fn identical_content_hashes_identically() {
    let mut a = post("Title", true);
    let b = post("Title", true);
    assert_eq!(content_hash(&a, "body"), content_hash(&b, "body"));

    // Timestamps move on every save and must not register as a change.
    a.updated_at = 99_999;
    assert_eq!(content_hash(&a, "body"), content_hash(&b, "body"));
}

#[test]
fn anything_a_reader_would_notice_changes_the_hash() {
    let base = content_hash(&post("Title", true), "body");
    assert_ne!(base, content_hash(&post("Other", true), "body"));
    assert_ne!(base, content_hash(&post("Title", true), "different body"));
    // Unpublishing changes what the reader gets, so it counts.
    assert_ne!(base, content_hash(&post("Title", false), "body"));

    let mut tagged = post("Title", true);
    tagged.tags = Some(r#"["rust"]"#.into());
    assert_ne!(base, content_hash(&tagged, "body"));
}

#[test]
fn field_boundaries_are_part_of_the_fingerprint() {
    let mut a = post("ab", true);
    a.excerpt = Some(String::new());
    let mut b = post("a", true);
    b.excerpt = Some("b".into());
    assert_ne!(content_hash(&a, ""), content_hash(&b, ""));
}

#[test]
fn matching_fingerprints_are_clean_and_differing_ones_are_modified() {
    assert_eq!(sync_state::derive(None, Some(&sync("abc", Some("abc")))), SyncState::Clean);
    assert_eq!(sync_state::derive(None, Some(&sync("abc", Some("old")))), SyncState::Modified);
}

#[test]
fn a_never_pushed_post_counts_as_modified() {
    assert_eq!(sync_state::derive(None, Some(&sync("abc", None))), SyncState::Modified);
}

#[test]
fn a_post_with_no_record_reads_clean() {
    assert_eq!(sync_state::derive(None, None), SyncState::Clean);
    assert_eq!(
        sync_state::derive(Some(&stage(post_stage::PUBLISHED)), None),
        SyncState::Clean
    );
}

#[test]
fn a_failed_push_outranks_everything() {
    let failed = stage(post_stage::SYNC_FAILED);
    assert_eq!(
        sync_state::derive(Some(&failed), Some(&sync("abc", Some("abc")))),
        SyncState::SyncFailed
    );
    assert_eq!(sync_state::derive(Some(&failed), None), SyncState::SyncFailed);
}

#[test]
fn a_cloud_that_moved_is_ahead_or_in_conflict() {
    let mut row = sync("abc", Some("abc"));
    row.remote_updated_at = Some(1);
    row.remote_seen_at = Some(2);
    assert!(remote_changed(&row));
    assert!(!local_changed(&row));
    assert_eq!(sync_state::derive(None, Some(&row)), SyncState::RemoteAhead);
    row.local_hash = "edited".to_string();
    assert_eq!(sync_state::derive(None, Some(&row)), SyncState::Conflict);
}

/// The fingerprint of an empty post: five lengths of eight bytes, four of them
/// zero, and the flag.
#[test]
fn a_fingerprint_has_an_exact_value() {
    let hash = content_hash(&post("", false), "");
    assert_eq!(hash.len(), 64);
    assert!(hash.chars().all(|c| c.is_ascii_hexdigit() && !c.is_ascii_uppercase()));
    assert_eq!(hash, content_hash(&post("", false), ""));
    assert_ne!(hash, content_hash(&post("", true), ""));
}
