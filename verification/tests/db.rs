//! The local tables, and refreshing them from the cloud.

use blog_cms::db::history::{
    revision_add, revision_head, revisions_clear, revisions_for_post, REVISIONS_PER_POST,
};
use blog_cms::db::listings::{
    list_active_posts, list_trashed_posts, mirror_schedules, posts_in_stage, schedules_all,
    stale_bodies, tombstoned_slugs,
};
use blog_cms::db::mirror::{mirror_posts, SeriesMap};
use blog_cms::db::series_rows::series_create;
use blog_cms::db::side_tables::{
    body_stale_clear, schedule_get, schedule_set, stage_set, sync_accept_remote_baseline, sync_get,
    sync_mark_synced, sync_set_local, tombstone_set, trash_clear, trash_set,
};
use blog_cms::db::{post_by_slug, post_create, post_delete, post_get, Store};
use blog_cms::entities::{post, post_revision, post_schedule, post_stage, series};
use blog_cms::sync_state;

fn series_row(id: i32, slug: &str) -> series::Model {
    series::Model {
        id,
        slug: slug.to_string(),
        title: slug.to_string(),
        description: None,
        created_at: 0,
    }
}

fn post_row(slug: &str, series_id: Option<i32>, series_order: Option<i32>) -> post::Model {
    post::Model {
        id: 0,
        slug: slug.to_string(),
        title: slug.to_string(),
        excerpt: None,
        tags: None,
        published: true,
        published_at: None,
        series_id,
        series_order,
        created_at: 0,
        updated_at: 0,
    }
}
fn local_post_in_series(
    db: &mut Store,
    series_slug: &str,
    post_slug: &str,
) -> (i32, i32) {
    let series = series_create(db, series_row(0, series_slug)).unwrap();
    let post = post_create(db, post_row(post_slug, Some(series.id), Some(3)))
        .unwrap();
    (series.id, post.id)
}
#[test]
fn a_remote_series_resolves_by_slug_not_by_id() {
    let mut db = Store::new();
    let (local_series, _) = local_post_in_series(&mut db, "rust", "a-post");

    let remote_series = vec![series_row(42, "rust")];
    mirror_posts(&mut db, vec![post_row("a-post", Some(42), Some(7))], &remote_series, 0)
        .unwrap();

    let post = post_by_slug(&db, "a-post").unwrap();
    assert_eq!(post.series_id, Some(local_series));
    assert_ne!(post.series_id, Some(42), "the remote id was stored verbatim");
    assert_eq!(post.series_order, Some(7));
}
#[test]
fn a_refresh_keeps_a_local_series_the_cloud_knows_nothing_about() {
    let mut db = Store::new();
    let (local_series, _) = local_post_in_series(&mut db, "local-only", "a-post");

    // The cloud has the post, but no series at all.
    mirror_posts(&mut db, vec![post_row("a-post", None, None)], &vec![], 0).unwrap();

    let post = post_by_slug(&db, "a-post").unwrap();
    assert_eq!(post.series_id, Some(local_series), "the refresh dropped the series");
    assert_eq!(post.series_order, Some(3));
}
#[test]
fn an_unknown_remote_series_leaves_the_local_grouping_alone() {
    let mut db = Store::new();
    let (local_series, _) = local_post_in_series(&mut db, "rust", "a-post");

    // Remote post points at a series that is in no series table we have.
    mirror_posts(&mut db, vec![post_row("a-post", Some(99), Some(1))], &vec![], 0).unwrap();

    let post = post_by_slug(&db, "a-post").unwrap();
    assert_eq!(post.series_id, Some(local_series));
    assert_eq!(post.series_order, Some(3));
}
#[test]
fn a_post_with_no_series_on_either_side_stays_unfiled() {
    let mut db = Store::new();
    post_create(&mut db, post_row("plain", None, None)).unwrap();

    mirror_posts(&mut db, vec![post_row("plain", None, None)], &vec![], 0).unwrap();

    let post = post_by_slug(&db, "plain").unwrap();
    assert_eq!(post.series_id, None);
    assert_eq!(post.series_order, None);
}
#[test]
fn a_new_remote_post_lands_in_the_matching_local_series() {
    let mut db = Store::new();
    let series = series_create(&mut db, series_row(0, "rust")).unwrap();

    mirror_posts(&mut db, vec![post_row("fresh", Some(5), Some(2))], &vec![series_row(5, "rust")], 0)
        .unwrap();

    let post = post_by_slug(&db, "fresh").unwrap();
    assert_eq!(post.series_id, Some(series.id));
    assert_eq!(post.series_order, Some(2));
}
#[test]
fn a_local_edit_leaves_the_synced_fingerprint_behind() {
    let mut db = Store::new();
    let post = post_create(&mut db, post_row("a-post", None, None)).unwrap();

    sync_set_local(&mut db, post.id, "v1".into()).unwrap();
    let row = sync_get(&db, post.id).unwrap();
    assert_eq!(row.local_hash, "v1");
    assert_eq!(row.synced_hash, None, "nothing has been pushed yet");

    // A successful push brings the two into line…
    sync_mark_synced(&mut db, post.id, "v1".into(), None, 1_700_000_000).unwrap();
    let row = sync_get(&db, post.id).unwrap();
    assert_eq!(row.synced_hash.as_deref(), Some("v1"));
    assert_eq!(row.synced_at, Some(1_700_000_000));

    // …and the next local edit parts them again, without disturbing the
    // record of what the cloud actually holds.
    sync_set_local(&mut db, post.id, "v2".into()).unwrap();
    let row = sync_get(&db, post.id).unwrap();
    assert_eq!(row.local_hash, "v2");
    assert_eq!(row.synced_hash.as_deref(), Some("v1"), "the cloud still holds v1");
}
#[test]
fn a_refresh_keeps_the_fingerprint_of_a_post_with_unpushed_edits() {
    let mut db = Store::new();
    let post = post_create(&mut db, post_row("a-post", None, None)).unwrap();
    sync_set_local(&mut db, post.id, "local-only-edit".into()).unwrap();

    mirror_posts(&mut db, vec![post_row("a-post", None, None)], &vec![], 0).unwrap();

    let row = sync_get(&db, post.id);
    assert!(row.is_some(), "the refresh discarded a pending local edit");
    assert_eq!(
        sync_state::derive(None, row.as_ref()),
        sync_state::SyncState::Modified,
        "the post stopped reporting its unpublished edits"
    );
}
#[test]
fn an_unpushed_draft_survives_a_refresh_that_does_not_mention_it() {
    let mut db = Store::new();
    let draft = post_create(&mut db, post_row("local-draft", None, None)).unwrap();
    sync_set_local(&mut db, draft.id, "never-pushed".into()).unwrap();

    // A refresh that knows nothing about it.
    let deleted = mirror_posts(&mut db, vec![post_row("other", None, None)], &vec![], 0).unwrap().deleted;

    assert_eq!(deleted, 0);
    assert!(
        post_by_slug(&db, "local-draft").is_some(),
        "the refresh deleted an unpublished draft"
    );
}
#[test]
fn a_post_deleted_in_the_cloud_is_removed_locally() {
    let mut db = Store::new();
    let post = post_create(&mut db, post_row("was-live", None, None)).unwrap();
    sync_mark_synced(&mut db, post.id, "v1".into(), None, 1_700_000_000).unwrap();

    let deleted = mirror_posts(&mut db, vec![], &vec![], 0).unwrap().deleted;

    assert_eq!(deleted, 1);
    assert!(post_by_slug(&db, "was-live").is_none());
    assert!(sync_get(&db, post.id).is_none());
}
#[test]
fn keeping_local_settles_a_conflict_without_publishing_it() {
    let mut db = Store::new();
    let post = post_create(&mut db, post_row("a-post", None, None)).unwrap();
    sync_set_local(&mut db, post.id, "my-edit".into()).unwrap();

    let mut remote = post_row("a-post", None, None);
    remote.updated_at = 500;
    mirror_posts(&mut db, vec![remote.clone()], &vec![], 0).unwrap();
    remote.updated_at = 900;
    mirror_posts(&mut db, vec![remote], &vec![], 0).unwrap();

    let row = sync_get(&db, post.id).unwrap();
    assert_eq!(
        sync_state::derive(None, Some(&row)),
        sync_state::SyncState::Conflict
    );

    sync_accept_remote_baseline(&mut db, post.id, row.remote_seen_at);

    let row = sync_get(&db, post.id).unwrap();
    assert_eq!(
        sync_state::derive(None, Some(&row)),
        sync_state::SyncState::Modified,
        "the conflict did not settle"
    );
    assert_eq!(row.local_hash, "my-edit", "the local edit was disturbed");
    assert_eq!(row.synced_hash, None, "the edit was marked as published");
}
#[test]
fn the_first_look_at_the_cloud_is_a_baseline_not_a_change() {
    let mut db = Store::new();
    let post = post_create(&mut db, post_row("a-post", None, None)).unwrap();
    sync_set_local(&mut db, post.id, "local-edit".into()).unwrap();

    let mut remote = post_row("a-post", None, None);
    remote.updated_at = 500;
    mirror_posts(&mut db, vec![remote], &vec![], 0).unwrap();

    let row = sync_get(&db, post.id).unwrap();
    assert_eq!(row.remote_updated_at, Some(500), "the first look set no baseline");
    assert_eq!(
        sync_state::derive(None, Some(&row)),
        sync_state::SyncState::Modified,
        "a first refresh invented a conflict"
    );
}
#[test]
fn the_cloud_moving_under_a_local_edit_is_a_conflict() {
    let mut db = Store::new();
    let post = post_create(&mut db, post_row("a-post", None, None)).unwrap();
    sync_set_local(&mut db, post.id, "local-edit".into()).unwrap();

    // First refresh establishes where the cloud stood…
    let mut remote = post_row("a-post", None, None);
    remote.updated_at = 500;
    mirror_posts(&mut db, vec![remote.clone()], &vec![], 0).unwrap();

    // …and a later one finds it somewhere else.
    remote.updated_at = 900;
    mirror_posts(&mut db, vec![remote], &vec![], 0).unwrap();

    let row = sync_get(&db, post.id).unwrap();
    assert_eq!(
        sync_state::derive(None, Some(&row)),
        sync_state::SyncState::Conflict
    );
    // And still nothing was applied over the local copy.
    assert_eq!(row.local_hash, "local-edit");
}
#[test]
fn a_refresh_does_not_half_apply_itself_to_a_locally_edited_post() {
    let mut db = Store::new();
    let mut local = post_row("a-post", None, None);
    local.title = "Local title".into();
    let post = post_create(&mut db, local).unwrap();
    sync_set_local(&mut db, post.id, "local-only-edit".into()).unwrap();

    let mut remote = post_row("a-post", None, None);
    remote.title = "Cloud title".into();
    mirror_posts(&mut db, vec![remote], &vec![], 0).unwrap();

    let after = post_by_slug(&db, "a-post").unwrap();
    assert_eq!(after.title, "Local title", "the refresh overwrote a local edit");
}
#[test]
fn a_refresh_records_the_version_of_the_cloud_it_accepted() {
    let mut db = Store::new();
    let post = post_create(&mut db, post_row("a-post", None, None)).unwrap();
    sync_mark_synced(&mut db, post.id, "v1".into(), None, 1_700_000_000).unwrap();

    let mut remote = post_row("a-post", None, None);
    remote.updated_at = 4_242;
    mirror_posts(&mut db, vec![remote], &vec![], 0).unwrap();

    let row = sync_get(&db, post.id).unwrap();
    assert_eq!(row.remote_updated_at, Some(4_242));
    assert_eq!(row.remote_seen_at, Some(4_242));
    assert_eq!(
        sync_state::derive(None, Some(&row)),
        sync_state::SyncState::Clean,
        "a post taken wholesale from the cloud is not pending anything"
    );
}
#[test]
fn another_machines_change_after_a_local_edit_is_a_conflict() {
    let mut db = Store::new();
    let post = post_create(&mut db, post_row("a-post", None, None)).unwrap();

    // A clean pull, which records where the cloud stood.
    let mut remote = post_row("a-post", None, None);
    remote.updated_at = 100;
    mirror_posts(&mut db, vec![remote.clone()], &vec![], 0).unwrap();

    // Edited here…
    sync_set_local(&mut db, post.id, "my-edit".into()).unwrap();
    // …while another machine publishes, and we refresh.
    remote.updated_at = 700;
    mirror_posts(&mut db, vec![remote], &vec![], 0).unwrap();

    let row = sync_get(&db, post.id).unwrap();
    assert_eq!(
        sync_state::derive(None, Some(&row)),
        sync_state::SyncState::Conflict,
        "the other machine's change was about to be overwritten silently"
    );
}

fn schedule_row(slug: &str, publish_at: i64, state: &str) -> post_schedule::Model {
    post_schedule::Model {
        slug: slug.to_string(),
        publish_at,
        state: state.to_string(),
        error: None,
        updated_at: 0,
    }
}
#[test]
fn a_refresh_replaces_the_local_schedules_wholesale() {
    let mut db = Store::new();
    schedule_set(&mut db, schedule_row("stale", 100, post_schedule::PENDING));
    schedule_set(&mut db, schedule_row("kept", 200, post_schedule::PENDING));

    // The cloud has moved one on and knows nothing about the other.
    let count = mirror_schedules(
        &mut db,
        vec![schedule_row("kept", 200, post_schedule::PUBLISHED)],
    )
    .unwrap();

    assert_eq!(count, 1);
    assert!(schedule_get(&db, "stale").is_none());
    assert_eq!(
        schedule_get(&db, "kept").unwrap().state,
        post_schedule::PUBLISHED
    );
}
#[test]
fn setting_a_schedule_twice_replaces_it() {
    let mut db = Store::new();
    schedule_set(&mut db, schedule_row("a-post", 100, post_schedule::PENDING));
    schedule_set(&mut db, schedule_row("a-post", 900, post_schedule::PENDING));

    let all = schedules_all(&db);
    assert_eq!(all.len(), 1);
    assert_eq!(all[0].publish_at, 900);
}
#[test]
fn a_trashed_post_leaves_the_library_and_comes_back_whole() {
    let mut db = Store::new();
    let kept = post_create(&mut db, post_row("kept", None, None)).unwrap();
    let mut binned = post_row("binned", None, None);
    binned.title = "Thrown away".into();
    let binned = post_create(&mut db, binned).unwrap();
    revision_add(&mut db, revision_row(binned.id, "an old draft", 1)).unwrap();

    trash_set(&mut db, binned.id, 1_700_000_000);

    let active: Vec<i32> = list_active_posts(&db).iter().map(|p| p.id).collect();
    assert_eq!(active, vec![kept.id]);
    let trashed = list_trashed_posts(&db);
    assert_eq!(trashed.len(), 1);
    assert_eq!(trashed[0].post.title, "Thrown away");
    assert_eq!(trashed[0].trashed_at, 1_700_000_000);
    // The history is not part of what a soft delete takes away.
    assert_eq!(revisions_for_post(&db, binned.id).len(), 1);

    trash_clear(&mut db, binned.id);

    assert_eq!(list_active_posts(&db).len(), 2);
    assert!(list_trashed_posts(&db).is_empty());
    assert_eq!(
        post_get(&db, binned.id).unwrap().title,
        "Thrown away",
        "the post came back changed"
    );
}
#[test]
fn a_refresh_leaves_a_trashed_post_alone() {
    let mut db = Store::new();
    let mut local = post_row("a-post", None, None);
    local.title = "Local title".into();
    let post = post_create(&mut db, local).unwrap();
    trash_set(&mut db, post.id, 1);

    let mut remote = post_row("a-post", None, None);
    remote.title = "Cloud title".into();
    mirror_posts(&mut db, vec![remote], &vec![], 0).unwrap();

    assert_eq!(
        post_get(&db, post.id).unwrap().title,
        "Local title",
        "a refresh overwrote a post in the trash"
    );
}
#[test]
fn a_refresh_does_not_empty_the_trash() {
    let mut db = Store::new();
    let post = post_create(&mut db, post_row("was-live", None, None)).unwrap();
    sync_mark_synced(&mut db, post.id, "v1".into(), None, 1_700_000_000).unwrap();
    trash_set(&mut db, post.id, 1);

    let deleted = mirror_posts(&mut db, vec![], &vec![], 0).unwrap().deleted;

    assert_eq!(deleted, 0);
    assert!(
        post_get(&db, post.id).is_some(),
        "a refresh permanently deleted a post from the trash"
    );
}
#[test]
fn side_tables_refuse_a_post_that_no_longer_exists() {
    let mut db = Store::new();
    let post = post_create(&mut db, post_row("a-post", None, None)).unwrap();
    let id = post.id;
    post_delete(&mut db, id);

    assert!(
        stage_set(
            &mut db,
            post_stage::Model { post_id: id, stage: post_stage::DRAFT.into(), staged_at: 0 }
        )
        .is_err(),
        "a stage row outlived its post"
    );
    assert!(
        sync_set_local(&mut db, id, "v1".into()).is_err(),
        "a sync row outlived its post"
    );
    assert!(
        sync_mark_synced(&mut db, id, "v1".into(), None, 0).is_err(),
        "a sync row outlived its post"
    );
    assert!(
        revision_add(&mut db, revision_row(id, "somebody else's draft", 1)).is_err(),
        "a revision outlived its post"
    );
}
#[test]
fn a_refresh_names_the_bodies_it_has_left_behind() {
    let mut db = Store::new();
    let mut local = post_row("a-post", None, None);
    local.updated_at = 100;
    let post = post_create(&mut db, local).unwrap();
    sync_mark_synced(&mut db, post.id, "v1".into(), Some(100), 100).unwrap();

    // Somebody else published a new version.
    let mut remote = post_row("a-post", None, None);
    remote.updated_at = 700;
    mirror_posts(&mut db, vec![remote.clone()], &vec![], 0).unwrap();
    let marked: Vec<String> =
        stale_bodies(&db).into_iter().map(|r| r.slug).collect();
    assert_eq!(marked, ["a-post"]);

    // Refreshing again against the same version changes nothing, and the
    // mark is idempotent rather than piling up.
    body_stale_clear(&mut db, "a-post");
    mirror_posts(&mut db, vec![remote], &vec![], 0).unwrap();
    assert!(stale_bodies(&db).is_empty());
}
#[test]
fn nothing_is_cleared_for_a_new_post_or_a_locally_edited_one() {
    let mut db = Store::new();
    mirror_posts(&mut db, vec![post_row("fresh", None, None)], &vec![], 0).unwrap();
    assert!(stale_bodies(&db).is_empty(), "a first arrival has no cached body");

    let edited = post_create(&mut db, post_row("mine", None, None)).unwrap();
    sync_set_local(&mut db, edited.id, "my-edit".into()).unwrap();
    let mut remote = post_row("mine", None, None);
    remote.updated_at = 900;
    mirror_posts(&mut db, vec![remote], &vec![], 0).unwrap();
    assert!(
        stale_bodies(&db).is_empty(),
        "an author's own body was called stale"
    );
}
#[test]
fn a_permanently_deleted_post_is_not_pulled_back() {
    let mut db = Store::new();
    let post = post_create(&mut db, post_row("was-live", None, None)).unwrap();

    // What `purge` leaves behind.
    post_delete(&mut db, post.id);
    tombstone_set(&mut db, "was-live", 1_700_000_000);

    // The cloud still has it, as it always would.
    mirror_posts(&mut db, vec![post_row("was-live", None, None)], &vec![], 0).unwrap();

    assert!(
        post_by_slug(&db, "was-live").is_none(),
        "a refresh undid a permanent deletion"
    );
}
#[test]
fn a_tombstone_is_dropped_once_the_cloud_forgets_the_post_too() {
    let mut db = Store::new();
    tombstone_set(&mut db, "was-live", 1_700_000_000);

    mirror_posts(&mut db, vec![], &vec![], 0).unwrap();

    assert!(tombstoned_slugs(&db).is_empty());

    // So the same slug can come back from the cloud afterwards.
    mirror_posts(&mut db, vec![post_row("was-live", None, None)], &vec![], 0).unwrap();
    assert!(post_by_slug(&db, "was-live").is_some());
}
#[test]
fn re_trashing_keeps_the_time_it_first_went() {
    let mut db = Store::new();
    let post = post_create(&mut db, post_row("a-post", None, None)).unwrap();

    trash_set(&mut db, post.id, 100);
    let again = trash_set(&mut db, post.id, 900);

    assert_eq!(again.trashed_at, 100);
}
#[test]
fn stage_listings_skip_the_trash() {
    let mut db = Store::new();
    let kept = post_create(&mut db, post_row("kept", None, None)).unwrap();
    let binned = post_create(&mut db, post_row("binned", None, None)).unwrap();
    for id in [kept.id, binned.id] {
        stage_set(
            &mut db,
            post_stage::Model { post_id: id, stage: post_stage::DRAFT.into(), staged_at: 0 },
        )
        .unwrap();
    }

    trash_set(&mut db, binned.id, 1);

    let drafts = posts_in_stage(&db, post_stage::DRAFT);
    assert_eq!(drafts.iter().map(|p| p.id).collect::<Vec<_>>(), vec![kept.id]);
}

fn revision_row(post_id: i32, body: &str, at: i64) -> post_revision::Model {
    post_revision::Model {
        id: 0,
        post_id,
        title: "A post".into(),
        excerpt: None,
        tags: None,
        published: false,
        body: Some(body.to_string()),
        origin: post_revision::SAVE.into(),
        created_at: at,
    }
}
#[test]
fn revisions_come_back_newest_first() {
    let mut db = Store::new();
    let post = post_create(&mut db, post_row("a-post", None, None)).unwrap();

    for (body, at) in [("oldest", 100), ("middle", 200), ("newest", 200)] {
        revision_add(&mut db, revision_row(post.id, body, at)).unwrap();
    }

    let bodies: Vec<String> = revisions_for_post(&db, post.id)
        .into_iter()
        .filter_map(|r| r.body)
        .collect();
    assert_eq!(bodies, ["newest", "middle", "oldest"]);
    assert_eq!(
        revision_head(&db, post.id).and_then(|r| r.body).as_deref(),
        Some("newest")
    );
}
#[test]
fn the_oldest_revisions_are_pruned_once_the_cap_is_reached() {
    let mut db = Store::new();
    let post = post_create(&mut db, post_row("a-post", None, None)).unwrap();

    let total = REVISIONS_PER_POST as i64 + 5;
    for n in 0..total {
        revision_add(&mut db, revision_row(post.id, &format!("body {n}"), n)).unwrap();
    }

    let kept = revisions_for_post(&db, post.id);
    assert_eq!(kept.len(), REVISIONS_PER_POST);
    assert_eq!(kept.first().unwrap().body.as_deref(), Some(format!("body {}", total - 1).as_str()));
    assert_eq!(
        kept.last().unwrap().body.as_deref(),
        Some(format!("body {}", total - REVISIONS_PER_POST as i64).as_str()),
        "pruning took from the wrong end"
    );
}
#[test]
fn clearing_a_history_leaves_every_other_post_alone() {
    let mut db = Store::new();
    let mine = post_create(&mut db, post_row("mine", None, None)).unwrap();
    let yours = post_create(&mut db, post_row("yours", None, None)).unwrap();

    revision_add(&mut db, revision_row(mine.id, "mine", 1)).unwrap();
    revision_add(&mut db, revision_row(yours.id, "yours", 1)).unwrap();

    revisions_clear(&mut db, mine.id);

    assert!(revisions_for_post(&db, mine.id).is_empty());
    assert_eq!(revisions_for_post(&db, yours.id).len(), 1);
}
#[test]
fn a_post_removed_by_a_refresh_takes_its_history_with_it() {
    let mut db = Store::new();
    let post = post_create(&mut db, post_row("was-live", None, None)).unwrap();
    sync_mark_synced(&mut db, post.id, "v1".into(), None, 1_700_000_000).unwrap();
    revision_add(&mut db, revision_row(post.id, "an old draft", 1)).unwrap();

    mirror_posts(&mut db, vec![], &vec![], 0).unwrap();

    assert!(revisions_for_post(&db, post.id).is_empty());
}
#[test]
fn a_post_pushed_upward_carries_the_remote_series_id() {
    let mut db = Store::new();
    let local = series_create(&mut db, series_row(0, "rust")).unwrap();
    let map = SeriesMap::build(&db, &vec![series_row(42, "rust")]);

    let mut post = post_row("a-post", Some(local.id), Some(3));
    map.apply_outbound(&mut post);

    assert_eq!(post.series_id, Some(42));
    assert_eq!(post.series_order, Some(3));
}
#[test]
fn a_local_only_series_pushes_unfiled() {
    let mut db = Store::new();
    let local = series_create(&mut db, series_row(0, "local-only")).unwrap();
    let map = SeriesMap::build(&db, &vec![]);

    let mut post = post_row("a-post", Some(local.id), Some(3));
    map.apply_outbound(&mut post);

    assert_eq!(post.series_id, None);
    assert_eq!(post.series_order, None, "an order without a series is meaningless");
}
#[test]
fn the_map_translates_in_both_directions() {
    let mut db = Store::new();
    let local = series_create(&mut db, series_row(0, "rust")).unwrap();

    let map = SeriesMap::build(&db, &vec![series_row(42, "rust"), series_row(7, "elsewhere")]);

    assert_eq!(map.to_local(42), Some(local.id));
    assert_eq!(map.to_remote(local.id), Some(42));
    // A remote series with no local counterpart maps nowhere.
    assert_eq!(map.to_local(7), None);
    assert_eq!(map.to_remote(999), None);
}
