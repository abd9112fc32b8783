//! The library as the screens use it: posts, trash, series, stages, schedules,
//! conflicts, restores, imports and syncing.

use blog_cms::commands::conflict::{resolve_conflict, Resolution, Resolving};
use blog_cms::commands::import::import_article;
use blog_cms::commands::library::{
    create_series, get_post_stage, list_posts_by_stage, list_sync_states, set_post_series,
    set_post_stage, update_series,
};
use blog_cms::commands::posts::{
    create_post, delete_post_permanently, empty_trash, get_post, list_posts, restore_post,
    trash_post, update_post,
};
use blog_cms::commands::restore::restore_revision;
use blog_cms::commands::schedule::{cancel_schedule, list_schedules, schedule_post};
use blog_cms::commands::sync::{
    post_for_cloud, publish_post, sync_posts, sync_posts_from_cloud, unpublish_post,
};
use blog_cms::db::history::revisions_for_post;
use blog_cms::db::listings::{list_trashed_posts, tombstoned_slugs};
use blog_cms::db::mirror::SeriesMap;
use blog_cms::db::series_rows::{delete_series, series_by_slug, series_create, series_get};
use blog_cms::db::setup::{ensure_columns, seed_sample_posts, ColumnDef};
use blog_cms::db::side_tables::{
    body_is_stale, body_stale_set, is_tombstoned, schedule_get, schedule_set, stage_get,
    stage_set, sync_agree, sync_get, sync_observe_remote, sync_set_local, trash_get,
};
use blog_cms::db::{post_by_slug, post_create, post_delete, post_get, Store};
use blog_cms::entities::{post, post_revision, post_schedule, post_stage, series};
use blog_cms::error::AppError;
use blog_cms::revisions::record;
use blog_cms::sync_state::{content_hash, SyncState};
use blog_cms::update::{
    check_for_update, install_update, Checked, DownloadProgress, PendingUpdate, Release,
};

fn a_post(slug: &str) -> post::Model {
    post::Model {
        id: 0,
        slug: slug.to_string(),
        title: slug.to_string(),
        excerpt: None,
        tags: None,
        published: false,
        published_at: None,
        series_id: None,
        series_order: None,
        created_at: 0,
        updated_at: 0,
    }
}

fn a_series(slug: &str, title: &str) -> series::Model {
    series::Model {
        id: 0,
        slug: slug.to_string(),
        title: title.to_string(),
        description: None,
        created_at: 0,
    }
}

fn schedule(slug: &str, publish_at: i64, state: &str) -> post_schedule::Model {
    post_schedule::Model {
        slug: slug.to_string(),
        publish_at,
        state: state.to_string(),
        error: None,
        updated_at: 0,
    }
}

/// The error of a result whose value says nothing of itself.
fn err<T>(r: Result<T, AppError>) -> AppError {
    match r {
        Ok(_) => panic!("expected an error"),
        Err(e) => e,
    }
}

#[test]
fn a_post_starts_as_a_draft() {
    let mut db = Store::new();
    let p = create_post(&mut db, a_post("one"), 7).unwrap();
    assert_eq!((p.created_at, p.updated_at), (7, 7));
    assert_eq!(stage_get(&db, p.id).unwrap().stage, post_stage::DRAFT);
    assert!(create_post(&mut db, a_post("one"), 8).is_err());

    let mut edited = p.clone();
    edited.title = "Edited".into();
    assert_eq!(update_post(&mut db, edited, 9).unwrap().updated_at, 9);
    assert_eq!(get_post(&db, p.id).unwrap().unwrap().title, "Edited");
    assert_eq!(get_post(&db, 99).unwrap(), None);
    assert_eq!(list_posts(&db).len(), 1);
    let mut stranger = a_post("stranger");
    stranger.id = 99;
    assert!(update_post(&mut db, stranger, 9).is_err());
}

#[test]
fn the_trash_keeps_everything_until_it_is_emptied() {
    let mut db = Store::new();
    let p = create_post(&mut db, a_post("one"), 1).unwrap();
    record(&mut db, &p, post_revision::SAVE, Some("text".into()), 2).unwrap();
    assert_eq!(trash_post(&mut db, p.id, 3).unwrap().trashed_at, 3);
    assert_eq!(err(get_post(&db, p.id)), AppError::PostInTrash("one".into()));
    assert_eq!(
        err(update_post(&mut db, p.clone(), 4)),
        AppError::PostInTrash("one".into())
    );
    assert_eq!(revisions_for_post(&db, p.id).len(), 1);
    assert_eq!(restore_post(&mut db, p.id).unwrap(), p);
    assert!(trash_get(&db, p.id).is_none());

    assert_eq!(
        err(delete_post_permanently(&mut db, p.id, 5)),
        AppError::PostNotInTrash("one".into())
    );
    assert_eq!(err(delete_post_permanently(&mut db, 99, 5)), AppError::PostNotFound(99));
    assert_eq!(err(trash_post(&mut db, 99, 5)), AppError::PostNotFound(99));
    assert_eq!(err(restore_post(&mut db, 99)), AppError::PostNotFound(99));

    trash_post(&mut db, p.id, 6).unwrap();
    body_stale_set(&mut db, "one", 1);
    schedule_set(&mut db, schedule("one", 1, post_schedule::PUBLISHED));
    delete_post_permanently(&mut db, p.id, 7).unwrap();
    assert!(post_get(&db, p.id).is_none());
    assert!(stage_get(&db, p.id).is_none());
    assert!(revisions_for_post(&db, p.id).is_empty());
    assert!(!body_is_stale(&db, "one"));
    assert!(schedule_get(&db, "one").is_none());
    assert!(is_tombstoned(&db, "one"));
}

#[test]
fn emptying_the_trash_leaves_what_could_not_be_set_aside() {
    let mut db = Store::new();
    let ids: Vec<i32> = ["a", "b", "c", "d"]
        .iter()
        .map(|s| create_post(&mut db, a_post(s), 1).unwrap().id)
        .collect();
    for id in &ids[..3] {
        trash_post(&mut db, *id, 2).unwrap();
    }
    assert_eq!(empty_trash(&mut db, &vec![ids[1]], 9), 2);
    assert!(post_get(&db, ids[0]).is_none());
    assert!(post_get(&db, ids[1]).is_some(), "its text is still here");
    assert!(post_get(&db, ids[3]).is_some(), "it was never in the trash");
    let mut gone = tombstoned_slugs(&db);
    gone.sort();
    assert_eq!(gone, ["a", "c"]);
    assert_eq!(list_trashed_posts(&db).len(), 1);
}

#[test]
fn a_scheduled_post_is_kept_out_of_the_trash() {
    let mut db = Store::new();
    let p = create_post(&mut db, a_post("one"), 1).unwrap();
    schedule_set(&mut db, schedule("one", 100, post_schedule::PENDING));
    assert_eq!(
        err(trash_post(&mut db, p.id, 2)),
        AppError::ScheduledPostCannotBeTrashed("one".into())
    );
    schedule_set(&mut db, schedule("one", 100, post_schedule::CANCELLED));
    assert!(trash_post(&mut db, p.id, 2).is_ok());
}

#[test]
fn a_series_keeps_the_slug_it_was_given() {
    let mut db = Store::new();
    let s = create_series(&mut db, a_series("  ", "Learning Rust"), 5).unwrap();
    assert_eq!(s.slug, "learning-rust");
    assert_eq!(s.created_at, 5);
    let again = create_series(&mut db, a_series("Learning Rust!", "Other"), 6).unwrap();
    assert_eq!(again.slug, "learning-rust-2");
    assert_eq!(create_series(&mut db, a_series("", "日本"), 7).unwrap().slug, "series-7");

    let mut renamed = s.clone();
    renamed.title = "Rust".into();
    renamed.slug = "moved".into();
    renamed.created_at = 99;
    let kept = update_series(&mut db, renamed).unwrap();
    assert_eq!((kept.slug.as_str(), kept.created_at), ("learning-rust", 5));
    assert_eq!(kept.title, "Rust");
    let mut stranger = a_series("x", "X");
    stranger.id = 77;
    assert_eq!(err(update_series(&mut db, stranger)), AppError::SeriesNotFound(77));
}

#[test]
fn a_post_is_filed_under_a_series_that_exists() {
    let mut db = Store::new();
    let p = create_post(&mut db, a_post("one"), 1).unwrap();
    let s = series_create(&mut db, a_series("rust", "Rust")).unwrap();
    let filed = set_post_series(&mut db, p.id, Some(s.id), Some(4), 9).unwrap();
    assert_eq!((filed.series_id, filed.series_order), (Some(s.id), Some(4)));
    assert!(sync_get(&db, p.id).is_none(), "filing a post is not an edit of it");
    assert_eq!(
        err(set_post_series(&mut db, p.id, Some(88), None, 9)),
        AppError::SeriesNotFound(88)
    );
    assert_eq!(
        err(set_post_series(&mut db, 99, None, None, 9)),
        AppError::PostNotFound(99)
    );
    assert_eq!(delete_series(&mut db, s.id), 1);
    assert!(series_get(&db, s.id).is_none());
    assert_eq!(post_get(&db, p.id).unwrap().series_id, None);
    let out = set_post_series(&mut db, p.id, None, Some(4), 9).unwrap();
    assert_eq!(out.series_order, None, "an order without a series is a number about nothing");
}

#[test]
fn a_stage_is_one_of_three() {
    let mut db = Store::new();
    let p = create_post(&mut db, a_post("one"), 1).unwrap();
    set_post_stage(&mut db, p.id, post_stage::PUBLISHED, 5).unwrap();
    assert_eq!(get_post_stage(&db, p.id).unwrap().staged_at, 5);
    assert_eq!(list_posts_by_stage(&db, post_stage::PUBLISHED).unwrap().len(), 1);
    assert!(list_posts_by_stage(&db, post_stage::DRAFT).unwrap().is_empty());
    assert_eq!(
        err(set_post_stage(&mut db, p.id, "live", 5)),
        AppError::InvalidStage("live".into())
    );
    assert_eq!(err(list_posts_by_stage(&db, "")), AppError::InvalidStage("".into()));
    assert_eq!(
        err(set_post_stage(&mut db, 99, post_stage::DRAFT, 5)),
        AppError::PostVanished(99)
    );
}

#[test]
fn sync_states_cover_the_library() {
    let mut db = Store::new();
    let old = create_post(&mut db, a_post("old"), 1).unwrap();
    let new = create_post(&mut db, a_post("new"), 2).unwrap();
    sync_set_local(&mut db, old.id, "h".into()).unwrap();
    let states = list_sync_states(&db);
    assert_eq!(states[0].post_id, new.id);
    assert_eq!(states[0].state, SyncState::Clean);
    assert_eq!(states[1].state, SyncState::Modified);
}

#[test]
fn a_restore_is_an_edit_that_can_be_undone() {
    let mut db = Store::new();
    let mut first = a_post("one");
    first.title = "First".into();
    let p = create_post(&mut db, first, 1).unwrap();
    let kept = record(&mut db, &p, post_revision::SAVE, Some("first text".into()), 2)
        .unwrap()
        .unwrap();
    let mut second = p.clone();
    second.title = "Second".into();
    second.published = true;
    update_post(&mut db, second, 3).unwrap();
    body_stale_set(&mut db, "one", 3);

    let step = restore_revision(&mut db, kept.id, Some("second text".into()), 4).unwrap();
    assert_eq!(revisions_for_post(&db, p.id)[0].title, "Second");
    assert_eq!(revisions_for_post(&db, p.id)[0].origin, post_revision::RESTORE);
    let restored = step.commit(&mut db).unwrap();
    assert_eq!(restored.restored.title, "First");
    assert!(restored.restored.published, "a restore takes nothing down");
    assert_eq!(restored.body.as_deref(), Some("first text"));
    assert!(restored.was_stale && !body_is_stale(&db, "one"));
    let post = restored.finish(&mut db, Some("ignored".into())).unwrap();
    assert_eq!(
        sync_get(&db, p.id).unwrap().local_hash,
        content_hash(&post, "first text")
    );

    // And back again, with the text not landing this time.
    let before = post_get(&db, p.id).unwrap();
    let newest = revisions_for_post(&db, p.id)[0].id;
    let step = restore_revision(&mut db, newest, Some("first text".into()), 5).unwrap();
    step.commit(&mut db).unwrap().not_moved(&mut db);
    assert_eq!(post_get(&db, p.id).unwrap(), before);

    // A snapshot without a text leaves the text alone.
    let bare = record(&mut db, &before, post_revision::SAVE, None, 6).unwrap().unwrap();
    let step = restore_revision(&mut db, bare.id, None, 7).unwrap();
    let restored = step.commit(&mut db).unwrap();
    assert_eq!(restored.body, None);
    let post = restored.finish(&mut db, Some("on disk".into())).unwrap();
    assert_eq!(sync_get(&db, p.id).unwrap().local_hash, content_hash(&post, "on disk"));

    assert_eq!(err(restore_revision(&mut db, 99, None, 8)), AppError::RevisionNotFound(99));
    let step = restore_revision(&mut db, kept.id, None, 8).unwrap();
    trash_post(&mut db, p.id, 9).unwrap();
    assert_eq!(err(step.commit(&mut db)), AppError::PostInTrash("one".into()));
    assert_eq!(
        err(restore_revision(&mut db, kept.id, None, 8)),
        AppError::PostInTrash("one".into())
    );
}

/// A post that changed here and in the cloud.
fn conflicted(db: &mut Store) -> post::Model {
    let p = create_post(db, a_post("one"), 1).unwrap();
    sync_agree(db, p.id, "v1".into(), Some(100), 100).unwrap();
    sync_set_local(db, p.id, "mine".into()).unwrap();
    sync_observe_remote(db, p.id, 500).unwrap();
    p
}

#[test]
fn keeping_local_leaves_a_pending_edit() {
    let mut db = Store::new();
    let p = conflicted(&mut db);
    match resolve_conflict(&mut db, p.id, Resolution::KeepLocal, 9).unwrap() {
        Resolving::Settled(post) => assert_eq!(post, p),
        Resolving::Fetch(_) => panic!("keeping local needs nothing from the cloud"),
    }
    assert_eq!(list_sync_states(&db)[0].state, SyncState::Modified);
    assert_eq!(
        err(resolve_conflict(&mut db, p.id, Resolution::KeepLocal, 9)),
        AppError::NotConflicted(p.id)
    );
    assert_eq!(
        err(resolve_conflict(&mut db, 99, Resolution::KeepLocal, 9)),
        AppError::PostNotFound(99)
    );
}

#[test]
fn keeping_the_clouds_copy_settles_everything() {
    let mut db = Store::new();
    let p = conflicted(&mut db);
    let s = series_create(&mut db, a_series("rust", "Rust")).unwrap();
    let mut remote = a_post("one");
    remote.id = 4000;
    remote.title = "Theirs".into();
    remote.published = true;
    remote.updated_at = 500;
    remote.series_id = Some(42);
    remote.series_order = Some(2);
    let mut remote_series = a_series("rust", "Rust");
    remote_series.id = 42;

    let fetch = |db: &mut Store| match resolve_conflict(db, p.id, Resolution::KeepRemote, 9) {
        Ok(Resolving::Fetch(k)) => k,
        _ => panic!("the cloud's copy has to be fetched"),
    };

    // The body does not land: nothing has changed.
    let k = fetch(&mut db);
    assert_eq!(k.body_key(), "posts/one.md");
    let found = k.find(&vec![a_post("other"), remote.clone()]).unwrap();
    let taking =
        k.commit(&mut db, found, &vec![remote_series.clone()], None, Some("mine".into())).unwrap();
    assert_eq!(post_get(&db, p.id).unwrap().title, "Theirs");
    taking.not_moved(&mut db);
    assert_eq!(post_get(&db, p.id).unwrap(), p);
    assert_eq!(list_sync_states(&db)[0].state, SyncState::Conflict);
    assert_eq!(revisions_for_post(&db, p.id)[0].origin, post_revision::CONFLICT_KEEP_REMOTE);

    let k = fetch(&mut db);
    assert_eq!(err(k.find(&vec![])), AppError::RemotePostGone("one".into()));
    body_stale_set(&mut db, "one", 1);
    let taking = k
        .commit(&mut db, remote, &vec![remote_series], Some("theirs".into()), None)
        .unwrap();
    let saved = taking.moved(&mut db).unwrap();
    assert_eq!(saved.id, p.id);
    assert_eq!((saved.series_id, saved.series_order), (Some(s.id), Some(2)));
    assert_eq!(list_sync_states(&db)[0].state, SyncState::Clean);
    assert!(!body_is_stale(&db, "one"));
    assert_eq!(stage_get(&db, p.id).unwrap().stage, post_stage::PUBLISHED);
    let row = sync_get(&db, p.id).unwrap();
    assert_eq!(row.local_hash, content_hash(&saved, "theirs"));
    assert_eq!(row.remote_updated_at, Some(500));
}

#[test]
fn a_schedule_is_entered_before_the_cloud_has_it() {
    let mut db = Store::new();
    let p = create_post(&mut db, a_post("one"), 1).unwrap();
    assert_eq!(err(schedule_post(&db, 99, 50, 10)), AppError::PostNotFound(99));
    assert_eq!(err(schedule_post(&db, p.id, 10, 10)), AppError::ScheduleInThePast(10));

    let step = schedule_post(&db, p.id, 50, 10).unwrap();
    let mut live = a_post("one");
    live.published = true;
    assert_eq!(err(step.confirm(&vec![live])), AppError::AlreadyPublished("one".into()));
    step.confirm(&vec![a_post("one")]).unwrap();
    let row = step.enter(&mut db);
    assert_eq!((row.publish_at, row.state.as_str()), (50, post_schedule::PENDING));
    assert!(trash_post(&mut db, p.id, 11).is_err());

    assert_eq!(step.settle(&mut db, "text", &Some("newer".into())).unwrap(), false);
    assert!(sync_get(&db, p.id).is_none(), "the newer text is not in the cloud");
    let step = schedule_post(&db, p.id, 50, 10).unwrap();
    assert_eq!(step.settle(&mut db, "text", &Some("text".into())).unwrap(), true);
    assert_eq!(sync_get(&db, p.id).unwrap().local_hash, content_hash(&p, "text"));

    let shown = list_schedules(&db, 60);
    assert_eq!(shown.len(), 1);
    assert_eq!(shown[0].state, "overdue");

    schedule_post(&db, p.id, 70, 10).unwrap().withdraw(&mut db);
    assert!(schedule_get(&db, "one").is_none());
    assert_eq!(err(cancel_schedule(&db, p.id, 12)), AppError::NotScheduled("one".into()));
}

#[test]
fn a_cancellation_takes_the_clouds_word() {
    let mut db = Store::new();
    let p = create_post(&mut db, a_post("one"), 1).unwrap();
    schedule_set(&mut db, schedule("one", 50, post_schedule::PENDING));
    let claimed = schedule("one", 50, post_schedule::PUBLISHING);
    let step = cancel_schedule(&db, p.id, 12).unwrap();
    assert_eq!(
        err(step.settle(&mut db, false, Some(claimed))),
        AppError::ScheduleNotPending("one".into())
    );
    assert_eq!(schedule_get(&db, "one").unwrap().state, post_schedule::PUBLISHING);

    let row = cancel_schedule(&db, p.id, 13).unwrap().settle(&mut db, true, None).unwrap();
    assert_eq!((row.state.as_str(), row.updated_at), (post_schedule::CANCELLED, 13));
    assert_eq!(row.publish_at, 50);
    assert_eq!(err(cancel_schedule(&db, 99, 1)), AppError::PostNotFound(99));
}

#[test]
fn a_live_or_thrown_away_post_is_not_scheduled() {
    let mut db = Store::new();
    let mut live = a_post("live");
    live.published = true;
    let live = post_create(&mut db, live).unwrap();
    assert_eq!(
        err(schedule_post(&db, live.id, 50, 10)),
        AppError::AlreadyPublished("live".into())
    );
    let p = post_create(&mut db, a_post("one")).unwrap();
    trash_post(&mut db, p.id, 1).unwrap();
    assert_eq!(err(schedule_post(&db, p.id, 50, 10)), AppError::PostInTrash("one".into()));
}

#[test]
fn an_import_lands_as_a_draft() {
    let mut db = Store::new();
    post_create(&mut db, a_post("my-notes")).unwrap();
    let step =
        import_article(&mut db, Some("My Notes"), "---\ntitle: x\n---\nBody\n", 8).unwrap();
    assert_eq!(step.created.slug, "my-notes-2");
    assert_eq!(step.created.tags.as_deref(), Some("[]"));
    assert_eq!(step.body, "Body\n");
    let created = step.created.clone();
    assert_eq!(step.finish(&mut db).unwrap(), "My Notes");
    assert_eq!(stage_get(&db, created.id).unwrap().stage, post_stage::DRAFT);
    assert_eq!(
        sync_get(&db, created.id).unwrap().local_hash,
        content_hash(&created, "Body\n")
    );

    let step = import_article(&mut db, None, "text", 9).unwrap();
    assert_eq!(step.created.title, "untitled");
    step.not_written(&mut db);
    assert!(post_by_slug(&db, "untitled").is_none());
}

#[test]
fn publishing_and_taking_down_set_the_flag() {
    let mut db = Store::new();
    let p = create_post(&mut db, a_post("one"), 1).unwrap();
    sync_agree(&mut db, p.id, "v1".into(), Some(1), 1).unwrap();
    let flip = publish_post(&mut db, p.id, 20).unwrap();
    assert_eq!(flip.post.published_at, Some(20));
    let done = flip.settle(&mut db, Ok(())).unwrap();
    assert!(done.published);
    assert_eq!(stage_get(&db, p.id).unwrap().stage, post_stage::PUBLISHED);
    assert_eq!(sync_get(&db, p.id).unwrap().remote_updated_at, Some(20));

    let flip = unpublish_post(&mut db, p.id, 30).unwrap();
    let e = err(flip.settle(&mut db, Err(AppError::NotConfigured)));
    assert_eq!(e, AppError::CloudSyncFailed(Box::new(AppError::NotConfigured)));
    assert!(!post_get(&db, p.id).unwrap().published, "the flag stays as it was set here");
    assert_eq!(stage_get(&db, p.id).unwrap().stage, post_stage::SYNC_FAILED);

    assert_eq!(err(publish_post(&mut db, 99, 1)), AppError::PostNotFound(99));
    let flip = publish_post(&mut db, p.id, 40).unwrap();
    post_delete(&mut db, p.id);
    assert_eq!(err(flip.settle(&mut db, Ok(()))), AppError::PostVanished(p.id));
    let q = create_post(&mut db, a_post("two"), 1).unwrap();
    trash_post(&mut db, q.id, 1).unwrap();
    assert_eq!(err(unpublish_post(&mut db, q.id, 1)), AppError::PostInTrash("two".into()));
}

#[test]
fn a_push_walks_the_library_past_what_was_thrown_away() {
    let mut db = Store::new();
    let s = series_create(&mut db, a_series("rust", "Rust")).unwrap();
    let mut remote = a_series("rust", "Rust");
    remote.id = 42;
    let ids: Vec<i32> = ["a", "b", "c"]
        .iter()
        .enumerate()
        .map(|(i, slug)| {
            let mut p = a_post(slug);
            p.series_id = Some(s.id);
            create_post(&mut db, p, 10 - i as i64).unwrap().id
        })
        .collect();
    assert_eq!(
        post_for_cloud(&db, &vec![remote.clone()], post_get(&db, ids[0]).unwrap()).series_id,
        Some(42)
    );

    let mut run = sync_posts(&db, 99);
    let map = SeriesMap::build(&db, &vec![remote]);
    let first = run.next(&db, &map).unwrap();
    assert_eq!((first.slug.as_str(), first.series_id), ("a", Some(42)));
    run.record(&mut db, true);
    trash_post(&mut db, ids[1], 100).unwrap();
    assert_eq!(run.next(&db, &map).unwrap().slug, "c");
    run.record(&mut db, false);
    assert!(run.next(&db, &map).is_none());
    assert_eq!(err(run.finish()), AppError::PartialSync { synced: 1, failed: 1 });
    assert_eq!(stage_get(&db, ids[0]).unwrap().stage, post_stage::DRAFT);
    assert_eq!(stage_get(&db, ids[2]).unwrap().stage, post_stage::SYNC_FAILED);

    let mut run = sync_posts(&db, 100);
    while run.next(&db, &map).is_some() {
        run.record(&mut db, true);
    }
    assert_eq!(run.finish().unwrap(), 2);
}

#[test]
fn a_refresh_brings_series_posts_and_schedules() {
    let mut db = Store::new();
    schedule_set(&mut db, schedule("old", 1, post_schedule::PENDING));
    let mut s = a_series("rust", "Rust");
    s.id = 42;
    let mut p = a_post("one");
    p.series_id = Some(42);
    let n = sync_posts_from_cloud(&mut db, vec![p.clone()], &vec![s.clone()], None, 5).unwrap();
    assert_eq!(n, 1);
    let local = series_by_slug(&db, "rust").unwrap();
    assert_eq!(post_by_slug(&db, "one").unwrap().series_id, Some(local.id));
    assert!(schedule_get(&db, "old").is_some(), "no schedules came, so none were replaced");

    let rows = vec![schedule("one", 9, post_schedule::PENDING)];
    sync_posts_from_cloud(&mut db, vec![p], &vec![s], Some(rows), 6).unwrap();
    assert!(schedule_get(&db, "old").is_none());
    assert_eq!(schedule_get(&db, "one").unwrap().publish_at, 9);
    assert_eq!(blog_cms::db::listings::list_series(&db).len(), 1);
}

#[test]
fn an_empty_library_gets_samples_once() {
    let mut db = Store::new();
    seed_sample_posts(&mut db, 1_787_184_000).unwrap();
    let all = list_posts(&db);
    assert_eq!(all.len(), 5);
    assert_eq!(all[0].slug, "getting-started-with-tauri-and-nextjs");
    assert_eq!(all[0].published_at, Some(1_787_184_000));
    assert_eq!(all[4].created_at, 1_787_184_000 - 4 * 86_400);
    assert_eq!(all[2].published_at, None);
    assert_eq!(stage_get(&db, all[2].id).unwrap().stage, post_stage::DRAFT);
    assert_eq!(stage_get(&db, all[4].id).unwrap().stage, post_stage::PUBLISHED);
    seed_sample_posts(&mut db, 0).unwrap();
    assert_eq!(list_posts(&db).len(), 5);
    stage_set(
        &mut db,
        post_stage::Model { post_id: all[0].id, stage: "x".into(), staged_at: 0 },
    )
    .unwrap();
}

#[test]
fn missing_columns_are_added() {
    let columns = vec![
        ColumnDef { name: "a", ty: "INTEGER" },
        ColumnDef { name: "b", ty: "TEXT" },
    ];
    let have = |names: &[&str]| names.iter().map(|n| n.to_string()).collect::<Vec<_>>();
    assert_eq!(
        ensure_columns("post_sync", &columns, &have(&["id", "a"])),
        vec!["ALTER TABLE `post_sync` ADD COLUMN `b` TEXT"]
    );
    assert!(ensure_columns("post_sync", &columns, &have(&["b", "a"])).is_empty());
}

#[test]
fn what_a_check_found_waits_to_be_installed() {
    let mut pending = PendingUpdate { release: None };
    assert_eq!(err(install_update(&pending)), AppError::NoPendingUpdate);
    let release = Release {
        version: "2.0.0".into(),
        notes: Some("notes".into()),
        date: Some("2026-08-20".into()),
    };
    let s = check_for_update(&mut pending, "1.0.0".into(), Checked::Found(release.clone())).unwrap();
    assert!(s.available);
    assert_eq!(s.version.as_deref(), Some("2.0.0"));
    assert_eq!(s.date.as_deref(), Some("2026-08-20"));
    assert_eq!(install_update(&pending).unwrap(), release);

    let unreachable = Checked::Unreachable("offline".into());
    let e = err(check_for_update(&mut pending, "1.0.0".into(), unreachable));
    assert_eq!(e, AppError::UpdateCheck("offline".into()));
    assert!(install_update(&pending).is_ok(), "a failed check leaves what was found");

    for found in [Checked::Current, Checked::NoManifest] {
        let s = check_for_update(&mut pending, "2.0.0".into(), found).unwrap();
        assert!(!s.available);
        assert_eq!((s.version, s.notes, s.date), (None, None, None));
        assert!(install_update(&pending).is_err());
    }

    let mut p = DownloadProgress { downloaded: 0, total: None };
    p.advance(10, Some(25));
    p.advance(15, Some(25));
    assert_eq!(p, DownloadProgress { downloaded: 25, total: Some(25) });
}
