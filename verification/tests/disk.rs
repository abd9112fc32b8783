//! The tables as rows, and single rows on their way to the cloud.

use blog_cms::commands::d1::{d1_create_post, d1_create_series, d1_update_post};
use blog_cms::commands::library::get_series;
use blog_cms::d1::Param;
use blog_cms::db::history::revision_add;
use blog_cms::db::listings::{stages_all, sync_all, trashed_ids};
use blog_cms::db::series_rows::series_create;
use blog_cms::db::setup::{ensure_columns, sync_columns};
use blog_cms::db::side_tables::{
    body_stale_set, is_tombstoned, stage_set, sync_set_local, tombstone_clear, tombstone_set,
    trash_set,
};
use blog_cms::db::{post_create, Store};
use blog_cms::entities::{post, post_revision, post_stage, series};

fn a_series(id: i32, slug: &str) -> series::Model {
    series::Model {
        id,
        slug: slug.to_string(),
        title: slug.to_string(),
        description: None,
        created_at: 3,
    }
}

fn a_post(slug: &str, series_id: Option<i32>) -> post::Model {
    post::Model {
        id: 0,
        slug: slug.to_string(),
        title: "T".to_string(),
        excerpt: None,
        tags: Some("[\"a\"]".to_string()),
        published: true,
        published_at: Some(1),
        series_id,
        series_order: series_id,
        created_at: 1,
        updated_at: 2,
    }
}

fn a_library() -> Store {
    let mut db = Store::new();
    let series = series_create(&mut db, a_series(0, "rust")).unwrap();
    let one = post_create(&mut db, a_post("one", Some(series.id))).unwrap();
    let two = post_create(&mut db, a_post("two", None)).unwrap();
    stage_set(
        &mut db,
        post_stage::Model { post_id: one.id, stage: "draft".to_string(), staged_at: 4 },
    )
    .unwrap();
    sync_set_local(&mut db, one.id, "hash".to_string()).unwrap();
    revision_add(
        &mut db,
        post_revision::Model {
            id: 0,
            post_id: one.id,
            title: "before".to_string(),
            excerpt: None,
            tags: None,
            published: false,
            body: Some("text".to_string()),
            origin: post_revision::SAVE.to_string(),
            created_at: 5,
        },
    )
    .unwrap();
    trash_set(&mut db, two.id, 6);
    tombstone_set(&mut db, "gone", 7);
    body_stale_set(&mut db, "one", 8);
    db
}

#[test]
fn rows_that_were_written_read_back() {
    let db = a_library();
    let rows = db.to_rows();
    assert_eq!(rows.posts.len(), 2);
    assert_eq!(rows.stale[0].slug, "one");
    let again = Store::from_rows(&rows).expect("these rows came out of tables").to_rows();
    assert_eq!(again.posts, rows.posts);
    assert_eq!(again.series, rows.series);
    assert_eq!(again.stages, rows.stages);
    assert_eq!(again.syncs, rows.syncs);
    assert_eq!(again.revisions, rows.revisions);
    assert_eq!(again.trash, rows.trash);
    assert_eq!(again.tombstones, rows.tombstones);
    assert_eq!(again.schedules, rows.schedules);
    assert_eq!(again.stale, rows.stale);
}

#[test]
fn rows_with_a_key_or_a_slug_twice_are_no_tables() {
    let mut rows = a_library().to_rows();
    rows.posts[1].slug = "one".to_string();
    assert!(Store::from_rows(&rows).is_none());

    let mut rows = a_library().to_rows();
    rows.posts[1].id = rows.posts[0].id;
    assert!(Store::from_rows(&rows).is_none());

    let mut rows = a_library().to_rows();
    rows.series.push(a_series(99, "rust"));
    assert!(Store::from_rows(&rows).is_none());
}

#[test]
fn whole_tables_can_be_listed() {
    let db = a_library();
    assert_eq!(stages_all(&db).len(), 1);
    assert_eq!(stages_all(&db)[0].stage, "draft");
    assert_eq!(sync_all(&db)[0].local_hash, "hash");
    assert_eq!(trashed_ids(&db), vec![2]);
    assert_eq!(get_series(&db, 1).unwrap().slug, "rust");
    assert_eq!(get_series(&db, 2), None);
}

#[test]
fn a_row_for_the_cloud_is_dated_and_speaks_of_the_clouds_series() {
    let db = a_library();
    let remote = vec![a_series(42, "rust")];

    let s = d1_create_post(&db, &remote, a_post("one", Some(1)), 50);
    assert_eq!(s.params[0], Param::Text("one".to_string()));
    assert_eq!(s.params[6], Param::Int(42), "the local series id went out");
    assert_eq!(s.params[8], Param::Int(50));
    assert_eq!(s.params[9], Param::Int(50));

    let s = d1_update_post(&db, &remote, a_post("one", Some(1)), 50);
    assert_eq!(s.params[5], Param::Int(42));
    assert_eq!(s.params[7], Param::Int(1), "an update keeps when the post was made");
    assert_eq!(s.params[8], Param::Int(50));
    assert_eq!(s.params[9], Param::Text("one".to_string()));

    // A series that the cloud does not know is not sent.
    let s = d1_create_post(&db, &vec![], a_post("one", Some(1)), 50);
    assert_eq!(s.params[6], Param::Null);
    assert_eq!(s.params[7], Param::Null);

    let s = d1_create_series(a_series(9, "go"), 50);
    assert_eq!(s.params[3], Param::Int(50));
}

#[test]
fn a_tombstone_can_be_forgotten() {
    let mut db = a_library();
    assert!(is_tombstoned(&db, "gone"));
    tombstone_clear(&mut db, "gone");
    assert!(!is_tombstoned(&db, "gone"));
    // Forgetting what is not there changes nothing.
    tombstone_clear(&mut db, "gone");
    assert!(!is_tombstoned(&db, "gone"));
}

#[test]
fn an_older_sync_table_is_given_its_columns() {
    let had = vec!["post_id".to_string(), "remote_seen_at".to_string()];
    let added = ensure_columns("post_sync", &sync_columns(), &had);
    assert_eq!(added.len(), 1);
    assert!(added[0].contains("remote_updated_at"), "{}", added[0]);
}
