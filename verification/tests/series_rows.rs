//! Series, here and in the cloud.

use blog_cms::db::listings::{list_all_posts, list_series};
use blog_cms::db::series_rows::{
    series_by_slug, series_create, unfile_series, upsert_series_from_remote,
};
use blog_cms::db::{post_create, post_get, Store};
use blog_cms::entities::{post, series};

fn a_series(slug: &str) -> series::Model {
    series::Model {
        id: 0,
        slug: slug.to_string(),
        title: slug.to_string(),
        description: None,
        created_at: 100,
    }
}

fn a_post(slug: &str, series_id: Option<i32>, order: Option<i32>) -> post::Model {
    post::Model {
        id: 0,
        slug: slug.to_string(),
        title: slug.to_string(),
        excerpt: None,
        tags: None,
        published: false,
        published_at: None,
        series_id,
        series_order: order,
        created_at: 0,
        updated_at: 0,
    }
}
#[test]
fn unfiling_empties_one_series_and_leaves_the_others() {
    let mut db = Store::new();
    let kept = series_create(&mut db, a_series("kept")).unwrap();
    let going = series_create(&mut db, a_series("going")).unwrap();

    post_create(&mut db, a_post("in-going", Some(going.id), Some(1)))
        .unwrap();
    post_create(&mut db, a_post("also-going", Some(going.id), Some(2)))
        .unwrap();
    post_create(&mut db, a_post("in-kept", Some(kept.id), Some(1)))
        .unwrap();
    post_create(&mut db, a_post("unfiled", None, None)).unwrap();

    assert_eq!(unfile_series(&mut db, going.id), 2);

    let posts = list_all_posts(&db);
    for post in &posts {
        match post.slug.as_str() {
            "in-going" | "also-going" => {
                assert_eq!(post.series_id, None, "{} should have been unfiled", post.slug);
                // The order goes with the membership: a position in a series
                // the post is no longer in is a number about nothing.
                assert_eq!(post.series_order, None);
            }
            "in-kept" => assert_eq!(post.series_id, Some(kept.id)),
            _ => assert_eq!(post.series_id, None),
        }
    }
}
#[test]
fn a_series_from_the_cloud_keeps_the_local_id_its_posts_use() {
    let mut db = Store::new();
    let local = series_create(&mut db, a_series("shared")).unwrap();
    let post = post_create(&mut db, a_post("filed", Some(local.id), Some(1)))
        .unwrap();

    // The cloud numbers its own rows, so the same series arrives wearing a
    // different id and a title edited elsewhere.
    let remote = series::Model {
        id: local.id + 999,
        slug: "shared".to_string(),
        title: "Renamed in the cloud".to_string(),
        description: Some("from up there".to_string()),
        created_at: 900,
    };
    upsert_series_from_remote(&mut db, remote).unwrap();

    let rows = list_series(&db);
    assert_eq!(rows.len(), 1, "matched by slug, not inserted a second time");
    assert_eq!(rows[0].id, local.id);
    assert_eq!(rows[0].title, "Renamed in the cloud");
    assert_eq!(rows[0].description.as_deref(), Some("from up there"));
    // Local `created_at` is left where it was.
    assert_eq!(rows[0].created_at, 100);

    // The post is still filed where it was.
    let refreshed = post_get(&db, post.id).unwrap();
    assert_eq!(refreshed.series_id, Some(local.id));
}

#[test]
fn a_series_the_cloud_has_and_this_machine_does_not_is_added() {
    let mut db = Store::new();
    upsert_series_from_remote(&mut db, a_series("new-here")).unwrap();
    assert!(series_by_slug(&db, "new-here").is_some());
}
