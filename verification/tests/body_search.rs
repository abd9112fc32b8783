//! Searching the text of posts.

use blog_cms::body_search::{contains, search, BodyMatches, SearchedPost, Unsearched};
use blog_cms::db::side_tables::body_stale_set;
use blog_cms::db::Store;
use blog_cms::entities::post;
use blog_cms::media_usage::Unchecked;

fn post(id: i32, slug: &str) -> post::Model {
    post::Model {
        id,
        slug: slug.to_string(),
        title: slug.to_string(),
        excerpt: None,
        tags: None,
        published: false,
        published_at: None,
        series_id: None,
        series_order: None,
        created_at: 0,
        updated_at: 0,
    }
}

#[test]
fn matching_ignores_case_on_both_sides() {
    assert!(contains("The Cloudflare Worker", "cloudflare"));
    assert!(contains("the cloudflare worker", "CLOUDFLARE".to_lowercase().as_str()));
    assert!(!contains("nothing here", "cloudflare"));
}

#[test]
fn a_match_can_be_a_substring_of_a_word() {
    assert!(contains("serialisation", "serial"));
}

/// An empty list of matches beside posts that were not searched is no answer of
/// nothing found.
#[test]
fn nothing_found_and_nothing_searched_are_different_answers() {
    let nothing = BodyMatches::default();
    let blind = BodyMatches {
        matched: vec![],
        unsearched: vec![Unsearched {
            id: 1,
            title: "Pulled, never opened".to_string(),
            reason: Unchecked::BodyNotCached,
        }],
    };
    assert_ne!(nothing, blind);
    assert!(nothing.unsearched.is_empty());
    assert!(!blind.unsearched.is_empty());
}

#[test]
fn a_search_reports_what_it_could_not_read() {
    let mut db = Store::new();
    body_stale_set(&mut db, "behind", 1);
    let posts = vec![
        SearchedPost { post: post(1, "here"), body: Some("About Zürich and RUST".to_string()) },
        SearchedPost { post: post(2, "absent"), body: None },
        SearchedPost { post: post(3, "behind"), body: Some("older text".to_string()) },
        SearchedPost { post: post(4, "other"), body: Some("nothing".to_string()) },
    ];
    let found = search(&db, &posts, "  Rust ");
    assert_eq!(found.matched, vec![1]);
    assert_eq!(found.unsearched.len(), 2);
    assert_eq!(found.unsearched[0].id, 2);
    assert_eq!(found.unsearched[0].reason, Unchecked::BodyNotCached);
    assert_eq!(found.unsearched[1].id, 3);
    assert_eq!(found.unsearched[1].reason, Unchecked::BodyStale);

    // A match in a text that is behind is still a match.
    assert_eq!(search(&db, &posts, "older").matched, vec![3]);

    // Letters beyond ASCII are matched without their case too.
    assert_eq!(search(&db, &posts, "ZÜRICH").matched, vec![1]);
}

#[test]
fn a_blank_query_finds_nothing_and_reports_nothing() {
    let db = Store::new();
    let posts = vec![SearchedPost { post: post(2, "absent"), body: None }];
    assert_eq!(search(&db, &posts, "   "), BodyMatches::default());
}
