//! Readership, attributed to posts.

use blog_cms::analytics::{ErrorKind, Status};
use blog_cms::entities::post::Model as PostModel;
use blog_cms::traffic::{
    attribute, chosen_site, path_slug, read_sites, report, PageloadDimensions, PageloadGroup,
    PageloadSum, Rule, Ruleset, SiteInfo,
};

fn post(id: i32, slug: &str) -> PostModel {
    PostModel {
        id,
        slug: slug.to_string(),
        title: format!("Post {slug}"),
        excerpt: None,
        tags: None,
        published: true,
        published_at: None,
        series_id: None,
        series_order: None,
        created_at: 0,
        updated_at: 0,
    }
}

fn group(date: &str, path: &str, views: u64, visits: u64) -> PageloadGroup {
    PageloadGroup {
        count: Some(views),
        sum: Some(PageloadSum { visits: Some(visits) }),
        dimensions: Some(PageloadDimensions {
            date: Some(date.to_string()),
            request_path: Some(path.to_string()),
        }),
    }
}

#[test]
fn a_slug_is_read_out_of_any_url_shape() {
    for path in ["/posts/my-post", "/blog/my-post", "/my-post", "/a/b/c/my-post"] {
        assert_eq!(path_slug(path), Some("my-post"), "{path}");
    }
    // Trailing slash, extension, query and fragment are all noise here.
    assert_eq!(path_slug("/posts/my-post/"), Some("my-post"));
    assert_eq!(path_slug("/posts/my-post.html"), Some("my-post"));
    assert_eq!(path_slug("/posts/my-post?utm_source=x"), Some("my-post"));
    assert_eq!(path_slug("/posts/my-post#section"), Some("my-post"));
    // The site root belongs to no post.
    assert_eq!(path_slug("/"), None);
    assert_eq!(path_slug(""), None);
}

#[test]
fn views_land_on_the_post_whose_slug_the_path_ends_in() {
    let posts = vec![post(1, "first"), post(2, "second")];
    let dates = vec!["2026-08-19".to_string(), "2026-08-20".to_string()];
    let groups = vec![
        group("2026-08-19", "/posts/first", 10, 8),
        group("2026-08-20", "/posts/first", 5, 4),
        group("2026-08-20", "/posts/second", 3, 3),
    ];

    let (ranked, rest, total) = attribute(&groups, &posts, &dates);

    assert_eq!(total, 18);
    assert!(rest.is_empty());
    assert_eq!(ranked.len(), 2);
    // Ranked by views, so the most-read post is first.
    assert_eq!(ranked[0].slug, "first");
    assert_eq!(ranked[0].views, 15);
    assert_eq!(ranked[0].visits, 12);
    // The per-day series covers the axis, including days with nothing on them
    // for that post.
    assert_eq!(ranked[1].slug, "second");
    assert_eq!(ranked[1].days.iter().map(|d| d.views).collect::<Vec<_>>(), vec![0, 3]);
}

#[test]
fn what_matches_no_post_is_reported_rather_than_dropped() {
    let posts = vec![post(1, "first")];
    let dates = vec!["2026-08-20".to_string()];
    let groups = vec![
        group("2026-08-20", "/posts/first", 4, 4),
        group("2026-08-20", "/", 30, 25),
        group("2026-08-20", "/tags/rust", 7, 6),
        group("2026-08-20", "/posts/deleted-post", 2, 2),
    ];

    let (ranked, rest, total) = attribute(&groups, &posts, &dates);

    assert_eq!(total, 43);
    assert_eq!(ranked.iter().map(|p| p.views).sum::<u64>(), 4);
    // Ranked, so the busiest unattributed path is the one worth looking at.
    assert_eq!(rest.len(), 3);
    assert_eq!(rest[0].path, "/");
    assert_eq!(rest[0].views, 30);
    assert!(rest.iter().any(|u| u.path == "/posts/deleted-post"));
}

#[test]
fn several_paths_for_one_post_add_up() {
    let posts = vec![post(1, "same")];
    let dates = vec!["2026-08-20".to_string()];
    let groups = vec![
        group("2026-08-20", "/posts/same", 4, 4),
        group("2026-08-20", "/posts/same/", 6, 5),
    ];

    let (ranked, rest, _) = attribute(&groups, &posts, &dates);
    assert!(rest.is_empty());
    assert_eq!(ranked.len(), 1);
    assert_eq!(ranked[0].views, 10);
    assert_eq!(ranked[0].days[0].views, 10);
}

#[test]
fn a_site_is_named_by_its_zone_then_its_rules_then_its_tag() {
    let zone = SiteInfo {
        site_tag: "abc".into(),
        ruleset: Some(Ruleset { zone_name: Some("example.com".into()) }),
        rules: vec![],
    };
    assert_eq!(zone.display_name(), "example.com");

    let by_rule = SiteInfo {
        site_tag: "abc".into(),
        ruleset: Some(Ruleset { zone_name: None }),
        rules: vec![
            Rule { host: Some("*".into()) },
            Rule { host: Some("blog.example.com".into()) },
        ],
    };
    assert_eq!(by_rule.display_name(), "blog.example.com");

    let bare = SiteInfo { site_tag: "abc".into(), ruleset: None, rules: vec![] };
    assert_eq!(bare.display_name(), "abc");
}

#[test]
fn every_view_is_in_the_report() {
    let posts = vec![post(1, "first")];
    let groups = vec![group("2026-08-20", "/posts/first", 4, 4), group("2026-08-20", "/", 30, 25)];
    let r = report(&groups, &posts, vec!["2026-08-20".to_string()]);
    assert_eq!(r.total_views, 34);
    assert_eq!(r.attributed_views, 4);
    assert_eq!(r.unattributed[0].views, 30);
    assert_eq!(r.dates, vec!["2026-08-20"]);
}

#[test]
fn readership_needs_a_sign_in_and_a_site() {
    assert_eq!(chosen_site(true, " abc ").unwrap(), "abc");
    assert_eq!(chosen_site(false, "abc").unwrap_err().kind, ErrorKind::NotConfigured);
    assert_eq!(chosen_site(true, "  ").unwrap_err().kind, ErrorKind::NotConfigured);
}

#[test]
fn sites_without_a_tag_are_left_out() {
    let ok = Status { code: 200, text: "200 OK".to_string() };
    let sites = vec![
        SiteInfo { site_tag: "".into(), ruleset: None, rules: vec![] },
        SiteInfo { site_tag: "abc".into(), ruleset: None, rules: vec![] },
    ];
    let none: Vec<String> = vec![];
    let found = read_sites(&ok, true, &none, &sites).unwrap();
    assert_eq!(found.len(), 1);
    assert_eq!(found[0].site_tag, "abc");
    assert_eq!(found[0].name, "abc");

    let refused = Status { code: 403, text: "403 Forbidden".to_string() };
    assert_eq!(read_sites(&refused, true, &none, &sites).unwrap_err().kind, ErrorKind::Permission);
    let e = read_sites(&ok, false, &none, &sites).unwrap_err();
    assert_eq!(e.kind, ErrorKind::Query);
    assert_eq!(e.message, "Cloudflare returned 200 OK");
    let told = vec!["no permission".to_string()];
    assert_eq!(read_sites(&ok, false, &told, &sites).unwrap_err().kind, ErrorKind::Permission);
}

#[test]
fn visits_are_those_of_the_page_loads() {
    let posts = vec![post(1, "one"), post(2, "two")];
    let dates = vec!["2026-08-20".to_string()];
    let groups = vec![
        group("2026-08-20", "/one", 4, 3),
        group("2026-08-21", "/posts/one.html/?x#y", 1, 1),
        group("2026-08-20", "/two", 2, 2),
        group("2026-08-20", "/about", 9, 8),
    ];
    let (ranked, _, _) = attribute(&groups, &posts, &dates);
    assert_eq!((ranked[0].id, ranked[0].visits), (1, 4));
    assert_eq!((ranked[1].id, ranked[1].visits), (2, 2));
}
