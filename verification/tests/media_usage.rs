//! Which posts use which media.

use blog_cms::db::side_tables::trash_set;
use blog_cms::db::{post_create, Store};
use blog_cms::entities::post;
use blog_cms::media_keys::{content_digest, media_key, public_url};
use blog_cms::media_usage::{
    asset_names, assets_to_read, digests_used_by, is_plain_name, library_object,
    published_digests, survey, users_of, ReadPost,
};

fn post(slug: &str) -> post::Model {
    post::Model {
        id: 0,
        slug: slug.to_string(),
        title: slug.to_string(),
        excerpt: None,
        tags: None,
        published: false,
        published_at: None,
        series_id: None,
        series_order: None,
        created_at: 0,
        updated_at: 0,
    }
}

/// A body carries absolute URLs, and the hash in them is the image's identity
/// however the key is laid out around it.
#[test]
fn digests_are_read_out_of_published_urls() {
    let digest = "a".repeat(64);
    let body = format!(
        "Text\n\n![pic](https://cdn.example.com/posts/my-post/{digest}.avif)\n\nMore text.\n"
    );
    assert_eq!(published_digests(&body), vec![digest]);
}

#[test]
fn the_key_layout_around_the_hash_does_not_matter() {
    let digest = "b".repeat(64);
    for url in [
        format!("https://cdn.example.com/img/{digest}.png"),
        format!("https://cdn.example.com/2026/{digest}/full.webp"),
    ] {
        assert_eq!(published_digests(&url), vec![digest.clone()]);
    }
}

/// Near misses must not be mistaken for a digest.
#[test]
fn nothing_else_reads_as_a_digest() {
    assert!(published_digests("a normal post about deadbeef and cafe").is_empty());
    assert!(published_digests(&"c".repeat(63)).is_empty());
    // Two in one body, both found.
    let (x, y) = ("e".repeat(64), "f".repeat(64));
    assert_eq!(published_digests(&format!("{x} and {y}")), vec![x, y]);
}

/// A run longer than a digest contains digests, and which of its windows is the
/// real one cannot be known from here.
#[test]
fn a_hash_is_found_even_when_something_hexadecimal_abuts_it() {
    let digest = "a".repeat(64);
    let found = published_digests(&format!("https://cdn.example.com/posts/beef/{digest}.avif"));
    assert!(found.contains(&digest), "the digest was missed next to a hex slug");

    // Every distinct window of an over-long run is offered.
    assert_eq!(published_digests(&format!("{}b", "d".repeat(64))).len(), 2);
    assert_eq!(published_digests(&"d".repeat(65)).len(), 1);
}

#[test]
fn staged_asset_names_are_extracted() {
    let body = "![one](assets/7d0a.avif) and ![two](assets/9b11.png) and again assets/7d0a.avif";
    assert_eq!(asset_names(body), vec!["7d0a.avif", "9b11.png"]);
}

#[test]
fn traversal_names_are_refused_before_they_reach_the_disk() {
    assert!(is_plain_name("7d0a.avif"));
    assert!(!is_plain_name("../secret.env"));
    assert!(!is_plain_name("nested/name.png"));
    assert!(!is_plain_name("nested\\name.png"));
    assert!(!is_plain_name("C:secret.env"));
    assert!(!is_plain_name(""));
}

#[test]
fn only_plain_references_are_read() {
    let body = "![a](assets/a.png) ![b](assets/../b.png) ![c](assets/c.png)";
    assert_eq!(assets_to_read(body), vec!["a.png", "c.png"]);
}

#[test]
fn a_body_depends_on_what_it_names_and_on_what_is_staged() {
    let digest = "a".repeat(64);
    let body = format!("{digest} ![x](assets/x.png)");
    let used = digests_used_by(&body, &vec![Some(b"abc".to_vec())]);
    assert_eq!(
        used,
        vec![
            digest,
            "ba7816bf8f01cfea414140de5dae2223b00361a396177a9cb410ff61f20015ad".to_string()
        ]
    );
}

#[test]
fn an_object_is_safe_to_delete_only_when_everything_was_looked_at() {
    let mut db = Store::new();
    let using = post_create(&mut db, post("using")).unwrap();
    let other = post_create(&mut db, post("other")).unwrap();
    trash_set(&mut db, using.id, 5);

    let library = vec![library_object("x.png", b"abc"), library_object("y.png", b"def")];
    let (used, unused) = (library[0].key.clone(), library[1].key.clone());
    assert_eq!(used, "media/x.png");
    let digest = library[0].digest.clone();

    let read = vec![
        ReadPost { post: using.clone(), digests: Some(vec![digest.clone()]) },
        ReadPost { post: other.clone(), digests: Some(vec![]) },
    ];
    let check = users_of(&db, &library, &read, &used);
    assert_eq!(check.users.len(), 1);
    assert_eq!(check.users[0].slug, "using");
    assert!(check.users[0].trashed, "a post in the trash still counts, and says so");
    assert!(!check.is_safe());
    assert!(users_of(&db, &library, &read, &unused).is_safe());

    // A post that could not be read leaves the question open.
    let blind = vec![
        ReadPost { post: using, digests: Some(vec![digest]) },
        ReadPost { post: other, digests: None },
    ];
    let check = users_of(&db, &library, &blind, &unused);
    assert!(check.users.is_empty());
    assert_eq!(check.unread_posts.len(), 1);
    assert!(!check.is_safe());
    // So does an object that is not here to be hashed.
    assert!(users_of(&db, &library, &read, "media/gone.png").unknown);

    let report = survey(&db, &library, &read);
    assert_eq!(report.objects.len(), 2);
    assert!(report.unread_posts.is_empty());
}

#[test]
fn a_published_image_is_found_under_any_pattern() {
    for pattern in ["posts/{slug}/{hash}.{ext}", "/{hash}/{slug}", " a{slug}{hash}{ext}f0{hash} "] {
        let url = public_url("https://x.example/", &media_key(pattern, "a-post", b"bytes", "avif"));
        let body = format!("text ![]({url}) text");
        assert!(published_digests(&body).contains(&content_digest(b"bytes")), "{pattern}");
    }
}
