//! Where objects stand in the bucket.

use blog_cms::error::AppError;
use blog_cms::media_keys::{
    body_key, content_digest, is_safe_slug, media_key, public_url, render, thumbnail_key,
    validate_pattern, PatternKind, DEFAULT_MEDIA_PATTERN, DEFAULT_THUMBNAIL_PATTERN,
};

#[test]
fn defaults_match_the_documented_layout() {
    assert_eq!(body_key("my-post"), "posts/my-post.md");
    assert_eq!(
        thumbnail_key(DEFAULT_THUMBNAIL_PATTERN, "my-post", "avif"),
        "posts/my-post/thumbnail.avif"
    );
    assert_eq!(
        media_key(DEFAULT_MEDIA_PATTERN, "my-post", b"abc", "avif"),
        "posts/my-post/ba7816bf8f01cfea414140de5dae2223b00361a396177a9cb410ff61f20015ad.avif"
    );
}

/// The default thumbnail pattern is what the blog derives from a slug.
#[test]
fn default_thumbnail_key_matches_the_blog() {
    assert_eq!(
        thumbnail_key(DEFAULT_THUMBNAIL_PATTERN, "my-post", "avif"),
        "posts/my-post/thumbnail.avif"
    );
}

#[test]
fn custom_patterns_expand() {
    assert_eq!(
        thumbnail_key("media/{slug}/cover.{ext}", "my-post", "avif"),
        "media/my-post/cover.avif"
    );
    // A leading slash would produce an empty first key segment.
    assert_eq!(render("/a/{slug}.x", "p", "", ""), "a/p.x");
}

#[test]
fn identical_bytes_give_identical_keys() {
    let k = |b: &[u8]| media_key(DEFAULT_MEDIA_PATTERN, "p", b, "avif");
    assert_eq!(k(b"same"), k(b"same"));
    assert_ne!(k(b"one"), k(b"two"));
}

#[test]
fn public_url_joins_without_doubling_slashes() {
    let want = "https://cdn.example.com/posts/my-post/abc.avif";
    assert_eq!(public_url("https://cdn.example.com", "posts/my-post/abc.avif"), want);
    assert_eq!(public_url("https://cdn.example.com/", "posts/my-post/abc.avif"), want);
}

#[test]
fn validation_rejects_patterns_that_would_lose_data() {
    assert!(validate_pattern(DEFAULT_MEDIA_PATTERN, PatternKind::Media).is_ok());
    assert!(validate_pattern(DEFAULT_THUMBNAIL_PATTERN, PatternKind::Thumbnail).is_ok());

    // Two images in one post would collide on the same key.
    assert!(validate_pattern("posts/{slug}/img.{ext}", PatternKind::Media).is_err());
    // The blog could never derive a hashed thumbnail name.
    assert!(validate_pattern("posts/{slug}/{hash}.{ext}", PatternKind::Thumbnail).is_err());
    // Every post would share one key.
    assert!(validate_pattern("posts/thumb.{ext}", PatternKind::Thumbnail).is_err());
    assert!(validate_pattern("", PatternKind::Media).is_err());
    assert!(validate_pattern("../{slug}/{hash}.{ext}", PatternKind::Media).is_err());
}

#[test]
fn a_refused_pattern_says_why() {
    match validate_pattern("", PatternKind::Media) {
        Err(AppError::InvalidPattern(why)) => assert!(!why.is_empty()),
        other => panic!("expected a reason, got {other:?}"),
    }
}

#[test]
fn only_strict_slugs_are_safe() {
    assert!(is_safe_slug("a-post-2"));
    for bad in ["", "../x", "a/b", "a\\b", "a b", "é"] {
        assert!(!is_safe_slug(bad), "{bad:?} should not be safe");
    }
}

#[test]
fn a_digest_is_sha256_in_hex() {
    assert_eq!(
        content_digest(b""),
        "e3b0c44298fc1c149afbf4c8996fb92427ae41e4649b934ca495991b7852b855"
    );
}
