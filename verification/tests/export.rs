//! Posts as Markdown files.

use blog_cms::entities::post::Model as PostModel;
use blog_cms::entities::series::Model as SeriesModel;
use blog_cms::export::{document, quote};
use blog_cms::frontmatter::split;

fn post() -> PostModel {
    PostModel {
        id: 1,
        slug: "my-post".to_string(),
        title: "My Post".to_string(),
        excerpt: None,
        tags: None,
        published: false,
        published_at: None,
        series_id: None,
        series_order: None,
        created_at: 1_787_184_000, // 2026-08-20T00:00:00Z
        updated_at: 1_787_184_000,
    }
}

fn series() -> SeriesModel {
    SeriesModel {
        id: 7,
        slug: "learning-rust".to_string(),
        title: "Learning Rust".to_string(),
        description: None,
        created_at: 0,
    }
}

#[test]
fn a_draft_writes_only_what_it_has() {
    let doc = document(&post(), None, "Body text.\n");
    assert_eq!(
        doc,
        "---\n\
         title: \"My Post\"\n\
         slug: \"my-post\"\n\
         date: 2026-08-20T00:00:00Z\n\
         published: false\n\
         ---\n\
         \n\
         Body text.\n"
    );
}

#[test]
fn everything_a_post_can_carry() {
    let mut p = post();
    p.excerpt = Some("One line about it".to_string());
    p.tags = Some(r#"["rust","tauri"]"#.to_string());
    p.published = true;
    p.published_at = Some(1_787_270_400);
    p.series_id = Some(7);
    p.series_order = Some(2);

    let doc = document(&p, Some(&series()), "Body.\n");
    assert!(doc.contains("published: true\n"));
    assert!(doc.contains("published_at: 2026-08-21T00:00:00Z\n"));
    assert!(doc.contains("excerpt: \"One line about it\"\n"));
    assert!(doc.contains("tags: [\"rust\", \"tauri\"]\n"));
    // The slug, not the id: 7 means nothing anywhere but this database.
    assert!(doc.contains("series: \"learning-rust\"\n"));
    assert!(!doc.contains("series: 7"));
    assert!(doc.contains("series_order: 2\n"));
}

/// The characters that would otherwise produce a block nothing can parse.
#[test]
fn values_that_would_break_the_block_are_escaped() {
    let mut p = post();
    p.title = r#"A: "quoted" \ thing"#.to_string();
    p.excerpt = Some("first\nsecond".to_string());

    let doc = document(&p, None, "Body\n");
    assert!(doc.contains(r#"title: "A: \"quoted\" \\ thing""#));
    assert!(doc.contains(r#"excerpt: "first\nsecond""#));
    // One line per key, whatever the values contained.
    let block: Vec<&str> = doc.lines().skip(1).take_while(|l| *l != "---").collect();
    assert_eq!(block.len(), 5, "{block:?}");
    assert!(block.iter().all(|l| l.contains(": ")), "{block:?}");
}

/// Raw control characters make a double-quoted scalar invalid.
#[test]
fn control_characters_are_escaped_rather_than_written_raw() {
    let mut p = post();
    p.title = "nul\u{0}back\u{8}form\u{c}del\u{7f}".to_string();
    p.excerpt = Some("nel\u{85}sep\u{2028}para\u{2029}".to_string());

    let doc = document(&p, None, "Body\n");
    assert!(doc.contains(r#"title: "nul\x00back\x08form\x0cdel\x7f""#), "{doc}");
    assert!(doc.contains(r#"excerpt: "nel\Nsep\Lpara\P""#), "{doc}");

    // Nothing raw below 0x20 reached the block, whatever went in.
    let block: String = doc.lines().skip(1).take_while(|l| *l != "---").collect();
    assert!(
        !block.chars().any(|c| (c as u32) < 0x20 || c as u32 == 0x7f),
        "a raw control character reached the block"
    );
}

#[test]
fn a_series_order_without_a_series_is_not_written() {
    let mut p = post();
    p.series_order = Some(3);
    let doc = document(&p, None, "Body\n");
    assert!(!doc.contains("series_order"));
}

#[test]
fn a_body_without_a_trailing_newline_gets_one() {
    let doc = document(&post(), None, "No newline");
    assert!(doc.ends_with("No newline\n"));
}

#[test]
fn a_malformed_tags_column_exports_as_no_tags() {
    let mut p = post();
    p.tags = Some("not json".to_string());
    let doc = document(&p, None, "Body\n");
    assert!(!doc.contains("tags:"));
}

#[test]
fn an_exported_file_reads_back() {
    let mut p = post();
    p.tags = Some(r#"["rust","tauri"]"#.to_string());
    let doc = document(&p, None, "Body.\n");
    let (block, body) = split(&doc);
    let block = block.unwrap();
    assert_eq!(body, "Body.\n");
    assert_eq!(block.title.as_deref(), Some("My Post"));
    assert_eq!(block.tags, vec!["rust", "tauri"]);
    assert_eq!(block.date, Some(1_787_184_000));
    assert_eq!(block.ignored, vec!["slug", "published"]);
}

#[test]
fn a_value_is_quoted_whole() {
    assert_eq!(quote("plain"), "\"plain\"");
    assert_eq!(quote("tab\there"), "\"tab\\there\"");
    assert_eq!(quote("cr\rlf\n"), "\"cr\\rlf\\n\"");
}
