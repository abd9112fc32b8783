//! Reading the block at the top of a Markdown file.

use blog_cms::frontmatter::{parse, parse_date, split, strip_frontmatter, unquote, FrontMatter};

fn fm(doc: &str) -> FrontMatter {
    split(doc).0.expect("front matter")
}

#[test]
fn splits_block_from_body() {
    let doc = "---\ntitle: My Post\n---\n\nReal body.\n";
    let (found, body) = split(doc);
    assert_eq!(found.unwrap().title.as_deref(), Some("My Post"));
    assert_eq!(body, "Real body.\n");
}

#[test]
fn reads_the_four_keys() {
    let doc = "---\ntitle: My Post\nexcerpt: About it\ntags: [rust, tauri]\ndate: 2026-08-20\n---\nBody\n";
    let f = fm(doc);
    assert_eq!(f.title.as_deref(), Some("My Post"));
    assert_eq!(f.excerpt.as_deref(), Some("About it"));
    assert_eq!(f.tags, vec!["rust", "tauri"]);
    assert_eq!(f.date, Some(1_787_184_000));
    assert!(f.ignored.is_empty());
}

#[test]
fn reads_tags_in_every_spelling() {
    assert_eq!(fm("---\ntags: [a, b]\n---\n").tags, vec!["a", "b"]);
    assert_eq!(fm("---\ntags: a, b\n---\n").tags, vec!["a", "b"]);
    assert_eq!(fm("---\ntags:\n  - a\n  - b\n---\n").tags, vec!["a", "b"]);
    assert_eq!(fm("---\ntags:\n- \"a\"\n- 'b'\n---\n").tags, vec!["a", "b"]);
}

/// A block list must not swallow the key that follows it.
#[test]
fn a_block_list_ends_where_the_next_key_starts() {
    let f = fm("---\ntags:\n  - a\ntitle: After\n---\n");
    assert_eq!(f.tags, vec!["a"]);
    assert_eq!(f.title.as_deref(), Some("After"));
}

#[test]
fn strips_one_layer_of_quotes() {
    assert_eq!(fm("---\ntitle: \"Quoted\"\n---\n").title.as_deref(), Some("Quoted"));
    assert_eq!(fm("---\ntitle: 'Quoted'\n---\n").title.as_deref(), Some("Quoted"));
    // Not a matching pair: left exactly as written.
    assert_eq!(fm("---\ntitle: \"Half\n---\n").title.as_deref(), Some("\"Half"));
}

#[test]
fn reads_dates_with_and_without_a_time() {
    assert_eq!(fm("---\ndate: 2026-08-20\n---\n").date, Some(1_787_184_000));
    assert_eq!(fm("---\ndate: 2026-08-20T00:00:00Z\n---\n").date, Some(1_787_184_000));
    assert_eq!(fm("---\ndate: 2026-08-20 00:00:00\n---\n").date, Some(1_787_184_000));
}

/// An import is a local draft, and a file does not get to publish itself.
#[test]
fn published_is_reported_not_obeyed() {
    let f = fm("---\ntitle: X\npublished: true\n---\n");
    assert_eq!(f.title.as_deref(), Some("X"));
    assert!(f.ignored.contains(&"published".to_string()));
}

#[test]
fn names_what_it_did_not_read() {
    let f = fm("---\nlayout: post\nauthor: someone\ndate: last tuesday\n---\n");
    assert_eq!(f.ignored, vec!["layout", "author", "date"]);
    assert_eq!(f.date, None);
    assert_eq!(f.title, None);
    assert!(f.tags.is_empty());
}

/// A nested mapping's children are not keys in their own right.
#[test]
fn skips_the_inside_of_a_nested_key() {
    let f = fm("---\ntitle: X\nauthor:\n  name: someone\n  url: https://example.com\n---\n");
    assert_eq!(f.title.as_deref(), Some("X"));
    assert_eq!(f.ignored, vec!["author"]);
}

#[test]
fn ignores_comments_and_blank_lines() {
    let f = fm("---\n# a comment\n\ntitle: X\n---\n");
    assert_eq!(f.title.as_deref(), Some("X"));
    assert!(f.ignored.is_empty());
}

#[test]
fn handles_crlf() {
    let (found, body) = split("---\r\ntitle: X\r\n---\r\nBody\r\n");
    assert_eq!(found.unwrap().title.as_deref(), Some("X"));
    assert_eq!(body, "Body\r\n");
}

#[test]
fn a_dot_delimiter_closes_the_block_too() {
    let (found, body) = split("---\ntitle: X\n...\nBody\n");
    assert_eq!(found.unwrap().title.as_deref(), Some("X"));
    assert_eq!(body, "Body\n");
}

/// The shapes that would otherwise eat the top of somebody's document.
#[test]
fn leaves_documents_without_a_block_alone() {
    for doc in [
        "# Heading\n\nBody\n",
        "Body only\n",
        "",
        "----\nnot a delimiter\n",
        // Opens like a block but never closes: a horizontal rule.
        "---\n\nJust a rule, then prose.\n",
    ] {
        let (found, body) = split(doc);
        assert_eq!(found, None, "{doc:?} should not read as front matter");
        assert_eq!(body, doc);
    }
}

#[test]
fn an_empty_block_is_a_block_that_proposes_nothing() {
    let (found, body) = split("---\n---\nBody\n");
    let f = found.expect("an empty block is still a block");
    assert_eq!(f, FrontMatter::default());
    assert_eq!(body, "Body\n");
}

#[test]
fn strips_a_leading_block() {
    let doc = "---\ntitle: My Post\ntags: rust, tauri\n---\n\nReal body.\n";
    assert_eq!(strip_frontmatter(doc), "Real body.\n");
}

#[test]
fn handles_crlf_and_the_dots_terminator() {
    assert_eq!(strip_frontmatter("---\r\ntitle: x\r\n---\r\nBody\r\n"), "Body\r\n");
    assert_eq!(strip_frontmatter("---\ntitle: x\n...\nBody\n"), "Body\n");
}

/// A document that merely opens with a rule must survive intact.
#[test]
fn leaves_documents_without_a_closing_delimiter_alone() {
    let rule_only = "---\n\nJust a rule, then prose.\n";
    assert_eq!(strip_frontmatter(rule_only), rule_only);
}

#[test]
fn leaves_ordinary_documents_alone() {
    for doc in ["# Heading\n\nBody\n", "Body only\n", "", "----\nnot a delimiter\n"] {
        assert_eq!(strip_frontmatter(doc), doc);
    }
}

#[test]
fn an_empty_block_still_goes() {
    assert_eq!(strip_frontmatter("---\n---\nBody\n"), "Body\n");
}

#[test]
fn a_date_with_an_offset_is_read_in_utc() {
    assert_eq!(parse_date("2026-08-20T02:00:00+02:00"), Some(1_787_184_000));
    assert_eq!(parse_date("1969-12-31"), Some(-86_400));
    assert_eq!(parse_date("last tuesday"), None);
}

#[test]
fn only_a_matching_pair_is_unquoted() {
    assert_eq!(unquote("\"a\""), "a");
    assert_eq!(unquote("\"a'"), "\"a'");
    assert_eq!(unquote("\""), "\"");
    assert_eq!(unquote("''"), "");
}

#[test]
fn structures_are_skipped_and_named() {
    let f = parse("title: X\nexcerpt: |\n  Several\n  lines\n");
    assert_eq!(
        f,
        FrontMatter {
            title: Some("X".into()),
            tags: vec![],
            excerpt: None,
            date: None,
            ignored: vec!["excerpt".into()],
        }
    );
    let structures = [
        "|", ">", "|-", ">+", "|2-", "> # folded", "&name", "&name text", "*name", "*name # alias",
        "{a: b}",
    ];
    for value in structures {
        for key in ["title", "excerpt", "tags", "date"] {
            let f = parse(&format!("{key}: {value}\n"));
            assert_eq!(f.ignored, vec![key.to_string()], "{key}: {value}");
            assert_eq!((f.title, f.excerpt, f.date), (None, None, None), "{key}: {value}");
            assert!(f.tags.is_empty(), "{key}: {value}");
        }
    }
    // In quotes, or with text behind, these are characters like any other.
    let texts = [
        ("\"|\"", "|"),
        ("'*name'", "*name"),
        ("> 100 posts", "> 100 posts"),
        ("* star", "* star"),
        ("*args and more", "*args and more"),
    ];
    for (value, title) in texts {
        let f = parse(&format!("title: {value}\n"));
        assert_eq!(f.title.as_deref(), Some(title));
        assert!(f.ignored.is_empty());
    }
}
