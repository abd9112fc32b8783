//! The cloud: credentials, statements and answers.

use blog_cms::analytics::Status;
use blog_cms::auth::{
    get_creds, load_from_disk, or_default, save_credentials, save_to_disk, set_creds, Session,
};
use blog_cms::cloudflare::{
    authorization, d1_query_url, deleted, downloaded, list_r2, listed, object_text, queried,
    r2_list_url, r2_object_url, uploaded, CloudflareConfig, EnvVars, ListStep, Page, R2Object,
};
use blog_cms::d1::{
    check_envelope, last_row_id, post_delete_stmt, post_get_stmt, post_insert_stmt,
    post_list_stmt, post_update_stmt, post_updated, post_upsert_stmt, rows_changed,
    schedule_cancel_stmt, schedule_cancelled, schedule_get_stmt, schedule_list_stmt,
    schedule_upsert_stmt, series_delete_stmt, series_get_stmt, series_insert_stmt,
    series_list_stmt, series_update_stmt, series_upsert_stmt, Envelope, Param, QueryMeta,
};
use blog_cms::entities::{post, post_schedule, series};
use blog_cms::error::AppError;

fn sample_post() -> post::Model {
    post::Model {
        // Not 1: a local id means nothing in the cloud, and a value that could
        // coincide with the first row there would hide that.
        id: 4321,
        slug: "hello-world".to_string(),
        title: "Hello".to_string(),
        excerpt: None,
        tags: None,
        published: false,
        published_at: None,
        series_id: None,
        series_order: None,
        created_at: 0,
        updated_at: 0,
    }
}

#[test]
fn post_update_is_keyed_by_slug() {
    let sql = post_update_stmt(sample_post()).sql;
    let (set_clause, where_clause) = sql.split_once("WHERE").expect("update must be filtered");

    assert!(where_clause.contains("slug"), "expected the row to be found by slug, got: {sql}");
    assert!(!where_clause.contains("\"id\""), "the id must not narrow the update: {sql}");
    // The key is not also cargo.
    assert!(
        !set_clause.contains("\"slug\""),
        "slug is the key, so it should not be assigned: {sql}"
    );
}

#[test]
fn post_update_writes_the_readers_facing_columns() {
    let sql = post_update_stmt(sample_post()).sql;
    for column in ["title", "excerpt", "tags", "published", "published_at"] {
        assert!(sql.contains(column), "expected `{column}` in: {sql}");
    }
}

#[test]
fn statements_read_as_they_are_stated() {
    let text = |s: &str| Param::Text(s.to_string());
    let mut p = sample_post();
    p.published = true;
    p.series_id = Some(7);
    let s = post_update_stmt(p.clone());
    assert_eq!(
        s.sql,
        "UPDATE \"blog-db\" SET \"title\" = ?, \"excerpt\" = ?, \"tags\" = ?, \"published\" = ?, \
         \"published_at\" = ?, \"series_id\" = ?, \"series_order\" = ?, \"created_at\" = ?, \
         \"updated_at\" = ? WHERE \"blog-db\".\"slug\" = ?"
    );
    assert_eq!(
        s.params,
        vec![
            text("Hello"),
            Param::Null,
            Param::Null,
            Param::Int(1),
            Param::Null,
            Param::Int(7),
            Param::Null,
            Param::Int(0),
            Param::Int(0),
            text("hello-world"),
        ]
    );

    let insert = "INSERT INTO \"blog-db\" (\"slug\", \"title\", \"excerpt\", \"tags\", \
                  \"published\", \"published_at\", \"series_id\", \"series_order\", \
                  \"created_at\", \"updated_at\") VALUES (?, ?, ?, ?, ?, ?, ?, ?, ?, ?)";
    let s = post_insert_stmt(p.clone());
    assert_eq!(s.sql, insert);
    assert_eq!(s.params.len(), 10);
    assert_eq!(s.params[0], text("hello-world"));

    let s = post_upsert_stmt(p);
    assert_eq!(
        s.sql,
        format!(
            "{insert} ON CONFLICT (\"slug\") DO UPDATE SET \"title\" = \"excluded\".\"title\", \
             \"excerpt\" = \"excluded\".\"excerpt\", \"tags\" = \"excluded\".\"tags\", \
             \"published\" = \"excluded\".\"published\", \
             \"published_at\" = \"excluded\".\"published_at\", \
             \"series_id\" = \"excluded\".\"series_id\", \
             \"series_order\" = \"excluded\".\"series_order\", \
             \"created_at\" = \"excluded\".\"created_at\", \
             \"updated_at\" = \"excluded\".\"updated_at\""
        )
    );

    let columns = "\"blog-db\".\"id\", \"blog-db\".\"slug\", \"blog-db\".\"title\", \
                   \"blog-db\".\"excerpt\", \"blog-db\".\"tags\", \"blog-db\".\"published\", \
                   \"blog-db\".\"published_at\", \"blog-db\".\"series_id\", \
                   \"blog-db\".\"series_order\", \"blog-db\".\"created_at\", \
                   \"blog-db\".\"updated_at\"";
    let s = post_list_stmt();
    assert_eq!(
        s.sql,
        format!("SELECT {columns} FROM \"blog-db\" ORDER BY \"blog-db\".\"created_at\" DESC")
    );
    assert!(s.params.is_empty());
    let s = post_get_stmt(3);
    assert_eq!(s.sql, format!("SELECT {columns} FROM \"blog-db\" WHERE \"blog-db\".\"id\" = ?"));
    assert_eq!(s.params, vec![Param::Int(3)]);
    let s = post_delete_stmt(3);
    assert_eq!(s.sql, "DELETE FROM \"blog-db\" WHERE \"blog-db\".\"id\" = ?");
    assert_eq!(s.params, vec![Param::Int(3)]);

    let s = schedule_cancel_stmt("hello-world", 9);
    assert_eq!(
        s.sql,
        "UPDATE \"post_schedule\" SET \"state\" = ?, \"error\" = ?, \"updated_at\" = ? \
         WHERE \"post_schedule\".\"slug\" = ? AND \"post_schedule\".\"state\" = ?"
    );
    assert_eq!(
        s.params,
        vec![
            text(post_schedule::CANCELLED),
            Param::Null,
            Param::Int(9),
            text("hello-world"),
            text(post_schedule::PENDING),
        ]
    );
}

#[test]
fn series_and_schedules_have_statements_of_their_own() {
    let a_series = || series::Model {
        id: 5,
        slug: "rust".into(),
        title: "Rust".into(),
        description: Some("d".into()),
        created_at: 8,
    };
    assert_eq!(
        series_insert_stmt(a_series()).sql,
        "INSERT INTO \"series\" (\"slug\", \"title\", \"description\", \"created_at\") \
         VALUES (?, ?, ?, ?)"
    );
    let s = series_update_stmt(a_series());
    assert_eq!(
        s.sql,
        "UPDATE \"series\" SET \"slug\" = ?, \"title\" = ?, \"description\" = ?, \
         \"created_at\" = ? WHERE \"series\".\"id\" = ?"
    );
    assert_eq!(s.params.len(), 5);
    assert_eq!(s.params[4], Param::Int(5));
    let s = series_upsert_stmt(a_series());
    assert!(s.sql.contains("ON CONFLICT (\"slug\") DO UPDATE SET \"title\""), "{}", s.sql);
    assert!(series_list_stmt().sql.ends_with("ORDER BY \"series\".\"created_at\" DESC"));
    assert_eq!(series_get_stmt(5).params, vec![Param::Int(5)]);
    assert!(series_delete_stmt(5).sql.starts_with("DELETE FROM \"series\""));

    let row = post_schedule::Model {
        slug: "p".into(),
        publish_at: 3,
        state: post_schedule::PENDING.into(),
        error: None,
        updated_at: 4,
    };
    let s = schedule_upsert_stmt(row);
    assert!(s.sql.contains("ON CONFLICT (\"slug\") DO UPDATE SET \"publish_at\""), "{}", s.sql);
    assert_eq!(s.params.len(), 5);
    assert!(schedule_list_stmt()
        .sql
        .ends_with("ORDER BY \"post_schedule\".\"publish_at\" DESC"));
    assert!(schedule_get_stmt("p").sql.ends_with("WHERE \"post_schedule\".\"slug\" = ?"));
}

fn envelope(success: bool, errors: &[&str], meta: Option<(i64, i64)>) -> Envelope {
    Envelope {
        success,
        errors: errors.iter().map(|e| e.to_string()).collect(),
        result: meta
            .map(|(last_row_id, changes)| QueryMeta { last_row_id, changes })
            .into_iter()
            .collect(),
    }
}

#[test]
fn an_answer_says_what_a_statement_did() {
    let done = envelope(true, &[], Some((12, 1)));
    assert!(check_envelope(&done).is_ok());
    assert_eq!(last_row_id(&done), 12);
    assert_eq!(rows_changed(&done), 1);
    assert!(post_updated(&done, "p").is_ok());
    assert!(schedule_cancelled(&done));

    let nothing = envelope(true, &[], Some((0, 0)));
    assert_eq!(
        post_updated(&nothing, "p").unwrap_err(),
        AppError::RemotePostMissing("p".into())
    );
    assert!(!schedule_cancelled(&nothing));
    assert_eq!(rows_changed(&envelope(true, &[], None)), 0);

    let message = |e: &Envelope| check_envelope(e).unwrap_err().message();
    assert_eq!(message(&envelope(false, &["a", "b"], None)), "D1 query failed: a");
    assert_eq!(message(&envelope(false, &[], None)), "D1 query failed: unknown D1 error");
}

fn page(keys: &[&str], cursor: Option<&str>, is_truncated: bool) -> Page {
    Page {
        success: true,
        errors: vec![],
        objects: keys.iter().map(|k| R2Object { key: k.to_string(), size: 1 }).collect(),
        cursor: cursor.map(str::to_string),
        is_truncated,
    }
}

#[test]
fn a_listing_follows_its_cursor_to_the_end() {
    let first = match list_r2().accept(page(&["a"], Some("next"), true)).unwrap() {
        ListStep::More(l) => l,
        ListStep::Done(_) => panic!("the first page was taken for the whole"),
    };
    assert_eq!(first.cursor.as_deref(), Some("next"));
    match first.accept(page(&["b", "c"], None, false)).unwrap() {
        ListStep::Done(objects) => {
            let keys: Vec<&str> = objects.iter().map(|o| o.key.as_str()).collect();
            assert_eq!(keys, ["a", "b", "c"]);
        }
        ListStep::More(_) => panic!("a complete listing went on"),
    }
}

#[test]
fn a_listing_stops_where_there_is_nothing_to_go_on_with() {
    for cursor in [None, Some("")] {
        let step = list_r2().accept(page(&["a"], cursor, true)).unwrap();
        assert!(matches!(step, ListStep::Done(_)), "{cursor:?} went on");
    }
    // The same cursor twice would fetch the same page for ever.
    let again = match list_r2().accept(page(&[], Some("x"), true)).unwrap() {
        ListStep::More(l) => l,
        ListStep::Done(_) => panic!("the listing stopped early"),
    };
    assert!(matches!(
        again.accept(page(&[], Some("x"), true)).unwrap(),
        ListStep::Done(_)
    ));

    let mut failed = page(&[], None, false);
    failed.success = false;
    match list_r2().accept(failed) {
        Err(e) => assert_eq!(e.message(), "R2 list failed: unknown R2 error"),
        Ok(_) => panic!("a failed listing was taken"),
    }
}

#[test]
fn statuses_are_read_for_what_was_asked() {
    let status = |code: u16, text: &str| Status { code, text: text.to_string() };
    let ok = || status(200, "200 OK");
    let gone = || status(404, "404 Not Found");
    let broken = || status(500, "500 Internal Server Error");
    let why = || "why".to_string();

    assert!(uploaded(ok(), why()).is_ok());
    assert_eq!(
        uploaded(gone(), why()).unwrap_err().message(),
        "R2 upload error (404 Not Found): why"
    );
    assert_eq!(downloaded(ok(), why()).unwrap(), true);
    assert_eq!(downloaded(gone(), why()).unwrap(), false);
    assert_eq!(
        downloaded(broken(), why()).unwrap_err().message(),
        "R2 download error (500 Internal Server Error): why"
    );
    assert!(deleted(gone(), why()).is_ok());
    assert!(deleted(ok(), why()).is_ok());
    assert_eq!(
        deleted(broken(), why()).unwrap_err().message(),
        "R2 delete error (500 Internal Server Error): why"
    );
    assert!(listed(broken(), why()).unwrap_err().message().starts_with("R2 list error"));
    assert!(queried(broken(), why()).unwrap_err().message().starts_with("D1 HTTP error"));
    assert!(listed(ok(), why()).is_ok() && queried(status(299, "299"), why()).is_ok());
    assert!(queried(status(300, "300"), why()).is_err());
}

#[test]
fn an_object_that_is_not_text_is_an_error() {
    assert_eq!(object_text("grün".as_bytes().to_vec()).unwrap(), "grün");
    match object_text(vec![0xff, 0xfe]) {
        Err(AppError::NotUtf8(why)) => assert!(!why.is_empty()),
        other => panic!("expected an encoding error, got {other:?}"),
    }
}

fn config() -> CloudflareConfig {
    save_credentials(" acct ", " token\n", "bucket", "db-id", " https://cdn.example.com// ")
}

#[test]
fn requests_go_to_the_account() {
    let c = config();
    assert_eq!(
        r2_object_url(&c, "posts/a.md"),
        "https://api.cloudflare.com/client/v4/accounts/acct/r2/buckets/bucket/objects/posts/a.md"
    );
    assert_eq!(
        r2_list_url(&c),
        "https://api.cloudflare.com/client/v4/accounts/acct/r2/buckets/bucket/objects"
    );
    assert_eq!(
        d1_query_url(&c),
        "https://api.cloudflare.com/client/v4/accounts/acct/d1/database/db-id/query"
    );
    assert_eq!(authorization(&c), "Bearer token");
}

#[test]
fn signing_in_trims_what_was_pasted() {
    let c = config();
    assert_eq!(c.account_id, "acct");
    assert_eq!(c.api_token, "token");
    assert_eq!(c.r2_public_url, "https://cdn.example.com");
    assert_eq!(c.thumbnail_key_pattern, "posts/{slug}/thumbnail.{ext}");
    assert_eq!(c.media_key_pattern, "posts/{slug}/{hash}.{ext}");
    assert_eq!(c.web_analytics_site_tag, "");
}

#[test]
fn a_session_shows_everything_but_the_token() {
    let mut s = Session::new();
    assert!(!s.session_status().authenticated);
    assert!(s.get_credentials().is_none());
    assert_eq!(s.cf().unwrap_err(), AppError::NotConfigured);
    set_creds(&mut s, Some(config()));
    let status = s.session_status();
    assert!(status.authenticated && status.configured);
    assert_eq!(status.account_id.as_deref(), Some("acct"));
    assert_eq!(s.get_credentials().unwrap().r2_bucket, "bucket");
    assert_eq!(get_creds(&s).unwrap(), config());
    assert_eq!(s.cf().unwrap().api_token, "token");
}

#[test]
fn settings_are_checked_before_they_are_kept() {
    let mut s = Session::new();
    let thumb = "posts/{slug}/t.{ext}";
    let media = "posts/{slug}/{hash}.{ext}";
    assert_eq!(
        s.save_settings("", thumb, media, None).unwrap_err(),
        AppError::NotConfigured
    );
    let mut c = config();
    c.web_analytics_site_tag = "site".into();
    set_creds(&mut s, Some(c));
    assert_eq!(
        s.save_settings("ftp://x", thumb, media, None).unwrap_err(),
        AppError::InvalidPublicUrl
    );
    for url in ["httpfoo", "http:/x", "https:", "http"] {
        assert_eq!(
            s.save_settings(url, thumb, media, None).unwrap_err(),
            AppError::InvalidPublicUrl,
            "{url}"
        );
    }
    assert!(s.save_settings("http://x", thumb, media, None).is_ok());
    assert!(matches!(
        s.save_settings("", media, media, None).unwrap_err(),
        AppError::InvalidPattern(_)
    ));
    assert!(matches!(
        s.save_settings("", thumb, thumb, None).unwrap_err(),
        AppError::InvalidPattern(_)
    ));
    let kept = s.save_settings(" https://new.example.com/ ", " posts/{slug}/t.{ext} ", media, None);
    let kept = kept.unwrap();
    assert_eq!(kept.r2_public_url, "https://new.example.com");
    assert_eq!(kept.thumbnail_key_pattern, thumb);
    assert_eq!(kept.api_token, "token");
    // No tag leaves the one chosen; an empty one takes it away.
    assert_eq!(kept.web_analytics_site_tag, "site");
    let kept = s.save_settings("", thumb, media, Some("  ".into())).unwrap();
    assert_eq!(kept.web_analytics_site_tag, "");
    assert_eq!(kept.r2_public_url, "");
}

#[test]
fn the_token_is_kept_in_the_keychain_or_in_the_file() {
    let in_keychain = save_to_disk(&config(), true);
    assert_eq!(in_keychain.api_token, None);
    assert_eq!(load_from_disk(save_to_disk(&config(), true), None), None);
    assert_eq!(load_from_disk(in_keychain, Some("token".into())).unwrap(), config());
    let in_file = save_to_disk(&config(), false);
    assert_eq!(load_from_disk(in_file, None).unwrap(), config());

    let mut old = save_to_disk(&config(), false);
    old.media_key_pattern = " ".into();
    let loaded = load_from_disk(old, Some("newer".into())).unwrap();
    assert_eq!(loaded.media_key_pattern, "posts/{slug}/{hash}.{ext}");
    assert_eq!(loaded.api_token, "newer");
    assert_eq!(or_default(" kept ".into(), "d"), " kept ");
}

#[test]
fn the_first_missing_variable_is_named() {
    let vars = || EnvVars {
        account_id: Some("a".into()),
        api_token: Some("t".into()),
        r2_bucket: Some("b".into()),
        d1_database_id: Some("d".into()),
        r2_public_url: Some("u".into()),
        thumbnail_key_pattern: None,
        media_key_pattern: Some("m".into()),
    };
    let c = CloudflareConfig::from_env(vars()).unwrap();
    assert_eq!(c.thumbnail_key_pattern, "posts/{slug}/thumbnail.{ext}");
    assert_eq!(c.media_key_pattern, "m");
    let e = CloudflareConfig::from_env(EnvVars { api_token: None, r2_bucket: None, ..vars() });
    assert_eq!(e.unwrap_err(), AppError::MissingEnv("CF_API_TOKEN"));
    let e = CloudflareConfig::from_env(EnvVars { r2_public_url: None, ..vars() });
    assert_eq!(
        e.unwrap_err().message(),
        "Environment variable `CF_R2_PUBLIC_URL` is not set"
    );
}
