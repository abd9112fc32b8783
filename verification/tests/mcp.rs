//! The endpoint: its token, its settings and its tools.

use blog_cms::commands::save::AfterMove;
use blog_cms::db::history::revisions_for_post;
use blog_cms::db::side_tables::{
    body_is_stale, body_stale_set, stage_get, sync_get, trash_set,
};
use blog_cms::db::series_rows::series_create;
use blog_cms::db::{post_create, post_delete, post_get, post_update, Store};
use blog_cms::entities::{post, post_revision, post_stage, series};
use blog_cms::error::AppError;
use blog_cms::json::tags_from_json;
use blog_cms::mcp::publish::Queue;
use blog_cms::mcp::server::{
    create_draft, get_post, list_posts, list_series, load_post, publish_status, request_publish,
    tags_to_csv, update_draft, CreateDraftParams, PublishStatusParams, RequestPublishParams,
    ToolError, UpdateDraftParams,
};
use blog_cms::mcp::{
    is_authorized, launch_port, load_token, mcp_configure, mcp_status, new_token, no_settings,
    secret_eq, with_token, without_token,
};
use blog_cms::sync_state::{content_hash, SyncState};

#[test]
fn secret_comparison_accepts_only_an_exact_match() {
    assert!(secret_eq("abc123", "abc123"));
    assert!(!secret_eq("abc123", "abc124"));
    assert!(!secret_eq("abc123", "abc1234"));
    assert!(!secret_eq("", "abc123"));
    // An empty expectation must not turn a missing header into a pass.
    assert!(!secret_eq("anything", ""));
    assert!(!secret_eq("", ""));
}

#[test]
fn only_the_right_header_passes() {
    assert!(is_authorized(Some("Bearer abc123"), "abc123"));
    for header in ["abc123", "bearer abc123", "Bearer abc12", "Bearer abc1234", "Bearer ", ""] {
        assert!(!is_authorized(Some(header), "abc123"), "{header:?} passed");
    }
    assert!(!is_authorized(None, "abc123"));
    assert!(!is_authorized(None, ""));
    assert!(!is_authorized(Some("Bearer "), ""));
}

#[test]
fn tags_round_trip_through_the_stored_json_shape() {
    assert_eq!(tags_from_json(&Some(r#"["rust","tauri"]"#.to_string())), vec!["rust", "tauri"]);
    assert_eq!(tags_to_csv(&vec!["rust".into(), "tauri".into()]), "rust,tauri");
}

#[test]
fn undecodable_tags_are_empty_rather_than_fatal() {
    assert!(tags_from_json(&None).is_empty());
    assert!(tags_from_json(&Some("not json".to_string())).is_empty());
    assert!(tags_from_json(&Some("".to_string())).is_empty());
}

#[test]
fn blank_tags_are_dropped_on_the_way_out() {
    assert_eq!(tags_to_csv(&vec!["  ".into(), "rust".into(), "".into()]), "rust");
    assert_eq!(tags_to_csv(&vec![]), "");
}

#[test]
fn the_endpoint_is_shown_as_it_listens() {
    let stored = no_settings();
    let status = mcp_status(&stored, None, None);
    assert!(!status.enabled && !status.running);
    assert_eq!(status.port, 4127);
    assert_eq!(status.endpoint, "http://127.0.0.1:4127/mcp");
    assert_eq!(status.token, None);
    assert_eq!(launch_port(&stored), None);

    let stored = mcp_configure(stored, true, 5000).unwrap();
    assert_eq!(launch_port(&stored), Some(5000));
    let status = mcp_status(&stored, Some(5001), Some("t".into()));
    assert!(status.running);
    assert_eq!(status.endpoint, "http://127.0.0.1:5001/mcp");
    assert_eq!(mcp_configure(stored, true, 1023).unwrap_err(), AppError::PortTooLow);
}

#[test]
fn a_token_is_kept_in_one_place() {
    let token = new_token();
    assert_eq!(token.len(), 32);
    assert_ne!(token, new_token());

    let kept = with_token(no_settings(), &token, true);
    assert_eq!(kept.token, None);
    assert_eq!(load_token(None, &kept), None);
    assert_eq!(load_token(Some("k".into()), &kept).as_deref(), Some("k"));

    let kept = with_token(no_settings(), &token, false);
    assert_eq!(load_token(None, &kept), Some(token));
    assert_eq!(without_token(kept).token, None);
}

fn a_post(slug: &str) -> post::Model {
    post::Model {
        id: 0,
        slug: slug.into(),
        title: slug.into(),
        excerpt: None,
        tags: Some(r#"["rust"]"#.into()),
        published: false,
        published_at: None,
        series_id: None,
        series_order: None,
        created_at: 0,
        updated_at: 0,
    }
}

fn edit(id: i32) -> UpdateDraftParams {
    UpdateDraftParams { id, title: None, tags: None, body: None }
}

fn invalid(e: ToolError) -> String {
    match e {
        ToolError::Invalid(m) => m,
        ToolError::Internal(m) => panic!("expected a fault of the client, got {m}"),
    }
}

#[test]
fn a_client_sees_posts_with_their_stage_and_state() {
    let mut db = Store::new();
    let p = post_create(&mut db, a_post("a-post")).unwrap();
    let binned = post_create(&mut db, a_post("binned")).unwrap();
    trash_set(&mut db, binned.id, 1);

    let all = list_posts(&db);
    assert_eq!(all.len(), 1);
    assert_eq!(all[0].tags, vec!["rust"]);
    assert_eq!(all[0].stage, None);
    assert_eq!(all[0].sync_state, SyncState::Clean);
    assert_eq!(all[0].body, None);
    assert_eq!(get_post(&db, p.clone(), "text".into()).body.as_deref(), Some("text"));

    assert_eq!(load_post(&db, p.id).unwrap(), p);
    assert_eq!(invalid(load_post(&db, 99).unwrap_err()), "No post with id 99");
    assert_eq!(
        invalid(load_post(&db, binned.id).unwrap_err()),
        format!("Post {} is in the trash", binned.id)
    );

    series_create(
        &mut db,
        series::Model {
            id: 0,
            slug: "rust".into(),
            title: "Rust".into(),
            description: None,
            created_at: 0,
        },
    )
    .unwrap();
    assert_eq!(list_series(&db)[0].slug, "rust");
}

#[test]
fn a_client_drafts_locally() {
    let mut db = Store::new();
    let params = CreateDraftParams {
        title: "  A Draft ".into(),
        tags: vec!["rust".into(), " ".into()],
        body: "text".into(),
    };
    let save = create_draft(&db, params, 4).unwrap().unwrap();
    assert!(!save.publishes);
    assert_eq!(save.model.title, "A Draft");
    assert_eq!(save.model.tags.as_deref(), Some(r#"["rust"]"#));
    match save.commit(&mut db, None).unwrap().moved(&mut db).unwrap() {
        AfterMove::Done(p) => assert!(!p.published),
        AfterMove::Push(_) => panic!("a client's draft went to the cloud"),
    }

    let blank = CreateDraftParams { title: " ".into(), tags: vec![], body: "".into() };
    match create_draft(&db, blank, 4) {
        Err(e) => assert_eq!(invalid(e), "title must not be empty"),
        Ok(_) => panic!("a draft without a title was created"),
    }
}

#[test]
fn an_edit_writes_only_what_was_sent() {
    let mut db = Store::new();
    let p = post_create(&mut db, a_post("a-post")).unwrap();
    body_stale_set(&mut db, "a-post", 1);

    let step = update_draft(
        &db,
        UpdateDraftParams { title: Some(" New ".into()), body: Some("text".into()), ..edit(p.id) },
        30,
    )
    .unwrap();
    // Published by somebody while the edit was on its way.
    let mut live = p.clone();
    live.published = true;
    live.excerpt = Some("meanwhile".into());
    post_update(&mut db, live).unwrap();

    let edited = step.commit(&mut db, Some("old".into())).unwrap();
    assert!(edited.was_published);
    assert_eq!(edited.saved.title, "New");
    assert_eq!(edited.saved.excerpt.as_deref(), Some("meanwhile"));
    assert!(edited.saved.published);
    let history = revisions_for_post(&db, p.id);
    assert_eq!(history[0].origin, post_revision::MCP);
    assert_eq!(history[0].title, "a-post");
    assert_eq!(history[0].body.as_deref(), Some("old"));

    edited.before_move(&mut db);
    assert!(!body_is_stale(&db, "a-post"));
    let saved = edited.saved.clone();
    let out = edited.finish(&mut db, Some("on disk".into()), "read before".into()).unwrap();
    assert_eq!(out.sync_state, SyncState::Modified);
    assert_eq!(out.stage, None, "a live post keeps the stage it has");
    assert_eq!(sync_get(&db, p.id).unwrap().local_hash, content_hash(&saved, "text"));
}

#[test]
fn an_edit_of_a_draft_leaves_a_draft() {
    let mut db = Store::new();
    let p = post_create(&mut db, a_post("a-post")).unwrap();
    let step = update_draft(
        &db,
        UpdateDraftParams { tags: Some(vec![" a ".into(), "".into()]), ..edit(p.id) },
        30,
    )
    .unwrap();
    let edited = step.commit(&mut db, None).unwrap();
    assert_eq!(edited.saved.tags.as_deref(), Some(r#"["a"]"#));
    assert_eq!(edited.saved.title, "a-post");
    let saved = edited.saved.clone();
    let out = edited.finish(&mut db, None, "read before".into()).unwrap();
    assert_eq!(out.stage.as_deref(), Some(post_stage::DRAFT));
    assert_eq!(stage_get(&db, p.id).unwrap().staged_at, 30);
    assert_eq!(sync_get(&db, p.id).unwrap().local_hash, content_hash(&saved, "read before"));
}

#[test]
fn edits_are_refused_with_their_reason() {
    let mut db = Store::new();
    let p = post_create(&mut db, a_post("a-post")).unwrap();
    let blank = UpdateDraftParams { title: Some("  ".into()), ..edit(p.id) };
    match update_draft(&db, blank, 1) {
        Err(e) => assert_eq!(invalid(e), "title must not be empty"),
        Ok(_) => panic!("a title was taken away"),
    }
    let first = update_draft(&db, edit(p.id), 1).unwrap();
    let second = update_draft(&db, edit(p.id), 1).unwrap();
    trash_set(&mut db, p.id, 1);
    match first.commit(&mut db, None) {
        Err(e) => assert_eq!(invalid(e), format!("Post {} is in the trash", p.id)),
        Ok(_) => panic!("an edit landed in the trash"),
    }
    let mut db = Store::new();
    let q = post_create(&mut db, a_post("a-post")).unwrap();
    assert_eq!(q.id, p.id);
    post_delete(&mut db, q.id);
    match second.commit(&mut db, None) {
        Err(e) => assert_eq!(invalid(e), format!("Post {} no longer exists", p.id)),
        Ok(_) => panic!("an edit landed on a post that is gone"),
    }
}

#[test]
fn asking_twice_is_one_request() {
    let mut db = Store::new();
    let mut q = Queue::new();
    let p = post_create(&mut db, a_post("a-post")).unwrap();
    let ask = |id: i32| RequestPublishParams { post_id: id, reason: Some("ready".into()) };
    let first = request_publish(&db, &mut q, ask(p.id)).unwrap();
    assert_eq!(first.slug, "a-post");
    assert_eq!(first.reason.as_deref(), Some("ready"));
    assert_eq!(request_publish(&db, &mut q, ask(p.id)).unwrap().id, first.id);
    assert!(!post_get(&db, p.id).unwrap().published, "asking published nothing");

    let status = |id: &str| PublishStatusParams { request_id: id.into() };
    assert_eq!(publish_status(&q, status(&first.id)).unwrap(), first);
    assert_eq!(
        invalid(publish_status(&q, status("nope")).unwrap_err()),
        "No publish request nope"
    );
    assert_eq!(
        invalid(request_publish(&db, &mut q, ask(99)).unwrap_err()),
        "No post with id 99"
    );
}
