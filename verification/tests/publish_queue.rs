//! Requests to publish, and their approval.

use blog_cms::db::side_tables::trash_set;
use blog_cms::db::{post_create, post_delete, Store};
use blog_cms::entities::post;
use blog_cms::error::AppError;
use blog_cms::mcp::publish::{
    awaiting_for_post, claim_for_publish, enqueue, enqueue_as, get, list, open_for_post, reject,
    settle, take_approved, PublishRequest, PublishState, Queue,
};
use blog_cms::mcp::{approved_post, begin_approved, settle_approved};

fn ask(q: &mut Queue, post_id: i32, slug: &str, title: &str) -> PublishRequest {
    enqueue(q, post_id, slug.into(), title.into(), None)
}

#[test]
fn enqueued_requests_get_distinct_ids() {
    let mut q = Queue::new();
    let a = ask(&mut q, 1, "a", "A");
    let b = ask(&mut q, 1, "a", "A");
    assert_ne!(a.id, b.id);
    assert_eq!(a.state, PublishState::AwaitingApproval);
    assert_eq!(a.id.len(), 32);
    assert!(a.requested_at > 1_700_000_000);
}

#[test]
fn a_request_can_only_be_settled_once() {
    let mut q = Queue::new();
    let req = enqueue(&mut q, 2, "b".into(), "B".into(), Some("  ".into()));
    // A blank reason is not a reason.
    assert_eq!(req.reason, None);

    assert!(take_approved(&q, &req.id).is_ok());
    settle(&mut q, &req.id, Ok(()));
    assert_eq!(get(&q, &req.id).unwrap().state, PublishState::Published);

    // Already terminal, so neither path may re-enter it.
    assert!(take_approved(&q, &req.id).is_err());
    assert!(reject(&mut q, &req.id).is_err());
}

#[test]
fn rejection_is_terminal_and_records_no_error() {
    let mut q = Queue::new();
    let req = ask(&mut q, 3, "c", "C");
    let rejected = reject(&mut q, &req.id).unwrap();
    assert_eq!(rejected.state, PublishState::Rejected);
    assert_eq!(rejected.error, None);
    assert!(reject(&mut q, &req.id).is_err());
}

#[test]
fn a_failed_publish_keeps_the_reason() {
    let mut q = Queue::new();
    let req = ask(&mut q, 4, "d", "D");
    take_approved(&q, &req.id).unwrap();
    settle(&mut q, &req.id, Err("R2 unreachable".into()));
    let settled = get(&q, &req.id).unwrap();
    assert_eq!(settled.state, PublishState::Failed);
    assert_eq!(settled.error.as_deref(), Some("R2 unreachable"));
}

#[test]
fn only_pending_requests_count_as_awaiting() {
    let mut q = Queue::new();
    let req = ask(&mut q, 5, "e", "E");
    assert!(awaiting_for_post(&q, 5).is_some());
    reject(&mut q, &req.id).unwrap();
    assert!(awaiting_for_post(&q, 5).is_none());
}

#[test]
fn unknown_ids_are_reported_rather_than_panicking() {
    let mut q = Queue::new();
    assert!(get(&q, "nope").is_none());
    assert!(take_approved(&q, "nope").is_err());
    assert!(reject(&mut q, "nope").is_err());
    assert!(settle(&mut q, "nope", Ok(())).is_none());
}

#[test]
fn two_approvals_publish_once() {
    let mut q = Queue::new();
    let req = ask(&mut q, 6, "f", "F");
    let claimed = claim_for_publish(&mut q, &req.id).unwrap();
    assert_eq!(claimed.state, PublishState::Publishing);
    assert_eq!(
        claim_for_publish(&mut q, &req.id).unwrap_err(),
        AppError::PublishRequestNotPending {
            id: req.id.clone(),
            state: PublishState::Publishing
        }
    );
    assert!(reject(&mut q, &req.id).is_err());
    // It is not waiting any more, and it is not settled either.
    assert!(awaiting_for_post(&q, 6).is_none());
    assert_eq!(open_for_post(&q, 6).unwrap().id, req.id);
    settle(&mut q, &req.id, Ok(()));
    assert!(open_for_post(&q, 6).is_none());
    assert_eq!(
        claim_for_publish(&mut q, "nope").unwrap_err(),
        AppError::NoPublishRequest("nope".into())
    );
}

#[test]
fn requests_are_listed_newest_first() {
    let mut q = Queue::new();
    for (id, at) in [("a", 5), ("b", 9), ("c", 9)] {
        enqueue_as(&mut q, id.into(), at, 1, "s".into(), "T".into(), Some("why".into()));
    }
    let ids: Vec<String> = list(&q).into_iter().map(|r| r.id).collect();
    assert_eq!(ids, ["c", "b", "a"]);
    assert_eq!(get(&q, "a").unwrap().reason.as_deref(), Some("why"));
}

#[test]
fn states_are_named_for_clients() {
    assert_eq!(PublishState::AwaitingApproval.wire_name(), "awaiting_approval");
    assert_eq!(PublishState::Publishing.wire_name(), "publishing");
    assert_eq!(PublishState::Failed.wire_name(), "failed");
    assert_eq!(PublishState::Failed.name(), "Failed");
}

#[test]
fn an_approval_takes_the_post_as_it_stands() {
    let mut db = Store::new();
    let mut q = Queue::new();
    let p = post_create(
        &mut db,
        post::Model {
            id: 0,
            slug: "a-post".into(),
            title: "As it stands".into(),
            excerpt: None,
            tags: Some(r#"["rust","tauri"]"#.into()),
            published: false,
            published_at: None,
            series_id: None,
            series_order: None,
            created_at: 0,
            updated_at: 0,
        },
    )
    .unwrap();
    let req = ask(&mut q, p.id, "a-post", "As it was");
    let found = approved_post(&db, &req).unwrap();
    assert_eq!(found.title, "As it stands");
    let save = begin_approved(&db, found, "text".into(), 9).unwrap();
    assert!(save.publishes);
    assert_eq!(save.model.tags.as_deref(), Some(r#"["rust","tauri"]"#));
    assert_eq!(save.model.title, "As it stands");

    trash_set(&mut db, p.id, 1);
    assert_eq!(approved_post(&db, &req).unwrap_err(), AppError::PostInTrash("a-post".into()));
    post_delete(&mut db, p.id);
    assert_eq!(approved_post(&db, &req).unwrap_err(), AppError::PostVanished(p.id));

    let failed = settle_approved(&mut q, &req.id, Err(AppError::PostVanished(p.id))).unwrap();
    assert_eq!(failed.state, PublishState::Failed);
    assert_eq!(failed.error, Some(AppError::PostVanished(p.id).message()));
    assert_eq!(
        settle_approved(&mut q, "nope", Ok(())).unwrap_err(),
        AppError::PublishRequestVanished("nope".into())
    );
}

#[test]
fn a_decision_is_final() {
    let mut q = Queue::new();
    let rejected = ask(&mut q, 3, "c", "C");
    let rejected = reject(&mut q, &rejected.id).unwrap();
    assert_eq!(settle(&mut q, &rejected.id, Ok(())), Some(rejected.clone()));
    assert_eq!(get(&q, &rejected.id).unwrap().state, PublishState::Rejected);
    let again = settle_approved(&mut q, &rejected.id, Err(AppError::NotConfigured)).unwrap();
    assert_eq!(again, rejected);

    let failed = ask(&mut q, 4, "d", "D");
    claim_for_publish(&mut q, &failed.id).unwrap();
    settle(&mut q, &failed.id, Err("R2 unreachable".into()));
    settle(&mut q, &failed.id, Ok(()));
    let failed = get(&q, &failed.id).unwrap();
    assert_eq!(failed.state, PublishState::Failed);
    assert_eq!(failed.error.as_deref(), Some("R2 unreachable"));

    let published = ask(&mut q, 5, "e", "E");
    claim_for_publish(&mut q, &published.id).unwrap();
    settle(&mut q, &published.id, Ok(()));
    settle(&mut q, &published.id, Err("late".into()));
    assert_eq!(get(&q, &published.id).unwrap().state, PublishState::Published);
    assert!(claim_for_publish(&mut q, &published.id).is_err());
}
