//! How a scheduled publication reads.

use blog_cms::entities::post_schedule::{
    Model, CANCELLED, FAILED, PENDING, PUBLISHED, PUBLISHING,
};

fn row(state: &str, publish_at: i64) -> Model {
    Model { slug: "a-post".into(), publish_at, state: state.into(), error: None, updated_at: 0 }
}

#[test]
fn a_pending_schedule_past_its_time_reads_as_overdue() {
    assert_eq!(row(PENDING, 2_000).display_state(1_000), "scheduled");
    assert_eq!(row(PENDING, 1_000).display_state(2_000), "overdue");
    // Exactly due counts as overdue: the worker has run by then.
    assert_eq!(row(PENDING, 1_000).display_state(1_000), "overdue");
}

#[test]
fn a_claim_counts_as_still_going_to_happen() {
    assert!(row(PENDING, 1_000).is_in_flight());
    assert!(row(PUBLISHING, 1_000).is_in_flight());

    assert!(!row(PUBLISHED, 1_000).is_in_flight());
    assert!(!row(FAILED, 1_000).is_in_flight());
    assert!(!row(CANCELLED, 1_000).is_in_flight());
}

#[test]
fn a_claim_nobody_came_back_from_reads_as_overdue() {
    let mut claimed = row(PUBLISHING, 1_000);
    claimed.updated_at = 1_000;

    assert_eq!(claimed.display_state(1_100), "scheduled");
    // Right up to the worker's own retry threshold.
    assert_eq!(claimed.display_state(1_000 + 899), "scheduled");
    assert_eq!(claimed.display_state(1_000 + 900), "overdue");
}

#[test]
fn settled_states_are_reported_as_written() {
    for (state, expected) in
        [(PUBLISHED, "published"), (FAILED, "failed"), (CANCELLED, "cancelled")]
    {
        assert_eq!(row(state, 1_000).display_state(9_999), expected);
    }
    assert_eq!(row("something-new", 1_000).display_state(9_999), "unknown");
}
