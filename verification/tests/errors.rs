//! What errors say.

use blog_cms::error::AppError;
use blog_cms::mcp::publish::PublishState;

#[test]
fn cancelled_displays_as_the_string_the_frontend_matches() {
    assert_eq!(AppError::Cancelled.message(), "cancelled");
}

#[test]
fn errors_serialize_as_their_message() {
    let err = AppError::PostNotFound(7);
    assert_eq!(err.message(), "post 7 not found");
}

#[test]
fn wrapped_causes_stay_in_the_message() {
    let inner = AppError::Cloudflare {
        service: "R2",
        op: "upload",
        status: "403 Forbidden".to_string(),
        body: "denied".into(),
    };
    let err = AppError::PublishSyncFailed(Box::new(inner));
    assert_eq!(
        err.message(),
        "post saved locally but publish sync failed: R2 upload error (403 Forbidden): denied"
    );
}

#[test]
fn io_errors_carry_the_operation() {
    let cause = std::io::Error::new(std::io::ErrorKind::PermissionDenied, "denied");
    let err = AppError::io("Failed to write local markdown", cause.to_string());
    assert_eq!(err.message(), "Failed to write local markdown: denied");
}

#[test]
fn numbers_stand_in_messages_as_they_are() {
    assert_eq!(AppError::PostNotFound(-3).message(), "post -3 not found");
    assert_eq!(
        AppError::PartialSync { synced: 12, failed: 3 }.message(),
        "synced 12, 3 failed to sync"
    );
    let e = AppError::PublishRequestNotPending {
        id: "abc".to_string(),
        state: PublishState::Rejected,
    };
    assert!(e.message().contains("Rejected"), "{}", e.message());
}
