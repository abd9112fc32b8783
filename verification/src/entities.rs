//! The rows that the local tables hold.

pub mod post;
pub mod post_body_stale;
pub mod post_revision;
pub mod post_schedule;
pub mod post_stage;
pub mod post_sync;
pub mod post_tombstone;
pub mod post_trash;
pub mod series;
