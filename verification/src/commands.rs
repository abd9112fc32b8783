//! The operations that the app offers.

pub mod body;
pub mod conflict;
pub mod d1;
pub mod import;
pub mod library;
pub mod media;
pub mod posts;
pub mod publication;
pub mod publication_laws;
pub mod restore;
pub mod save;
pub mod schedule;
pub mod slugs;
pub mod soundness;
pub mod sync;
pub mod tag_laws;
pub mod tags;
