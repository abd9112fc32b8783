pub mod analytics;
pub mod auth;
pub mod body_search;
pub mod calendar;
pub mod cloudflare;
pub mod commands;
pub mod d1;
pub mod db;
pub mod digest;
pub mod entities;
pub mod error;
pub mod export;
pub mod frontmatter;
pub mod ids;
pub mod imaging;
pub mod json;
pub mod mcp;
pub mod media_keys;
pub mod media_usage;
pub mod revisions;
pub mod sync_state;
pub mod table;
pub mod text;
pub mod traffic;
pub mod update;
