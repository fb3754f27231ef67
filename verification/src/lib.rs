//! The decision logic of a bot that reads The Guardian's RSS feed, keeps the
//! date of the last run in a Turso (libSQL) key-value table, and posts new
//! articles to Mastodon.
//!
//! The network, the environment and the clock stay with the caller; this crate
//! holds everything that computes: text handling, date parsing, the order in
//! which articles are considered, the posts composed from them, the HTTP
//! requests that are sent, and the reading of the database's replies.

pub mod text;
pub mod dates;
pub mod feed;
pub mod post;
pub mod json;
pub mod turso;
pub mod mastodon;
pub mod http;
