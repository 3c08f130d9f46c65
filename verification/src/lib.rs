//! Library core of a terminal music player that streams audio from GitHub
//! repositories and WebDAV collections.

pub mod cache;
pub mod cli;
pub mod credentials;
pub mod errors;
pub mod github;
pub mod models;
pub mod schema;
pub mod text;
pub mod webdav;
pub mod tui;
