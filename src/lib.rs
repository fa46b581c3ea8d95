//! The logic of a small deployment dashboard server: the per-connection
//! session (outbound queue and write interest, keepalive timer, deploy
//! supervisor with its line splitter), the browser's command grammar, query
//! strings, request lines, navigation routing, the service search ranking,
//! and the user profile text.
use vstd::prelude::*;

pub mod config;
pub mod event;
pub mod filter;
pub mod frame;
pub mod http;
pub mod lines;
pub mod liveness;
pub mod migrations;
pub mod nav;
pub mod query;
pub mod request;
pub mod session;
pub mod text;
pub mod user;
