//! Stela's verified core: the rules a single-binary blog engine applies to
//! its posts, its feed, its admin routes and its sessions.

pub mod slug;
pub mod post;
pub mod markdown;
pub mod text;
pub mod order;
pub mod feed;
pub mod chars;
pub mod cookie;
pub mod token;
pub mod reply;
pub mod admin;
pub mod routes;
pub mod script;
pub mod laws;
