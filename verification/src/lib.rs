//! Keeps an HTTP client able to reach a forum that turns automated clients
//! away, and shows the forum's posts as chat messages.
//!
//! Where the forum answers a request with a block, a solving service is
//! asked for cookies and headers that the forum takes; they go into a
//! session state, and the request is sent once more. What to send, what to
//! keep and when to give up is decided in these modules; sending and
//! waiting are left to the caller.

pub mod cookie;
pub mod database;
pub mod discord;
pub mod error;
pub mod headers;
pub mod html;
pub mod json;
pub mod links;
pub mod md;
pub mod pipeline;
pub mod session;
pub mod solver;
pub mod text;
pub mod utils;
