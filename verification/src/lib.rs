//! Decision logic of the Balanz MEP quote service: which bond quotes a
//! websocket message fills in, when a quote collection is complete, how
//! login and token refresh proceed, and when a request is retried.
//!
//! The network, the database and the HTTP server live in the binary; this
//! library receives their results as plain values and says what to do next.

pub mod error;
pub mod text;
pub mod quotes;
pub mod root_service;
pub mod balanz;
