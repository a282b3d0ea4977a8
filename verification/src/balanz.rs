//! The `/quotes` service: configuration, login and token refresh, the
//! websocket quote collection and the retry policy around it.

pub mod auth;
pub mod config;
pub mod service;
pub mod ws;
