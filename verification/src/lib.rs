//! Routing and rewriting core of a small HTTP reverse proxy.

pub mod args;
pub mod audit;
pub mod config;
pub mod headers;
pub mod proxy;
pub mod text;
pub mod uri;
