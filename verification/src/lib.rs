//! Core of the GitLab time-tracking daemon: caches, retry queue, session and
//! sync state machines, and the decisions behind every varlink method.

pub mod api;
pub mod boards;
pub mod cache;
pub mod config;
pub mod daemon;
pub mod db;
pub mod error;
pub mod gitlab;
pub mod handlers;
pub mod history;
pub mod json;
pub mod order;
pub mod queue;
pub mod reconnect;
pub mod refresh_meta;
pub mod reload;
pub mod search;
pub mod secrets;
pub mod server;
pub mod service;
pub mod text;
pub mod time;
