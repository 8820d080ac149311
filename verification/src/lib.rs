//! The logic of a Hacker News client, each function with a contract that
//! Verus checks.
//!
//! At its core stands the fetch layer, which serves story lists, stories and
//! comments over an unreliable network: a cache whose entries expire and
//! stay available as a stale fallback ([`cache`]), the policy of retries
//! with exponential backoff ([`retry`]), the table of requests in flight
//! that lets callers of one URL share one fetch ([`inflight`]), the handling
//! of batches ([`batch`]) and the decisions of the fetch service that
//! composes them ([`api`]). The library decides; its caller sends the
//! requests, waits and sleeps, and reports what came of it.
//!
//! Around it stand the smaller parts of the application: the stories that
//! are shown ([`stories`]), bookmarks, viewing history and search history
//! ([`bookmarks`], [`history`], [`search`]), notifications
//! ([`notification`]), the log buffer ([`log_buffer`]), settings and key
//! bindings ([`config`], [`events`]), theme names and colors ([`theme`],
//! [`theme_export`]), and the script of the web view ([`webview`]).

pub mod api;
pub mod batch;
pub mod bookmarks;
pub mod cache;
pub mod clock;
pub mod config;
pub mod error;
pub mod events;
pub mod history;
pub mod inflight;
pub mod json;
pub mod log_buffer;
pub mod markdown;
pub mod models;
pub mod network;
pub mod notification;
pub mod retry;
pub mod search;
pub mod stories;
pub mod text;
pub mod theme;
pub mod theme_export;
pub mod webview;
