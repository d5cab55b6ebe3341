//! Read-side library for a Sentry command-line client: credential
//! resolution, configuration profiles, relative time specs, HTTP paging and
//! retry decisions, output rendering, and the per-command request logic.

pub mod text;
pub mod json;
pub mod keys;
pub mod config;
pub mod auth;
pub mod http;
pub mod time;
pub mod output;
pub mod query;
pub mod commands;
pub mod logging;
