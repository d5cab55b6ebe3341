//! The subcommands: their arguments and the decisions each one makes.

pub mod auth;
pub mod discover;
pub mod events;
pub mod issues;
pub mod metrics;
pub mod monitors;
pub mod orgs;
pub mod projects;
pub mod releases;
pub mod config;
pub mod tail;
