//! Verified domain core of the KeySight knowledge vault.

pub mod errors;
pub mod models;
pub mod text;
pub mod parser;
pub mod naming;
pub mod project;
pub mod plans;
pub mod sync;
pub mod graph;
pub mod suppression;
pub mod vault;
pub mod auth;
pub mod legacy;
pub mod watch;
pub mod config;
pub mod endpoint;
pub mod perf;
pub mod card;
pub mod search;
pub mod todo;
pub mod mutate;
pub mod overview;
