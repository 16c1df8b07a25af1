//! Verified core of a command-line client for the Copilot Money service.

pub mod text;
pub mod dates;
pub mod client;
pub mod cli;
pub mod transactions;
pub mod config;
pub mod render;
pub mod categories;
pub mod table;
pub mod edits;
pub mod paging;
pub mod auth;
pub mod reports;
pub mod laws;
