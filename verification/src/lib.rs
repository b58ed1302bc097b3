//! Chat rooms for cooperating agents.

pub mod auth;
pub mod cli;
pub mod connection;
pub mod ephemeral;
pub mod handler;
pub mod ids;
pub mod json;
pub mod models;
pub mod protocol;
pub mod rows;
pub mod server;
pub mod store;
pub mod tasks;
pub mod text;
pub mod time;
