//! The command line client: what it reads from and writes to its user.

pub mod events;
pub mod export;
pub mod fields;
pub mod paths;
pub mod rooms;
pub mod shell;
pub mod tables;
pub mod wait;
