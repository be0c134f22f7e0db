//! What the parts of the client are for, as laws on what goes in and what comes out.
//!
//! Each law speaks of the values that a function's contract names and of literal bytes, texts and
//! numbers, so that it holds of the function whatever way its contract is put.

pub mod commands;
pub mod device;
pub mod downloads;
pub mod functions;
pub mod interface;
pub mod joining;
pub mod packets;
pub mod printer;
pub mod provisioning;
pub mod reports;
pub mod server;
pub mod session;
pub mod settings;
pub mod texts;
pub mod wireless;
