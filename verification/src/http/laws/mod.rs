//! What holds of every request that goes out and of every response that is kept,
//! whatever they hold.

pub mod auth;
pub mod entries;
pub mod headers;
pub mod paths;
pub mod requests;
pub mod responses;
pub mod secrets;
pub mod stamps;
pub mod variables;
