//! What each action does to the state, whatever the state is.

pub mod bodies;
pub mod commands;
pub mod edits;
pub mod keys;
pub mod requests;
pub mod session;
