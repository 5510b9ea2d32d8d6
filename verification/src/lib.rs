//! Collections of HTTP requests: editing them with vim-style keys, importing
//! them from API descriptions, and working out what to send.

pub mod app;
pub mod cli;
pub mod highlight;
pub mod http;
pub mod ids;
pub mod input;
pub mod json;
pub mod keys;
pub mod laws;
pub mod model;
pub mod openapi;
pub mod store;
pub mod style;
pub mod text;
pub mod ui;
