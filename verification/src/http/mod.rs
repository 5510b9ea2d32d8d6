//! Composing requests, sending them under an auth scheme, and reading what
//! comes back.

pub mod calendar;
pub mod client;
pub mod laws;
pub mod oauth;
pub mod secret;
pub mod send;
pub mod url_input;
pub mod vars;

pub use client::{build_url, prepare_request, HttpResponse};
pub use oauth::{token_valid, OAuthToken};
pub use send::SendOutcome;
pub use url_input::{split_url_input, UrlParts};
pub use vars::{dynamic_vars, substitute};
