//! OpenAPI 3.x (3.0 and 3.1, JSON or YAML) loading and conversion into
//! collections.
//!
//! A description is read into a plain document tree rather than a strict model
//! of the format, so that unknown fields and the differences between 3.0 and
//! 3.1 are tolerated.

pub mod docs;
pub mod examples;
pub mod import;
pub mod laws;
pub mod loader;
pub mod resolve;

pub use import::import_spec;
pub use loader::parse_spec;
