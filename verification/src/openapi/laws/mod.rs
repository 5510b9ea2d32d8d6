//! What an import promises: how a description's operations, parameters, bodies
//! and docs relate to the requests of the collection.

pub mod docs;
pub mod examples;
pub mod media;
pub mod operations;
pub mod params;
