//! What holds of requests, documents, texts and what is drawn, whatever they hold.

pub mod cli;
pub mod docs_tab;
pub mod highlight;
pub mod model;
pub mod numbers;
pub mod pointers;
pub mod screen;
pub mod store;
pub mod text;
