//! A static-site generator core: parses per-project markdown documents with
//! structured metadata headers, derives asset paths by filename convention,
//! and composes one deterministic HTML portfolio page, together with the
//! ordered plan of filesystem effects needed to publish it.

pub mod compose;
pub mod escape;
pub mod generate;
pub mod laws;
pub mod loader;
pub mod markdown;
pub mod model;
pub mod order;
pub mod parse;
pub mod paths;
pub mod publish;
