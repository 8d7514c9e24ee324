//! Publishing a multi-crate workspace in dependency order.
//!
//! The library parses workspace and crate manifests, derives the publish
//! order from the position of path dependencies in the workspace manifest,
//! checks cross-crate consistency and drives the publish sequence as a
//! state machine whose actions are carried out by the caller.
pub mod errors;
pub mod text;
pub mod document;
pub mod workspace;
pub mod publisher;
pub mod validate;
pub mod sequencer;
pub mod paths;
