//! Persistence core of a local-first journaling application.
//!
//! The heart of the crate is [`store::Store`], an embedded store of diary
//! entries with a versioned migration engine, a full-text shadow index kept
//! consistent with every mutation, derived writing-streak statistics, and an
//! import/export reconciler. Around it stand the plain data types the
//! surrounding application exchanges with the store, a model of the injected
//! secret store for API keys, and the small pure helpers of the AI and
//! text-to-speech front ends.

pub mod ai;
pub mod dates;
pub mod error;
mod external;
pub mod laws;
pub mod model;
pub mod models;
pub mod paths;
pub mod secrets;
pub mod stats;
pub mod store;
pub mod text;
pub mod tts;
