//! Patch lifecycle engine for a desktop application's UI patches.
//!
//! The library decides; the caller touches the disk. Every operation is a
//! small state machine that hands out one request at a time and is handed the
//! outcome back.

pub mod clean;
pub mod deploy;
pub mod embedded;
pub mod engine;
pub mod escalation;
pub mod i18n;
pub mod json;
pub mod laws;
pub mod layout;
pub mod manifest;
pub mod model;
pub mod numbers;
pub mod paths;
pub mod plan;
pub mod protocol;
pub mod rewrite;
pub mod text;
pub mod version;
