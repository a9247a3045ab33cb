//! Workspace sandboxing core for a local document editor.
//!
//! The crate has two independent parts: a path-validation engine that keeps
//! every file operation confined to a configured workspace root, and a
//! registry that owns native filesystem-watch handles, guaranteeing one live
//! handle per watched directory and deterministic release.

pub mod chars;
pub mod config;
pub mod errors;
pub mod events;
pub mod files;
pub mod registry;
pub mod resolve;
pub mod sanitize;
pub mod strutil;
pub mod traversal;
pub mod validate;
