//! Data emitted by the file-watching layer. The background event pump in
//! the surrounding application converts raw filesystem notifications into
//! these values and filters them with the rules of `files`.

use vstd::prelude::*;

verus! {

/// A higher-level change notification for the UI layer.
#[derive(Debug, Clone)]
pub struct FileChangeEvent {
    pub path: String,
    pub event_type: String,
    pub timestamp: String,
}

/// Metadata snapshot for one file, as the watcher commands report it.
#[derive(Debug)]
pub struct FileMetadata {
    pub path: String,
    pub size: u64,
    pub modified: String,
    pub is_file: bool,
    pub is_dir: bool,
}

} // verus!
