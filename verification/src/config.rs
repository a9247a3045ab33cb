//! The persisted workspace configuration in its current form. The
//! surrounding application serializes it; the core only carries the plain
//! values.

use vstd::prelude::*;

verus! {

/// Workspace configuration with bookkeeping timestamps.
#[derive(Debug, Clone)]
pub struct WorkspaceConfig {
    pub workspace_path: String,
    pub recent_files: Vec<String>,
    pub last_opened: Option<String>,
    pub created_at: String,
    pub updated_at: String,
}

} // verus!
