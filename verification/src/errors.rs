//! The closed error taxonomy of the path-validation engine.

use vstd::prelude::*;
use vstd::string::StringExecFns;

verus! {

/// Typed failure of a validation operation. Every failure is local and
/// recoverable by the caller; none is process-fatal.
#[derive(Debug, Clone, PartialEq)]
pub enum ValidationError {
    /// The resolved path is not a descendant of the workspace root.
    PathOutsideWorkspace { requested: String, workspace: String },
    /// The path or its parent cannot be resolved.
    PathResolutionFailed { path: String, reason: String },
    /// The configured workspace root is missing, not a directory, or not
    /// resolvable: a configuration problem, not an attack.
    InvalidWorkspaceRoot { path: String, reason: String },
    /// A pre-resolution traversal pattern was detected, or a disallowed
    /// file extension.
    InvalidPathPattern { path: String, reason: String },
}

/// Ghost mirror of `ValidationError`, over character sequences.
pub ghost enum ValidationErrorView {
    PathOutsideWorkspace { requested: Seq<char>, workspace: Seq<char> },
    PathResolutionFailed { path: Seq<char>, reason: Seq<char> },
    InvalidWorkspaceRoot { path: Seq<char>, reason: Seq<char> },
    InvalidPathPattern { path: Seq<char>, reason: Seq<char> },
}

impl View for ValidationError {
    type V = ValidationErrorView;

    open spec fn view(&self) -> ValidationErrorView {
        match self {
            ValidationError::PathOutsideWorkspace { requested, workspace } => {
                ValidationErrorView::PathOutsideWorkspace {
                    requested: requested@,
                    workspace: workspace@,
                }
            },
            ValidationError::PathResolutionFailed { path, reason } => {
                ValidationErrorView::PathResolutionFailed { path: path@, reason: reason@ }
            },
            ValidationError::InvalidWorkspaceRoot { path, reason } => {
                ValidationErrorView::InvalidWorkspaceRoot { path: path@, reason: reason@ }
            },
            ValidationError::InvalidPathPattern { path, reason } => {
                ValidationErrorView::InvalidPathPattern { path: path@, reason: reason@ }
            },
        }
    }
}

/// The human-readable description of an error.
pub open spec fn message_view(e: ValidationErrorView) -> Seq<char> {
    match e {
        ValidationErrorView::PathOutsideWorkspace { requested, workspace } => {
            "Access denied: path '"@ + requested + "' is outside workspace '"@ + workspace + "'"@
        },
        ValidationErrorView::PathResolutionFailed { path, reason } => {
            "Invalid path '"@ + path + "': "@ + reason
        },
        ValidationErrorView::InvalidWorkspaceRoot { path, reason } => {
            "Invalid workspace root '"@ + path + "': "@ + reason
        },
        ValidationErrorView::InvalidPathPattern { path, reason } => {
            "Invalid path pattern '"@ + path + "': "@ + reason
        },
    }
}

impl ValidationError {
    /// Renders the error for display, embedding the offending paths.
    pub fn message(&self) -> (r: String)
        ensures
            r@ == message_view(self@),
    {
        match self {
            ValidationError::PathOutsideWorkspace { requested, workspace } => {
                String::from_str("Access denied: path '").concat(requested.as_str()).concat(
                    "' is outside workspace '",
                ).concat(workspace.as_str()).concat("'")
            },
            ValidationError::PathResolutionFailed { path, reason } => {
                String::from_str("Invalid path '").concat(path.as_str()).concat("': ").concat(
                    reason.as_str(),
                )
            },
            ValidationError::InvalidWorkspaceRoot { path, reason } => {
                String::from_str("Invalid workspace root '").concat(path.as_str()).concat(
                    "': ",
                ).concat(reason.as_str())
            },
            ValidationError::InvalidPathPattern { path, reason } => {
                String::from_str("Invalid path pattern '").concat(path.as_str()).concat(
                    "': ",
                ).concat(reason.as_str())
            },
        }
    }
}

/// Result type for validation operations.
pub type ValidationResult<T> = Result<T, ValidationError>;

} // verus!
