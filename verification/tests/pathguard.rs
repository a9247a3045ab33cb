use mdreader_core::errors::ValidationError;
use mdreader_core::sanitize::sanitize_filename;
use mdreader_core::traversal::contains_traversal_pattern;
use mdreader_core::validate::validate_directory_path;
use mdreader_core::validate::validate_file_path;
use mdreader_core::validate::validate_path_within_workspace;
use tempfile::NamedTempFile;
use tempfile::TempDir;

/// A workspace laid out on disk for one test; the handles keep the
/// entries alive until the test ends.
struct TestWorkspace {
    root: TempDir,
    _dirs: Vec<TempDir>,
    _files: Vec<NamedTempFile>,
}

fn make_dir(parent: &std::path::Path, name: &str) -> TempDir {
    tempfile::Builder::new()
        .prefix(name)
        .rand_bytes(0)
        .tempdir_in(parent)
        .expect("Failed to create dir")
}

fn make_file(parent: &std::path::Path, name: &str, suffix: &str) -> NamedTempFile {
    tempfile::Builder::new()
        .prefix(name)
        .suffix(suffix)
        .rand_bytes(0)
        .tempfile_in(parent)
        .expect("Failed to create file")
}

/// Helper to create a test workspace with files
fn setup_test_workspace() -> TestWorkspace {
    let root = TempDir::new().expect("Failed to create temp dir");
    let notes = make_dir(root.path(), "notes");
    let projects = make_dir(root.path(), "projects");
    let f1 = make_file(root.path(), "test", ".md");
    let f2 = make_file(notes.path(), "todo", ".md");
    TestWorkspace {
        root,
        _dirs: vec![notes, projects],
        _files: vec![f1, f2],
    }
}

// -------------------------------------------------------------------------
// validate_path_within_workspace tests
// -------------------------------------------------------------------------

#[test]
fn test_valid_path_in_workspace_root() {
    let workspace = setup_test_workspace();
    let workspace_path = workspace.root.path().to_str().unwrap();
    let file_path = workspace.root.path().join("test.md");

    let result = validate_path_within_workspace(file_path.to_str().unwrap(), workspace_path);

    assert!(result.is_ok());
    assert!(result.unwrap().ends_with("test.md"));
}

#[test]
fn test_valid_path_in_subdirectory() {
    let workspace = setup_test_workspace();
    let workspace_path = workspace.root.path().to_str().unwrap();
    let file_path = workspace.root.path().join("notes/todo.md");

    let result = validate_path_within_workspace(file_path.to_str().unwrap(), workspace_path);

    assert!(result.is_ok());
}

#[test]
fn test_path_traversal_attack_blocked() {
    let workspace = setup_test_workspace();
    let workspace_path = workspace.root.path().to_str().unwrap();

    // Attempt to escape workspace using ../
    let attack_path = format!("{}/../../../etc/passwd", workspace_path);

    let result = validate_path_within_workspace(&attack_path, workspace_path);

    assert!(result.is_err());
    match result {
        Err(ValidationError::InvalidPathPattern { .. }) => (),
        other => panic!("Expected InvalidPathPattern, got {:?}", other),
    }
}

#[test]
fn test_path_outside_workspace_blocked() {
    let workspace = setup_test_workspace();
    let workspace_path = workspace.root.path().to_str().unwrap();

    // Try to access a path completely outside workspace
    let outside_path = "/etc/passwd";

    let result = validate_path_within_workspace(outside_path, workspace_path);

    assert!(result.is_err());
}

#[test]
fn test_nonexistent_file_in_valid_directory() {
    let workspace = setup_test_workspace();
    let workspace_path = workspace.root.path().to_str().unwrap();
    let new_file = workspace.root.path().join("notes/new_file.md");

    let result = validate_path_within_workspace(new_file.to_str().unwrap(), workspace_path);

    // Should succeed - parent exists and path is within workspace
    assert!(result.is_ok());
}

#[test]
fn test_nonexistent_parent_directory_fails() {
    let workspace = setup_test_workspace();
    let workspace_path = workspace.root.path().to_str().unwrap();
    let bad_path = workspace.root.path().join("nonexistent/dir/file.md");

    let result = validate_path_within_workspace(bad_path.to_str().unwrap(), workspace_path);

    assert!(result.is_err());
    match result {
        Err(ValidationError::PathResolutionFailed { .. }) => (),
        other => panic!("Expected PathResolutionFailed, got {:?}", other),
    }
}

#[test]
fn test_invalid_workspace_root() {
    let workspace = setup_test_workspace();
    let file_path = workspace.root.path().join("test.md");

    let result =
        validate_path_within_workspace(file_path.to_str().unwrap(), "/nonexistent/workspace");

    assert!(result.is_err());
    match result {
        Err(ValidationError::InvalidWorkspaceRoot { .. }) => (),
        other => panic!("Expected InvalidWorkspaceRoot, got {:?}", other),
    }
}

#[test]
fn test_url_encoded_traversal_blocked() {
    let workspace = setup_test_workspace();
    let workspace_path = workspace.root.path().to_str().unwrap();

    let attack_paths = vec![
        format!("{}%2f..%2f..%2fetc%2fpasswd", workspace_path),
        format!("{}..%2f..%2fetc%2fpasswd", workspace_path),
    ];

    for attack_path in attack_paths {
        let result = validate_path_within_workspace(&attack_path, workspace_path);
        assert!(result.is_err(), "Should block: {}", attack_path);
    }
}

// -------------------------------------------------------------------------
// validate_file_path tests
// -------------------------------------------------------------------------

#[test]
fn test_valid_markdown_file() {
    let workspace = setup_test_workspace();
    let workspace_path = workspace.root.path().to_str().unwrap();
    let file_path = workspace.root.path().join("test.md");

    let result = validate_file_path(file_path.to_str().unwrap(), workspace_path, &vec!["md"]);

    assert!(result.is_ok());
}

#[test]
fn test_invalid_extension_blocked() {
    let workspace = setup_test_workspace();
    let workspace_path = workspace.root.path().to_str().unwrap();

    // Create a .exe file
    let exe = make_file(workspace.root.path(), "malicious", ".exe");
    let exe_path = exe.path().to_path_buf();

    let result = validate_file_path(
        exe_path.to_str().unwrap(),
        workspace_path,
        &vec!["md", "txt"],
    );

    assert!(result.is_err());
    match result {
        Err(ValidationError::InvalidPathPattern { reason, .. }) => {
            assert!(reason.contains("extension"));
        }
        other => panic!("Expected InvalidPathPattern, got {:?}", other),
    }
}

#[test]
fn test_multiple_allowed_extensions() {
    let workspace = setup_test_workspace();
    let workspace_path = workspace.root.path().to_str().unwrap();

    // Create test files
    let md = make_file(workspace.root.path(), "doc", ".md");
    let txt = make_file(workspace.root.path(), "notes", ".txt");

    let allowed = vec!["md", "txt", "markdown"];

    assert!(validate_file_path(md.path().to_str().unwrap(), workspace_path, &allowed).is_ok());
    assert!(validate_file_path(txt.path().to_str().unwrap(), workspace_path, &allowed).is_ok());
}

#[test]
fn test_extension_match_is_case_insensitive() {
    let workspace = setup_test_workspace();
    let workspace_path = workspace.root.path().to_str().unwrap();

    let upper = make_file(workspace.root.path(), "upper", ".MD");
    let lower = make_file(workspace.root.path(), "lower", ".md");

    assert!(validate_file_path(upper.path().to_str().unwrap(), workspace_path, &vec!["md"]).is_ok());
    assert!(validate_file_path(lower.path().to_str().unwrap(), workspace_path, &vec!["MD"]).is_ok());
}

#[test]
fn test_no_extension_rejected_with_nonempty_allowlist() {
    let workspace = setup_test_workspace();
    let workspace_path = workspace.root.path().to_str().unwrap();

    let plain = make_file(workspace.root.path(), "noext", "");

    let result = validate_file_path(plain.path().to_str().unwrap(), workspace_path, &vec!["md"]);
    match result {
        Err(ValidationError::InvalidPathPattern { .. }) => (),
        other => panic!("Expected InvalidPathPattern, got {:?}", other),
    }
}

// -------------------------------------------------------------------------
// validate_directory_path tests
// -------------------------------------------------------------------------

#[test]
fn test_valid_existing_directory() {
    let workspace = setup_test_workspace();
    let workspace_path = workspace.root.path().to_str().unwrap();
    let dir_path = workspace.root.path().join("notes");

    let result = validate_directory_path(
        dir_path.to_str().unwrap(),
        workspace_path,
        true, // must_exist
    );

    assert!(result.is_ok());
}

#[test]
fn test_nonexistent_directory_must_exist_fails() {
    let workspace = setup_test_workspace();
    let workspace_path = workspace.root.path().to_str().unwrap();
    let dir_path = workspace.root.path().join("nonexistent_dir");

    let result = validate_directory_path(
        dir_path.to_str().unwrap(),
        workspace_path,
        true, // must_exist
    );

    assert!(result.is_err());
}

// -------------------------------------------------------------------------
// contains_traversal_pattern tests
// -------------------------------------------------------------------------

#[test]
fn test_traversal_pattern_detection() {
    assert!(contains_traversal_pattern("../etc/passwd"));
    assert!(contains_traversal_pattern("..\\windows\\system32"));
    assert!(contains_traversal_pattern("/path/to/../../../etc"));
    assert!(contains_traversal_pattern("..%2fetc"));
    assert!(contains_traversal_pattern("%2e%2e/etc"));

    // These should NOT match
    assert!(!contains_traversal_pattern("/normal/path/file.md"));
    assert!(!contains_traversal_pattern("file.md"));
    assert!(!contains_traversal_pattern("my..file.md")); // dots in filename ok
}

// -------------------------------------------------------------------------
// sanitize_filename tests
// -------------------------------------------------------------------------

#[test]
fn test_sanitize_normal_filename() {
    assert_eq!(sanitize_filename("document.md"), "document.md");
    assert_eq!(sanitize_filename("My Notes.md"), "My Notes.md");
}

#[test]
fn test_sanitize_invalid_characters() {
    assert_eq!(sanitize_filename("file<>:\"/\\|?*.md"), "file_________.md");
    assert_eq!(sanitize_filename("path/to/file.md"), "path_to_file.md");
}

#[test]
fn test_sanitize_leading_trailing() {
    assert_eq!(sanitize_filename("  .hidden.md  "), "hidden.md");
    assert_eq!(sanitize_filename("...file.md"), "file.md");
}

#[test]
fn test_sanitize_empty_filename() {
    assert_eq!(sanitize_filename(""), "unnamed");
    assert_eq!(sanitize_filename("   "), "unnamed");
    assert_eq!(sanitize_filename("..."), "unnamed");
}

#[test]
fn test_sanitize_long_filename() {
    let long_name = "a".repeat(300);
    let sanitized = sanitize_filename(&long_name);
    assert!(sanitized.len() <= 200);
}

#[test]
fn test_sanitize_traversal_fragment() {
    // No separator survives and no leading dot survives.
    assert_eq!(sanitize_filename("../../etc/passwd"), "_.._etc_passwd");
}

// -------------------------------------------------------------------------
// Error display tests
// -------------------------------------------------------------------------

#[test]
fn test_error_display() {
    let err = ValidationError::PathOutsideWorkspace {
        requested: "/etc/passwd".to_string(),
        workspace: "/home/user/docs".to_string(),
    };

    let display = err.message();
    assert!(display.contains("outside workspace"));
    assert!(display.contains("/etc/passwd"));
}

#[test]
fn test_error_messages_embed_details() {
    let e1 = ValidationError::PathResolutionFailed {
        path: "/ws/missing/f.md".to_string(),
        reason: "Parent directory does not exist".to_string(),
    };
    assert_eq!(
        e1.message(),
        "Invalid path '/ws/missing/f.md': Parent directory does not exist"
    );

    let e2 = ValidationError::InvalidWorkspaceRoot {
        path: "/nowhere".to_string(),
        reason: "Workspace directory does not exist".to_string(),
    };
    assert_eq!(
        e2.message(),
        "Invalid workspace root '/nowhere': Workspace directory does not exist"
    );

    let e3 = ValidationError::InvalidPathPattern {
        path: "../x".to_string(),
        reason: "Path contains directory traversal patterns".to_string(),
    };
    assert_eq!(
        e3.message(),
        "Invalid path pattern '../x': Path contains directory traversal patterns"
    );
}
