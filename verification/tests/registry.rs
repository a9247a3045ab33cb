use mdreader_core::registry::AppState;
use notify::Config;
use notify::RecommendedWatcher;
use notify::Watcher;
use std::sync::mpsc::channel;

/// Helper to create a test watcher
fn create_test_watcher() -> RecommendedWatcher {
    let (tx, _rx) = channel();
    RecommendedWatcher::new(
        move |_res| {
            tx.send(()).ok();
        },
        Config::default(),
    )
    .expect("Failed to create watcher")
}

// -------------------------------------------------------------------------
// Workspace Path Tests
// -------------------------------------------------------------------------

#[test]
fn test_set_and_get_workspace_path() {
    let mut state = AppState::new();

    // Initially no workspace
    assert!(state.get_workspace_path().is_err());
    assert!(!state.has_workspace());

    // Set workspace
    state
        .set_workspace_path("/test/workspace".to_string())
        .unwrap();

    // Now has workspace
    assert!(state.has_workspace());
    assert_eq!(state.get_workspace_path().unwrap(), "/test/workspace");
}

#[test]
fn test_clear_workspace_path() {
    let mut state = AppState::new();

    state
        .set_workspace_path("/test/workspace".to_string())
        .unwrap();
    assert!(state.has_workspace());

    state.clear_workspace_path().unwrap();
    assert!(!state.has_workspace());
}

#[test]
fn test_workspace_path_override() {
    let mut state = AppState::new();

    state.set_workspace_path("/first/path".to_string()).unwrap();
    assert_eq!(state.get_workspace_path().unwrap(), "/first/path");

    state
        .set_workspace_path("/second/path".to_string())
        .unwrap();
    assert_eq!(state.get_workspace_path().unwrap(), "/second/path");
}

// -------------------------------------------------------------------------
// Watcher Registry Tests
// -------------------------------------------------------------------------

#[test]
fn test_register_watcher() {
    let mut state = AppState::new();
    let watcher = create_test_watcher();

    // Initially no watchers
    assert_eq!(state.watcher_count(), 0);

    // Register watcher
    let replaced = state
        .register_watcher("/test/dir".to_string(), watcher)
        .unwrap();

    assert!(!replaced);
    assert_eq!(state.watcher_count(), 1);
    assert!(state.has_watcher("/test/dir"));
}

#[test]
fn test_replace_watcher() {
    let mut state = AppState::new();

    // Register first watcher
    let watcher1 = create_test_watcher();
    let replaced1 = state
        .register_watcher("/test/dir".to_string(), watcher1)
        .unwrap();
    assert!(!replaced1);

    // Register second watcher for same path (replaces first)
    let watcher2 = create_test_watcher();
    let replaced2 = state
        .register_watcher("/test/dir".to_string(), watcher2)
        .unwrap();
    assert!(replaced2);

    // Still only one watcher
    assert_eq!(state.watcher_count(), 1);
}

#[test]
fn test_remove_watcher() {
    let mut state = AppState::new();
    let watcher = create_test_watcher();

    state
        .register_watcher("/test/dir".to_string(), watcher)
        .unwrap();
    assert_eq!(state.watcher_count(), 1);

    // Remove watcher
    let removed = state.remove_watcher("/test/dir").unwrap();
    assert!(removed);
    assert_eq!(state.watcher_count(), 0);
    assert!(!state.has_watcher("/test/dir"));

    // Remove again (should return false)
    let removed_again = state.remove_watcher("/test/dir").unwrap();
    assert!(!removed_again);
}

#[test]
fn test_clear_all_watchers() {
    let mut state = AppState::new();

    // Register multiple watchers
    state
        .register_watcher("/dir1".to_string(), create_test_watcher())
        .unwrap();
    state
        .register_watcher("/dir2".to_string(), create_test_watcher())
        .unwrap();
    state
        .register_watcher("/dir3".to_string(), create_test_watcher())
        .unwrap();

    assert_eq!(state.watcher_count(), 3);

    // Clear all
    let cleared = state.clear_all_watchers().unwrap();
    assert_eq!(cleared, 3);
    assert_eq!(state.watcher_count(), 0);
}

#[test]
fn test_get_watched_directories() {
    let mut state = AppState::new();

    state
        .register_watcher("/dir1".to_string(), create_test_watcher())
        .unwrap();
    state
        .register_watcher("/dir2".to_string(), create_test_watcher())
        .unwrap();

    let dirs = state.get_watched_directories().unwrap();
    assert_eq!(dirs.len(), 2);
    assert!(dirs.contains(&"/dir1".to_string()));
    assert!(dirs.contains(&"/dir2".to_string()));
}

#[test]
fn test_watcher_event_count() {
    let mut state = AppState::new();
    state
        .register_watcher("/test".to_string(), create_test_watcher())
        .unwrap();

    // Initial count is 0
    let stats = state.get_watcher_stats("/test").unwrap().unwrap();
    assert_eq!(stats.event_count, 0);

    // Increment
    state.increment_watcher_event_count("/test").unwrap();
    state.increment_watcher_event_count("/test").unwrap();

    let stats = state.get_watcher_stats("/test").unwrap().unwrap();
    assert_eq!(stats.event_count, 2);
}

#[test]
fn test_watcher_stats() {
    let mut state = AppState::new();
    state
        .register_watcher("/test".to_string(), create_test_watcher())
        .unwrap();

    let stats = state.get_watcher_stats("/test").unwrap();
    assert!(stats.is_some());

    let stats = stats.unwrap();
    assert_eq!(stats.path, "/test");
    assert!(stats.uptime_seconds >= 0);
}

#[test]
fn test_nonexistent_watcher_stats() {
    let state = AppState::new();

    let stats = state.get_watcher_stats("/nonexistent").unwrap();
    assert!(stats.is_none());
}

// -------------------------------------------------------------------------
// Additional registry behavior
// -------------------------------------------------------------------------

#[test]
fn test_register_twice_counts_one_entry() {
    // Same key registered twice: no replacement, then a replacement, and
    // still exactly one entry.
    let mut state = AppState::new();
    let first = state
        .register_watcher("/ws".to_string(), create_test_watcher())
        .unwrap();
    let second = state
        .register_watcher("/ws".to_string(), create_test_watcher())
        .unwrap();
    assert!(!first);
    assert!(second);
    assert_eq!(state.watcher_count(), 1);
}

#[test]
fn test_clear_all_on_empty_registry() {
    let mut state = AppState::new();
    assert_eq!(state.clear_all_watchers().unwrap(), 0);
    assert_eq!(state.watcher_count(), 0);
}

#[test]
fn test_clear_then_count_after_mixed_operations() {
    let mut state = AppState::new();
    state
        .register_watcher("/a".to_string(), create_test_watcher())
        .unwrap();
    state
        .register_watcher("/b".to_string(), create_test_watcher())
        .unwrap();
    state.remove_watcher("/a").unwrap();
    state
        .register_watcher("/c".to_string(), create_test_watcher())
        .unwrap();
    state.clear_all_watchers().unwrap();
    assert_eq!(state.watcher_count(), 0);
}

#[test]
fn test_increment_missing_watcher_fails() {
    let mut state = AppState::new();
    let result = state.increment_watcher_event_count("/gone");
    assert_eq!(result.unwrap_err(), "No watcher found for: /gone");
}

#[test]
fn test_replace_resets_event_count() {
    let mut state = AppState::new();
    state
        .register_watcher("/d".to_string(), create_test_watcher())
        .unwrap();
    state.increment_watcher_event_count("/d").unwrap();
    state
        .register_watcher("/d".to_string(), create_test_watcher())
        .unwrap();
    let stats = state.get_watcher_stats("/d").unwrap().unwrap();
    assert_eq!(stats.event_count, 0);
}
