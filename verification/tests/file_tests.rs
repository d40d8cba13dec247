use runner2::file::{FileManager, LockDecision, Platform, RemovalAction, VersionInfo};

#[test]
fn test_version_info_parsing() {
    // Test valid format
    let info = VersionInfo::from_string("secret123:1.0.0").unwrap();
    assert_eq!(info.patcher_secret, "secret123");
    assert_eq!(info.version, "1.0.0");

    // Test invalid format
    assert!(VersionInfo::from_string("invalid_format").is_none());
    assert!(VersionInfo::from_string("too:many:parts").is_none());

    // Test to_string
    let info = VersionInfo::new("1.0.0".to_string(), "secret123".to_string());
    assert_eq!(info.to_string(), "secret123:1.0.0");
}

#[test]
fn test_version_info_trims_whitespace() {
    let info = VersionInfo::from_string("  abc:2.1\n").unwrap();
    assert_eq!(info.patcher_secret, "abc");
    assert_eq!(info.version, "2.1");
}

#[test]
fn test_version_round_trip() {
    let info = VersionInfo::new("1.0.0".to_string(), "S1".to_string());
    let reparsed = VersionInfo::from_string(&info.to_string()).unwrap();
    assert_eq!(reparsed.patcher_secret, "S1");
    assert_eq!(reparsed.version, "1.0.0");
}

fn manager() -> FileManager {
    FileManager::new(Platform::Other, "/base", "test123")
}

#[test]
fn test_needs_update_cases() {
    let m = manager();
    let current = Some(VersionInfo::new("1.0.0".to_string(), "test_secret".to_string()));
    // No stored version: always update.
    assert!(m.needs_update(&None, "1.0.0", "test_secret"));
    // Same version, same secret: no update.
    assert!(!m.needs_update(&current, "1.0.0", "test_secret"));
    // Different version, same secret.
    assert!(m.needs_update(&current, "2.0.0", "test_secret"));
    // Same version, different secret.
    assert!(m.needs_update(&current, "1.0.0", "new_secret"));
    // Different version, different secret.
    assert!(m.needs_update(&current, "2.0.0", "new_secret"));
}

#[test]
fn test_get_current_version_absent_or_malformed() {
    let m = manager();
    assert!(m.get_current_version(None).is_none());
    assert!(m.get_current_version(Some("old-format-line")).is_none());
    let v = m.get_current_version(Some("s:1")).unwrap();
    assert_eq!(v.patcher_secret, "s");
    assert_eq!(v.version, "1");
}

#[test]
fn test_directory_resolution() {
    let mac = FileManager::new(Platform::MacOs, "/Users/u/Library", "slug1234");
    assert_eq!(mac.get_install_dir(), "/Users/u/Library/PatchKit/Apps/slug1234/Data");
    assert_eq!(
        FileManager::get_patcher_dir(Platform::MacOs, "/Users/u/Library", "slug1234"),
        "/Users/u/Library/PatchKit/Apps/slug1234/Patcher"
    );

    let other = FileManager::new(Platform::Other, "/opt/runner", "slug1234");
    assert_eq!(other.get_install_dir(), "/opt/runner/app");
    assert_eq!(
        FileManager::get_patcher_dir(Platform::Other, "/opt/runner", "slug1234"),
        "/opt/runner/Patcher"
    );
}

#[test]
fn test_state_file_paths() {
    let m = manager();
    assert_eq!(m.get_installed_files_path(), "/base/Patcher/installed_files.txt");
    assert_eq!(m.get_version_file_path(), "/base/Patcher/version.txt");
}

#[test]
fn test_ledger_text_round_trip() {
    let mut m = manager();
    m.load_installed_files("test_dir\ntest_dir/test1.txt\ntest2.txt\n");
    let plan = m.remove_old_files();
    assert_eq!(
        plan,
        vec![
            "/base/Patcher/test2.txt".to_string(),
            "/base/Patcher/test_dir/test1.txt".to_string(),
            "/base/Patcher/test_dir".to_string(),
        ]
    );
    let text = m.installed_files_text();
    assert_eq!(text, "test_dir\ntest_dir/test1.txt\ntest2.txt\n");
}

#[test]
fn test_ledger_load_strips_carriage_returns() {
    let mut m = manager();
    m.load_installed_files("a.txt\r\nb.txt\r\n");
    let plan = m.remove_old_files();
    assert_eq!(
        plan,
        vec!["/base/Patcher/b.txt".to_string(), "/base/Patcher/a.txt".to_string()]
    );
}

#[test]
fn test_ledger_text_skips_foreign_paths() {
    let mut m = manager();
    m.load_installed_files("kept.txt");
    // The loaded entry lies beneath the state directory and is kept; a path
    // outside it would be left out of the serialised text.
    assert_eq!(m.installed_files_text(), "kept.txt\n");
}

#[test]
fn test_removal_action_rules() {
    let m = manager();
    assert_eq!(m.removal_action(true, false, false), RemovalAction::RemoveFile);
    assert_eq!(m.removal_action(false, true, true), RemovalAction::RemoveDir);
    assert_eq!(m.removal_action(false, true, false), RemovalAction::Keep);
    assert_eq!(m.removal_action(false, false, false), RemovalAction::Keep);
}

#[test]
fn test_lockfile_decisions() {
    let m = manager();
    // Nonexistent path: not locked, nothing to remove.
    assert_eq!(
        m.check_lockfile(false, None),
        LockDecision { locked: false, remove_stale: false }
    );
    // Fresh lock: locked.
    assert_eq!(
        m.check_lockfile(true, Some((1, 0))),
        LockDecision { locked: true, remove_stale: false }
    );
    // Exactly at the threshold: still locked.
    assert_eq!(
        m.check_lockfile(true, Some((60, 0))),
        LockDecision { locked: true, remove_stale: false }
    );
    // Beyond the threshold: stale, deleted, not locked.
    assert_eq!(
        m.check_lockfile(true, Some((61, 0))),
        LockDecision { locked: false, remove_stale: true }
    );
    assert_eq!(
        m.check_lockfile(true, Some((60, 1))),
        LockDecision { locked: false, remove_stale: true }
    );
    // Unreadable age: treated as held.
    assert_eq!(
        m.check_lockfile(true, None),
        LockDecision { locked: true, remove_stale: false }
    );
}
