use runner2::error::Error;
use runner2::file::Platform;
use runner2::launcher::{path_has_app_extension, Launcher};
use runner2::network::{connection_attempt_ok, content_urls_url, latest_version_url};

#[test]
fn test_app_extension_detection() {
    assert!(path_has_app_extension("/Applications/Game.app"));
    assert!(path_has_app_extension("dir/a.b.app"));
    assert!(!path_has_app_extension("/opt/x/patcher"));
    assert!(!path_has_app_extension("/opt/x/patcher.exe"));
    // A hidden file whose whole name is the extension has no extension.
    assert!(!path_has_app_extension("/opt/x/.app"));
}

#[test]
fn test_plan_invocation_bundle_uses_opener() {
    let launcher = Launcher::new();
    let args = vec!["--a".to_string(), "1".to_string()];
    let plan = launcher.plan_invocation(Platform::MacOs, "Game.app", "/abs/Game.app", &args);
    assert_eq!(plan.program, "/usr/bin/open");
    assert_eq!(plan.args, vec!["Game.app", "--args", "--a", "1"]);
    assert!(plan.wait_for_exit);

    let plan = launcher.plan_invocation(Platform::MacOs, "Game.app", "/abs/Game.app", &Vec::new());
    assert_eq!(plan.args, vec!["Game.app"]);
}

#[test]
fn test_plan_invocation_direct_run() {
    let launcher = Launcher::new();
    let args = vec!["--x".to_string()];
    let plan = launcher.plan_invocation(Platform::Other, "patcher", "/abs/patcher", &args);
    assert_eq!(plan.program, "/abs/patcher");
    assert_eq!(plan.args, vec!["--x"]);
    assert!(plan.wait_for_exit);

    // The spawning platform does not wait.
    let plan = launcher.plan_invocation(Platform::Windows, "patcher", "/abs/patcher.exe", &args);
    assert_eq!(plan.program, "/abs/patcher.exe");
    assert!(!plan.wait_for_exit);

    // A bundle path outside the bundle platform runs directly.
    let plan = launcher.plan_invocation(Platform::Other, "Game.app", "/abs/Game.app", &args);
    assert_eq!(plan.program, "/abs/Game.app");
}

#[test]
fn test_service_urls() {
    assert_eq!(
        latest_version_url("https://api.example", "sec"),
        "https://api.example/1/apps/sec/versions/latest/id"
    );
    assert_eq!(
        content_urls_url("https://api.example", "sec", "7"),
        "https://api.example/1/apps/sec/versions/7/content_urls"
    );
}

#[test]
fn test_connection_attempt_rules() {
    // The primary endpoint needs a success status and an `ok` body.
    assert!(connection_attempt_ok(true, true, Some("ok")));
    assert!(connection_attempt_ok(true, true, Some("  ok\n")));
    assert!(!connection_attempt_ok(true, true, Some("nope")));
    assert!(!connection_attempt_ok(true, true, None));
    assert!(!connection_attempt_ok(true, false, Some("ok")));
    // Any other endpoint only needs the status.
    assert!(connection_attempt_ok(false, true, None));
    assert!(!connection_attempt_ok(false, false, None));
}

#[test]
fn test_error_messages() {
    assert_eq!(Error::Io("boom".to_string()).message(), "I/O error: boom");
    assert_eq!(Error::Manifest("bad".to_string()).message(), "Manifest error: bad");
    assert_eq!(Error::Other("plain".to_string()).message(), "plain");
}
