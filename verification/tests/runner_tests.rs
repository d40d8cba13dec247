use runner2::error::Error;
use runner2::file::VersionInfo;
use runner2::network::{ContentUrl, VersionId};
use runner2::runner::{
    app_slug, prepare_launch_variables, RunnerAction, RunnerEvent, RunnerPhase, UpdateOrchestrator,
};

fn orchestrator_with(stored: Option<VersionInfo>) -> UpdateOrchestrator {
    UpdateOrchestrator::new("appsecret0123".to_string(), "S1".to_string(), stored)
}

#[test]
fn test_up_to_date_path_skips_download() {
    // Stored version "S1:1.0.0"; the server reports version "1.0.0" under
    // secret "S1": no update is needed and the run goes straight to the
    // launch.
    let stored = VersionInfo::from_string("S1:1.0.0");
    let mut orch = orchestrator_with(stored);

    let a = orch.step(RunnerEvent::Started);
    assert!(matches!(a, RunnerAction::CheckConnection));

    let a = orch.step(RunnerEvent::ConnectionChecked(true));
    assert!(matches!(a, RunnerAction::FetchAppInfo { ref app_secret } if app_secret == "appsecret0123"));

    let a = orch.step(RunnerEvent::AppInfoFetched(Ok(Some("S1".to_string()))));
    assert!(matches!(a, RunnerAction::FetchVersion { ref patcher_secret } if patcher_secret == "S1"));

    let a = orch.step(RunnerEvent::VersionFetched(Ok("1.0.0".to_string())));
    assert!(matches!(a, RunnerAction::LaunchFromManifest));
    assert_eq!(orch.phase, RunnerPhase::Launching);

    let a = orch.step(RunnerEvent::Launched(Ok(())));
    assert!(matches!(a, RunnerAction::Finish));
    assert_eq!(orch.phase, RunnerPhase::Done);
}

#[test]
fn test_update_path_runs_full_sequence() {
    let stored = VersionInfo::from_string("S1:1.0.0");
    let mut orch = orchestrator_with(stored);

    orch.step(RunnerEvent::Started);
    orch.step(RunnerEvent::ConnectionChecked(true));
    // The app info lookup reports no override: the credential secret wins.
    let a = orch.step(RunnerEvent::AppInfoFetched(Ok(None)));
    assert!(matches!(a, RunnerAction::FetchVersion { ref patcher_secret } if patcher_secret == "S1"));

    // A newer version calls for the update path.
    let a = orch.step(RunnerEvent::VersionFetched(Ok("2.0.0".to_string())));
    assert!(
        matches!(a, RunnerAction::FetchContentUrls { ref patcher_secret, ref version }
            if patcher_secret == "S1" && version == "2.0.0")
    );

    let urls = vec![ContentUrl { size: 10, url: "https://cdn.example/pkg.zip".to_string() }];
    let a = orch.step(RunnerEvent::ContentUrlsFetched(Ok(urls)));
    assert!(matches!(a, RunnerAction::Download { ref url } if url == "https://cdn.example/pkg.zip"));

    let a = orch.step(RunnerEvent::Downloaded(Ok(())));
    assert!(matches!(a, RunnerAction::RemoveOldFiles));

    let a = orch.step(RunnerEvent::OldFilesRemoved);
    assert!(matches!(a, RunnerAction::ExtractPackage));

    let a = orch.step(RunnerEvent::Extracted(Ok(())));
    assert!(
        matches!(a, RunnerAction::SaveVersion { ref version, ref patcher_secret }
            if version == "2.0.0" && patcher_secret == "S1")
    );

    let a = orch.step(RunnerEvent::VersionSaved(Ok(())));
    assert!(matches!(a, RunnerAction::LaunchFromManifest));

    let a = orch.step(RunnerEvent::Launched(Ok(())));
    assert!(matches!(a, RunnerAction::Finish));
    assert_eq!(orch.phase, RunnerPhase::Done);
}

#[test]
fn test_secret_rotation_alone_forces_update() {
    let stored = VersionInfo::from_string("S1:1.0.0");
    let mut orch = orchestrator_with(stored);
    orch.step(RunnerEvent::Started);
    orch.step(RunnerEvent::ConnectionChecked(true));
    // The server rotates the patcher secret; the version is unchanged.
    orch.step(RunnerEvent::AppInfoFetched(Ok(Some("S2".to_string()))));
    let a = orch.step(RunnerEvent::VersionFetched(Ok("1.0.0".to_string())));
    assert!(matches!(a, RunnerAction::FetchContentUrls { .. }));
}

#[test]
fn test_no_stored_version_forces_update() {
    let mut orch = orchestrator_with(None);
    orch.step(RunnerEvent::Started);
    orch.step(RunnerEvent::ConnectionChecked(true));
    orch.step(RunnerEvent::AppInfoFetched(Ok(Some("S1".to_string()))));
    let a = orch.step(RunnerEvent::VersionFetched(Ok("1.0.0".to_string())));
    assert!(matches!(a, RunnerAction::FetchContentUrls { .. }));
}

#[test]
fn test_no_connection_is_fatal() {
    let mut orch = orchestrator_with(None);
    orch.step(RunnerEvent::Started);
    let a = orch.step(RunnerEvent::ConnectionChecked(false));
    match a {
        RunnerAction::Fail { error: Error::Other(msg) } => {
            assert_eq!(msg, "No internet connection");
        },
        _ => panic!("a failed connectivity check halts the run"),
    }
    assert_eq!(orch.phase, RunnerPhase::Failed);
}

#[test]
fn test_network_error_is_fatal() {
    let stored = VersionInfo::from_string("S1:1.0.0");
    let mut orch = orchestrator_with(stored);
    orch.step(RunnerEvent::Started);
    orch.step(RunnerEvent::ConnectionChecked(true));
    orch.step(RunnerEvent::AppInfoFetched(Ok(None)));
    let a = orch.step(RunnerEvent::VersionFetched(Err(Error::Network("timed out".to_string()))));
    assert!(matches!(a, RunnerAction::Fail { error: Error::Network(_) }));
    assert_eq!(orch.phase, RunnerPhase::Failed);
}

#[test]
fn test_empty_content_urls_ends_run_without_launch() {
    let mut orch = orchestrator_with(None);
    orch.step(RunnerEvent::Started);
    orch.step(RunnerEvent::ConnectionChecked(true));
    orch.step(RunnerEvent::AppInfoFetched(Ok(None)));
    orch.step(RunnerEvent::VersionFetched(Ok("1.0.0".to_string())));
    let a = orch.step(RunnerEvent::ContentUrlsFetched(Ok(Vec::new())));
    assert!(matches!(a, RunnerAction::Finish));
    assert_eq!(orch.phase, RunnerPhase::Done);
}

#[test]
fn test_app_slug_takes_first_eight_characters() {
    assert_eq!(app_slug("abcdefgh-rest"), "abcdefgh");
}

#[test]
fn test_prepare_launch_variables_binds_all_five() {
    let text = r#"{
        "manifest_version": 1,
        "target": "{exedir}/p",
        "target_arguments": [
            {"value": ["{installdir}", "{secret}", "{lockfile}", "{network-status}"]}
        ],
        "capabilities": []
    }"#;
    let mut mm = runner2::manifest::ManifestManager::new(text).unwrap();
    prepare_launch_variables(&mut mm, "/x", "/y", "test123");
    assert_eq!(mm.get_target().unwrap(), "/x/p");
    let args = mm.get_arguments().unwrap();
    assert_eq!(
        args,
        vec![
            "/y".to_string(),
            runner2::secret::encode_secret("test123"),
            "launcher.lock".to_string(),
            "online".to_string(),
        ]
    );
}

#[test]
fn test_version_id_to_string() {
    assert_eq!(VersionId::Text("1.2.3".to_string()).to_string(), "1.2.3");
    assert_eq!(VersionId::Number(42).to_string(), "42");
    assert_eq!(VersionId::Number(0).to_string(), "0");
    assert_eq!(VersionId::Number(-17).to_string(), "-17");
    assert_eq!(VersionId::Number(i64::MIN).to_string(), "-9223372036854775808");
}
