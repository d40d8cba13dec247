use runner2::error::Error;
use runner2::manifest::ManifestManager;

const SAMPLE_MANIFEST: &str = r#"{
        "manifest_version": 4,
        "target": "{exedir}/Patcher.exe",
        "target_arguments": [
            {
                "value": ["--installdir", "{installdir}"]
            },
            {
                "value": ["--lockfile", "{lockfile}"]
            }
        ],
        "capabilities": ["pack1_compression_lzma2"]
    }"#;

#[test]
fn test_manifest_parsing() {
    let manager = ManifestManager::new(SAMPLE_MANIFEST).unwrap();
    assert_eq!(manager.manifest.manifest_version, 4);
}

#[test]
fn test_variable_resolution() {
    let mut manager = ManifestManager::new(SAMPLE_MANIFEST).unwrap();

    manager.set_variable("exedir", "/path/to/exe".into());
    manager.set_variable("installdir", "/path/to/install".into());
    manager.set_variable("lockfile", "/path/to/lock".into());

    let target = manager.get_target().unwrap();
    assert_eq!(target, "/path/to/exe/Patcher.exe");

    let args = manager.get_arguments().unwrap();
    assert_eq!(args[0], "--installdir");
    assert_eq!(args[1], "/path/to/install");
    assert_eq!(args[2], "--lockfile");
    assert_eq!(args[3], "/path/to/lock");
}

#[test]
fn test_unresolved_variables() {
    let manager = ManifestManager::new(SAMPLE_MANIFEST).unwrap();
    assert!(manager.get_target().is_err());
}

#[test]
fn test_manifest_fields() {
    let manager = ManifestManager::new(SAMPLE_MANIFEST).unwrap();
    assert_eq!(manager.manifest.target, "{exedir}/Patcher.exe");
    assert_eq!(manager.manifest.target_arguments.len(), 2);
    assert_eq!(manager.manifest.target_arguments[0].value.len(), 2);
    assert_eq!(manager.manifest.target_arguments[1].value[0], "--lockfile");
    assert_eq!(manager.manifest.capabilities, vec!["pack1_compression_lzma2".to_string()]);
}

#[test]
fn test_malformed_json_is_json_error() {
    let err = ManifestManager::new("{ not json").unwrap_err();
    assert!(matches!(err, Error::Json(_)));
}

#[test]
fn test_missing_field_is_manifest_error() {
    let err = ManifestManager::new(r#"{"manifest_version": 4}"#).unwrap_err();
    assert!(matches!(err, Error::Manifest(_)));
}

#[test]
fn test_wrong_field_type_is_manifest_error() {
    let text = r#"{
        "manifest_version": "four",
        "target": "x",
        "target_arguments": [],
        "capabilities": []
    }"#;
    let err = ManifestManager::new(text).unwrap_err();
    assert!(matches!(err, Error::Manifest(_)));
}

#[test]
fn test_unresolved_argument_is_manifest_error() {
    let mut manager = ManifestManager::new(SAMPLE_MANIFEST).unwrap();
    manager.set_variable("exedir", "/x".into());
    manager.set_variable("installdir", "/y".into());
    // lockfile stays unbound: the target resolves, the arguments do not.
    assert!(manager.get_target().is_ok());
    let err = manager.get_arguments().unwrap_err();
    assert!(matches!(err, Error::Manifest(_)));
}

#[test]
fn test_later_variable_setting_wins() {
    let mut manager = ManifestManager::new(SAMPLE_MANIFEST).unwrap();
    manager.set_variable("exedir", "/first".into());
    manager.set_variable("exedir", "/second".into());
    manager.set_variable("installdir", "/i".into());
    manager.set_variable("lockfile", "/l".into());
    assert_eq!(manager.get_target().unwrap(), "/second/Patcher.exe");
}

#[test]
fn test_lone_open_brace_stays_literal() {
    let text = r#"{
        "manifest_version": 1,
        "target": "a{b",
        "target_arguments": [],
        "capabilities": []
    }"#;
    let manager = ManifestManager::new(text).unwrap();
    // No closing brace anywhere after the opening one: no placeholder pair
    // remains, the text is literal.
    assert_eq!(manager.get_target().unwrap(), "a{b");
    assert!(manager.get_arguments().unwrap().is_empty());
}

#[test]
fn test_substituted_value_is_not_rescanned() {
    let text = r#"{
        "manifest_version": 1,
        "target": "{a}/x",
        "target_arguments": [],
        "capabilities": []
    }"#;
    let mut manager = ManifestManager::new(text).unwrap();
    manager.set_variable("a", "{b}".into());
    // The value "{b}" is emitted as-is; it is not resolved again.
    assert_eq!(manager.get_target().unwrap(), "{b}/x");
}
