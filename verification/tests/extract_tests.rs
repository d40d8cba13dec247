use runner2::file::{ExtractOp, FileManager, Platform};
use std::io::Write;

fn build_archive() -> Vec<u8> {
    let cursor = std::io::Cursor::new(Vec::new());
    let mut zip = zip::ZipWriter::new(cursor);
    let options = zip::write::SimpleFileOptions::default();
    zip.add_directory("dir", options).unwrap();
    zip.start_file("a.txt", options).unwrap();
    zip.write_all(b"alpha").unwrap();
    zip.start_file("dir/b.txt", options).unwrap();
    zip.write_all(b"beta").unwrap();
    zip.finish().unwrap().into_inner()
}

#[test]
fn test_extract_plan_and_ledger_order() {
    let data = build_archive();
    let mut manager = FileManager::new(Platform::Other, "/base", "test123");
    let ops = manager.extract_zip(&data, "/base/Patcher").unwrap();

    // The ledger holds every created path in creation order.
    let removal = manager.remove_old_files();
    assert_eq!(
        removal,
        vec![
            "/base/Patcher/dir/b.txt".to_string(),
            "/base/Patcher/a.txt".to_string(),
            "/base/Patcher/dir".to_string(),
        ]
    );

    assert_eq!(ops.len(), 3);
    match &ops[0] {
        ExtractOp::MakeDir(p) => assert_eq!(p, "/base/Patcher/dir"),
        _ => panic!("first entry is a directory"),
    }
    match &ops[1] {
        ExtractOp::WriteFile { parent_dir, path, contents, executable } => {
            assert_eq!(parent_dir, "/base/Patcher");
            assert_eq!(path, "/base/Patcher/a.txt");
            assert_eq!(contents, b"alpha");
            assert!(!executable);
        },
        _ => panic!("second entry is a file"),
    }
    match &ops[2] {
        ExtractOp::WriteFile { parent_dir, path, contents, executable } => {
            assert_eq!(parent_dir, "/base/Patcher/dir");
            assert_eq!(path, "/base/Patcher/dir/b.txt");
            assert_eq!(contents, b"beta");
            assert!(!executable);
        },
        _ => panic!("third entry is a file"),
    }

    // The persisted ledger lists the paths relative to the state directory.
    assert_eq!(manager.installed_files_text(), "dir\na.txt\ndir/b.txt\n");
}

#[test]
fn test_extract_marks_bundle_executables() {
    let cursor = std::io::Cursor::new(Vec::new());
    let mut zip = zip::ZipWriter::new(cursor);
    let options = zip::write::SimpleFileOptions::default();
    zip.start_file("App.app/Contents/MacOS/patcher", options).unwrap();
    zip.write_all(b"bin").unwrap();
    zip.start_file("readme.txt", options).unwrap();
    zip.write_all(b"doc").unwrap();
    let data = zip.finish().unwrap().into_inner();

    let mut mac = FileManager::new(Platform::MacOs, "/Users/u/Library", "slug1234");
    let dest = FileManager::get_patcher_dir(Platform::MacOs, "/Users/u/Library", "slug1234");
    let ops = mac.extract_zip(&data, &dest).unwrap();
    match &ops[0] {
        ExtractOp::WriteFile { executable, .. } => assert!(*executable),
        _ => panic!("bundle binary is a file"),
    }
    match &ops[1] {
        ExtractOp::WriteFile { executable, .. } => assert!(!executable),
        _ => panic!("readme is a file"),
    }

    // On a platform without the bundle layout the flag stays off.
    let mut other = FileManager::new(Platform::Other, "/base", "slug1234");
    let ops = other.extract_zip(&data, "/base/Patcher").unwrap();
    match &ops[0] {
        ExtractOp::WriteFile { executable, .. } => assert!(!executable),
        _ => panic!("bundle binary is a file"),
    }
}

#[test]
fn test_extract_file_cleanup_scenario() {
    // Archive with, in order: directory "test_dir", file "test_dir/test1.txt",
    // file "test2.txt". Extraction must succeed, the ledger must hold exactly
    // the three created paths in creation order, and cleanup walks them in
    // reverse so the directory comes after its child.
    let cursor = std::io::Cursor::new(Vec::new());
    let mut zip = zip::ZipWriter::new(cursor);
    let options = zip::write::SimpleFileOptions::default();
    zip.add_directory("test_dir", options).unwrap();
    zip.start_file("test_dir/test1.txt", options).unwrap();
    zip.write_all(b"test content 1").unwrap();
    zip.start_file("test2.txt", options).unwrap();
    zip.write_all(b"test content 2").unwrap();
    let data = zip.finish().unwrap().into_inner();

    let mut manager = FileManager::new(Platform::Other, "/base", "test123");
    let ops = manager.extract_zip(&data, "/base/Patcher").unwrap();

    assert_eq!(ops.len(), 3);
    assert!(matches!(&ops[0], ExtractOp::MakeDir(p) if p == "/base/Patcher/test_dir"));
    match &ops[1] {
        ExtractOp::WriteFile { path, contents, .. } => {
            assert_eq!(path, "/base/Patcher/test_dir/test1.txt");
            assert_eq!(contents, b"test content 1");
        },
        _ => panic!("second entry is a file"),
    }
    match &ops[2] {
        ExtractOp::WriteFile { path, contents, .. } => {
            assert_eq!(path, "/base/Patcher/test2.txt");
            assert_eq!(contents, b"test content 2");
        },
        _ => panic!("third entry is a file"),
    }

    let removal = manager.remove_old_files();
    assert_eq!(
        removal,
        vec![
            "/base/Patcher/test2.txt".to_string(),
            "/base/Patcher/test_dir/test1.txt".to_string(),
            "/base/Patcher/test_dir".to_string(),
        ]
    );
}

#[test]
fn test_extract_clears_previous_ledger() {
    let data = build_archive();
    let mut manager = FileManager::new(Platform::Other, "/base", "test123");
    manager.load_installed_files("stale.txt\n");
    manager.extract_zip(&data, "/base/Patcher").unwrap();
    assert_eq!(manager.installed_files_text(), "dir\na.txt\ndir/b.txt\n");
}

#[test]
fn test_extract_rejects_garbage() {
    let mut manager = FileManager::new(Platform::Other, "/base", "test123");
    manager.load_installed_files("stale.txt\n");
    let err = manager.extract_zip(b"not a zip archive", "/base/Patcher");
    assert!(err.is_err());
    // The ledger was cleared before the failure was found.
    assert_eq!(manager.installed_files_text(), "");
}
