use std::io::{Cursor, Write};

use llm_review_sdk::zip_project::extractor::{
    check_archive_size, entry_count, make_file_info, open_archive, plan_archive_entry, plan_entry,
    read_entry, should_ignore, to_hex_lower, validate_entry_path, Extraction, ExtractionStep,
    ZipError,
};
use llm_review_sdk::zip_project::tree::FileInfo;
use llm_review_sdk::zip_project::{MAX_ARCHIVE_SIZE, MAX_FILE_SIZE};

fn create_test_zip(filename: &str, content: &[u8]) -> Vec<u8> {
    let mut buf = Vec::new();
    {
        let mut cursor = Cursor::new(&mut buf);
        let mut zip = zip::ZipWriter::new(&mut cursor);
        let options = zip::write::FileOptions::default();

        zip.start_file(filename, options).unwrap();
        zip.write_all(content).unwrap();
        zip.finish().unwrap();
    }
    buf
}

/// Runs the decisions of an extraction over an archive held in memory,
/// without writing anything: the files that would be extracted.
fn plan_files(zip_bytes: &[u8], dest: &str) -> Result<Vec<FileInfo>, ZipError> {
    check_archive_size(zip_bytes.len())?;
    let mut archive = open_archive(zip_bytes)?;
    let mut run = Extraction::new(dest);
    loop {
        match run.advance(&mut archive) {
            ExtractionStep::Finished => break,
            ExtractionStep::Refused(e) => return Err(e),
            ExtractionStep::Extract { index, .. } => {
                let content = read_entry(&mut archive, index)?;
                assert!(run.add_file(&content));
            }
        }
    }
    Ok(run.finish())
}

fn create_zip_of(entries: &[(&str, &str)]) -> Vec<u8> {
    let mut buf = Vec::new();
    {
        let mut cursor = Cursor::new(&mut buf);
        let mut zip = zip::ZipWriter::new(&mut cursor);
        let options = zip::write::FileOptions::default();
        for (name, content) in entries {
            zip.start_file(*name, options).unwrap();
            zip.write_all(content.as_bytes()).unwrap();
        }
        zip.finish().unwrap();
    }
    buf
}

#[test]
fn extraction_keeps_archive_order_and_skips() {
    let zip_data = create_zip_of(&[
        ("b.py", "b"),
        ("__pycache__/x.pyc", "c"),
        ("a.txt", "aa"),
        (".git/config", "g"),
    ]);
    let files = plan_files(&zip_data, "/d").unwrap();
    let names: Vec<&str> = files.iter().map(|f| f.relative_path.as_str()).collect();
    assert_eq!(names, vec!["b.py", "a.txt"]);
    assert_eq!(files[1].absolute_path, "/d/a.txt");
    assert_eq!(files[1].size, 2);
}

#[test]
fn extraction_stops_at_first_refusal() {
    let zip_data = create_zip_of(&[("ok.py", "x"), ("/abs.py", "y"), ("later.py", "z")]);
    let mut archive = open_archive(&zip_data).unwrap();
    let mut run = Extraction::new("/d");
    match run.advance(&mut archive) {
        ExtractionStep::Extract { index, name, path } => {
            assert_eq!(index, 0);
            assert_eq!(name, "ok.py");
            assert_eq!(path, "/d/ok.py");
        }
        other => panic!("unexpected {:?}", other),
    }
    assert!(run.add_file(b"x"));
    assert!(!run.add_file(b"x"));
    match run.advance(&mut archive) {
        ExtractionStep::Refused(ZipError::PathTraversalAttempt(n)) => assert_eq!(n, "/abs.py"),
        other => panic!("unexpected {:?}", other),
    }
    let files = run.finish();
    assert_eq!(files.len(), 1);
    assert_eq!(files[0].relative_path, "ok.py");
}

#[test]
fn test_valid_zip_extraction() {
    let zip_data = create_test_zip("test.py", b"print('hello')");

    let result = plan_files(&zip_data, "/tmp/dest");
    assert!(result.is_ok());

    let project = result.unwrap();
    assert!(!project.is_empty());
    assert!(project[0].is_python);
    assert_eq!(project[0].relative_path, "test.py");
    assert_eq!(project[0].absolute_path, "/tmp/dest/test.py");
    assert_eq!(project[0].size, 14);
    assert_eq!(project[0].content_hash.len(), 64);
}

#[test]
fn test_path_traversal_blocked() {
    let zip_data = create_test_zip("../../../etc/passwd", b"malicious");

    let result = plan_files(&zip_data, "/tmp/dest");
    assert!(result.is_ok());
    assert!(result.unwrap().is_empty());
}

#[test]
fn test_hidden_file_ignored() {
    let zip_data = create_test_zip(".hidden/file.py", b"hidden content");

    let result = plan_files(&zip_data, "/tmp/dest");
    assert!(result.is_ok());
    assert!(result.unwrap().is_empty());
}

#[test]
fn test_ignore_pycache() {
    let zip_data = create_test_zip("__pycache__/test.pyc", b"cached");

    let result = plan_files(&zip_data, "/tmp/dest");
    assert!(result.is_ok());

    let project = result.unwrap();
    assert!(project.is_empty());
}

#[test]
fn invalid_archive_refused() {
    match plan_files(b"not a zip archive", "/tmp/dest") {
        Err(ZipError::InvalidArchive(_)) => {}
        other => panic!("expected InvalidArchive, got {:?}", other.map(|f| f.len()).err()),
    }
}

#[test]
fn archive_size_limit() {
    assert!(check_archive_size(0).is_ok());
    assert!(check_archive_size(MAX_ARCHIVE_SIZE as usize).is_ok());
    match check_archive_size(MAX_ARCHIVE_SIZE as usize + 1) {
        Err(ZipError::ArchiveTooLarge(a, b)) => {
            assert_eq!(a, MAX_ARCHIVE_SIZE + 1);
            assert_eq!(b, MAX_ARCHIVE_SIZE);
        }
        _ => panic!("expected ArchiveTooLarge"),
    }
}

#[test]
fn entry_plans() {
    assert!(matches!(plan_entry("a/", true, 0, "/d"), Ok(None)));
    assert!(matches!(plan_entry("node_modules/x.js", false, 1, "/d"), Ok(None)));
    assert!(matches!(plan_entry("src/VENV/x.py", false, 1, "/d"), Ok(None)));
    match plan_entry("big.bin", false, MAX_FILE_SIZE + 1, "/d") {
        Err(ZipError::FileTooLarge(a, b)) => {
            assert_eq!(a, MAX_FILE_SIZE + 1);
            assert_eq!(b, MAX_FILE_SIZE);
        }
        _ => panic!("expected FileTooLarge"),
    }
    match plan_entry("a..b", false, 1, "/d") {
        Err(ZipError::PathTraversalAttempt(n)) => assert_eq!(n, "a..b"),
        _ => panic!("expected PathTraversalAttempt"),
    }
    assert!(matches!(plan_entry("/etc/passwd", false, 1, "/d"), Err(ZipError::PathTraversalAttempt(_))));
    let long = "x".repeat(256);
    assert!(matches!(plan_entry(&long, false, 1, "/d"), Err(ZipError::InvalidEncoding)));
    assert_eq!(plan_entry("pkg/mod.py", false, 10, "/d").unwrap(), Some("/d/pkg/mod.py".to_string()));
}

#[test]
fn entry_path_joining() {
    assert_eq!(validate_entry_path("a.py", "/d/").unwrap(), "/d/a.py");
    assert_eq!(validate_entry_path("a.py", "").unwrap(), "a.py");
    assert_eq!(validate_entry_path("a/b.py", "out").unwrap(), "out/a/b.py");
    let multibyte = "é".repeat(128);
    assert!(matches!(validate_entry_path(&multibyte, "/d"), Err(ZipError::InvalidEncoding)));
    let fits = "é".repeat(127);
    assert!(validate_entry_path(&fits, "/d").is_ok());
}

#[test]
fn ignore_rules() {
    assert!(should_ignore("__pycache__/a.pyc"));
    assert!(should_ignore("proj/.git/config"));
    assert!(should_ignore(".env"));
    assert!(should_ignore("Node_Modules/x"));
    assert!(should_ignore("a/.hidden"));
    assert!(!should_ignore("src/main.py"));
    assert!(!should_ignore("a.b/c"));
}

#[test]
fn file_info_hash_and_kind() {
    let info = make_file_info("x.txt".to_string(), "/d/x.txt".to_string(), b"abc");
    assert_eq!(
        info.content_hash,
        "ba7816bf8f01cfea414140de5dae2223b00361a396177a9cb410ff61f20015ad"
    );
    assert!(!info.is_python);
    assert_eq!(info.size, 3);
    assert_eq!(to_hex_lower(&[0x00, 0x0f, 0xa0, 0xff]), "000fa0ff");
}

#[test]
fn zip_error_messages() {
    assert_eq!(
        ZipError::FileTooLarge(20, 10).to_string(),
        "File too large: 20 bytes (max: 10)"
    );
    assert_eq!(
        ZipError::ArchiveTooLarge(52428801, 52428800).to_string(),
        "Archive too large: 52428801 bytes (max: 52428800)"
    );
    assert_eq!(ZipError::InvalidEncoding.to_string(), "Invalid encoding in file path");
    assert_eq!(
        ZipError::PathTraversalAttempt("../x".into()).to_string(),
        "Path traversal attempt blocked: ../x"
    );
    assert_eq!(ZipError::IoError("e".into()).to_string(), "IO error: e");
}

/// An archive whose one entry carries AES information in its extra field
/// but no encryption flag.
fn create_aes_marked_zip() -> Vec<u8> {
    let mut buf = Vec::new();
    {
        let mut cursor = Cursor::new(&mut buf);
        let mut zip = zip::ZipWriter::new(&mut cursor);
        let options =
            zip::write::FileOptions::default().compression_method(zip::CompressionMethod::Stored);
        zip.start_file_with_extra_data("a.py", options).unwrap();
        zip.write_all(&[0xef, 0xbe, 0x07, 0x00, 0x02, 0x00, 0x41, 0x45, 0x03, 0x00, 0x00])
            .unwrap();
        zip.end_extra_data().unwrap();
        zip.write_all(b"x = 1").unwrap();
        zip.finish().unwrap();
    }
    let mut patched = buf.clone();
    let mut i = 0;
    while i + 4 <= patched.len() {
        if patched[i..i + 4] == [0xef, 0xbe, 0x07, 0x00] {
            patched[i] = 0x01;
            patched[i + 1] = 0x99;
        }
        i += 1;
    }
    patched
}

#[test]
fn aes_marked_entry_is_refused_not_panicking() {
    let zip_data = create_aes_marked_zip();
    let mut archive = open_archive(&zip_data).unwrap();
    assert_eq!(entry_count(&archive), 1);
    assert!(matches!(
        plan_archive_entry(&mut archive, 0, "/tmp/dest"),
        Err(ZipError::ExtractionFailed(_))
    ));
    assert!(matches!(read_entry(&mut archive, 0), Err(ZipError::ExtractionFailed(_))));
    assert!(matches!(
        plan_archive_entry(&mut archive, 1, "/tmp/dest"),
        Err(ZipError::ExtractionFailed(_))
    ));
}
