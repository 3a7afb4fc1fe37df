use llmo_tools::errors::{classify_io_error, require_exists};
use llmo_tools::fs_tools::{CreateDirectory, FileEntry, FileReader, FileWriter, ListFiles,
    ListFilesArgs, ReadFileArgs, require_directory};
use llmo_tools::FileToolError;

#[test]
fn error_messages() {
    assert_eq!(
        FileToolError::Io("broken pipe".to_string()).message(),
        "IO error: broken pipe"
    );
    assert_eq!(
        FileToolError::FileNotFound("a.txt".to_string()).message(),
        "File not found: a.txt"
    );
    assert_eq!(
        FileToolError::PermissionDenied("a.txt".to_string()).message(),
        "Permission denied: a.txt"
    );
    assert_eq!(
        FileToolError::InvalidPath("bad".to_string()).message(),
        "Invalid path: bad"
    );
    assert_eq!(FileToolError::StringNotFound.message(), "String not found in file");
}

#[test]
fn classify_translates_uniformly() {
    let e = classify_io_error("a.txt", true, "ignored".to_string());
    assert!(matches!(e, FileToolError::PermissionDenied(p) if p == "a.txt"));
    let e = classify_io_error("a.txt", false, "disk full".to_string());
    assert!(matches!(e, FileToolError::Io(m) if m == "disk full"));
}

#[test]
fn existence_gate() {
    assert!(require_exists("a.txt", true).is_ok());
    let r = require_exists("a.txt", false);
    assert!(matches!(r, Err(FileToolError::FileNotFound(p)) if p == "a.txt"));
    let args = ReadFileArgs { path: "b.txt".to_string() };
    assert!(FileReader::validate(&args, true).is_ok());
    let r = FileReader::validate(&args, false);
    assert!(matches!(r, Err(FileToolError::FileNotFound(p)) if p == "b.txt"));
}

#[test]
fn directory_gate() {
    assert!(require_directory("d", true, true).is_ok());
    let r = require_directory("d", false, false);
    assert!(matches!(r, Err(FileToolError::FileNotFound(p)) if p == "d"));
    let r = require_directory("d", true, false);
    assert!(matches!(r, Err(FileToolError::InvalidPath(m)) if m == "d is not a directory"));
    let args = ListFilesArgs { path: "d".to_string(), include_hidden: false };
    let r = ListFiles::validate(&args, true, false);
    assert!(matches!(r, Err(FileToolError::InvalidPath(m)) if m == "d is not a directory"));
}

#[test]
fn write_report() {
    assert_eq!(FileWriter::byte_count("hello"), 5);
    assert_eq!(FileWriter::byte_count("hé"), 3);
    assert_eq!(
        FileWriter::report("out.txt", 5),
        "Successfully wrote 5 bytes to out.txt"
    );
}

#[test]
fn create_directory_report() {
    assert_eq!(
        CreateDirectory::report("a/b"),
        "Successfully created directory: a/b"
    );
}

fn entry(name: &str, is_dir: bool) -> FileEntry {
    FileEntry { name: name.to_string(), is_dir }
}

#[test]
fn listing_filters_tags_and_sorts() {
    let entries = vec![
        entry("b.txt", false),
        entry("A", true),
        entry(".hidden", false),
    ];
    let r = ListFiles::render(&entries, false);
    assert_eq!(r, vec!["[DIR]  A".to_string(), "[FILE] b.txt".to_string()]);
    let r = ListFiles::render(&entries, true);
    assert_eq!(
        r,
        vec![
            "[DIR]  A".to_string(),
            "[FILE] .hidden".to_string(),
            "[FILE] b.txt".to_string()
        ]
    );
}

#[test]
fn listing_of_empty_directory() {
    let r = ListFiles::render(&Vec::new(), true);
    assert!(r.is_empty());
}

#[test]
fn listing_sorts_lexicographically() {
    let entries = vec![
        entry("zz", false),
        entry("aa", false),
        entry("mm", true),
    ];
    let r = ListFiles::render(&entries, false);
    assert_eq!(
        r,
        vec![
            "[DIR]  mm".to_string(),
            "[FILE] aa".to_string(),
            "[FILE] zz".to_string()
        ]
    );
}
