use llmo_tools::analyzer::{AnalyzeCodebaseArgs, CodebaseAnalyzer, WalkEntry, code_name_matches,
    config_file_names, default_max_depth, default_max_file_size, deny_dirs, is_denied,
    wants_content};
use llmo_tools::FileToolError;

fn args(path: &str, max_file_size: usize, max_depth: usize) -> AnalyzeCodebaseArgs {
    AnalyzeCodebaseArgs { path: path.to_string(), max_file_size, max_depth }
}

fn file_entry(path: &str, rel: &str, name: &str, depth: usize) -> WalkEntry {
    WalkEntry {
        path: path.to_string(),
        rel_path: rel.to_string(),
        name: name.to_string(),
        depth,
        is_dir: false,
        is_file: true,
    }
}

fn dir_entry(path: &str, name: &str, depth: usize) -> WalkEntry {
    WalkEntry {
        path: path.to_string(),
        rel_path: String::new(),
        name: name.to_string(),
        depth,
        is_dir: true,
        is_file: false,
    }
}

#[test]
fn defaults() {
    assert_eq!(default_max_file_size(), 10000);
    assert_eq!(default_max_depth(), 10);
    let a = AnalyzeCodebaseArgs::with_defaults("p".to_string());
    assert_eq!(a.path, "p");
    assert_eq!(a.max_file_size, 10000);
    assert_eq!(a.max_depth, 10);
}

#[test]
fn nonexistent_root_fails_not_found() {
    let a = args("missing", 10000, 10);
    let r = CodebaseAnalyzer::validate(&a, false, false);
    match r {
        Err(e) => {
            assert!(matches!(&e, FileToolError::FileNotFound(p) if p == "missing"));
            assert_eq!(e.message(), "File not found: missing");
        }
        Ok(()) => panic!("expected an error"),
    }
}

#[test]
fn non_directory_root_fails_invalid() {
    let a = args("file.txt", 10000, 10);
    let r = CodebaseAnalyzer::validate(&a, true, false);
    assert!(matches!(r, Err(FileToolError::InvalidPath(m)) if m == "file.txt is not a directory"));
    assert!(CodebaseAnalyzer::validate(&a, true, true).is_ok());
}

#[test]
fn deny_list_matches_substrings_of_the_whole_path() {
    assert!(is_denied("proj/node_modules/x.js"));
    assert!(is_denied("proj/.git/config"));
    // Substring matching is deliberately over-broad: "outside" holds "out".
    assert!(is_denied("proj/outside/a.rs"));
    assert!(!is_denied("proj/src/main.rs"));
    assert_eq!(deny_dirs().len(), 19);
}

#[test]
fn code_names() {
    assert!(code_name_matches("main.rs"));
    assert!(code_name_matches("MAIN.RS"));
    assert!(code_name_matches("Dockerfile"));
    assert!(code_name_matches("Makefile"));
    assert!(code_name_matches("CMakeLists.txt"));
    assert!(!code_name_matches("photo.png"));
    assert!(!code_name_matches("binary"));
}

#[test]
fn wants_content_selects_readable_candidates() {
    assert!(wants_content(&file_entry("p/src/main.rs", "src/main.rs", "main.rs", 2)));
    assert!(!wants_content(&file_entry("p/node_modules/a.js", "node_modules/a.js", "a.js", 2)));
    assert!(!wants_content(&file_entry("p/img.png", "img.png", "img.png", 1)));
    assert!(!wants_content(&dir_entry("p/src", "src", 1)));
}

#[test]
fn config_list_order() {
    let names = config_file_names();
    assert_eq!(names.first().map(|s| s.as_str()), Some("Cargo.toml"));
    assert_eq!(names.last().map(|s| s.as_str()), Some("README.md"));
    assert_eq!(names.len(), 12);
}

#[test]
fn bundle_of_empty_inputs() {
    let a = args("p", 10000, 10);
    let bundle = CodebaseAnalyzer::assemble(&a, &Vec::new(), &Vec::new(), &Vec::new());
    assert_eq!(
        bundle,
        "\n=== CODEBASE ANALYSIS FOR: p ===\n\n\n=== PROJECT STRUCTURE ===\n\n\n=== CODE FILES ===\n"
    );
}

#[test]
fn bundle_with_structure_configs_and_code() {
    let a = args("p", 10000, 10);
    let structure = vec![
        dir_entry("p", "p", 0),
        file_entry("p/main.rs", "main.rs", "main.rs", 1),
    ];
    let configs = vec![("Cargo.toml".to_string(), "[package]".to_string())];
    let codes = vec![(
        file_entry("p/main.rs", "main.rs", "main.rs", 1),
        Some("fn main() {}".to_string()),
    )];
    let bundle = CodebaseAnalyzer::assemble(&a, &structure, &configs, &codes);
    let expected = "\n=== CODEBASE ANALYSIS FOR: p ===\n\n\n=== PROJECT STRUCTURE ===\n\u{1F4C1} p\n  \u{1F4C4} main.rs\n\n\n=== FILE: Cargo.toml ===\n[package]\n\n=== CODE FILES ===\n\n\n=== FILE: main.rs ===\nfn main() {}";
    assert_eq!(bundle, expected);
}

#[test]
fn large_file_content_is_omitted_without_failing() {
    let a = args("p", 5, 10);
    let big = (
        file_entry("p/big.rs", "big.rs", "big.rs", 1),
        Some("123456".to_string()),
    );
    let small = (
        file_entry("p/ok.rs", "ok.rs", "ok.rs", 1),
        Some("1234".to_string()),
    );
    let bundle = CodebaseAnalyzer::assemble(&a, &Vec::new(), &Vec::new(), &vec![big, small]);
    assert!(!bundle.contains("big.rs"));
    assert!(!bundle.contains("123456"));
    assert!(bundle.contains("\n\n=== FILE: ok.rs ===\n1234"));
}

#[test]
fn size_bound_is_strict() {
    let a = args("p", 4, 10);
    let exact = (
        file_entry("p/x.rs", "x.rs", "x.rs", 1),
        Some("1234".to_string()),
    );
    let bundle = CodebaseAnalyzer::assemble(&a, &Vec::new(), &Vec::new(), &vec![exact]);
    assert!(!bundle.contains("x.rs"));
}

#[test]
fn unreadable_file_is_skipped_silently() {
    let a = args("p", 10000, 10);
    let unreadable = (file_entry("p/x.rs", "x.rs", "x.rs", 1), None);
    let bundle = CodebaseAnalyzer::assemble(&a, &Vec::new(), &Vec::new(), &vec![unreadable]);
    assert!(!bundle.contains("x.rs"));
}

#[test]
fn deep_files_leave_the_structure_rendering() {
    let a = args("p", 10000, 10);
    let structure = vec![
        dir_entry("p/a/b/c", "c", 3),
        file_entry("p/a/b/deep.rs", "a/b/deep.rs", "deep.rs", 3),
    ];
    let bundle = CodebaseAnalyzer::assemble(&a, &structure, &Vec::new(), &Vec::new());
    assert!(bundle.contains("      📁 c\n"));
    assert!(!bundle.contains("deep.rs"));
}
