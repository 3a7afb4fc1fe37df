use llmo_tools::text_edit::{CodeEditArgs, CodeEditor, CodeInserter, EditFileArgs, FileEditor,
    InsertCodeArgs};
use llmo_tools::FileToolError;

fn edit_args(search: &str, replace: &str, replace_all: bool) -> EditFileArgs {
    EditFileArgs {
        path: "f.txt".to_string(),
        search: search.to_string(),
        replace: replace.to_string(),
        replace_all,
    }
}

fn code_args(start: usize, end: usize, new_content: &str) -> CodeEditArgs {
    CodeEditArgs {
        path: "f.txt".to_string(),
        start_line: start,
        end_line: end,
        new_content: new_content.to_string(),
    }
}

fn insert_args(after: usize, content: &str) -> InsertCodeArgs {
    InsertCodeArgs { path: "f.txt".to_string(), after_line: after, content: content.to_string() }
}

#[test]
fn edit_lines_middle() {
    let r = CodeEditor::apply(&code_args(2, 2, "X\nY"), "line1\nline2\nline3");
    assert_eq!(r.unwrap(), "line1\nX\nY\nline3");
}

#[test]
fn edit_lines_range() {
    let r = CodeEditor::apply(&code_args(2, 3, "Z"), "a\nb\nc\nd");
    assert_eq!(r.unwrap(), "a\nZ\nd");
}

#[test]
fn edit_lines_whole_file() {
    let r = CodeEditor::apply(&code_args(1, 1, "new"), "old");
    assert_eq!(r.unwrap(), "new");
}

#[test]
fn edit_lines_zero_is_rejected() {
    let r = CodeEditor::apply(&code_args(0, 1, "x"), "a\nb");
    match r {
        Err(FileToolError::InvalidPath(m)) => {
            assert_eq!(m, "Line numbers must be 1-based (start from 1)");
        }
        other => panic!("unexpected: {:?}", other),
    }
}

#[test]
fn edit_lines_out_of_range() {
    let r = CodeEditor::apply(&code_args(1, 3, "x"), "a\nb");
    match r {
        Err(FileToolError::InvalidPath(m)) => {
            assert_eq!(m, "Line numbers out of range. File has 2 lines");
        }
        other => panic!("unexpected: {:?}", other),
    }
}

#[test]
fn edit_lines_reversed_range() {
    let r = CodeEditor::apply(&code_args(2, 1, "x"), "a\nb");
    match r {
        Err(FileToolError::InvalidPath(m)) => {
            assert_eq!(m, "start_line must be <= end_line");
        }
        other => panic!("unexpected: {:?}", other),
    }
}

#[test]
fn insert_at_start() {
    let r = CodeInserter::apply(&insert_args(0, "X\nY"), "a\nb");
    assert_eq!(r.unwrap(), "X\nY\na\nb");
}

#[test]
fn insert_after_middle_line() {
    let r = CodeInserter::apply(&insert_args(1, "mid"), "a\nb");
    assert_eq!(r.unwrap(), "a\nmid\nb");
}

#[test]
fn insert_after_last_line() {
    let r = CodeInserter::apply(&insert_args(2, "tail"), "a\nb");
    assert_eq!(r.unwrap(), "a\nb\ntail");
}

#[test]
fn insert_past_end_is_rejected() {
    let r = CodeInserter::apply(&insert_args(3, "x"), "a\nb");
    match r {
        Err(FileToolError::InvalidPath(m)) => {
            assert_eq!(m, "Line number out of range. File has 2 lines");
        }
        other => panic!("unexpected: {:?}", other),
    }
}

#[test]
fn replace_first_leaves_the_rest() {
    let (text, count) = FileEditor::apply(&edit_args("X", "-", false), "aXbXc").unwrap();
    assert_eq!(text, "a-bXc");
    assert_eq!(count, 1);
}

#[test]
fn replace_all_replaces_every_occurrence() {
    let (text, count) = FileEditor::apply(&edit_args("X", "-", true), "aXbXcX").unwrap();
    assert_eq!(text, "a-b-c-");
    assert_eq!(count, 3);
}

#[test]
fn replace_missing_fails_content_not_found() {
    let content = "abc";
    let r = FileEditor::apply(&edit_args("zz", "w", false), content);
    match r {
        Err(e) => {
            assert!(matches!(e, FileToolError::StringNotFound));
            assert_eq!(e.message(), "String not found in file");
        }
        Ok(_) => panic!("expected an error"),
    }
    // No replacement text was produced, so the caller writes nothing back and
    // the file stays byte-identical.
    assert_eq!(content, "abc");
    let r_all = FileEditor::apply(&edit_args("zz", "w", true), content);
    assert!(matches!(r_all, Err(FileToolError::StringNotFound)));
}

#[test]
fn replace_with_empty_search_first() {
    let (text, count) = FileEditor::apply(&edit_args("", "X", false), "abc").unwrap();
    assert_eq!(text, "Xabc");
    assert_eq!(count, 1);
}

#[test]
fn replace_with_empty_search_all() {
    let (text, count) = FileEditor::apply(&edit_args("", "X", true), "abc").unwrap();
    assert_eq!(text, "XaXbXcX");
    assert_eq!(count, 4);
}

#[test]
fn replace_longer_replacement() {
    let (text, count) = FileEditor::apply(&edit_args("b", "bb", true), "abab").unwrap();
    assert_eq!(text, "abbabb");
    assert_eq!(count, 2);
}

#[test]
fn edit_messages() {
    assert_eq!(
        FileEditor::success_message("f.txt", 2),
        "Successfully edited f.txt. Replaced 2 occurrence(s)"
    );
    assert_eq!(
        CodeEditor::success_message("f.txt", 2, 4, 5),
        "Successfully edited f.txt. Replaced 3 lines (2:4) with 5 lines"
    );
    assert_eq!(
        CodeInserter::success_message("f.txt", 3, 7),
        "Successfully inserted 3 lines after line 7 in f.txt"
    );
}

#[test]
fn line_count_matches_line_semantics() {
    assert_eq!(CodeEditor::line_count(""), 0);
    assert_eq!(CodeEditor::line_count("a"), 1);
    assert_eq!(CodeEditor::line_count("a\n"), 1);
    assert_eq!(CodeEditor::line_count("a\nb"), 2);
    assert_eq!(CodeEditor::line_count("a\r\nb"), 2);
}

#[test]
fn crlf_lines_are_split_like_lf() {
    let r = CodeEditor::apply(&code_args(2, 2, "X"), "a\r\nb\r\nc");
    assert_eq!(r.unwrap(), "a\nX\nc");
}
