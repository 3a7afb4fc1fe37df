use llmo_tools::dispatch::{op_arguments, op_name, parse_tool_name, tool_names, ToolOp};

const ALL_OPS: [ToolOp; 10] = [
    ToolOp::ReadFile,
    ToolOp::WriteFile,
    ToolOp::EditFile,
    ToolOp::EditCodeLines,
    ToolOp::InsertCode,
    ToolOp::CreateDirectory,
    ToolOp::ListFiles,
    ToolOp::AnalyzeCodebase,
    ToolOp::SetContext,
    ToolOp::ExecuteJob,
];

#[test]
fn names_round_trip() {
    for op in ALL_OPS {
        assert_eq!(parse_tool_name(&op_name(op)), Some(op));
    }
}

#[test]
fn stable_names() {
    assert_eq!(op_name(ToolOp::ReadFile), "read_file");
    assert_eq!(op_name(ToolOp::EditCodeLines), "edit_code_lines");
    assert_eq!(op_name(ToolOp::ExecuteJob), "execute_job");
    assert_eq!(parse_tool_name("analyze_codebase"), Some(ToolOp::AnalyzeCodebase));
    assert_eq!(parse_tool_name("no_such_tool"), None);
    assert_eq!(tool_names().len(), 10);
}

#[test]
fn declared_arguments() {
    let args = op_arguments(ToolOp::EditFile);
    let shown: Vec<(String, bool)> = args.into_iter().map(|a| (a.name, a.required)).collect();
    assert_eq!(
        shown,
        vec![
            ("path".to_string(), true),
            ("search".to_string(), true),
            ("replace".to_string(), true),
            ("replace_all".to_string(), false),
        ]
    );
    let job = op_arguments(ToolOp::ExecuteJob);
    assert_eq!(job.len(), 3);
    assert!(job[0].required);
    assert!(!job[1].required);
    assert!(!job[2].required);
}
