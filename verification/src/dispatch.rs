//! The operations' external interface: each one's stable name, what it does,
//! and its declared arguments with their required/optional standing. A caller
//! dispatches by name through `parse_tool_name`; the names round-trip.

use vstd::prelude::*;
use crate::fs_tools::string_views;

verus! {

/// The ten operations on offer.
#[derive(Debug, Clone, Copy, PartialEq, Eq, Structural)]
pub enum ToolOp {
    ReadFile,
    WriteFile,
    EditFile,
    EditCodeLines,
    InsertCode,
    CreateDirectory,
    ListFiles,
    AnalyzeCodebase,
    SetContext,
    ExecuteJob,
}

/// One declared argument: its name, and whether the caller must supply it.
pub struct ArgSpec {
    pub name: String,
    pub required: bool,
}

/// Each operation's stable name.
pub open spec fn op_name_spec(op: ToolOp) -> Seq<char> {
    match op {
        ToolOp::ReadFile => "read_file"@,
        ToolOp::WriteFile => "write_file"@,
        ToolOp::EditFile => "edit_file"@,
        ToolOp::EditCodeLines => "edit_code_lines"@,
        ToolOp::InsertCode => "insert_code"@,
        ToolOp::CreateDirectory => "create_directory"@,
        ToolOp::ListFiles => "list_files"@,
        ToolOp::AnalyzeCodebase => "analyze_codebase"@,
        ToolOp::SetContext => "set_context"@,
        ToolOp::ExecuteJob => "execute_job"@,
    }
}

/// The operation a name selects: the one whose stable name it is.
pub open spec fn parse_spec(name: Seq<char>) -> Option<ToolOp> {
    if name == "read_file"@ {
        Some(ToolOp::ReadFile)
    } else if name == "write_file"@ {
        Some(ToolOp::WriteFile)
    } else if name == "edit_file"@ {
        Some(ToolOp::EditFile)
    } else if name == "edit_code_lines"@ {
        Some(ToolOp::EditCodeLines)
    } else if name == "insert_code"@ {
        Some(ToolOp::InsertCode)
    } else if name == "create_directory"@ {
        Some(ToolOp::CreateDirectory)
    } else if name == "list_files"@ {
        Some(ToolOp::ListFiles)
    } else if name == "analyze_codebase"@ {
        Some(ToolOp::AnalyzeCodebase)
    } else if name == "set_context"@ {
        Some(ToolOp::SetContext)
    } else if name == "execute_job"@ {
        Some(ToolOp::ExecuteJob)
    } else {
        None
    }
}

/// Each operation's stable name.
pub fn op_name(op: ToolOp) -> (r: String)
    ensures
        r@ == op_name_spec(op),
{
    match op {
        ToolOp::ReadFile => String::from_str("read_file"),
        ToolOp::WriteFile => String::from_str("write_file"),
        ToolOp::EditFile => String::from_str("edit_file"),
        ToolOp::EditCodeLines => String::from_str("edit_code_lines"),
        ToolOp::InsertCode => String::from_str("insert_code"),
        ToolOp::CreateDirectory => String::from_str("create_directory"),
        ToolOp::ListFiles => String::from_str("list_files"),
        ToolOp::AnalyzeCodebase => String::from_str("analyze_codebase"),
        ToolOp::SetContext => String::from_str("set_context"),
        ToolOp::ExecuteJob => String::from_str("execute_job"),
    }
}

/// The operation `name` selects, if it is a stable name at all.
pub fn parse_tool_name(name: &str) -> (r: Option<ToolOp>)
    ensures
        r == parse_spec(name@),
{
    let n = String::from_str(name);
    if n.eq(&String::from_str("read_file")) {
        Some(ToolOp::ReadFile)
    } else if n.eq(&String::from_str("write_file")) {
        Some(ToolOp::WriteFile)
    } else if n.eq(&String::from_str("edit_file")) {
        Some(ToolOp::EditFile)
    } else if n.eq(&String::from_str("edit_code_lines")) {
        Some(ToolOp::EditCodeLines)
    } else if n.eq(&String::from_str("insert_code")) {
        Some(ToolOp::InsertCode)
    } else if n.eq(&String::from_str("create_directory")) {
        Some(ToolOp::CreateDirectory)
    } else if n.eq(&String::from_str("list_files")) {
        Some(ToolOp::ListFiles)
    } else if n.eq(&String::from_str("analyze_codebase")) {
        Some(ToolOp::AnalyzeCodebase)
    } else if n.eq(&String::from_str("set_context")) {
        Some(ToolOp::SetContext)
    } else if n.eq(&String::from_str("execute_job")) {
        Some(ToolOp::ExecuteJob)
    } else {
        None
    }
}

/// Law: the stable names select their own operations — every operation's name
/// parses back to exactly that operation, so the ten names are distinct.
pub proof fn lemma_name_round_trip(op: ToolOp)
    ensures
        parse_spec(op_name_spec(op)) == Some(op),
{
    reveal_strlit("read_file");
    reveal_strlit("write_file");
    reveal_strlit("edit_file");
    reveal_strlit("edit_code_lines");
    reveal_strlit("insert_code");
    reveal_strlit("create_directory");
    reveal_strlit("list_files");
    reveal_strlit("analyze_codebase");
    reveal_strlit("set_context");
    reveal_strlit("execute_job");
    assert("read_file"@.len() == 9);
    assert("write_file"@.len() == 10);
    assert("edit_file"@.len() == 9);
    assert("edit_code_lines"@.len() == 15);
    assert("insert_code"@.len() == 11);
    assert("create_directory"@.len() == 16);
    assert("list_files"@.len() == 10);
    assert("analyze_codebase"@.len() == 16);
    assert("set_context"@.len() == 11);
    assert("execute_job"@.len() == 11);
    assert("read_file"@[0] == 'r');
    assert("edit_file"@[0] == 'e');
    assert("write_file"@[0] == 'w');
    assert("list_files"@[0] == 'l');
    assert("insert_code"@[0] == 'i');
    assert("set_context"@[0] == 's');
    assert("execute_job"@[0] == 'e');
    assert("create_directory"@[0] == 'c');
    assert("analyze_codebase"@[0] == 'a');
}

/// Each operation's declared arguments, in order, with their standing: `true`
/// marks one the caller must supply, `false` one with a default or optional.
pub open spec fn op_args_spec(op: ToolOp) -> Seq<(Seq<char>, bool)> {
    match op {
        ToolOp::ReadFile => seq![("path"@, true)],
        ToolOp::WriteFile => seq![("path"@, true), ("content"@, true)],
        ToolOp::EditFile => seq![
            ("path"@, true),
            ("search"@, true),
            ("replace"@, true),
            ("replace_all"@, false),
        ],
        ToolOp::EditCodeLines => seq![
            ("path"@, true),
            ("start_line"@, true),
            ("end_line"@, true),
            ("new_content"@, true),
        ],
        ToolOp::InsertCode => seq![("path"@, true), ("after_line"@, true), ("content"@, true)],
        ToolOp::CreateDirectory => seq![("path"@, true)],
        ToolOp::ListFiles => seq![("path"@, true), ("include_hidden"@, false)],
        ToolOp::AnalyzeCodebase => seq![
            ("path"@, true),
            ("max_file_size"@, false),
            ("max_depth"@, false),
        ],
        ToolOp::SetContext => seq![("key"@, true), ("content"@, true)],
        ToolOp::ExecuteJob => seq![
            ("script_path"@, true),
            ("output_file"@, false),
            ("working_directory"@, false),
        ],
    }
}

/// The views of declared arguments.
pub open spec fn arg_views(v: Seq<ArgSpec>) -> Seq<(Seq<char>, bool)> {
    v.map_values(|a: ArgSpec| (a.name@, a.required))
}

/// One declared argument.
fn arg(name: &str, required: bool) -> (r: ArgSpec)
    ensures
        r.name@ == name@,
        r.required == required,
{
    ArgSpec { name: String::from_str(name), required }
}

/// Each operation's declared arguments, in order.
pub fn op_arguments(op: ToolOp) -> (r: Vec<ArgSpec>)
    ensures
        arg_views(r@) == op_args_spec(op),
{
    let mut v: Vec<ArgSpec> = Vec::new();
    match op {
        ToolOp::ReadFile => {
            v.push(arg("path", true));
        },
        ToolOp::WriteFile => {
            v.push(arg("path", true));
            v.push(arg("content", true));
        },
        ToolOp::EditFile => {
            v.push(arg("path", true));
            v.push(arg("search", true));
            v.push(arg("replace", true));
            v.push(arg("replace_all", false));
        },
        ToolOp::EditCodeLines => {
            v.push(arg("path", true));
            v.push(arg("start_line", true));
            v.push(arg("end_line", true));
            v.push(arg("new_content", true));
        },
        ToolOp::InsertCode => {
            v.push(arg("path", true));
            v.push(arg("after_line", true));
            v.push(arg("content", true));
        },
        ToolOp::CreateDirectory => {
            v.push(arg("path", true));
        },
        ToolOp::ListFiles => {
            v.push(arg("path", true));
            v.push(arg("include_hidden", false));
        },
        ToolOp::AnalyzeCodebase => {
            v.push(arg("path", true));
            v.push(arg("max_file_size", false));
            v.push(arg("max_depth", false));
        },
        ToolOp::SetContext => {
            v.push(arg("key", true));
            v.push(arg("content", true));
        },
        ToolOp::ExecuteJob => {
            v.push(arg("script_path", true));
            v.push(arg("output_file", false));
            v.push(arg("working_directory", false));
        },
    }
    proof {
        assert(arg_views(v@) =~= op_args_spec(op));
    }
    v
}

/// The stable names, in the interface's order.
pub fn tool_names() -> (r: Vec<String>)
    ensures
        string_views(r@) == Seq::new(10, |i: int| op_name_spec(op_order()[i])),
        r@.len() == 10,
{
    let mut v: Vec<String> = Vec::new();
    v.push(op_name(ToolOp::ReadFile));
    v.push(op_name(ToolOp::WriteFile));
    v.push(op_name(ToolOp::EditFile));
    v.push(op_name(ToolOp::EditCodeLines));
    v.push(op_name(ToolOp::InsertCode));
    v.push(op_name(ToolOp::CreateDirectory));
    v.push(op_name(ToolOp::ListFiles));
    v.push(op_name(ToolOp::AnalyzeCodebase));
    v.push(op_name(ToolOp::SetContext));
    v.push(op_name(ToolOp::ExecuteJob));
    proof {
        assert(string_views(v@) =~= Seq::new(10, |i: int| op_name_spec(op_order()[i])));
    }
    v
}

/// The interface's order of the operations.
pub open spec fn op_order() -> Seq<ToolOp> {
    seq![
        ToolOp::ReadFile,
        ToolOp::WriteFile,
        ToolOp::EditFile,
        ToolOp::EditCodeLines,
        ToolOp::InsertCode,
        ToolOp::CreateDirectory,
        ToolOp::ListFiles,
        ToolOp::AnalyzeCodebase,
        ToolOp::SetContext,
        ToolOp::ExecuteJob,
    ]
}

} // verus!
