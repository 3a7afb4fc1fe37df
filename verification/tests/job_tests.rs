use llmo_tools::job::{ExecuteJobArgs, JobExecutor, JobPlan, JobResult};
use llmo_tools::FileToolError;

#[test]
fn python_scripts_run_under_python() {
    let (program, argv) = JobExecutor::determine_executor("script.py").unwrap();
    assert_eq!(program, "python");
    assert_eq!(argv, vec!["script.py".to_string()]);
}

#[test]
fn shell_scripts_run_under_bash() {
    let (program, argv) = JobExecutor::determine_executor("script.sh").unwrap();
    assert_eq!(program, "bash");
    assert_eq!(argv, vec!["script.sh".to_string()]);
}

#[test]
fn extensionless_scripts_run_directly() {
    let (program, argv) = JobExecutor::determine_executor("run").unwrap();
    assert_eq!(program, "./run");
    assert!(argv.is_empty());
}

#[test]
fn the_other_known_interpreters() {
    assert_eq!(JobExecutor::determine_executor("a.js").unwrap().0, "node");
    assert_eq!(JobExecutor::determine_executor("a.rb").unwrap().0, "ruby");
    assert_eq!(JobExecutor::determine_executor("a.pl").unwrap().0, "perl");
}

#[test]
fn executor_uses_the_file_name_not_the_path() {
    let (program, argv) = JobExecutor::determine_executor("./test_code/run.sh").unwrap();
    assert_eq!(program, "bash");
    assert_eq!(argv, vec!["run.sh".to_string()]);
}

#[test]
fn unknown_extension_falls_back_to_direct_execution() {
    let (program, argv) = JobExecutor::determine_executor("notes.txt").unwrap();
    assert_eq!(program, "./notes.txt");
    assert!(argv.is_empty());
}

#[test]
fn trailing_dot_segments_resolve_away() {
    // `foo.txt/.` names the same file `foo.txt` does, so it runs directly.
    let (program, argv) = JobExecutor::determine_executor("foo.txt/.").unwrap();
    assert_eq!(program, "./foo.txt");
    assert!(argv.is_empty());
    let (program, argv) = JobExecutor::determine_executor("dir/run.sh/.//.").unwrap();
    assert_eq!(program, "bash");
    assert_eq!(argv, vec!["run.sh".to_string()]);
    assert_eq!(JobExecutor::resolve_working_dir("dir/sub/.", &None).unwrap(), "dir");
    assert_eq!(JobExecutor::resolve_working_dir("foo.txt/.", &None).unwrap(), "");
    assert_eq!(JobExecutor::resolve_working_dir("a//b.py", &None).unwrap(), "a");
    // A path made only of `.` segments still names no script.
    assert!(JobExecutor::determine_executor("./.").is_err());
    assert!(JobExecutor::determine_executor("a/..").is_err());
}

#[test]
fn pathless_scripts_are_rejected() {
    for p in ["", ".", "..", "/"] {
        let r = JobExecutor::determine_executor(p);
        assert!(
            matches!(r, Err(FileToolError::InvalidPath(m)) if m == "Failed to get script filename"),
            "path {:?}",
            p
        );
    }
}

#[test]
fn working_directory_resolution() {
    let wd = Some("work".to_string());
    assert_eq!(JobExecutor::resolve_working_dir("a/b.py", &wd).unwrap(), "work");
    assert_eq!(JobExecutor::resolve_working_dir("a/b/c.py", &None).unwrap(), "a/b");
    assert_eq!(JobExecutor::resolve_working_dir("c.py", &None).unwrap(), "");
    assert_eq!(JobExecutor::resolve_working_dir("/c.py", &None).unwrap(), "/");
    let r = JobExecutor::resolve_working_dir("/", &None);
    assert!(
        matches!(r, Err(FileToolError::InvalidPath(m)) if m == "Failed to get script directory")
    );
}

#[test]
fn lines_are_tagged_by_origin() {
    assert_eq!(JobExecutor::tag_line(false, "hello"), "[STDOUT] hello");
    assert_eq!(JobExecutor::tag_line(true, "oops"), "[STDERR] oops");
}

#[test]
fn exit_codes_fall_back_to_minus_one() {
    assert_eq!(JobExecutor::exit_code_of(Some(3)), 3);
    assert_eq!(JobExecutor::exit_code_of(Some(0)), 0);
    assert_eq!(JobExecutor::exit_code_of(None), -1);
}

#[test]
fn result_rendering() {
    let r = JobResult {
        start_time: "S".to_string(),
        end_time: "E".to_string(),
        duration_ms: 1234,
        exit_code: 0,
        output_file: "f.log".to_string(),
    };
    assert_eq!(
        r.render(),
        "Job Execution Result:\nStart Time: S\nEnd Time: E\nDuration: 1.234s\nExit Code: 0\nOutput File: f.log"
    );
}

#[test]
fn duration_rendering_pads_milliseconds() {
    let mut r = JobResult {
        start_time: "S".to_string(),
        end_time: "E".to_string(),
        duration_ms: 5,
        exit_code: -1,
        output_file: "f.log".to_string(),
    };
    assert!(r.render().contains("Duration: 0.005s"));
    assert!(r.render().contains("Exit Code: -1"));
    r.duration_ms = 42;
    assert!(r.render().contains("Duration: 0.042s"));
    r.duration_ms = 0;
    assert!(r.render().contains("Duration: 0.000s"));
    r.duration_ms = 60000;
    assert!(r.render().contains("Duration: 60.000s"));
}

#[test]
fn plan_selects_executor_and_names_the_log() {
    let args = ExecuteJobArgs {
        script_path: "x.py".to_string(),
        output_file: None,
        working_directory: None,
    };
    let plan = JobExecutor::plan(&args).unwrap();
    assert_eq!(plan.program, "python");
    assert_eq!(plan.args, vec!["x.py".to_string()]);
    assert!(plan.output_file.starts_with("job_output_"));
    assert!(plan.output_file.ends_with(".log"));
    let expected_header = format!(
        "Job: x.py\nStart Time: {}\n----------------------------------------\n",
        plan.start_time
    );
    assert_eq!(plan.header, expected_header);
}

#[test]
fn plan_keeps_a_requested_log_name() {
    let args = ExecuteJobArgs {
        script_path: "x.sh".to_string(),
        output_file: Some("my.log".to_string()),
        working_directory: None,
    };
    let plan = JobExecutor::plan(&args).unwrap();
    assert_eq!(plan.output_file, "my.log");
}

#[test]
fn finish_builds_footer_result_and_summary() {
    let plan = JobPlan {
        program: "python".to_string(),
        args: vec!["x.py".to_string()],
        output_file: "out.log".to_string(),
        start_time: "S".to_string(),
        start_millis: 0,
        header: "h".to_string(),
    };
    let lines: Vec<String> = (1..=12).map(|i| format!("[STDOUT] line{}", i)).collect();
    let (result, footer, summary) = JobExecutor::finish(plan, 7, &lines);
    assert_eq!(result.exit_code, 7);
    assert_eq!(result.output_file, "out.log");
    assert_eq!(result.start_time, "S");
    assert!(footer.starts_with("----------------------------------------\nEnd Time: "));
    assert!(footer.contains("\nExit Code: 7\n"));
    assert!(summary.starts_with("Job execution completed!\n\nJob Execution Result:\n"));
    let preview: Vec<String> = (3..=12).map(|i| format!("[STDOUT] line{}", i)).collect();
    assert!(summary.ends_with(&format!(
        "\n\nOutput preview (last 10 lines):\n{}",
        preview.join("\n")
    )));
    assert!(!summary.contains("line2\n"));
}

#[test]
fn finish_with_few_lines_previews_them_all() {
    let plan = JobPlan {
        program: "bash".to_string(),
        args: vec![],
        output_file: "o.log".to_string(),
        start_time: "S".to_string(),
        start_millis: 0,
        header: "h".to_string(),
    };
    let lines = vec!["[STDERR] only".to_string()];
    let (_, _, summary) = JobExecutor::finish(plan, 0, &lines);
    assert!(summary.ends_with("Output preview (last 10 lines):\n[STDERR] only"));
}
