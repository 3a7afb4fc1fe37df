//! The job runner's decision and bookkeeping logic: interpreter selection by
//! extension, log naming, working-directory resolution, line tagging, and the
//! log's and summary's exact text. The caller spawns the interpreter, drains
//! its two streams concurrently into one tagged line buffer, and hands the
//! outcome back to be finished into a `JobResult`.

use vstd::prelude::*;
use crate::errors::{FileToolError, is_invalid_path};
use crate::fs_tools::string_views;
use crate::lines::join_lines;
use crate::paths::{ext_of, file_extension, file_name, file_name_of, parent_of, parent_dir,
    valid_file_name};
use crate::strutil::{dec_digits, int_digits, i32_string, u64_string};

verus! {

/// Arguments of the `execute_job` operation.
pub struct ExecuteJobArgs {
    pub script_path: String,
    pub output_file: Option<String>,
    pub working_directory: Option<String>,
}

/// One finished job, immutable once built: when it ran, how long, how it
/// exited, and where its log stands. The times are carried as their rendered
/// display text; the duration in whole milliseconds.
pub struct JobResult {
    pub start_time: String,
    pub end_time: String,
    pub duration_ms: u64,
    pub exit_code: i32,
    pub output_file: String,
}

/// The `execute_job` operation.
pub struct JobExecutor;

/// Everything decided before the interpreter is spawned: the program and its
/// arguments, the log file's name, the start time as display text and in
/// milliseconds, and the log's header block.
pub struct JobPlan {
    pub program: String,
    pub args: Vec<String>,
    pub output_file: String,
    pub start_time: String,
    pub start_millis: u64,
    pub header: String,
}

// ---------------------------------------------------------------------------
// Clock readings
// ---------------------------------------------------------------------------
/// Relies on `chrono::Local::now`: the current local time, here rendered in
/// its standard display form. Nothing is promised of a clock reading.
#[verifier::external_body]
fn now_display() -> (r: String) {
    chrono::Local::now().to_string()
}

/// Relies on `chrono::Local::now`: the current local time, here rendered to
/// second granularity for a file name. Nothing is promised of a clock reading.
#[verifier::external_body]
fn now_stamp() -> (r: String) {
    chrono::Local::now().format("%Y%m%d_%H%M%S").to_string()
}

/// Relies on `chrono::Local::now`: the current local time in milliseconds
/// since the epoch, clamped at zero. Nothing is promised of a clock reading.
#[verifier::external_body]
fn now_millis() -> (r: u64) {
    u64::try_from(chrono::Local::now().timestamp_millis()).unwrap_or(0)
}

// ---------------------------------------------------------------------------
// Interpreter selection
// ---------------------------------------------------------------------------
/// The interpreter a script extension selects, or `None` for direct execution.
pub open spec fn interpreter_for(ext: Seq<char>) -> Option<Seq<char>> {
    if ext == "py"@ {
        Some("python"@)
    } else if ext == "sh"@ {
        Some("bash"@)
    } else if ext == "js"@ {
        Some("node"@)
    } else if ext == "rb"@ {
        Some("ruby"@)
    } else if ext == "pl"@ {
        Some("perl"@)
    } else {
        None
    }
}

/// The program and arguments that running `path` means: a known extension
/// selects its interpreter with the script's file name as the one argument;
/// any other — or no — extension means executing `./name` itself, with no
/// arguments.
pub open spec fn executor_selected(path: Seq<char>, program: Seq<char>, argv: Seq<String>) -> bool {
    let name = file_name_of(path);
    match interpreter_for(ext_of(name)) {
        Some(p) => program == p && argv.len() == 1 && argv[0]@ == name,
        None => program == "./"@ + name && argv.len() == 0,
    }
}

impl JobExecutor {
    /// Selects how to run the script: `python`, `bash`, `node`, `ruby` or
    /// `perl` by extension, each taking the script's file name as its one
    /// argument, and direct execution of `./name` for an unknown or missing
    /// extension. A path that names no file is `InvalidPath`.
    pub fn determine_executor(script_path: &str) -> (r: Result<(String, Vec<String>), FileToolError>)
        ensures
            r is Ok <==> valid_file_name(script_path@),
            r matches Err(e) ==> is_invalid_path(e, "Failed to get script filename"@),
            r matches Ok(pa) ==> executor_selected(script_path@, pa.0@, pa.1@),
    {
        let name = match file_name(script_path) {
            None => {
                return Err(
                    FileToolError::InvalidPath(String::from_str("Failed to get script filename")),
                );
            },
            Some(n) => n,
        };
        let ext = file_extension(name.as_str());
        if ext.eq(&String::from_str("py")) {
            let mut argv: Vec<String> = Vec::new();
            argv.push(name);
            proof {
                assert(argv@.len() == 1);
            }
            Ok((String::from_str("python"), argv))
        } else if ext.eq(&String::from_str("sh")) {
            let mut argv: Vec<String> = Vec::new();
            argv.push(name);
            Ok((String::from_str("bash"), argv))
        } else if ext.eq(&String::from_str("js")) {
            let mut argv: Vec<String> = Vec::new();
            argv.push(name);
            Ok((String::from_str("node"), argv))
        } else if ext.eq(&String::from_str("rb")) {
            let mut argv: Vec<String> = Vec::new();
            argv.push(name);
            Ok((String::from_str("ruby"), argv))
        } else if ext.eq(&String::from_str("pl")) {
            let mut argv: Vec<String> = Vec::new();
            argv.push(name);
            Ok((String::from_str("perl"), argv))
        } else {
            let mut p = String::from_str("./");
            p.append(name.as_str());
            Ok((p, Vec::new()))
        }
    }

    /// The working directory the job runs in: the caller's choice where given,
    /// else the script's own directory; `InvalidPath` where the script path
    /// has no parent to fall back to.
    pub fn resolve_working_dir(script_path: &str, working_directory: &Option<String>) -> (r: Result<
        String,
        FileToolError,
    >)
        ensures
            working_directory matches Some(w) ==> (r matches Ok(d) && d@ == w@),
            working_directory is None ==> match parent_of(script_path@) {
                Some(p) => r matches Ok(d) && d@ == p,
                None => r matches Err(e) && is_invalid_path(e, "Failed to get script directory"@),
            },
    {
        match working_directory {
            Some(w) => Ok(w.clone()),
            None => match parent_dir(script_path) {
                Some(d) => Ok(d),
                None => Err(
                    FileToolError::InvalidPath(String::from_str("Failed to get script directory")),
                ),
            },
        }
    }
}

// ---------------------------------------------------------------------------
// The log's and summary's text
// ---------------------------------------------------------------------------
/// A log name carrying a timestamp between the fixed prefix and suffix.
pub open spec fn stamped_log_name(name: Seq<char>, stamp: Seq<char>) -> bool {
    name == "job_output_"@ + stamp + ".log"@
}

/// A log name carrying some timestamp between the fixed prefix and suffix.
pub open spec fn stamped_output_name(name: Seq<char>) -> bool {
    exists|t: Seq<char>| stamped_log_name(name, t)
}

/// The log's header block: the script and the start time.
pub open spec fn header_spec(script: Seq<char>, start: Seq<char>) -> Seq<char> {
    "Job: "@ + script + "\nStart Time: "@ + start + "\n----------------------------------------\n"@
}

/// One captured output line, tagged with the stream it came from.
pub open spec fn tagged(is_stderr: bool, line: Seq<char>) -> Seq<char> {
    (if is_stderr {
        "[STDERR] "@
    } else {
        "[STDOUT] "@
    }) + line
}

/// A duration in milliseconds rendered as seconds: the whole seconds, a dot,
/// exactly three millisecond digits, and `s`.
pub open spec fn duration_str(ms: nat) -> Seq<char> {
    dec_digits(ms / 1000) + (if ms % 1000 < 10 {
        ".00"@
    } else if ms % 1000 < 100 {
        ".0"@
    } else {
        "."@
    }) + dec_digits(ms % 1000) + "s"@
}

/// The log's footer block: the end time, the duration, the exit code.
pub open spec fn footer_spec(end: Seq<char>, duration_ms: nat, exit_code: int) -> Seq<char> {
    "----------------------------------------\nEnd Time: "@ + end + "\nDuration: "@ + duration_str(
        duration_ms,
    ) + "\nExit Code: "@ + int_digits(exit_code) + "\n"@
}

/// A finished job's fields, rendered one per line.
pub open spec fn result_spec(r: JobResult) -> Seq<char> {
    "Job Execution Result:\nStart Time: "@ + r.start_time@ + "\nEnd Time: "@ + r.end_time@
        + "\nDuration: "@ + duration_str(r.duration_ms as nat) + "\nExit Code: "@ + int_digits(
        r.exit_code as int,
    ) + "\nOutput File: "@ + r.output_file@
}

/// Where the preview of the captured lines starts: the last ten.
pub open spec fn preview_start(n: nat) -> int {
    if n > 10 {
        n - 10
    } else {
        0
    }
}

/// The caller-facing summary: the result's fields and the last ten captured
/// lines.
pub open spec fn summary_spec(r: JobResult, lines: Seq<Seq<char>>) -> Seq<char> {
    "Job execution completed!\n\n"@ + result_spec(r) + "\n\nOutput preview (last 10 lines):\n"@
        + join_lines(lines.skip(preview_start(lines.len())))
}

/// A duration in milliseconds rendered as seconds.
fn duration_string(ms: u64) -> (r: String)
    ensures
        r@ == duration_str(ms as nat),
{
    let secs = u64_string(ms / 1000);
    let frac = ms % 1000;
    let mut m = secs;
    if frac < 10 {
        m.append(".00");
    } else if frac < 100 {
        m.append(".0");
    } else {
        m.append(".");
    }
    let d = u64_string(frac);
    m.append(d.as_str());
    m.append("s");
    m
}

impl JobExecutor {
    /// The exit code as captured: the process's own where the system reports
    /// one, `-1` where it does not (a termination by signal).
    pub fn exit_code_of(code: Option<i32>) -> (r: i32)
        ensures
            code matches Some(c) ==> r == c,
            code is None ==> r == -1,
    {
        match code {
            Some(c) => c,
            None => -1,
        }
    }

    /// One captured line, tagged with its stream of origin.
    pub fn tag_line(is_stderr: bool, line: &str) -> (r: String)
        ensures
            r@ == tagged(is_stderr, line@),
    {
        let mut m = String::from_str(
            if is_stderr {
                "[STDERR] "
            } else {
                "[STDOUT] "
            },
        );
        m.append(line);
        m
    }

    /// Everything decided before the spawn: how to run the script, the log's
    /// name — the caller's choice, or one stamped with the current time — the
    /// start time, and the log's header block.
    pub fn plan(args: &ExecuteJobArgs) -> (r: Result<JobPlan, FileToolError>)
        ensures
            r is Ok <==> valid_file_name(args.script_path@),
            r matches Err(e) ==> is_invalid_path(e, "Failed to get script filename"@),
            r matches Ok(p) ==> {
                &&& executor_selected(args.script_path@, p.program@, p.args@)
                &&& match args.output_file {
                    Some(s) => p.output_file@ == s@,
                    None => stamped_output_name(p.output_file@),
                }
                &&& p.header@ == header_spec(args.script_path@, p.start_time@)
            },
    {
        let (program, argv) = match Self::determine_executor(args.script_path.as_str()) {
            Err(e) => {
                return Err(e);
            },
            Ok(pa) => pa,
        };
        let ghost mut gstamp: Seq<char> = Seq::empty();
        let output_file = match &args.output_file {
            Some(s) => s.clone(),
            None => {
                let stamp = now_stamp();
                proof {
                    gstamp = stamp@;
                }
                let mut n = String::from_str("job_output_");
                n.append(stamp.as_str());
                n.append(".log");
                n
            },
        };
        let start_time = now_display();
        let start_millis = now_millis();
        let mut header = String::from_str("Job: ");
        header.append(args.script_path.as_str());
        header.append("\nStart Time: ");
        header.append(start_time.as_str());
        header.append("\n----------------------------------------\n");
        let p = JobPlan { program, args: argv, output_file, start_time, start_millis, header };
        proof {
            if args.output_file is None {
                assert(stamped_log_name(p.output_file@, gstamp));
                assert(stamped_output_name(p.output_file@));
            }
        }
        Ok(p)
    }

    /// Closes the books on a finished job: reads the clock once more, renders
    /// the footer block for the log, and builds the `JobResult` and the
    /// caller-facing summary with the last ten captured lines as a preview.
    pub fn finish(plan: JobPlan, exit_code: i32, lines: &Vec<String>) -> (r: (
        JobResult,
        String,
        String,
    ))
        ensures
            r.0.exit_code == exit_code,
            r.0.output_file@ == plan.output_file@,
            r.0.start_time@ == plan.start_time@,
            r.1@ == footer_spec(r.0.end_time@, r.0.duration_ms as nat, exit_code as int),
            r.2@ == summary_spec(r.0, string_views(lines@)),
    {
        let end_time = now_display();
        let end_millis = now_millis();
        let duration_ms = if end_millis >= plan.start_millis {
            end_millis - plan.start_millis
        } else {
            0
        };
        let result = JobResult {
            start_time: plan.start_time,
            end_time,
            duration_ms,
            exit_code,
            output_file: plan.output_file,
        };
        let dur = duration_string(duration_ms);
        let code = i32_string(exit_code);
        let mut footer = String::from_str("----------------------------------------\nEnd Time: ");
        footer.append(result.end_time.as_str());
        footer.append("\nDuration: ");
        footer.append(dur.as_str());
        footer.append("\nExit Code: ");
        footer.append(code.as_str());
        footer.append("\n");
        let mut summary = String::from_str("Job execution completed!\n\n");
        let rendered = result.render();
        summary.append(rendered.as_str());
        summary.append("\n\nOutput preview (last 10 lines):\n");
        let preview = preview_tail(lines);
        summary.append(preview.as_str());
        (result, footer, summary)
    }
}

/// The last ten lines — or all of them, when there are no more — joined by
/// newlines.
fn preview_tail(lines: &Vec<String>) -> (r: String)
    ensures
        r@ == join_lines(string_views(lines@).skip(preview_start(lines@.len()))),
{
    let n = lines.len();
    let start: usize = if n > 10 {
        n - 10
    } else {
        0
    };
    let mut m = String::new();
    proof {
        assert(string_views(lines@).skip(start as int).take(0) =~= Seq::<Seq<char>>::empty());
    }
    let mut i: usize = start;
    while i < n
        invariant
            start <= i <= n,
            n == lines@.len(),
            m@ == join_lines(string_views(lines@).skip(start as int).take(i - start)),
        decreases n - i,
    {
        if i > start {
            m.append("\n");
        }
        m.append(lines[i].as_str());
        proof {
            let vs = string_views(lines@).skip(start as int);
            let k: int = i as int - start as int;
            assert(vs[k] == string_views(lines@)[i as int]);
            assert(vs.take(k + 1) =~= vs.take(k).push(vs[k]));
            crate::lines::lemma_join_snoc(vs.take(k), vs[k]);
            if i == start {
                assert(m@ =~= vs[k]);
                assert(join_lines(vs.take(k + 1)) == vs[k]);
            } else {
                reveal_strlit("\n");
                assert(m@ =~= join_lines(vs.take(k)) + seq!['\n'] + vs[k]);
                assert(join_lines(vs.take(k + 1)) == join_lines(vs.take(k)) + seq!['\n'] + vs[k]);
            }
            assert(m@ == join_lines(vs.take(k + 1)));
        }
        i = i + 1;
    }
    proof {
        let vs = string_views(lines@).skip(start as int);
        assert(vs.take(n - start) =~= vs);
    }
    m
}

impl JobResult {
    /// The result's fields, rendered one per line.
    pub fn render(&self) -> (r: String)
        ensures
            r@ == result_spec(*self),
    {
        let mut m = String::from_str("Job Execution Result:\nStart Time: ");
        m.append(self.start_time.as_str());
        m.append("\nEnd Time: ");
        m.append(self.end_time.as_str());
        m.append("\nDuration: ");
        let d = duration_string(self.duration_ms);
        m.append(d.as_str());
        m.append("\nExit Code: ");
        let c = i32_string(self.exit_code);
        m.append(c.as_str());
        m.append("\nOutput File: ");
        m.append(self.output_file.as_str());
        m
    }
}

} // verus!
