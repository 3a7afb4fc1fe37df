//! The codebase analyzer's selection and assembly logic. The caller walks the
//! directory tree and reads candidate files; everything the bundle holds —
//! which entries are pruned by the deny list, which names count as source
//! text, which files are small enough, and the bundle's exact text — is
//! decided here.

use vstd::prelude::*;
use vstd::utf8::encode_utf8;
use crate::errors::{FileToolError, is_file_not_found, is_invalid_path};
use crate::fs_tools::{require_directory, string_views};
use crate::paths::{ext_of, file_extension};
use crate::strutil::{contains_sub, has_occurrence, lower_of, lower_string, str_chars};

verus! {

/// The byte-size bound a file's content must stay strictly below by default.
pub fn default_max_file_size() -> (r: usize)
    ensures
        r == 10000,
{
    10000
}

/// The depth bound the tree walk keeps to by default.
pub fn default_max_depth() -> (r: usize)
    ensures
        r == 10,
{
    10
}

/// Arguments of the `analyze_codebase` operation.
pub struct AnalyzeCodebaseArgs {
    pub path: String,
    pub max_file_size: usize,
    pub max_depth: usize,
}

impl AnalyzeCodebaseArgs {
    /// Arguments with the default size and depth bounds.
    pub fn with_defaults(path: String) -> (r: Self)
        ensures
            r.path == path,
            r.max_file_size == 10000,
            r.max_depth == 10,
    {
        AnalyzeCodebaseArgs { path, max_file_size: default_max_file_size(), max_depth: default_max_depth() }
    }
}

/// The `analyze_codebase` operation.
pub struct CodebaseAnalyzer;

/// One entry of the walked tree, as the caller hands it in: the full path as
/// a string, the path relative to the analyzed root, the bare name, the depth
/// below the root, and what the entry is.
pub struct WalkEntry {
    pub path: String,
    pub rel_path: String,
    pub name: String,
    pub depth: usize,
    pub is_dir: bool,
    pub is_file: bool,
}

// ---------------------------------------------------------------------------
// The fixed lists
// ---------------------------------------------------------------------------
/// Directory-name fragments that prune the walk: any entry whose full path
/// holds one of these anywhere is left out, children included. Matching by
/// substring of the whole path is deliberate, though over-broad: a
/// legitimately named directory that happens to match is also excluded.
pub open spec fn deny_list() -> Seq<Seq<char>> {
    seq![
        ".git"@,
        "node_modules"@,
        "target"@,
        "dist"@,
        "build"@,
        "out"@,
        ".idea"@,
        ".vscode"@,
        "__pycache__"@,
        ".pytest_cache"@,
        "venv"@,
        "env"@,
        ".env"@,
        "vendor"@,
        "bower_components"@,
        ".next"@,
        ".nuxt"@,
        "coverage"@,
        "out-shakespeare-char"@,
    ]
}

/// The extensions that mark a file as source or structured text.
pub open spec fn code_ext_list() -> Seq<Seq<char>> {
    seq![
        "rs"@,
        "py"@,
        "js"@,
        "ts"@,
        "jsx"@,
        "tsx"@,
        "java"@,
        "cpp"@,
        "c"@,
        "h"@,
        "hpp"@,
        "go"@,
        "rb"@,
        "php"@,
        "cs"@,
        "swift"@,
        "kt"@,
        "scala"@,
        "r"@,
        "m"@,
        "mm"@,
        "sql"@,
        "sh"@,
        "bash"@,
        "yaml"@,
        "yml"@,
        "json"@,
        "xml"@,
        "toml"@,
        "ini"@,
        "md"@,
        "txt"@,
        "dockerfile"@,
        "makefile"@,
        "cmake"@,
    ]
}

/// The well-known manifest and readme names read from directly under the
/// root, in the order they are embedded.
pub open spec fn config_names() -> Seq<Seq<char>> {
    seq![
        "Cargo.toml"@,
        "package.json"@,
        "requirements.txt"@,
        "setup.py"@,
        "pom.xml"@,
        "build.gradle"@,
        "CMakeLists.txt"@,
        "Makefile"@,
        "docker-compose.yml"@,
        "Dockerfile"@,
        ".gitignore"@,
        "README.md"@,
    ]
}

/// The deny-list fragments, for the caller and the checks here.
pub fn deny_dirs() -> (r: Vec<String>)
    ensures
        string_views(r@) == deny_list(),
{
    let mut v: Vec<String> = Vec::new();
    v.push(String::from_str(".git"));
    v.push(String::from_str("node_modules"));
    v.push(String::from_str("target"));
    v.push(String::from_str("dist"));
    v.push(String::from_str("build"));
    v.push(String::from_str("out"));
    v.push(String::from_str(".idea"));
    v.push(String::from_str(".vscode"));
    v.push(String::from_str("__pycache__"));
    v.push(String::from_str(".pytest_cache"));
    v.push(String::from_str("venv"));
    v.push(String::from_str("env"));
    v.push(String::from_str(".env"));
    v.push(String::from_str("vendor"));
    v.push(String::from_str("bower_components"));
    v.push(String::from_str(".next"));
    v.push(String::from_str(".nuxt"));
    v.push(String::from_str("coverage"));
    v.push(String::from_str("out-shakespeare-char"));
    proof {
        assert(string_views(v@) =~= deny_list());
    }
    v
}

/// The allowed extensions, for the caller and the checks here.
pub fn code_extensions() -> (r: Vec<String>)
    ensures
        string_views(r@) == code_ext_list(),
{
    let mut v: Vec<String> = Vec::new();
    v.push(String::from_str("rs"));
    v.push(String::from_str("py"));
    v.push(String::from_str("js"));
    v.push(String::from_str("ts"));
    v.push(String::from_str("jsx"));
    v.push(String::from_str("tsx"));
    v.push(String::from_str("java"));
    v.push(String::from_str("cpp"));
    v.push(String::from_str("c"));
    v.push(String::from_str("h"));
    v.push(String::from_str("hpp"));
    v.push(String::from_str("go"));
    v.push(String::from_str("rb"));
    v.push(String::from_str("php"));
    v.push(String::from_str("cs"));
    v.push(String::from_str("swift"));
    v.push(String::from_str("kt"));
    v.push(String::from_str("scala"));
    v.push(String::from_str("r"));
    v.push(String::from_str("m"));
    v.push(String::from_str("mm"));
    v.push(String::from_str("sql"));
    v.push(String::from_str("sh"));
    v.push(String::from_str("bash"));
    v.push(String::from_str("yaml"));
    v.push(String::from_str("yml"));
    v.push(String::from_str("json"));
    v.push(String::from_str("xml"));
    v.push(String::from_str("toml"));
    v.push(String::from_str("ini"));
    v.push(String::from_str("md"));
    v.push(String::from_str("txt"));
    v.push(String::from_str("dockerfile"));
    v.push(String::from_str("makefile"));
    v.push(String::from_str("cmake"));
    proof {
        assert(string_views(v@) =~= code_ext_list());
    }
    v
}

/// The well-known manifest and readme names, in embedding order.
pub fn config_file_names() -> (r: Vec<String>)
    ensures
        string_views(r@) == config_names(),
{
    let mut v: Vec<String> = Vec::new();
    v.push(String::from_str("Cargo.toml"));
    v.push(String::from_str("package.json"));
    v.push(String::from_str("requirements.txt"));
    v.push(String::from_str("setup.py"));
    v.push(String::from_str("pom.xml"));
    v.push(String::from_str("build.gradle"));
    v.push(String::from_str("CMakeLists.txt"));
    v.push(String::from_str("Makefile"));
    v.push(String::from_str("docker-compose.yml"));
    v.push(String::from_str("Dockerfile"));
    v.push(String::from_str(".gitignore"));
    v.push(String::from_str("README.md"));
    proof {
        assert(string_views(v@) =~= config_names());
    }
    v
}

// ---------------------------------------------------------------------------
// Selection
// ---------------------------------------------------------------------------
/// A path the deny list excludes: some fragment stands somewhere in it.
pub open spec fn denied(p: Seq<char>) -> bool {
    exists|k: int|
        0 <= k < deny_list().len() && has_occurrence(p, #[trigger] deny_list()[k])
}

/// Whether the deny list excludes this path.
pub fn is_denied(path: &str) -> (r: bool)
    ensures
        r == denied(path@),
{
    let p = str_chars(path);
    let deny = deny_dirs();
    let mut k: usize = 0;
    while k < deny.len()
        invariant
            k <= deny@.len(),
            string_views(deny@) == deny_list(),
            forall|j: int| 0 <= j < k ==> !has_occurrence(p@, #[trigger] deny_list()[j]),
            p@ == path@,
        decreases deny@.len() - k,
    {
        let d = str_chars(deny[k].as_str());
        if contains_sub(&p, &d) {
            proof {
                assert(deny_list()[k as int] == deny@[k as int]@);
            }
            return true;
        }
        k = k + 1;
    }
    false
}

/// Whether a string sequence holds exactly this string.
pub fn contains_string(v: &Vec<String>, s: &String) -> (r: bool)
    ensures
        r == string_views(v@).contains(s@),
{
    let mut i: usize = 0;
    while i < v.len()
        invariant
            i <= v@.len(),
            forall|j: int| 0 <= j < i ==> string_views(v@)[j] != s@,
        decreases v@.len() - i,
    {
        if v[i].eq(s) {
            proof {
                assert(string_views(v@)[i as int] == s@);
            }
            return true;
        }
        i = i + 1;
    }
    false
}

/// A name that counts as source or structured text: its lowercased extension
/// stands in the allow list, or the lowercased name itself is a well-known
/// extensionless one.
pub open spec fn is_code_name(name: Seq<char>) -> bool {
    ||| code_ext_list().contains(lower_of(ext_of(name)))
    ||| lower_of(name) == "dockerfile"@
    ||| lower_of(name) == "makefile"@
    ||| lower_of(name) == "cmakelists.txt"@
}

/// Whether this name counts as source or structured text.
pub fn code_name_matches(name: &str) -> (r: bool)
    ensures
        r == is_code_name(name@),
{
    let ext = file_extension(name);
    let low_ext = lower_string(ext.as_str());
    let exts = code_extensions();
    if contains_string(&exts, &low_ext) {
        return true;
    }
    let low_name = lower_string(name);
    if low_name.eq(&String::from_str("dockerfile")) {
        return true;
    }
    if low_name.eq(&String::from_str("makefile")) {
        return true;
    }
    low_name.eq(&String::from_str("cmakelists.txt"))
}

/// Whether the analyzer wants this entry's content read at all: a regular
/// file, not pruned by the deny list, whose name counts as source text. The
/// size bound is checked against the content itself, afterwards.
pub fn wants_content(e: &WalkEntry) -> (r: bool)
    ensures
        r == (e.is_file && !denied(e.path@) && is_code_name(e.name@)),
{
    e.is_file && !is_denied(e.path.as_str()) && code_name_matches(e.name.as_str())
}

/// Content strictly below the size bound, measured in bytes as stored.
pub open spec fn within_size(content: Seq<char>, max: int) -> bool {
    (encode_utf8(content).len() as usize) < max
}

// ---------------------------------------------------------------------------
// The bundle's text
// ---------------------------------------------------------------------------
/// Two spaces for every level below the root.
pub open spec fn indent(depth: nat) -> Seq<char>
    decreases depth,
{
    if depth == 0 {
        Seq::empty()
    } else {
        indent((depth - 1) as nat) + "  "@
    }
}

/// One entry's line in the structure rendering: directories at any shown
/// depth, files only near the top, pruned entries and deeper files nothing.
pub open spec fn structure_line(e: WalkEntry) -> Seq<char> {
    if denied(e.path@) {
        Seq::empty()
    } else if e.is_dir {
        indent(e.depth as nat) + "📁 "@ + e.name@ + "\n"@
    } else if e.depth <= 2 {
        indent(e.depth as nat) + "📄 "@ + e.name@ + "\n"@
    } else {
        Seq::empty()
    }
}

/// The structure rendering of the walked entries, in walk order.
pub open spec fn structure_section(es: Seq<WalkEntry>) -> Seq<char>
    decreases es.len(),
{
    if es.len() == 0 {
        Seq::empty()
    } else {
        structure_section(es.drop_last()) + structure_line(es.last())
    }
}

/// One embedded manifest: its name as a tag, then its content verbatim.
pub open spec fn config_item(name: Seq<char>, content: Seq<char>) -> Seq<char> {
    "\n\n=== FILE: "@ + name + " ===\n"@ + content
}

/// The embedded manifests, in list order.
pub open spec fn config_section(docs: Seq<(String, String)>) -> Seq<char>
    decreases docs.len(),
{
    if docs.len() == 0 {
        Seq::empty()
    } else {
        config_section(docs.drop_last()) + config_item(docs.last().0@, docs.last().1@)
    }
}

/// One walked file's contribution to the code section: its relative path as a
/// tag and its content, but only for a readable, allowed, small enough
/// regular file outside the deny list — otherwise nothing, and never an
/// error.
pub open spec fn code_item(e: WalkEntry, content: Option<String>, max: int) -> Seq<char> {
    match content {
        Some(c) => {
            if e.is_file && !denied(e.path@) && is_code_name(e.name@) && within_size(c@, max) {
                "\n\n=== FILE: "@ + e.rel_path@ + " ===\n"@ + c@
            } else {
                Seq::empty()
            }
        },
        None => Seq::empty(),
    }
}

/// The code section of the walked entries, in walk order.
pub open spec fn code_section(codes: Seq<(WalkEntry, Option<String>)>, max: int) -> Seq<char>
    decreases codes.len(),
{
    if codes.len() == 0 {
        Seq::empty()
    } else {
        code_section(codes.drop_last(), max) + code_item(codes.last().0, codes.last().1, max)
    }
}

/// The whole bundle: the banner for the analyzed path, the structure
/// rendering, the embedded manifests, and the code files.
pub open spec fn analysis_bundle(
    path: Seq<char>,
    structure: Seq<WalkEntry>,
    configs: Seq<(String, String)>,
    codes: Seq<(WalkEntry, Option<String>)>,
    max: int,
) -> Seq<char> {
    "\n=== CODEBASE ANALYSIS FOR: "@ + path + " ===\n\n"@ + "\n=== PROJECT STRUCTURE ===\n"@
        + structure_section(structure) + config_section(configs) + "\n\n=== CODE FILES ===\n"@
        + code_section(codes, max)
}

/// Law: a file at or above the size bound contributes nothing to the bundle —
/// its content is omitted — while the call itself still succeeds, the rest of
/// the bundle standing as if the file were not there.
pub proof fn lemma_large_file_omitted(e: WalkEntry, c: String, max: int)
    requires
        !within_size(c@, max),
    ensures
        code_item(e, Some(c), max) == Seq::<char>::empty(),
{
}

/// Two spaces for every level below the root.
fn indent_string(depth: usize) -> (r: String)
    ensures
        r@ == indent(depth as nat),
{
    let mut s = String::new();
    let mut k: usize = 0;
    while k < depth
        invariant
            k <= depth,
            s@ == indent(k as nat),
        decreases depth - k,
    {
        s.append("  ");
        k = k + 1;
    }
    s
}

impl CodebaseAnalyzer {
    /// The root gate: the analyzed path must exist and be a directory. A
    /// missing path is `FileNotFound` carrying the path — and no bundle is
    /// produced at all — an existing non-directory `InvalidPath` saying so.
    pub fn validate(args: &AnalyzeCodebaseArgs, exists: bool, is_dir: bool) -> (r: Result<
        (),
        FileToolError,
    >)
        ensures
            r is Ok <==> (exists && is_dir),
            !exists ==> (r matches Err(e) && is_file_not_found(e, args.path@)),
            exists && !is_dir ==> (r matches Err(e) && is_invalid_path(
                e,
                args.path@ + " is not a directory"@,
            )),
    {
        require_directory(args.path.as_str(), exists, is_dir)
    }

    /// Assembles the bundle from what the walk and the reads gave: exactly the
    /// banner, the structure rendering of `structure_entries`, the manifests
    /// in `config_docs`, and every allowed, small enough code file. An entry
    /// whose content could not be read is passed as `None` and silently
    /// skipped; an empty or partial bundle is not an error.
    pub fn assemble(
        args: &AnalyzeCodebaseArgs,
        structure_entries: &Vec<WalkEntry>,
        config_docs: &Vec<(String, String)>,
        code_entries: &Vec<(WalkEntry, Option<String>)>,
    ) -> (r: String)
        ensures
            r@ == analysis_bundle(
                args.path@,
                structure_entries@,
                config_docs@,
                code_entries@,
                args.max_file_size as int,
            ),
    {
        let mut m = String::from_str("\n=== CODEBASE ANALYSIS FOR: ");
        m.append(args.path.as_str());
        m.append(" ===\n\n");
        m.append("\n=== PROJECT STRUCTURE ===\n");
        let ghost head = "\n=== CODEBASE ANALYSIS FOR: "@ + args.path@ + " ===\n\n"@
            + "\n=== PROJECT STRUCTURE ===\n"@;
        proof {
            assert(structure_entries@.take(0) =~= Seq::<WalkEntry>::empty());
        }
        let mut i: usize = 0;
        while i < structure_entries.len()
            invariant
                i <= structure_entries@.len(),
                m@ == head + structure_section(structure_entries@.take(i as int)),
                head == "\n=== CODEBASE ANALYSIS FOR: "@ + args.path@ + " ===\n\n"@
                    + "\n=== PROJECT STRUCTURE ===\n"@,
            decreases structure_entries@.len() - i,
        {
            let e = &structure_entries[i];
            if !is_denied(e.path.as_str()) {
                if e.is_dir {
                    let ind = indent_string(e.depth);
                    m.append(ind.as_str());
                    m.append("📁 ");
                    m.append(e.name.as_str());
                    m.append("\n");
                } else if e.depth <= 2 {
                    let ind = indent_string(e.depth);
                    m.append(ind.as_str());
                    m.append("📄 ");
                    m.append(e.name.as_str());
                    m.append("\n");
                }
            }
            proof {
                let ts = structure_entries@.take(i + 1);
                assert(ts.drop_last() =~= structure_entries@.take(i as int));
                assert(ts.last() == structure_entries@[i as int]);
                assert(m@ =~= head + structure_section(ts));
            }
            i = i + 1;
        }
        proof {
            assert(structure_entries@.take(structure_entries@.len() as int)
                =~= structure_entries@);
        }
        let ghost head2 = head + structure_section(structure_entries@);
        proof {
            assert(config_docs@.take(0) =~= Seq::<(String, String)>::empty());
            assert(m@ =~= head2 + config_section(config_docs@.take(0)));
        }
        let mut j: usize = 0;
        while j < config_docs.len()
            invariant
                j <= config_docs@.len(),
                m@ == head2 + config_section(config_docs@.take(j as int)),
            decreases config_docs@.len() - j,
        {
            m.append("\n\n=== FILE: ");
            m.append(config_docs[j].0.as_str());
            m.append(" ===\n");
            m.append(config_docs[j].1.as_str());
            proof {
                let ts = config_docs@.take(j + 1);
                assert(ts.drop_last() =~= config_docs@.take(j as int));
                assert(ts.last() == config_docs@[j as int]);
                assert(m@ =~= head2 + config_section(ts));
            }
            j = j + 1;
        }
        proof {
            assert(config_docs@.take(config_docs@.len() as int) =~= config_docs@);
        }
        m.append("\n\n=== CODE FILES ===\n");
        let ghost head3 = head2 + config_section(config_docs@) + "\n\n=== CODE FILES ===\n"@;
        proof {
            assert(code_entries@.take(0) =~= Seq::<(WalkEntry, Option<String>)>::empty());
            assert(m@ =~= head3 + code_section(code_entries@.take(0), args.max_file_size as int));
        }
        let mut k: usize = 0;
        while k < code_entries.len()
            invariant
                k <= code_entries@.len(),
                m@ == head3 + code_section(code_entries@.take(k as int), args.max_file_size as int),
            decreases code_entries@.len() - k,
        {
            let e = &code_entries[k].0;
            let keep = wants_content(e);
            match &code_entries[k].1 {
                Some(c) => {
                    if keep && c.as_str().len() < args.max_file_size {
                        m.append("\n\n=== FILE: ");
                        m.append(e.rel_path.as_str());
                        m.append(" ===\n");
                        m.append(c.as_str());
                    }
                },
                None => {},
            }
            proof {
                let ts = code_entries@.take(k + 1);
                assert(ts.drop_last() =~= code_entries@.take(k as int));
                assert(ts.last() == code_entries@[k as int]);
                assert(m@ =~= head3 + code_section(ts, args.max_file_size as int));
            }
            k = k + 1;
        }
        proof {
            assert(code_entries@.take(code_entries@.len() as int) =~= code_entries@);
            assert(m@ =~= analysis_bundle(
                args.path@,
                structure_entries@,
                config_docs@,
                code_entries@,
                args.max_file_size as int,
            ));
        }
        m
    }
}

} // verus!
