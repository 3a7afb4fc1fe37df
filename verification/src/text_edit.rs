//! Whole-file text mutation: literal search-and-replace, line-range
//! replacement, and line insertion. Each operation takes the file's current
//! text and returns the new text, or one typed error; reading and writing the
//! file itself is the caller's part.

use vstd::prelude::*;
use crate::errors::{FileToolError, is_invalid_path};
use crate::lines::{
    join_lines, line_views, split_lines, split_lines_vec, join_lines_vec, reparses,
    lemma_split_join,
};
use crate::strutil::{
    chars_string, count_occ, dec_digits, first_occ, has_occurrence, lemma_count_after_first,
    lemma_first_occ, push_all, replace_all_chars, replace_first_chars, replaced_all,
    replaced_first, str_chars, u64_string,
};

verus! {

/// Arguments of the `edit_file` operation: replace the first occurrence of
/// `search` in the file at `path` by `replace`, or every occurrence when
/// `replace_all` is set.
pub struct EditFileArgs {
    pub path: String,
    pub search: String,
    pub replace: String,
    pub replace_all: bool,
}

/// Arguments of the `edit_code_lines` operation: replace lines `start_line`
/// through `end_line` (1-based, inclusive) of the file at `path` by
/// `new_content`'s lines.
pub struct CodeEditArgs {
    pub path: String,
    pub start_line: usize,
    pub end_line: usize,
    pub new_content: String,
}

/// Arguments of the `insert_code` operation: insert `content`'s lines
/// directly after line `after_line` (1-based; 0 puts them before the first
/// line) of the file at `path`.
pub struct InsertCodeArgs {
    pub path: String,
    pub after_line: usize,
    pub content: String,
}

/// The `edit_file` operation.
pub struct FileEditor;

/// The `edit_code_lines` operation.
pub struct CodeEditor;

/// The `insert_code` operation.
pub struct CodeInserter;

/// The text that replacing lines `[start, end]` of `content` by `newc`'s own
/// lines produces.
pub open spec fn replace_range_result(
    content: Seq<char>,
    start: int,
    end: int,
    newc: Seq<char>,
) -> Seq<char> {
    let ls = split_lines(content);
    join_lines(ls.take(start - 1) + split_lines(newc) + ls.skip(end))
}

/// The text that inserting `ins`'s lines directly after line `after` of
/// `content` produces.
pub open spec fn insert_after_result(content: Seq<char>, after: int, ins: Seq<char>) -> Seq<char> {
    let ls = split_lines(content);
    join_lines(ls.take(after) + split_lines(ins) + ls.skip(after))
}

/// The report `edit_file` gives on success.
pub open spec fn edit_success_msg(path: Seq<char>, count: nat) -> Seq<char> {
    "Successfully edited "@ + path + ". Replaced "@ + dec_digits(count) + " occurrence(s)"@
}

/// The report `edit_code_lines` gives on success.
pub open spec fn code_edit_success_msg(
    path: Seq<char>,
    replaced: nat,
    start: nat,
    end: nat,
    with_lines: nat,
) -> Seq<char> {
    "Successfully edited "@ + path + ". Replaced "@ + dec_digits(replaced) + " lines ("@
        + dec_digits(start) + ":"@ + dec_digits(end) + ") with "@ + dec_digits(with_lines)
        + " lines"@
}

/// The report `insert_code` gives on success.
pub open spec fn insert_success_msg(path: Seq<char>, inserted: nat, after: nat) -> Seq<char> {
    "Successfully inserted "@ + dec_digits(inserted) + " lines after line "@ + dec_digits(after)
        + " in "@ + path
}

impl FileEditor {
    /// Replaces the first occurrence of `args.search` in `content` — or every
    /// occurrence when `args.replace_all` is set — by `args.replace`.
    /// Returns the new text and how many occurrences were replaced over, or
    /// `StringNotFound` exactly when the search text does not occur; the text
    /// is untouched in that case, no new text being produced at all.
    pub fn apply(args: &EditFileArgs, content: &str) -> (r: Result<(String, usize), FileToolError>)
        requires
            content@.len() < usize::MAX,
        ensures
            r is Ok <==> has_occurrence(content@, args.search@),
            r matches Ok((text, count)) ==> {
                &&& text@ == if args.replace_all {
                    replaced_all(content@, args.search@, args.replace@)
                } else {
                    replaced_first(content@, args.search@, args.replace@)
                }
                &&& count as nat == if args.replace_all {
                    count_occ(content@, args.search@)
                } else {
                    1nat
                }
            },
            r matches Err(e) ==> e is StringNotFound,
    {
        let text = str_chars(content);
        let search = str_chars(args.search.as_str());
        let replace = str_chars(args.replace.as_str());
        if args.replace_all {
            match crate::strutil::find_first(&text, &search) {
                None => Err(FileToolError::StringNotFound),
                Some(_) => {
                    let (out, count) = replace_all_chars(&text, &search, &replace);
                    Ok((chars_string(&out), count))
                },
            }
        } else {
            match replace_first_chars(&text, &search, &replace) {
                None => Err(FileToolError::StringNotFound),
                Some(out) => Ok((chars_string(&out), 1)),
            }
        }
    }

    /// The success report: the path edited and the occurrence count replaced.
    pub fn success_message(path: &str, replacements: usize) -> (r: String)
        ensures
            r@ == edit_success_msg(path@, replacements as nat),
    {
        let mut m = String::from_str("Successfully edited ");
        m.append(path);
        m.append(". Replaced ");
        let c = u64_string(replacements as u64);
        m.append(c.as_str());
        m.append(" occurrence(s)");
        m
    }
}

/// Copies a line's characters.
fn clone_chars(v: &Vec<char>) -> (r: Vec<char>)
    ensures
        r@ == v@,
{
    let mut r: Vec<char> = Vec::new();
    push_all(&mut r, v);
    r
}

/// The lines `ls[0..keep_before]`, then all of `mid`, then the lines
/// `ls[resume_from..]`.
fn splice_lines(ls: &Vec<Vec<char>>, keep_before: usize, resume_from: usize, mid: &Vec<
    Vec<char>,
>) -> (r: Vec<Vec<char>>)
    requires
        keep_before <= resume_from <= ls@.len(),
    ensures
        line_views(r@) == line_views(ls@).take(keep_before as int) + line_views(mid@) + line_views(
            ls@,
        ).skip(resume_from as int),
{
    let mut r: Vec<Vec<char>> = Vec::new();
    let mut i: usize = 0;
    while i < keep_before
        invariant
            i <= keep_before <= ls@.len(),
            line_views(r@) == line_views(ls@).take(i as int),
        decreases keep_before - i,
    {
        let ghost old_r = r@;
        let c = clone_chars(&ls[i]);
        r.push(c);
        i = i + 1;
        proof {
            assert(r@ == old_r.push(c));
            assert(line_views(old_r).len() == old_r.len());
            assert(old_r.len() == i - 1);
            assert(line_views(r@) =~= line_views(ls@).take(i as int));
        }
    }
    let mut j: usize = 0;
    while j < mid.len()
        invariant
            j <= mid@.len(),
            keep_before <= ls@.len(),
            line_views(r@) == line_views(ls@).take(keep_before as int) + line_views(
                mid@,
            ).take(j as int),
        decreases mid@.len() - j,
    {
        let ghost old_r = r@;
        let c = clone_chars(&mid[j]);
        r.push(c);
        j = j + 1;
        proof {
            assert(r@ == old_r.push(c));
            assert(line_views(old_r).len() == old_r.len());
            assert(old_r.len() == keep_before + j - 1);
            assert forall|q: int| 0 <= q < r@.len() implies line_views(r@)[q] == (line_views(
                ls@,
            ).take(keep_before as int) + line_views(mid@).take(j as int))[q] by {
                assert(line_views(r@)[q] == r@[q]@);
                if q < old_r.len() {
                    assert(r@[q] == old_r[q]);
                    assert(line_views(old_r)[q] == old_r[q]@);
                } else {
                    assert(r@[q] == c);
                    assert(line_views(mid@)[j - 1] == mid@[j - 1]@);
                }
            }
            assert(line_views(r@) =~= line_views(ls@).take(keep_before as int) + line_views(
                mid@,
            ).take(j as int));
        }
    }
    proof {
        assert(line_views(mid@).take(mid@.len() as int) =~= line_views(mid@));
    }
    let mut k: usize = resume_from;
    while k < ls.len()
        invariant
            resume_from <= k <= ls@.len(),
            keep_before <= resume_from,
            line_views(r@) == line_views(ls@).take(keep_before as int) + line_views(mid@)
                + line_views(ls@).subrange(resume_from as int, k as int),
        decreases ls@.len() - k,
    {
        let ghost old_r = r@;
        let c = clone_chars(&ls[k]);
        r.push(c);
        k = k + 1;
        proof {
            assert(r@ == old_r.push(c));
            assert(line_views(old_r).len() == old_r.len());
            assert(old_r.len() == keep_before + line_views(mid@).len() + (k - 1 - resume_from));
            assert forall|q: int| 0 <= q < r@.len() implies line_views(r@)[q] == (line_views(
                ls@,
            ).take(keep_before as int) + line_views(mid@) + line_views(ls@).subrange(
                resume_from as int,
                k as int,
            ))[q] by {
                assert(line_views(r@)[q] == r@[q]@);
                if q < old_r.len() {
                    assert(r@[q] == old_r[q]);
                    assert(line_views(old_r)[q] == old_r[q]@);
                } else {
                    assert(r@[q] == c);
                    assert(line_views(ls@)[k - 1] == ls@[k - 1]@);
                }
            }
            assert(line_views(r@) =~= line_views(ls@).take(keep_before as int) + line_views(mid@)
                + line_views(ls@).subrange(resume_from as int, k as int));
        }
    }
    proof {
        assert(line_views(ls@).subrange(resume_from as int, ls@.len() as int) =~= line_views(
            ls@,
        ).skip(resume_from as int));
        assert(line_views(r@) =~= line_views(ls@).take(keep_before as int) + line_views(mid@)
            + line_views(ls@).skip(resume_from as int));
    }
    r
}

impl CodeEditor {
    /// Replaces lines `args.start_line` through `args.end_line` of `content`
    /// by `args.new_content`'s lines. Line numbers are 1-based: a zero is
    /// rejected first, then a bound past the line count, then a reversed
    /// range, each as `InvalidPath` with its own message; otherwise the new
    /// text is returned.
    pub fn apply(args: &CodeEditArgs, content: &str) -> (r: Result<String, FileToolError>)
        ensures
            ({
                let n = split_lines(content@).len();
                let zero = args.start_line == 0 || args.end_line == 0;
                let out_of_range = !zero && (args.start_line > n || args.end_line > n);
                let reversed = !zero && !out_of_range && args.start_line > args.end_line;
                &&& (r is Ok <==> (!zero && !out_of_range && !reversed))
                &&& zero ==> (r matches Err(e) && is_invalid_path(
                    e,
                    "Line numbers must be 1-based (start from 1)"@,
                ))
                &&& out_of_range ==> (r matches Err(e) && is_invalid_path(
                    e,
                    "Line numbers out of range. File has "@ + dec_digits(n) + " lines"@,
                ))
                &&& reversed ==> (r matches Err(e) && is_invalid_path(
                    e,
                    "start_line must be <= end_line"@,
                ))
                &&& (r matches Ok(text) ==> text@ == replace_range_result(
                    content@,
                    args.start_line as int,
                    args.end_line as int,
                    args.new_content@,
                ))
            }),
    {
        let text = str_chars(content);
        let lines = split_lines_vec(&text);
        let n = lines.len();
        if args.start_line == 0 || args.end_line == 0 {
            return Err(
                FileToolError::InvalidPath(
                    String::from_str("Line numbers must be 1-based (start from 1)"),
                ),
            );
        }
        if args.start_line > n || args.end_line > n {
            return Err(FileToolError::InvalidPath(Self::out_of_range_message(n)));
        }
        if args.start_line > args.end_line {
            return Err(
                FileToolError::InvalidPath(String::from_str("start_line must be <= end_line")),
            );
        }
        let newc = str_chars(args.new_content.as_str());
        let mid = split_lines_vec(&newc);
        let spliced = splice_lines(&lines, args.start_line - 1, args.end_line, &mid);
        let joined = join_lines_vec(&spliced);
        Ok(chars_string(&joined))
    }

    /// The message for a line number past the file's line count.
    fn out_of_range_message(n: usize) -> (r: String)
        ensures
            r@ == "Line numbers out of range. File has "@ + dec_digits(n as nat) + " lines"@,
    {
        let mut m = String::from_str("Line numbers out of range. File has ");
        let c = u64_string(n as u64);
        m.append(c.as_str());
        m.append(" lines");
        m
    }

    /// The success report: the path, the range replaced, and the line counts.
    pub fn success_message(path: &str, start_line: usize, end_line: usize, new_lines: usize) -> (r:
        String)
        requires
            1 <= start_line <= end_line,
        ensures
            r@ == code_edit_success_msg(
                path@,
                (end_line - start_line + 1) as nat,
                start_line as nat,
                end_line as nat,
                new_lines as nat,
            ),
    {
        let mut m = String::from_str("Successfully edited ");
        m.append(path);
        m.append(". Replaced ");
        let c1 = u64_string((end_line - start_line) as u64 + 1);
        m.append(c1.as_str());
        m.append(" lines (");
        let c2 = u64_string(start_line as u64);
        m.append(c2.as_str());
        m.append(":");
        let c3 = u64_string(end_line as u64);
        m.append(c3.as_str());
        m.append(") with ");
        let c4 = u64_string(new_lines as u64);
        m.append(c4.as_str());
        m.append(" lines");
        m
    }

    /// How many lines `text` splits into; the success report names it.
    pub fn line_count(text: &str) -> (r: usize)
        ensures
            r as nat == split_lines(text@).len(),
    {
        let chars = str_chars(text);
        let lines = split_lines_vec(&chars);
        lines.len()
    }
}

impl CodeInserter {
    /// Inserts `args.content`'s lines directly after line `args.after_line`
    /// of `content`; 0 puts them before the first line. A line number past
    /// the line count is rejected as `InvalidPath`; otherwise the new text is
    /// returned.
    pub fn apply(args: &InsertCodeArgs, content: &str) -> (r: Result<String, FileToolError>)
        ensures
            ({
                let n = split_lines(content@).len();
                &&& (r is Ok <==> args.after_line <= n)
                &&& args.after_line > n ==> (r matches Err(e) && is_invalid_path(
                    e,
                    "Line number out of range. File has "@ + dec_digits(n) + " lines"@,
                ))
                &&& (r matches Ok(text) ==> text@ == insert_after_result(
                    content@,
                    args.after_line as int,
                    args.content@,
                ))
            }),
    {
        let text = str_chars(content);
        let lines = split_lines_vec(&text);
        let n = lines.len();
        if args.after_line > n {
            let mut m = String::from_str("Line number out of range. File has ");
            let c = u64_string(n as u64);
            m.append(c.as_str());
            m.append(" lines");
            return Err(FileToolError::InvalidPath(m));
        }
        let ins = str_chars(args.content.as_str());
        let mid = split_lines_vec(&ins);
        let spliced = splice_lines(&lines, args.after_line, args.after_line, &mid);
        let joined = join_lines_vec(&spliced);
        Ok(chars_string(&joined))
    }

    /// The success report: how many lines went in, and where.
    pub fn success_message(path: &str, inserted_lines: usize, after_line: usize) -> (r: String)
        ensures
            r@ == insert_success_msg(path@, inserted_lines as nat, after_line as nat),
    {
        let mut m = String::from_str("Successfully inserted ");
        let c1 = u64_string(inserted_lines as u64);
        m.append(c1.as_str());
        m.append(" lines after line ");
        let c2 = u64_string(after_line as u64);
        m.append(c2.as_str());
        m.append(" in ");
        m.append(path);
        m
    }
}

// ---------------------------------------------------------------------------
// Laws
// ---------------------------------------------------------------------------
/// Law: for `1 <= start <= end <= lineCount`, replacing that line range and
/// splitting the result again yields the lines before `start` unchanged, then
/// the new content's lines, then the lines after `end` unchanged — whenever
/// the combined lines are ones splitting can give back (no line holds `'\n'`
/// or ends in `'\r'`, and the last is not empty).
pub proof fn lemma_replace_lines_reread(content: Seq<char>, start: int, end: int, newc: Seq<char>)
    requires
        1 <= start <= end <= split_lines(content).len(),
        reparses(
            split_lines(content).take(start - 1) + split_lines(newc) + split_lines(content).skip(
                end,
            ),
        ),
    ensures
        split_lines(replace_range_result(content, start, end, newc)) == split_lines(content).take(
            start - 1,
        ) + split_lines(newc) + split_lines(content).skip(end),
{
    lemma_split_join(
        split_lines(content).take(start - 1) + split_lines(newc) + split_lines(content).skip(end),
    );
}

/// Law: inserting after line 0 and splitting the result again yields the
/// inserted content's lines followed by all of the original's lines —
/// whenever the combined lines are ones splitting can give back.
pub proof fn lemma_insert_at_start_reread(content: Seq<char>, ins: Seq<char>)
    requires
        reparses(split_lines(ins) + split_lines(content)),
    ensures
        split_lines(insert_after_result(content, 0, ins)) == split_lines(ins) + split_lines(
            content,
        ),
{
    let ls = split_lines(content);
    assert(ls.take(0) + split_lines(ins) + ls.skip(0) =~= split_lines(ins) + ls);
    lemma_split_join(split_lines(ins) + ls);
}

/// Law: replacing only the first of `N >= 1` occurrences replaces exactly
/// one. The text before the leftmost occurrence stands unchanged, the
/// replacement stands in its place, and the text after it — still holding the
/// other `N - 1` occurrences — stands unchanged at the end of the result.
/// (With `replace_all` set, the operation's own contract replaces all `N`.)
pub proof fn lemma_replace_first_counts(s: Seq<char>, pat: Seq<char>, rep: Seq<char>)
    requires
        pat.len() > 0,
        has_occurrence(s, pat),
    ensures
        ({
            let i = first_occ(s, pat);
            let r = replaced_first(s, pat, rep);
            &&& 0 <= i && i + pat.len() <= s.len()
            &&& r.subrange(0, i) == s.subrange(0, i)
            &&& r.subrange(i, i + rep.len()) == rep
            &&& r.skip(i + rep.len()) == s.skip(i + pat.len())
            &&& count_occ(s.skip(i + pat.len()), pat) == count_occ(s, pat) - 1
        }),
{
    lemma_first_occ(s, pat);
    let i = first_occ(s, pat);
    let r = replaced_first(s, pat, rep);
    lemma_count_after_first(s, pat, i);
    assert(r.subrange(0, i) =~= s.subrange(0, i));
    assert(r.subrange(i, i + rep.len()) =~= rep);
    assert(r.skip(i + rep.len()) =~= s.skip(i + pat.len()));
}

} // verus!
