//! The filesystem-facing operations' decision and reporting logic: argument
//! validation, uniform success reports, and directory-listing rendering with
//! hidden-file filtering, entry tagging and sorting. The caller performs the
//! reads and writes themselves and hands the outcomes in as plain values.

use vstd::prelude::*;
use vstd::multiset::Multiset;
use vstd::string::StringSliceAdditionalSpecFns;
use vstd::string::StrSliceExecFns;
use crate::errors::{FileToolError, is_file_not_found, is_invalid_path};
use crate::lines::line_views;
use crate::strutil::{
    chars_string, dec_digits, lemma_lex_total, lex_leq, lex_leq_chars, str_chars, u64_string,
};

verus! {

/// Arguments of the `read_file` operation.
pub struct ReadFileArgs {
    pub path: String,
}

/// Arguments of the `write_file` operation.
pub struct WriteFileArgs {
    pub path: String,
    pub content: String,
}

/// Arguments of the `create_directory` operation.
pub struct CreateDirArgs {
    pub path: String,
}

/// Arguments of the `list_files` operation.
pub struct ListFilesArgs {
    pub path: String,
    pub include_hidden: bool,
}

/// The `read_file` operation.
pub struct FileReader;

/// The `write_file` operation.
pub struct FileWriter;

/// The `create_directory` operation.
pub struct CreateDirectory;

/// The `list_files` operation.
pub struct ListFiles;

/// One directory entry as the lister sees it: its bare name and whether it is
/// itself a directory.
pub struct FileEntry {
    pub name: String,
    pub is_dir: bool,
}

impl FileReader {
    /// The read's gate: a missing path is `FileNotFound` carrying the path,
    /// and an existing one passes.
    pub fn validate(args: &ReadFileArgs, exists: bool) -> (r: Result<(), FileToolError>)
        ensures
            exists <==> r is Ok,
            !exists ==> (r matches Err(e) && is_file_not_found(e, args.path@)),
    {
        crate::errors::require_exists(args.path.as_str(), exists)
    }
}

/// The report `write_file` gives on success.
pub open spec fn write_success_msg(path: Seq<char>, bytes: nat) -> Seq<char> {
    "Successfully wrote "@ + dec_digits(bytes) + " bytes to "@ + path
}

impl FileWriter {
    /// How many bytes the content occupies, which the write stores and the
    /// report names.
    pub fn byte_count(content: &str) -> (r: usize)
        ensures
            r == content.spec_bytes().len() as usize,
    {
        content.len()
    }

    /// The success report: the byte count written and the path.
    pub fn report(path: &str, bytes_written: usize) -> (r: String)
        ensures
            r@ == write_success_msg(path@, bytes_written as nat),
    {
        let mut m = String::from_str("Successfully wrote ");
        let c = u64_string(bytes_written as u64);
        m.append(c.as_str());
        m.append(" bytes to ");
        m.append(path);
        m
    }
}

impl CreateDirectory {
    /// The success report for a created directory.
    pub fn report(path: &str) -> (r: String)
        ensures
            r@ == "Successfully created directory: "@ + path@,
    {
        let mut m = String::from_str("Successfully created directory: ");
        m.append(path);
        m
    }
}

/// Every operation that needs an existing directory applies this check
/// first: a missing path is `FileNotFound` carrying the path, an existing
/// non-directory is `InvalidPath` saying so, and a directory passes.
pub fn require_directory(path: &str, exists: bool, is_dir: bool) -> (r: Result<(), FileToolError>)
    ensures
        r is Ok <==> (exists && is_dir),
        !exists ==> (r matches Err(e) && is_file_not_found(e, path@)),
        exists && !is_dir ==> (r matches Err(e) && is_invalid_path(
            e,
            path@ + " is not a directory"@,
        )),
{
    if !exists {
        Err(FileToolError::FileNotFound(String::from_str(path)))
    } else if !is_dir {
        let mut m = String::from_str(path);
        m.append(" is not a directory");
        Err(FileToolError::InvalidPath(m))
    } else {
        Ok(())
    }
}

// ---------------------------------------------------------------------------
// Listing: filter, tag, sort
// ---------------------------------------------------------------------------
/// An entry counts as hidden when its name starts with a dot.
pub open spec fn hidden_entry(e: FileEntry) -> bool {
    e.name@.len() > 0 && e.name@[0] == '.'
}

/// An entry's listed form: a directory or file tag, a space, and the name.
pub open spec fn formatted_entry(e: FileEntry) -> Seq<char> {
    (if e.is_dir {
        "[DIR] "@
    } else {
        "[FILE]"@
    }) + " "@ + e.name@
}

/// The listed forms of the entries that pass the hidden filter, in the order
/// given.
pub open spec fn listing(entries: Seq<FileEntry>, include_hidden: bool) -> Seq<Seq<char>>
    decreases entries.len(),
{
    if entries.len() == 0 {
        Seq::empty()
    } else {
        let rest = listing(entries.drop_last(), include_hidden);
        if include_hidden || !hidden_entry(entries.last()) {
            rest.push(formatted_entry(entries.last()))
        } else {
            rest
        }
    }
}

/// The views of a vector of strings.
pub open spec fn string_views(v: Seq<String>) -> Seq<Seq<char>> {
    v.map_values(|s: String| s@)
}

/// Each element comes no later than every element after it.
pub open spec fn sorted_lex(ls: Seq<Seq<char>>) -> bool {
    forall|i: int, j: int| 0 <= i < j < ls.len() ==> lex_leq(#[trigger] ls[i], #[trigger] ls[j])
}

/// The lexicographic order is transitive.
pub proof fn lemma_lex_trans(a: Seq<char>, b: Seq<char>, c: Seq<char>)
    requires
        lex_leq(a, b),
        lex_leq(b, c),
    ensures
        lex_leq(a, c),
    decreases a.len(),
{
    if a.len() == 0 {
    } else {
        assert(b.len() > 0);
        assert(c.len() > 0);
        if (a[0] as u32) == (b[0] as u32) && (b[0] as u32) == (c[0] as u32) {
            lemma_lex_trans(a.skip(1), b.skip(1), c.skip(1));
        }
    }
}

/// The position of a least element of `v` under the lexicographic order.
fn min_index(v: &Vec<Vec<char>>) -> (m: usize)
    requires
        v@.len() > 0,
    ensures
        m < v@.len(),
        forall|w: int| 0 <= w < v@.len() ==> lex_leq(v@[m as int]@, #[trigger] v@[w]@),
{
    let mut m: usize = 0;
    proof {
        lemma_lex_total(v@[0]@, v@[0]@);
    }
    let mut i: usize = 1;
    while i < v.len()
        invariant
            m < i <= v@.len(),
            forall|w: int| 0 <= w < i ==> lex_leq(v@[m as int]@, #[trigger] v@[w]@),
        decreases v@.len() - i,
    {
        if !lex_leq_chars(&v[m], &v[i]) {
            proof {
                lemma_lex_total(v@[m as int]@, v@[i as int]@);
                lemma_lex_total(v@[i as int]@, v@[i as int]@);
                assert forall|w: int| 0 <= w < i + 1 implies lex_leq(
                    v@[i as int]@,
                    #[trigger] v@[w]@,
                ) by {
                    if w < i {
                        lemma_lex_trans(v@[i as int]@, v@[m as int]@, v@[w]@);
                    }
                }
            }
            m = i;
        } else {
            proof {
                lemma_lex_total(v@[i as int]@, v@[i as int]@);
            }
        }
        i = i + 1;
    }
    m
}

/// Sorts the lines into lexicographic order, keeping exactly the same lines.
fn sort_lines(input: Vec<Vec<char>>) -> (r: Vec<Vec<char>>)
    ensures
        line_views(r@).to_multiset() == line_views(input@).to_multiset(),
        sorted_lex(line_views(r@)),
{
    broadcast use vstd::seq_lib::group_to_multiset_ensures;

    let mut src = input;
    let mut out: Vec<Vec<char>> = Vec::new();
    proof {
        assert(line_views(out@) =~= Seq::<Seq<char>>::empty());
        assert(line_views(out@).to_multiset().add(line_views(src@).to_multiset())
            =~= line_views(input@).to_multiset());
    }
    while src.len() > 0
        invariant
            line_views(out@).to_multiset().add(line_views(src@).to_multiset()) == line_views(
                input@,
            ).to_multiset(),
            sorted_lex(line_views(out@)),
            forall|q: int, w: int|
                0 <= q < out@.len() && 0 <= w < src@.len() ==> lex_leq(
                    #[trigger] out@[q]@,
                    #[trigger] src@[w]@,
                ),
        decreases src@.len(),
    {
        let m = min_index(&src);
        let ghost old_src = src@;
        let ghost old_out = out@;
        let x = src.remove(m);
        out.push(x);
        proof {
            assert(line_views(src@) =~= line_views(old_src).remove(m as int));
            assert(line_views(out@) =~= line_views(old_out).push(x@));
            assert(line_views(old_src)[m as int] == x@);
            line_views(old_src).to_multiset_ensures();
            line_views(old_out).to_multiset_ensures();
            assert(line_views(old_src).remove(m as int).to_multiset() =~= line_views(
                old_src,
            ).to_multiset().remove(x@));
            assert(line_views(old_out).push(x@).to_multiset() =~= line_views(
                old_out,
            ).to_multiset().insert(x@));
            assert(line_views(src@).to_multiset() =~= line_views(old_src).to_multiset().remove(
                x@,
            ));
            assert(line_views(out@).to_multiset() =~= line_views(old_out).to_multiset().insert(
                x@,
            ));
            assert(line_views(old_src).to_multiset().count(x@) > 0);
            assert(line_views(out@).to_multiset().add(line_views(src@).to_multiset())
                =~= line_views(old_out).to_multiset().add(line_views(old_src).to_multiset()));
            assert forall|q: int, w: int|
                0 <= q < out@.len() && 0 <= w < src@.len() implies lex_leq(
                #[trigger] out@[q]@,
                #[trigger] src@[w]@,
            ) by {
                assert(src@[w] == if w < m as int {
                    old_src[w]
                } else {
                    old_src[w + 1]
                });
                if q < out@.len() - 1 {
                    assert(out@[q] == old_out[q]);
                } else {
                    assert(out@[q] == x);
                }
            }
            assert forall|i: int, j: int|
                0 <= i < j < line_views(out@).len() implies lex_leq(
                #[trigger] line_views(out@)[i],
                #[trigger] line_views(out@)[j],
            ) by {
                if j == out@.len() - 1 {
                    assert(out@[i] == old_out[i]);
                    assert(lex_leq(old_out[i]@, old_src[m as int]@));
                }
            }
        }
    }
    proof {
        assert(line_views(src@) =~= Seq::<Seq<char>>::empty());
        assert(line_views(src@).to_multiset() =~= Multiset::<Seq<char>>::empty());
        assert(line_views(out@).to_multiset().add(Multiset::<Seq<char>>::empty()) =~= line_views(
            out@,
        ).to_multiset());
    }
    out
}

impl ListFiles {
    /// The directory gate: the listed path must exist and be a directory.
    pub fn validate(args: &ListFilesArgs, exists: bool, is_dir: bool) -> (r: Result<
        (),
        FileToolError,
    >)
        ensures
            r is Ok <==> (exists && is_dir),
            !exists ==> (r matches Err(e) && is_file_not_found(e, args.path@)),
            exists && !is_dir ==> (r matches Err(e) && is_invalid_path(
                e,
                args.path@ + " is not a directory"@,
            )),
    {
        require_directory(args.path.as_str(), exists, is_dir)
    }

    /// Renders the entries of a directory: hidden names are dropped unless
    /// asked for, each entry is tagged `[DIR] ` or `[FILE]`, and the result is
    /// sorted lexicographically. The result holds exactly the listed forms of
    /// the entries that pass the filter.
    pub fn render(entries: &Vec<FileEntry>, include_hidden: bool) -> (r: Vec<String>)
        ensures
            string_views(r@).to_multiset() == listing(entries@, include_hidden).to_multiset(),
            sorted_lex(string_views(r@)),
    {
        let mut work: Vec<Vec<char>> = Vec::new();
        proof {
            assert(entries@.take(0) =~= Seq::<FileEntry>::empty());
            assert(line_views(work@) =~= listing(entries@.take(0), include_hidden));
        }
        let mut i: usize = 0;
        while i < entries.len()
            invariant
                i <= entries@.len(),
                line_views(work@) == listing(entries@.take(i as int), include_hidden),
            decreases entries@.len() - i,
        {
            let ghost old_work = work@;
            let e = &entries[i];
            let name_nonempty = e.name.as_str().unicode_len() > 0;
            let starts_dot = if name_nonempty {
                e.name.as_str().get_char(0) == '.'
            } else {
                false
            };
            if include_hidden || !starts_dot {
                let mut s = String::from_str(
                    if e.is_dir {
                        "[DIR] "
                    } else {
                        "[FILE]"
                    },
                );
                s.append(" ");
                s.append(e.name.as_str());
                let line = str_chars(s.as_str());
                work.push(line);
                proof {
                    assert(work@ == old_work.push(work@[work@.len() - 1]));
                    assert(line_views(work@) =~= line_views(old_work).push(
                        formatted_entry(entries@[i as int]),
                    ));
                }
            }
            proof {
                assert(entries@.take(i + 1).drop_last() =~= entries@.take(i as int));
                assert(entries@.take(i + 1).last() == entries@[i as int]);
            }
            i = i + 1;
        }
        proof {
            assert(entries@.take(entries@.len() as int) =~= entries@);
        }
        let sorted = sort_lines(work);
        let mut r: Vec<String> = Vec::new();
        let mut k: usize = 0;
        while k < sorted.len()
            invariant
                k <= sorted@.len(),
                string_views(r@) == line_views(sorted@).take(k as int),
            decreases sorted@.len() - k,
        {
            let ghost old_r = r@;
            let s = chars_string(&sorted[k]);
            r.push(s);
            k = k + 1;
            proof {
                assert(string_views(r@) =~= string_views(old_r).push(sorted@[k - 1]@));
                assert(string_views(r@) =~= line_views(sorted@).take(k as int));
            }
        }
        proof {
            assert(line_views(sorted@).take(sorted@.len() as int) =~= line_views(sorted@));
            assert(string_views(r@) == line_views(sorted@));
        }
        r
    }
}

} // verus!
