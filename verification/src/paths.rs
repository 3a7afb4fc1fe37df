//! The library's model of path strings: the file name after the last
//! separator, the extension after the last dot, and the parent directory.
//! Trailing separators and trailing `.` segments are resolved away, as the
//! platform's path resolution drops them; a name of `..` names no file, and a
//! leading dot alone opens no extension.

use vstd::prelude::*;
use crate::strutil::{chars_string, str_chars};

verus! {

/// The position of the last occurrence of `c` in `s`, or `-1` if none.
pub open spec fn last_pos(s: Seq<char>, c: char) -> int
    decreases s.len(),
{
    if s.len() == 0 {
        -1
    } else if s.last() == c {
        s.len() - 1
    } else {
        last_pos(s.drop_last(), c)
    }
}

/// `last_pos` points at the last occurrence, or before the start when none.
proof fn lemma_last_pos(s: Seq<char>, c: char)
    ensures
        -1 <= last_pos(s, c) < s.len(),
        last_pos(s, c) >= 0 ==> s[last_pos(s, c)] == c,
        forall|j: int| last_pos(s, c) < j < s.len() ==> s[j] != c,
    decreases s.len(),
{
    if s.len() == 0 {
    } else if s.last() == c {
    } else {
        lemma_last_pos(s.drop_last(), c);
        assert forall|j: int| last_pos(s, c) < j < s.len() implies s[j] != c by {
            if j < s.len() - 1 {
                assert(s.drop_last()[j] == s[j]);
            }
        }
    }
}

/// `s` with every trailing `'/'` removed.
pub open spec fn trim_trailing_slashes(s: Seq<char>) -> Seq<char>
    decreases s.len(),
{
    if s.len() > 0 && s.last() == '/' {
        trim_trailing_slashes(s.drop_last())
    } else {
        s
    }
}

/// Trimming never lengthens the text.
proof fn lemma_trim_len(s: Seq<char>)
    ensures
        trim_trailing_slashes(s).len() <= s.len(),
    decreases s.len(),
{
    if s.len() > 0 && s.last() == '/' {
        lemma_trim_len(s.drop_last());
    }
}

/// The text ends in a `.` path segment: a final `.` standing alone directly
/// after a separator, or being the whole text. A final `..` or a name that
/// merely ends in a dot is no such segment.
pub open spec fn ends_dot_segment(s: Seq<char>) -> bool {
    s.len() > 0 && s.last() == '.' && (s.len() == 1 || s[s.len() - 2] == '/')
}

/// `s` with trailing separators and trailing `.` segments resolved away, the
/// way path resolution drops them: `foo.txt/.` names the same file `foo.txt`
/// does.
pub open spec fn strip_dot_segments(s: Seq<char>) -> Seq<char>
    decreases s.len(),
    via strip_dot_segments_dec
{
    let t = trim_trailing_slashes(s);
    if ends_dot_segment(t) {
        strip_dot_segments(t.drop_last())
    } else {
        t
    }
}

#[via_fn]
proof fn strip_dot_segments_dec(s: Seq<char>) {
    lemma_trim_len(s);
}

/// The file name a path names: what stands after the last `'/'`, once
/// trailing separators and trailing `.` segments are resolved away.
pub open spec fn file_name_of(p: Seq<char>) -> Seq<char> {
    let t = strip_dot_segments(p);
    t.skip(last_pos(t, '/') + 1)
}

/// Whether the path names a file at all: the resolved name part must be
/// non-empty and not `..` — so the empty path, the root, and paths ending in
/// a `.` or `..` component name no file.
pub open spec fn valid_file_name(p: Seq<char>) -> bool {
    let n = file_name_of(p);
    n.len() > 0 && n != seq!['.'] && n != seq!['.', '.']
}

/// The extension of a file name: what stands after the last `'.'`, empty when
/// there is no dot or when the only dot leads the name.
pub open spec fn ext_of(name: Seq<char>) -> Seq<char> {
    let d = last_pos(name, '.');
    if d > 0 {
        name.skip(d + 1)
    } else {
        Seq::empty()
    }
}

/// The parent directory of a path, `None` where it has none: an empty path,
/// or the root. A bare name's parent is the empty path; a name directly under
/// the root keeps the root. Trailing `.` segments are resolved away first,
/// and the parent loses its own trailing separators; components before it are
/// kept as written.
pub open spec fn parent_of(p: Seq<char>) -> Option<Seq<char>> {
    let t = strip_dot_segments(p);
    if t.len() == 0 {
        None
    } else {
        let k = last_pos(t, '/');
        if k == -1 {
            Some(Seq::empty())
        } else {
            let pref = trim_trailing_slashes(t.subrange(0, k));
            if pref.len() == 0 {
                Some(seq!['/'])
            } else {
                Some(pref)
            }
        }
    }
}

/// The characters of `v` with trailing `'/'` removed.
fn trim_slashes_vec(v: Vec<char>) -> (r: Vec<char>)
    ensures
        r@ == trim_trailing_slashes(v@),
{
    let mut v = v;
    let ghost orig = v@;
    while v.len() > 0 && v[v.len() - 1] == '/'
        invariant
            trim_trailing_slashes(v@) == trim_trailing_slashes(orig),
        decreases v@.len(),
    {
        let _ = v.pop();
    }
    v
}

/// The characters of `v` with trailing `'/'` and trailing `.` segments
/// resolved away.
fn strip_dot_vec(v: Vec<char>) -> (r: Vec<char>)
    ensures
        r@ == strip_dot_segments(v@),
{
    let mut v = v;
    let ghost orig = v@;
    loop
        invariant
            strip_dot_segments(v@) == strip_dot_segments(orig),
        ensures
            v@ == strip_dot_segments(orig),
        decreases v@.len(),
    {
        let n = v.len();
        if n > 0 && v[n - 1] == '/' {
            let ghost before = v@;
            let _ = v.pop();
            proof {
                assert(trim_trailing_slashes(before) == trim_trailing_slashes(v@));
                assert(strip_dot_segments(before) == strip_dot_segments(v@));
            }
        } else if n > 0 && v[n - 1] == '.' && (n == 1 || v[n - 2] == '/') {
            let ghost before = v@;
            let _ = v.pop();
            proof {
                assert(trim_trailing_slashes(before) == before);
                assert(ends_dot_segment(before));
                assert(strip_dot_segments(before) == strip_dot_segments(v@));
            }
        } else {
            proof {
                assert(trim_trailing_slashes(v@) == v@);
                assert(!ends_dot_segment(v@));
                assert(strip_dot_segments(v@) == v@);
            }
            break ;
        }
    }
    v
}

/// The position of the last occurrence of `c` in `v`, if any.
fn last_pos_vec(v: &Vec<char>, c: char) -> (r: Option<usize>)
    ensures
        r matches Some(k) ==> k as int == last_pos(v@, c),
        r is None ==> last_pos(v@, c) == -1,
{
    proof {
        lemma_last_pos(v@, c);
    }
    let mut i: usize = v.len();
    while i > 0
        invariant
            i <= v@.len(),
            forall|j: int| i <= j < v@.len() ==> v@[j] != c,
        decreases i,
    {
        if v[i - 1] == c {
            proof {
                lemma_last_pos(v@, c);
            }
            return Some(i - 1);
        }
        i = i - 1;
    }
    None
}

/// The file name of `path`, or `None` where the path names no file: an empty
/// resolved name, or `..`.
pub fn file_name(path: &str) -> (r: Option<String>)
    ensures
        r is Some <==> valid_file_name(path@),
        r matches Some(n) ==> n@ == file_name_of(path@),
{
    let t = strip_dot_vec(str_chars(path));
    proof {
        lemma_last_pos(t@, '/');
    }
    let n = t.len();
    let start: usize = match last_pos_vec(&t, '/') {
        Some(k) => k + 1,
        None => 0,
    };
    let len = n - start;
    if len == 0 {
        proof {
            assert(file_name_of(path@) =~= t@.skip(start as int));
        }
        return None;
    }
    let mut name: Vec<char> = Vec::new();
    crate::strutil::push_range(&mut name, &t, start, n);
    proof {
        assert(t@.subrange(start as int, n as int) =~= t@.skip(start as int));
        assert(name@ == file_name_of(path@));
    }
    if name.len() == 1 && name[0] == '.' {
        proof {
            assert(name@ =~= seq!['.']);
        }
        return None;
    }
    if name.len() == 2 && name[0] == '.' && name[1] == '.' {
        proof {
            assert(name@ =~= seq!['.', '.']);
        }
        return None;
    }
    proof {
        assert(name@.len() == 1 && name@[0] == '.' ==> name@ =~= seq!['.']);
        assert(name@.len() == 2 && name@[0] == '.' && name@[1] == '.' ==> name@ =~= seq![
            '.',
            '.',
        ]);
    }
    Some(chars_string(&name))
}

/// The extension of a file name: empty where none opens.
pub fn file_extension(name: &str) -> (r: String)
    ensures
        r@ == ext_of(name@),
{
    let v = str_chars(name);
    proof {
        lemma_last_pos(v@, '.');
    }
    match last_pos_vec(&v, '.') {
        Some(d) if d > 0 => {
            let mut e: Vec<char> = Vec::new();
            crate::strutil::push_range(&mut e, &v, d + 1, v.len());
            proof {
                assert(v@.subrange(d + 1, v@.len() as int) =~= v@.skip(d + 1));
            }
            chars_string(&e)
        },
        _ => {
            proof {
                assert(ext_of(name@) =~= Seq::<char>::empty());
            }
            String::new()
        },
    }
}

/// The parent directory of `path`, or `None` where it has none.
pub fn parent_dir(path: &str) -> (r: Option<String>)
    ensures
        r is Some <==> parent_of(path@) is Some,
        r matches Some(d) ==> parent_of(path@) == Some(d@),
{
    let t = strip_dot_vec(str_chars(path));
    if t.len() == 0 {
        return None;
    }
    proof {
        lemma_last_pos(t@, '/');
    }
    match last_pos_vec(&t, '/') {
        None => Some(String::new()),
        Some(k) => {
            let mut pref: Vec<char> = Vec::new();
            crate::strutil::push_range(&mut pref, &t, 0, k);
            proof {
                assert(pref@ =~= t@.subrange(0, k as int));
            }
            let pref = trim_slashes_vec(pref);
            if pref.len() == 0 {
                let mut d: Vec<char> = Vec::new();
                d.push('/');
                proof {
                    assert(d@ =~= seq!['/']);
                }
                Some(chars_string(&d))
            } else {
                Some(chars_string(&pref))
            }
        },
    }
}

} // verus!
