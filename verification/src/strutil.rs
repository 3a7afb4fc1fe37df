//! Character-sequence groundwork shared by the tools: conversions between
//! `String` and `Vec<char>`, literal substring search and replacement,
//! lexicographic ordering, and decimal rendering of integers.

use vstd::prelude::*;
use vstd::string::StrSliceExecFns;

verus! {

// ---------------------------------------------------------------------------
// Conversions
// ---------------------------------------------------------------------------
/// The characters of `s`, in order, as a vector.
pub fn str_chars(s: &str) -> (r: Vec<char>)
    ensures
        r@ == s@,
{
    let n = s.unicode_len();
    let mut r: Vec<char> = Vec::new();
    let mut i: usize = 0;
    while i < n
        invariant
            i <= n,
            n == s@.len(),
            r@ == s@.subrange(0, i as int),
        decreases n - i,
    {
        r.push(s.get_char(i));
        i = i + 1;
        proof {
            assert(r@ =~= s@.subrange(0, i as int));
        }
    }
    proof {
        assert(r@ =~= s@);
    }
    r
}

/// Relies on `String: FromIterator<char>`: collecting a character iterator
/// yields the string of exactly those characters in order.
#[verifier::external_body]
pub(crate) fn chars_string(v: &Vec<char>) -> (r: String)
    ensures
        r@ == v@,
{
    v.iter().collect()
}

/// What Unicode uppercasing returns for a character sequence; the result
/// depends on the characters alone.
pub uninterp spec fn upper_of(s: Seq<char>) -> Seq<char>;

/// What Unicode lowercasing returns for a character sequence; the result
/// depends on the characters alone.
pub uninterp spec fn lower_of(s: Seq<char>) -> Seq<char>;

/// Relies on `str::to_uppercase`: the result is a function of the characters
/// alone, and empty input stays empty.
#[verifier::external_body]
pub(crate) fn upper_string(s: &str) -> (r: String)
    ensures
        r@ == upper_of(s@),
        s@.len() == 0 ==> r@.len() == 0,
{
    s.to_uppercase()
}

/// Relies on `str::to_lowercase`: the result is a function of the characters
/// alone, and empty input stays empty.
#[verifier::external_body]
pub(crate) fn lower_string(s: &str) -> (r: String)
    ensures
        r@ == lower_of(s@),
        s@.len() == 0 ==> r@.len() == 0,
{
    s.to_lowercase()
}

/// Appends every character of `src` to `dst`.
pub fn push_all(dst: &mut Vec<char>, src: &Vec<char>)
    ensures
        final(dst)@ == old(dst)@ + src@,
{
    let mut i: usize = 0;
    while i < src.len()
        invariant
            i <= src@.len(),
            dst@ == old(dst)@ + src@.subrange(0, i as int),
        decreases src@.len() - i,
    {
        dst.push(src[i]);
        i = i + 1;
        proof {
            assert(old(dst)@ + src@.subrange(0, i - 1) + seq![src@[i - 1]] =~= old(dst)@
                + src@.subrange(0, i as int));
        }
    }
    proof {
        assert(src@.subrange(0, src@.len() as int) =~= src@);
    }
}

/// Appends the characters `src[from..to]` to `dst`.
pub fn push_range(dst: &mut Vec<char>, src: &Vec<char>, from: usize, to: usize)
    requires
        from <= to <= src@.len(),
    ensures
        final(dst)@ == old(dst)@ + src@.subrange(from as int, to as int),
{
    let mut i: usize = from;
    while i < to
        invariant
            from <= i <= to <= src@.len(),
            dst@ == old(dst)@ + src@.subrange(from as int, i as int),
        decreases to - i,
    {
        dst.push(src[i]);
        i = i + 1;
        proof {
            assert(old(dst)@ + src@.subrange(from as int, i - 1) + seq![src@[i - 1]] =~= old(
                dst,
            )@ + src@.subrange(from as int, i as int));
        }
    }
}

// ---------------------------------------------------------------------------
// Literal substring occurrence
// ---------------------------------------------------------------------------
/// The pattern `pat` stands in `s` starting at position `i`.
pub open spec fn occurs_at(s: Seq<char>, pat: Seq<char>, i: int) -> bool {
    0 <= i && i + pat.len() <= s.len() && s.subrange(i, i + pat.len()) == pat
}

/// The pattern occurs somewhere in `s`.
pub open spec fn has_occurrence(s: Seq<char>, pat: Seq<char>) -> bool {
    exists|i: int| occurs_at(s, pat, i)
}

/// The position of the leftmost occurrence of `pat` in `s`, or `-1` if none.
pub open spec fn first_occ(s: Seq<char>, pat: Seq<char>) -> int
    decreases s.len(),
{
    if occurs_at(s, pat, 0) {
        0
    } else if s.len() == 0 {
        -1
    } else {
        let r = first_occ(s.skip(1), pat);
        if r < 0 {
            -1
        } else {
            r + 1
        }
    }
}

/// Occurrences in a suffix are occurrences in the whole, shifted.
proof fn lemma_occurs_skip(s: Seq<char>, pat: Seq<char>, k: int, j: int)
    requires
        0 <= k <= s.len(),
    ensures
        occurs_at(s.skip(k), pat, j) <==> (j >= 0 && occurs_at(s, pat, j + k)),
{
    if 0 <= j && j + pat.len() <= s.len() - k {
        assert(s.skip(k).subrange(j, j + pat.len()) =~= s.subrange(j + k, j + k + pat.len()));
    }
}

/// `first_occ` finds the leftmost occurrence exactly when one exists.
pub proof fn lemma_first_occ(s: Seq<char>, pat: Seq<char>)
    ensures
        first_occ(s, pat) >= 0 <==> has_occurrence(s, pat),
        first_occ(s, pat) >= 0 ==> occurs_at(s, pat, first_occ(s, pat)),
        forall|j: int| 0 <= j < first_occ(s, pat) ==> !occurs_at(s, pat, j),
        first_occ(s, pat) >= 0 ==> first_occ(s, pat) + pat.len() <= s.len(),
    decreases s.len(),
{
    if occurs_at(s, pat, 0) {
    } else if s.len() == 0 {
        assert(forall|i: int| !occurs_at(s, pat, i));
    } else {
        lemma_first_occ(s.skip(1), pat);
        let r = first_occ(s.skip(1), pat);
        if r >= 0 {
            lemma_occurs_skip(s, pat, 1, r);
            assert(occurs_at(s, pat, r + 1));
            assert forall|j: int| 0 <= j < r + 1 implies !occurs_at(s, pat, j) by {
                if j > 0 {
                    lemma_occurs_skip(s, pat, 1, j - 1);
                    assert(!occurs_at(s.skip(1), pat, j - 1));
                }
            }
        } else {
            assert forall|j: int| true implies !occurs_at(s, pat, j) by {
                if j > 0 {
                    lemma_occurs_skip(s, pat, 1, j - 1);
                    assert(!occurs_at(s.skip(1), pat, j - 1));
                }
            }
            assert(!has_occurrence(s, pat));
        }
    }
}

/// Whether `pat` stands in `s` at position `i`, checked character by character.
pub fn matches_at(s: &Vec<char>, pat: &Vec<char>, i: usize) -> (r: bool)
    requires
        i + pat@.len() <= s@.len(),
    ensures
        r == occurs_at(s@, pat@, i as int),
{
    let slen = s.len();
    let mut k: usize = 0;
    while k < pat.len()
        invariant
            k <= pat@.len(),
            i + pat@.len() <= s@.len(),
            s@.len() == slen,
            forall|m: int| 0 <= m < k ==> s@[i + m] == pat@[m],
        decreases pat@.len() - k,
    {
        if s[i + k] != pat[k] {
            proof {
                assert(s@.subrange(i as int, i + pat@.len())[k as int] == s@[i + k]);
            }
            return false;
        }
        k = k + 1;
    }
    proof {
        assert(s@.subrange(i as int, i + pat@.len()) =~= pat@);
    }
    true
}

/// Whether `pat` occurs anywhere in `s`.
pub fn contains_sub(s: &Vec<char>, pat: &Vec<char>) -> (r: bool)
    ensures
        r == has_occurrence(s@, pat@),
{
    find_first(s, pat).is_some()
}

/// The leftmost occurrence of `pat` in `s`, if any.
pub fn find_first(s: &Vec<char>, pat: &Vec<char>) -> (r: Option<usize>)
    ensures
        r matches Some(i) ==> i as int == first_occ(s@, pat@),
        r is Some <==> has_occurrence(s@, pat@),
{
    if pat.len() > s.len() {
        return None;
    }
    let last = s.len() - pat.len();
    let mut i: usize = 0;
    loop
        invariant
            pat@.len() <= s@.len(),
            last == s@.len() - pat@.len(),
            i <= last,
            forall|j: int| 0 <= j < i ==> !occurs_at(s@, pat@, j),
        ensures
            forall|j: int| !occurs_at(s@, pat@, j),
        decreases last - i,
    {
        let m = matches_at(s, pat, i);
        if m {
            proof {
                lemma_first_occ(s@, pat@);
            }
            return Some(i);
        }
        if i == last {
            proof {
                assert forall|j: int| true implies !occurs_at(s@, pat@, j) by {
                    if 0 <= j < i as int {
                        assert(!occurs_at(s@, pat@, j));
                    }
                }
            }
            break;
        }
        i = i + 1;
    }
    None
}

// ---------------------------------------------------------------------------
// Counting and replacing occurrences
// ---------------------------------------------------------------------------
/// How many times `pat` occurs in `s`, counting non-overlapping matches from
/// the left. The empty pattern matches once at every position, boundaries
/// included, so it counts `s.len() + 1` times.
pub open spec fn count_occ(s: Seq<char>, pat: Seq<char>) -> nat
    decreases s.len(),
{
    if pat.len() == 0 {
        s.len() + 1
    } else if s.len() < pat.len() {
        0
    } else if s.subrange(0, pat.len() as int) == pat {
        1 + count_occ(s.skip(pat.len() as int), pat)
    } else {
        count_occ(s.skip(1), pat)
    }
}

/// `s` with every non-overlapping occurrence of a non-empty `pat`, taken from
/// the left, replaced by `rep`.
pub open spec fn replaced_all_nonempty(s: Seq<char>, pat: Seq<char>, rep: Seq<char>) -> Seq<char>
    decreases s.len(),
{
    if pat.len() == 0 {
        Seq::empty()
    } else if s.len() < pat.len() {
        s
    } else if s.subrange(0, pat.len() as int) == pat {
        rep + replaced_all_nonempty(s.skip(pat.len() as int), pat, rep)
    } else {
        seq![s[0]] + replaced_all_nonempty(s.skip(1), pat, rep)
    }
}

/// The characters of `s` each followed by `rep`; `interleaved` puts one more
/// `rep` in front.
pub open spec fn il_rest(s: Seq<char>, rep: Seq<char>) -> Seq<char>
    decreases s.len(),
{
    if s.len() == 0 {
        Seq::empty()
    } else {
        seq![s[0]] + rep + il_rest(s.skip(1), rep)
    }
}

/// `s` with the empty pattern replaced by `rep` at every position: `rep`
/// before, between and after the characters.
pub open spec fn interleaved(s: Seq<char>, rep: Seq<char>) -> Seq<char> {
    rep + il_rest(s, rep)
}

/// `s` with every occurrence of `pat` replaced by `rep`.
pub open spec fn replaced_all(s: Seq<char>, pat: Seq<char>, rep: Seq<char>) -> Seq<char> {
    if pat.len() == 0 {
        interleaved(s, rep)
    } else {
        replaced_all_nonempty(s, pat, rep)
    }
}

/// `s` with only the leftmost occurrence of `pat` replaced by `rep`;
/// meaningful only when one occurs.
pub open spec fn replaced_first(s: Seq<char>, pat: Seq<char>, rep: Seq<char>) -> Seq<char> {
    let i = first_occ(s, pat);
    s.subrange(0, i) + rep + s.skip(i + pat.len())
}

/// Matching at the front is the same as the recursion's own head test.
proof fn lemma_head_match(s: Seq<char>, pat: Seq<char>)
    requires
        pat.len() <= s.len(),
    ensures
        (s.subrange(0, pat.len() as int) == pat) <==> occurs_at(s, pat, 0),
{
    assert(s.subrange(0, pat.len() as int) =~= s.subrange(0, 0 + pat.len() as int));
}

/// Law: the search text occurs at all exactly when its occurrence count is
/// positive — a count of zero and "not found" say the same thing.
pub proof fn lemma_count_zero_iff_none(s: Seq<char>, pat: Seq<char>)
    ensures
        count_occ(s, pat) == 0 <==> !has_occurrence(s, pat),
    decreases s.len(),
{
    if pat.len() == 0 {
        assert(s.subrange(0, 0) =~= pat);
        assert(occurs_at(s, pat, 0));
    } else if s.len() < pat.len() {
        assert(forall|i: int| !occurs_at(s, pat, i));
    } else {
        lemma_head_match(s, pat);
        if s.subrange(0, pat.len() as int) == pat {
            assert(occurs_at(s, pat, 0));
        } else {
            lemma_count_zero_iff_none(s.skip(1), pat);
            assert forall|j: int| true implies (occurs_at(s.skip(1), pat, j) <==> (j >= 0
                && occurs_at(s, pat, j + 1))) by {
                lemma_occurs_skip(s, pat, 1, j);
            }
            if has_occurrence(s, pat) {
                let i = choose|i: int| occurs_at(s, pat, i);
                assert(i != 0);
                assert(occurs_at(s.skip(1), pat, i - 1));
            }
        }
    }
}

/// Replacing the leftmost occurrence leaves the remaining count behind it:
/// past that occurrence, `s` still holds the other `count_occ(s, pat) - 1`.
pub proof fn lemma_count_after_first(s: Seq<char>, pat: Seq<char>, i: int)
    requires
        pat.len() > 0,
        occurs_at(s, pat, i),
        forall|j: int| 0 <= j < i ==> !occurs_at(s, pat, j),
    ensures
        count_occ(s, pat) == 1 + count_occ(s.skip(i + pat.len()), pat),
    decreases s.len(),
{
    if i == 0 {
        lemma_head_match(s, pat);
    } else {
        lemma_head_match(s, pat);
        assert(!occurs_at(s, pat, 0));
        lemma_occurs_skip(s, pat, 1, i - 1);
        assert(occurs_at(s.skip(1), pat, i - 1));
        assert forall|j: int| 0 <= j < i - 1 implies !occurs_at(s.skip(1), pat, j) by {
            lemma_occurs_skip(s, pat, 1, j);
        }
        lemma_count_after_first(s.skip(1), pat, i - 1);
        assert(s.skip(1).skip(i - 1 + pat.len()) =~= s.skip(i + pat.len()));
    }
}

/// Replaces every occurrence of `pat` in `s` by `rep`, returning the new text
/// and how many occurrences there were.
pub fn replace_all_chars(s: &Vec<char>, pat: &Vec<char>, rep: &Vec<char>) -> (r: (Vec<char>, usize))
    requires
        s@.len() < usize::MAX,
    ensures
        r.0@ == replaced_all(s@, pat@, rep@),
        r.1 as nat == count_occ(s@, pat@),
{
    let mut out: Vec<char> = Vec::new();
    if pat.len() == 0 {
        push_all(&mut out, rep);
        proof {
            assert(s@.skip(0) =~= s@);
        }
        let mut i: usize = 0;
        while i < s.len()
            invariant
                i <= s@.len(),
                s@.len() < usize::MAX,
                out@ + il_rest(s@.skip(i as int), rep@) == interleaved(s@, rep@),
            decreases s@.len() - i,
        {
            proof {
                assert(s@.skip(i as int)[0] == s@[i as int]);
                assert(s@.skip(i as int).skip(1) =~= s@.skip(i + 1));
            }
            out.push(s[i]);
            push_all(&mut out, rep);
            proof {
                assert(out@ + il_rest(s@.skip(i + 1), rep@) =~= interleaved(s@, rep@));
            }
            i = i + 1;
        }
        proof {
            assert(s@.skip(s@.len() as int) =~= Seq::<char>::empty());
            assert(out@ + il_rest(s@.skip(s@.len() as int), rep@) =~= out@);
        }
        let count = s.len() + 1;
        (out, count)
    } else {
        proof {
            assert(s@.skip(0) =~= s@);
        }
        let mut i: usize = 0;
        let mut count: usize = 0;
        while i < s.len()
            invariant
                i <= s@.len(),
                pat@.len() > 0,
                count <= i,
                out@ + replaced_all_nonempty(s@.skip(i as int), pat@, rep@) == replaced_all_nonempty(
                    s@,
                    pat@,
                    rep@,
                ),
                count + count_occ(s@.skip(i as int), pat@) == count_occ(s@, pat@),
            decreases s@.len() - i,
        {
            proof {
                lemma_head_match_at(s@, pat@, i as int);
            }
            if pat.len() <= s.len() - i && matches_at(s, pat, i) {
                proof {
                    assert(s@.skip(i as int).skip(pat@.len() as int) =~= s@.skip(
                        i + pat@.len(),
                    ));
                }
                push_all(&mut out, rep);
                proof {
                    assert(out@ + replaced_all_nonempty(s@.skip(i + pat@.len()), pat@, rep@)
                        =~= replaced_all_nonempty(s@, pat@, rep@));
                }
                i = i + pat.len();
                count = count + 1;
            } else {
                proof {
                    assert(s@.skip(i as int)[0] == s@[i as int]);
                    assert(s@.skip(i as int).skip(1) =~= s@.skip(i + 1));
                }
                out.push(s[i]);
                proof {
                    assert(out@ + replaced_all_nonempty(s@.skip(i + 1), pat@, rep@)
                        =~= replaced_all_nonempty(s@, pat@, rep@));
                }
                i = i + 1;
            }
        }
        proof {
            assert(s@.skip(s@.len() as int) =~= Seq::<char>::empty());
        }
        (out, count)
    }
}

/// Relates the head test of the suffix at `i` to an occurrence in `s` at `i`.
proof fn lemma_head_match_at(s: Seq<char>, pat: Seq<char>, i: int)
    requires
        0 <= i <= s.len(),
        pat.len() > 0,
    ensures
        i + pat.len() <= s.len() ==> ((s.skip(i).subrange(0, pat.len() as int) == pat)
            <==> occurs_at(s, pat, i)),
        i + pat.len() > s.len() ==> s.skip(i).len() < pat.len(),
{
    if i + pat.len() <= s.len() {
        assert(s.skip(i).subrange(0, pat.len() as int) =~= s.subrange(i, i + pat.len()));
    }
}

/// Replaces the leftmost occurrence of `pat` in `s` by `rep`, or reports that
/// none occurs.
pub fn replace_first_chars(s: &Vec<char>, pat: &Vec<char>, rep: &Vec<char>) -> (r: Option<
    Vec<char>,
>)
    ensures
        r is Some <==> has_occurrence(s@, pat@),
        r matches Some(v) ==> v@ == replaced_first(s@, pat@, rep@),
{
    match find_first(s, pat) {
        None => None,
        Some(i) => {
            proof {
                lemma_first_occ(s@, pat@);
            }
            let n = s.len();
            let mut out: Vec<char> = Vec::new();
            push_range(&mut out, s, 0, i);
            push_all(&mut out, rep);
            push_range(&mut out, s, i + pat.len(), n);
            proof {
                assert(s@.subrange(i + pat@.len(), s@.len() as int) =~= s@.skip(i + pat@.len()));
            }
            Some(out)
        },
    }
}

// ---------------------------------------------------------------------------
// Decimal rendering
// ---------------------------------------------------------------------------
/// The character for one decimal digit.
pub open spec fn digit_char(d: nat) -> char {
    if d == 0 {
        '0'
    } else if d == 1 {
        '1'
    } else if d == 2 {
        '2'
    } else if d == 3 {
        '3'
    } else if d == 4 {
        '4'
    } else if d == 5 {
        '5'
    } else if d == 6 {
        '6'
    } else if d == 7 {
        '7'
    } else if d == 8 {
        '8'
    } else {
        '9'
    }
}

/// The decimal digits of `n`, most significant first.
pub open spec fn dec_digits(n: nat) -> Seq<char>
    decreases n,
{
    if n < 10 {
        seq![digit_char(n)]
    } else {
        dec_digits(n / 10).push(digit_char(n % 10))
    }
}

/// The decimal rendering of a possibly negative integer.
pub open spec fn int_digits(n: int) -> Seq<char> {
    if n < 0 {
        seq!['-'] + dec_digits((-n) as nat)
    } else {
        dec_digits(n as nat)
    }
}

/// One digit, as a character.
fn digit_to_char(d: u64) -> (r: char)
    requires
        d < 10,
    ensures
        r == digit_char(d as nat),
{
    if d == 0 {
        '0'
    } else if d == 1 {
        '1'
    } else if d == 2 {
        '2'
    } else if d == 3 {
        '3'
    } else if d == 4 {
        '4'
    } else if d == 5 {
        '5'
    } else if d == 6 {
        '6'
    } else if d == 7 {
        '7'
    } else if d == 8 {
        '8'
    } else {
        '9'
    }
}

/// Appends the decimal digits of `n` to `out`.
fn push_u64_digits(n: u64, out: &mut Vec<char>)
    ensures
        final(out)@ == old(out)@ + dec_digits(n as nat),
    decreases n,
{
    if n < 10 {
        out.push(digit_to_char(n));
    } else {
        push_u64_digits(n / 10, out);
        out.push(digit_to_char(n % 10));
    }
}

/// The decimal rendering of `n`.
pub fn u64_string(n: u64) -> (r: String)
    ensures
        r@ == dec_digits(n as nat),
{
    let mut out: Vec<char> = Vec::new();
    push_u64_digits(n, &mut out);
    chars_string(&out)
}

/// The decimal rendering of `n`, with a leading minus sign when negative.
pub fn i32_string(n: i32) -> (r: String)
    ensures
        r@ == int_digits(n as int),
{
    let mut out: Vec<char> = Vec::new();
    if n < 0 {
        out.push('-');
        let m = -(n as i64);
        push_u64_digits(m as u64, &mut out);
    } else {
        push_u64_digits(n as u64, &mut out);
    }
    chars_string(&out)
}

// ---------------------------------------------------------------------------
// Lexicographic order on character sequences
// ---------------------------------------------------------------------------
/// `a` comes no later than `b` in lexicographic order of the characters'
/// scalar values; this is the order `String` comparison gives, since UTF-8
/// byte order agrees with scalar order.
pub open spec fn lex_leq(a: Seq<char>, b: Seq<char>) -> bool
    decreases a.len(),
{
    if a.len() == 0 {
        true
    } else if b.len() == 0 {
        false
    } else if (a[0] as u32) < (b[0] as u32) {
        true
    } else if (a[0] as u32) > (b[0] as u32) {
        false
    } else {
        lex_leq(a.skip(1), b.skip(1))
    }
}

/// The lexicographic order is total: two sequences compare one way or the other.
pub proof fn lemma_lex_total(a: Seq<char>, b: Seq<char>)
    ensures
        lex_leq(a, b) || lex_leq(b, a),
    decreases a.len(),
{
    if a.len() > 0 && b.len() > 0 && (a[0] as u32) == (b[0] as u32) {
        lemma_lex_total(a.skip(1), b.skip(1));
    }
}

/// Whether `a` comes no later than `b`.
pub fn lex_leq_chars(a: &Vec<char>, b: &Vec<char>) -> (r: bool)
    ensures
        r == lex_leq(a@, b@),
{
    proof {
        assert(a@.skip(0) =~= a@);
        assert(b@.skip(0) =~= b@);
    }
    let mut i: usize = 0;
    loop
        invariant
            i <= a@.len(),
            i <= b@.len(),
            lex_leq(a@, b@) == lex_leq(a@.skip(i as int), b@.skip(i as int)),
        decreases a@.len() - i,
    {
        proof {
            lemma_lex_skip(a@, b@, i as int);
        }
        if i >= a.len() {
            return true;
        }
        if i >= b.len() {
            return false;
        }
        let ca = a[i] as u32;
        let cb = b[i] as u32;
        if ca < cb {
            return true;
        }
        if ca > cb {
            return false;
        }
        i = i + 1;
    }
}

/// Unfolds one comparison step: equal heads defer to the tails.
proof fn lemma_lex_skip(a: Seq<char>, b: Seq<char>, i: int)
    requires
        0 <= i <= a.len(),
        i <= b.len(),
    ensures
        i < a.len() && i < b.len() && (a[i] as u32) == (b[i] as u32) ==> lex_leq(
            a.skip(i),
            b.skip(i),
        ) == lex_leq(a.skip(i + 1), b.skip(i + 1)),
        i < a.len() && i < b.len() && (a[i] as u32) < (b[i] as u32) ==> lex_leq(
            a.skip(i),
            b.skip(i),
        ),
        i < a.len() && i < b.len() && (a[i] as u32) > (b[i] as u32) ==> !lex_leq(
            a.skip(i),
            b.skip(i),
        ),
        i == a.len() ==> lex_leq(a.skip(i), b.skip(i)),
        i == b.len() && i < a.len() ==> !lex_leq(a.skip(i), b.skip(i)),
{
    if i < a.len() && i < b.len() {
        assert(a.skip(i)[0] == a[i]);
        assert(b.skip(i)[0] == b[i]);
        if (a[i] as u32) == (b[i] as u32) {
            assert(a.skip(i).skip(1) =~= a.skip(i + 1));
            assert(b.skip(i).skip(1) =~= b.skip(i + 1));
        }
    }
}

} // verus!
