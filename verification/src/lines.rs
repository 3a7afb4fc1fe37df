//! Line splitting and joining. A file's text is split at `'\n'`, a carriage
//! return directly before a split point is dropped with it, and a final line
//! ending opens no further line; lines are rejoined with `'\n'` alone.

use vstd::prelude::*;
use crate::strutil::push_all;

verus! {

/// The position of the first `'\n'` in `s`, or `s.len()` if there is none.
pub open spec fn line_break(s: Seq<char>) -> int
    decreases s.len(),
{
    if s.len() == 0 {
        0
    } else if s[0] == '\n' {
        0
    } else {
        1 + line_break(s.skip(1))
    }
}

/// `line_break` points at the first `'\n'`, or past the end when none occurs.
proof fn lemma_line_break(s: Seq<char>)
    ensures
        0 <= line_break(s) <= s.len(),
        line_break(s) < s.len() ==> s[line_break(s)] == '\n',
        forall|j: int| 0 <= j < line_break(s) ==> s[j] != '\n',
    decreases s.len(),
{
    if s.len() == 0 || s[0] == '\n' {
    } else {
        lemma_line_break(s.skip(1));
        assert forall|j: int| 0 <= j < line_break(s) implies s[j] != '\n' by {
            if j > 0 {
                assert(s.skip(1)[j - 1] == s[j]);
            }
        }
    }
}

/// One line as split out of the text: the characters before the break, less a
/// carriage return standing directly before it.
pub open spec fn strip_cr(l: Seq<char>) -> Seq<char> {
    if l.len() > 0 && l[l.len() - 1] == '\r' {
        l.drop_last()
    } else {
        l
    }
}

/// The lines of `s`: split at every `'\n'`, each line losing a `'\r'` that
/// stood directly before the split point; a final line ending closes the last
/// line rather than opening an empty one, and empty text has no lines.
pub open spec fn split_lines(s: Seq<char>) -> Seq<Seq<char>>
    decreases s.len(),
    via split_lines_dec
{
    if s.len() == 0 {
        Seq::empty()
    } else {
        let i = line_break(s);
        if i == s.len() {
            seq![s]
        } else {
            seq![strip_cr(s.subrange(0, i))] + split_lines(s.skip(i + 1))
        }
    }
}

#[via_fn]
proof fn split_lines_dec(s: Seq<char>) {
    lemma_line_break(s);
}

/// The lines joined back into one text, with `'\n'` between each pair.
pub open spec fn join_lines(ls: Seq<Seq<char>>) -> Seq<char>
    decreases ls.len(),
{
    if ls.len() == 0 {
        Seq::empty()
    } else if ls.len() == 1 {
        ls[0]
    } else {
        ls[0] + seq!['\n'] + join_lines(ls.skip(1))
    }
}

/// The views of a vector of character vectors, line by line.
pub open spec fn line_views(ls: Seq<Vec<char>>) -> Seq<Seq<char>> {
    ls.map_values(|l: Vec<char>| l@)
}

/// A line that splitting can give back exactly: free of `'\n'`, and not
/// ending in `'\r'`.
pub open spec fn line_ok(l: Seq<char>) -> bool {
    (forall|j: int| 0 <= j < l.len() ==> l[j] != '\n') && (l.len() > 0 ==> l[l.len() - 1] != '\r')
}

/// A line sequence that splitting its own join gives back: every line can be
/// given back exactly, and the last line is not empty.
pub open spec fn reparses(ls: Seq<Seq<char>>) -> bool {
    (forall|k: int| 0 <= k < ls.len() ==> line_ok(#[trigger] ls[k])) && (ls.len() > 0 ==> ls[ls.len()
        - 1].len() > 0)
}

/// In text free of `'\n'` up to a `'\n'` at position `i`, the first break is
/// exactly `i`.
proof fn lemma_line_break_at(s: Seq<char>, i: int)
    requires
        0 <= i < s.len(),
        s[i] == '\n',
        forall|j: int| 0 <= j < i ==> s[j] != '\n',
    ensures
        line_break(s) == i,
{
    lemma_line_break(s);
}

/// Text without any `'\n'` has its break past the end.
proof fn lemma_line_break_none(s: Seq<char>)
    requires
        forall|j: int| 0 <= j < s.len() ==> s[j] != '\n',
    ensures
        line_break(s) == s.len(),
{
    lemma_line_break(s);
}

/// Splitting gives back exactly the lines that were joined, whenever the
/// lines are ones splitting can produce in that position: no line holds a
/// `'\n'`, none ends in `'\r'`, and the last is not empty.
pub proof fn lemma_split_join(ls: Seq<Seq<char>>)
    requires
        reparses(ls),
    ensures
        split_lines(join_lines(ls)) == ls,
    decreases ls.len(),
{
    if ls.len() == 0 {
    } else if ls.len() == 1 {
        let l = ls[0];
        assert(l.len() > 0);
        lemma_line_break_none(l);
        assert(split_lines(l) =~= seq![l]);
        assert(seq![l] =~= ls);
    } else {
        let l = ls[0];
        let rest = ls.skip(1);
        let j = join_lines(ls);
        assert(j == l + seq!['\n'] + join_lines(rest));
        assert(j[l.len() as int] == '\n');
        assert forall|k: int| 0 <= k < l.len() implies j[k] != '\n' by {
            assert(j[k] == l[k]);
        }
        lemma_line_break_at(j, l.len() as int);
        assert(j.subrange(0, l.len() as int) =~= l);
        assert(strip_cr(l) == l);
        assert(j.skip(l.len() as int + 1) =~= join_lines(rest));
        assert forall|k: int| 0 <= k < rest.len() implies line_ok(#[trigger] rest[k]) by {
            assert(rest[k] == ls[k + 1]);
        }
        assert(rest[rest.len() - 1] == ls[ls.len() - 1]);
        lemma_split_join(rest);
        assert(split_lines(j) == seq![strip_cr(j.subrange(0, l.len() as int))] + split_lines(
            j.skip(l.len() as int + 1),
        ));
        assert(split_lines(j) =~= ls);
    }
}

/// The lines of `s`, as vectors of characters.
pub fn split_lines_vec(s: &Vec<char>) -> (r: Vec<Vec<char>>)
    ensures
        line_views(r@) == split_lines(s@),
{
    let mut done: Vec<Vec<char>> = Vec::new();
    let mut cur: Vec<char> = Vec::new();
    proof {
        assert(cur@ + s@.skip(0) =~= s@);
        assert(line_views(done@) =~= Seq::<Seq<char>>::empty());
    }
    let mut i: usize = 0;
    while i < s.len()
        invariant
            i <= s@.len(),
            forall|j: int| 0 <= j < cur@.len() ==> cur@[j] != '\n',
            split_lines(s@) == line_views(done@) + split_lines(cur@ + s@.skip(i as int)),
        decreases s@.len() - i,
    {
        let ghost t = cur@ + s@.skip(i as int);
        let ghost oldcur = cur@;
        let ghost olddone = done@;
        proof {
            assert(t[oldcur.len() as int] == s@.skip(i as int)[0]);
            assert(s@.skip(i as int)[0] == s@[i as int]);
        }
        let c = s[i];
        if c == '\n' {
            proof {
                assert forall|k: int| 0 <= k < oldcur.len() implies t[k] != '\n' by {
                    assert(t[k] == oldcur[k]);
                }
                lemma_line_break_at(t, oldcur.len() as int);
                assert(t.subrange(0, oldcur.len() as int) =~= oldcur);
                assert(t.skip(oldcur.len() as int + 1) =~= s@.skip(i + 1));
                assert(split_lines(t) == seq![strip_cr(oldcur)] + split_lines(s@.skip(i + 1)));
            }
            let mut line = cur;
            cur = Vec::new();
            if line.len() > 0 && line[line.len() - 1] == '\r' {
                let _ = line.pop();
            }
            proof {
                assert(line@ == strip_cr(oldcur));
            }
            done.push(line);
            proof {
                assert(line_views(done@) =~= line_views(olddone) + seq![line@]);
                assert(cur@ + s@.skip(i + 1) =~= s@.skip(i + 1));
                assert(line_views(olddone) + (seq![strip_cr(oldcur)] + split_lines(
                    s@.skip(i + 1),
                )) =~= line_views(done@) + split_lines(s@.skip(i + 1)));
            }
        } else {
            cur.push(c);
            proof {
                assert(cur@ + s@.skip(i + 1) =~= t);
            }
        }
        i = i + 1;
    }
    proof {
        assert(cur@ + s@.skip(s@.len() as int) =~= cur@);
    }
    if cur.len() > 0 {
        proof {
            lemma_line_break_none(cur@);
            assert(split_lines(cur@) =~= seq![cur@]);
        }
        let ghost olddone = done@;
        let ghost lastline = cur@;
        done.push(cur);
        proof {
            assert(line_views(done@) =~= line_views(olddone) + seq![lastline]);
            assert(line_views(olddone) + seq![lastline] =~= line_views(olddone) + split_lines(
                lastline,
            ));
        }
    } else {
        proof {
            assert(split_lines(cur@) =~= Seq::<Seq<char>>::empty());
            assert(line_views(done@) + split_lines(cur@) =~= line_views(done@));
        }
    }
    done
}

/// Joining one more line appends a separator and the line.
pub proof fn lemma_join_snoc(ls: Seq<Seq<char>>, l: Seq<char>)
    ensures
        ls.len() == 0 ==> join_lines(ls.push(l)) == l,
        ls.len() > 0 ==> join_lines(ls.push(l)) == join_lines(ls) + seq!['\n'] + l,
    decreases ls.len(),
{
    if ls.len() == 0 {
        assert(join_lines(ls.push(l)) == ls.push(l)[0]);
        assert(ls.push(l)[0] == l);
    } else if ls.len() == 1 {
        assert(ls.push(l)[0] == ls[0]);
        assert(ls.push(l).skip(1) =~= seq![l]);
        assert(join_lines(seq![l]) == l);
        assert(join_lines(ls) == ls[0]);
    } else {
        lemma_join_snoc(ls.skip(1), l);
        assert(ls.push(l).skip(1) =~= ls.skip(1).push(l));
        assert(ls.push(l)[0] == ls[0]);
        assert(join_lines(ls.push(l)) == ls[0] + seq!['\n'] + join_lines(ls.skip(1).push(l)));
        assert(ls[0] + seq!['\n'] + (join_lines(ls.skip(1)) + seq!['\n'] + l) =~= (ls[0]
            + seq!['\n'] + join_lines(ls.skip(1))) + seq!['\n'] + l);
    }
}

/// The lines joined back into one text, with `'\n'` between each pair.
pub fn join_lines_vec(lines: &Vec<Vec<char>>) -> (r: Vec<char>)
    ensures
        r@ == join_lines(line_views(lines@)),
{
    let mut r: Vec<char> = Vec::new();
    proof {
        assert(line_views(lines@).take(0) =~= Seq::<Seq<char>>::empty());
    }
    let mut i: usize = 0;
    while i < lines.len()
        invariant
            i <= lines@.len(),
            r@ == join_lines(line_views(lines@).take(i as int)),
        decreases lines@.len() - i,
    {
        if i > 0 {
            r.push('\n');
        }
        push_all(&mut r, &lines[i]);
        proof {
            let vs = line_views(lines@);
            assert(vs.take(i + 1) =~= vs.take(i as int).push(vs[i as int]));
            lemma_join_snoc(vs.take(i as int), vs[i as int]);
            assert(vs[i as int] == lines@[i as int]@);
            if i == 0 {
                assert(r@ =~= lines@[0]@);
            } else {
                assert(r@ =~= (join_lines(vs.take(i as int)) + seq!['\n']) + lines@[i as int]@);
                assert((join_lines(vs.take(i as int)) + seq!['\n']) + lines@[i as int]@
                    =~= join_lines(vs.take(i as int)) + seq!['\n'] + lines@[i as int]@);
            }
        }
        i = i + 1;
    }
    proof {
        assert(line_views(lines@).take(lines@.len() as int) =~= line_views(lines@));
    }
    r
}

} // verus!
