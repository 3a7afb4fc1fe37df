//! The context store: a keyed text mapping owned by the caller, written one
//! entry at a time and rendered whole. An entry's key is unique; setting an
//! existing key overwrites its content in place, and nothing is ever deleted.

use vstd::prelude::*;
use crate::strutil::{dec_digits, u64_string, upper_of, upper_string};

verus! {

/// Arguments of the `set_context` operation.
pub struct SetContextArgs {
    pub key: String,
    pub content: String,
}

/// The `set_context` operation's store: key → content, keys unique, entries
/// kept in first-insertion order.
pub struct ContextManager {
    entries: Vec<(String, String)>,
}

/// The key → content mapping an entry sequence stands for; a later entry for
/// the same key would win, though a well-formed store never holds one.
pub open spec fn assoc_map(s: Seq<(Seq<char>, Seq<char>)>) -> Map<Seq<char>, Seq<char>>
    decreases s.len(),
{
    if s.len() == 0 {
        Map::empty()
    } else {
        assoc_map(s.drop_last()).insert(s.last().0, s.last().1)
    }
}

/// Whether some entry carries the key `k`.
pub open spec fn has_key(s: Seq<(Seq<char>, Seq<char>)>, k: Seq<char>) -> bool {
    exists|i: int| 0 <= i < s.len() && (#[trigger] s[i]).0 == k
}

/// The mapping's domain is exactly the keys on the entries.
proof fn lemma_assoc_dom(s: Seq<(Seq<char>, Seq<char>)>, k: Seq<char>)
    ensures
        assoc_map(s).dom().contains(k) <==> has_key(s, k),
    decreases s.len(),
{
    if s.len() == 0 {
    } else {
        lemma_assoc_dom(s.drop_last(), k);
        if s.last().0 == k {
            assert(s[s.len() - 1].0 == k);
        } else {
            assert forall|i: int| 0 <= i < s.drop_last().len() && (#[trigger] s.drop_last()[i]).0
                == k implies (s[i]).0 == k by {}
            assert(has_key(s.drop_last(), k) ==> has_key(s, k));
            if has_key(s, k) {
                let i = choose|i: int| 0 <= i < s.len() && (#[trigger] s[i]).0 == k;
                assert(i < s.len() - 1);
                assert(s.drop_last()[i] == s[i]);
                assert(has_key(s.drop_last(), k));
            }
        }
    }
}

/// Overwriting the entry that carries `k` updates the mapping at `k` alone.
proof fn lemma_assoc_update(s: Seq<(Seq<char>, Seq<char>)>, i: int, e: (Seq<char>, Seq<char>))
    requires
        0 <= i < s.len(),
        s[i].0 == e.0,
        forall|p: int, q: int| 0 <= p < q < s.len() ==> (#[trigger] s[p]).0 != (#[trigger] s[q]).0,
    ensures
        assoc_map(s.update(i, e)) == assoc_map(s).insert(e.0, e.1),
    decreases s.len(),
{
    let t = s.update(i, e);
    if i == s.len() - 1 {
        assert(t.drop_last() =~= s.drop_last());
        assert(t.last() == e);
        assert(assoc_map(t) == assoc_map(s.drop_last()).insert(e.0, e.1));
        assert(assoc_map(s.drop_last()).insert(e.0, s.last().1).insert(e.0, e.1)
            =~= assoc_map(s.drop_last()).insert(e.0, e.1));
    } else {
        let last = s.last();
        assert(t.last() == last);
        assert(t.drop_last() =~= s.drop_last().update(i, e));
        assert(s.drop_last()[i] == s[i]);
        assert forall|p: int, q: int|
            0 <= p < q < s.drop_last().len() implies (#[trigger] s.drop_last()[p]).0 != (
        #[trigger] s.drop_last()[q]).0 by {
            assert(s.drop_last()[p] == s[p]);
            assert(s.drop_last()[q] == s[q]);
        }
        lemma_assoc_update(s.drop_last(), i, e);
        assert(last.0 != e.0);
        assert(assoc_map(t) == assoc_map(s.drop_last()).insert(e.0, e.1).insert(last.0, last.1));
        assert(assoc_map(s.drop_last()).insert(e.0, e.1).insert(last.0, last.1) =~= assoc_map(
            s.drop_last(),
        ).insert(last.0, last.1).insert(e.0, e.1));
    }
}

/// The report `set_context` gives: the key stored and the entry count now.
pub open spec fn stored_msg(key: Seq<char>, count: nat) -> Seq<char> {
    "Successfully stored '"@ + key + "' in context. Context now contains "@ + dec_digits(count)
        + " items."@
}

/// What an empty store renders to.
pub open spec fn empty_context_msg() -> Seq<char> {
    "No context stored yet."@
}

/// Every entry rendered in order: the uppercased key as a header, the content
/// below, a blank line after each.
pub open spec fn render_entries(s: Seq<(Seq<char>, Seq<char>)>) -> Seq<char>
    decreases s.len(),
{
    if s.len() == 0 {
        Seq::empty()
    } else {
        render_entries(s.drop_last()) + "--- "@ + upper_of(s.last().0) + " ---\n"@ + s.last().1
            + "\n\n"@
    }
}

impl ContextManager {
    /// The entries, keys and contents as character sequences, in store order.
    pub closed spec fn entry_seq(&self) -> Seq<(Seq<char>, Seq<char>)> {
        self.entries@.map_values(|e: (String, String)| (e.0@, e.1@))
    }

    /// How many entries the store holds.
    pub open spec fn count(&self) -> nat {
        self.entry_seq().len()
    }

    /// The store's mapping.
    pub open spec fn as_map(&self) -> Map<Seq<char>, Seq<char>> {
        assoc_map(self.entry_seq())
    }

    /// Well-formed: no two entries carry the same key.
    pub open spec fn wf(&self) -> bool {
        forall|p: int, q: int|
            0 <= p < q < self.entry_seq().len() ==> (#[trigger] self.entry_seq()[p]).0 != (
            #[trigger] self.entry_seq()[q]).0
    }

    /// An empty store.
    pub fn new() -> (r: Self)
        ensures
            r.wf(),
            r.count() == 0,
            r.as_map() == Map::<Seq<char>, Seq<char>>::empty(),
    {
        let r = ContextManager { entries: Vec::new() };
        proof {
            assert(r.entry_seq() =~= Seq::<(Seq<char>, Seq<char>)>::empty());
            assert(r.as_map() =~= Map::<Seq<char>, Seq<char>>::empty());
        }
        r
    }

    /// Stores `args.content` under `args.key`, overwriting in place if the key
    /// is already present and appending otherwise, and reports the key stored
    /// and how many entries the store now holds.
    pub fn set_context(&mut self, args: &SetContextArgs) -> (r: String)
        requires
            old(self).wf(),
        ensures
            final(self).wf(),
            final(self).as_map() == old(self).as_map().insert(args.key@, args.content@),
            final(self).count() == if old(self).as_map().dom().contains(args.key@) {
                old(self).count()
            } else {
                old(self).count() + 1
            },
            r@ == stored_msg(args.key@, final(self).count()),
    {
        proof {
            lemma_assoc_dom(old(self).entry_seq(), args.key@);
        }
        let n = self.entries.len();
        let mut idx: usize = n;
        let mut i: usize = 0;
        while i < n
            invariant
                i <= n,
                *self == *old(self),
                n == self.entry_seq().len(),
                idx == n || (idx < i && self.entry_seq()[idx as int].0 == args.key@),
                idx == n ==> forall|p: int|
                    0 <= p < i ==> (#[trigger] self.entry_seq()[p]).0 != args.key@,
            decreases n - i,
        {
            if idx == n && self.entries[i].0.eq(&args.key) {
                proof {
                    assert(self.entry_seq()[i as int].0 == args.key@);
                }
                idx = i;
            }
            i = i + 1;
        }
        if idx < n {
            let ghost olds = self.entry_seq();
            let _ = self.entries.remove(idx);
            self.entries.insert(idx, (args.key.clone(), args.content.clone()));
            proof {
                assert(self.entry_seq() =~= olds.update(idx as int, (args.key@, args.content@)));
                lemma_assoc_update(olds, idx as int, (args.key@, args.content@));
                assert forall|p: int, q: int|
                    0 <= p < q < self.entry_seq().len() implies (#[trigger] self.entry_seq()[p]).0
                    != (#[trigger] self.entry_seq()[q]).0 by {
                    if p != idx as int && q != idx as int {
                        assert(self.entry_seq()[p] == olds[p]);
                        assert(self.entry_seq()[q] == olds[q]);
                    } else {
                        assert(olds[idx as int].0 == args.key@);
                    }
                }
                assert(has_key(olds, args.key@));
            }
        } else {
            proof {
                assert forall|p: int|
                    0 <= p < self.entry_seq().len() implies (#[trigger] self.entry_seq()[p]).0
                    != args.key@ by {}
                assert(!has_key(old(self).entry_seq(), args.key@));
            }
            let ghost olds = self.entry_seq();
            self.entries.push((args.key.clone(), args.content.clone()));
            proof {
                assert(self.entry_seq() =~= olds.push((args.key@, args.content@)));
                assert(self.entry_seq().drop_last() =~= olds);
                assert forall|p: int, q: int|
                    0 <= p < q < self.entry_seq().len() implies (#[trigger] self.entry_seq()[p]).0
                    != (#[trigger] self.entry_seq()[q]).0 by {
                    if q == self.entry_seq().len() - 1 {
                        assert(self.entry_seq()[p] == olds[p]);
                        assert(!(olds[p].0 == args.key@));
                    } else {
                        assert(self.entry_seq()[p] == olds[p]);
                        assert(self.entry_seq()[q] == olds[q]);
                    }
                }
            }
        }
        let count = self.entries.len();
        let mut m = String::from_str("Successfully stored '");
        m.append(args.key.as_str());
        m.append("' in context. Context now contains ");
        let c = u64_string(count as u64);
        m.append(c.as_str());
        m.append(" items.");
        m
    }

    /// Renders the whole store: a fixed sentinel when empty, else a banner and
    /// every entry in store order, each under its uppercased key.
    pub fn get_all_context(&self) -> (r: String)
        ensures
            self.count() == 0 ==> r@ == empty_context_msg(),
            self.count() > 0 ==> r@ == "=== CURRENT CONTEXT ===\n\n"@ + render_entries(
                self.entry_seq(),
            ),
    {
        if self.entries.len() == 0 {
            return String::from_str("No context stored yet.");
        }
        let mut m = String::from_str("=== CURRENT CONTEXT ===\n\n");
        proof {
            assert(self.entry_seq().take(0) =~= Seq::<(Seq<char>, Seq<char>)>::empty());
        }
        let mut i: usize = 0;
        while i < self.entries.len()
            invariant
                i <= self.entry_seq().len(),
                m@ == "=== CURRENT CONTEXT ===\n\n"@ + render_entries(
                    self.entry_seq().take(i as int),
                ),
            decreases self.entry_seq().len() - i,
        {
            m.append("--- ");
            let upper = upper_string(self.entries[i].0.as_str());
            m.append(upper.as_str());
            m.append(" ---\n");
            m.append(self.entries[i].1.as_str());
            m.append("\n\n");
            proof {
                let ts = self.entry_seq().take(i + 1);
                assert(ts.drop_last() =~= self.entry_seq().take(i as int));
                assert(ts.last() == self.entry_seq()[i as int]);
                assert(m@ =~= "=== CURRENT CONTEXT ===\n\n"@ + render_entries(ts));
            }
            i = i + 1;
        }
        proof {
            assert(self.entry_seq().take(self.entry_seq().len() as int) =~= self.entry_seq());
        }
        m
    }
}

} // verus!
