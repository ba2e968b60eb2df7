//! The shared request-counting store: a mapping from a counting key to the
//! number of requests tallied under it.
//!
//! The store is viewed as a `Map<Seq<char>, usize>`. `increment` inserts an
//! absent key with count 1 and otherwise raises the key's count by one,
//! returning the new count; at `usize::MAX` the count saturates instead of
//! wrapping, so counts never decrease.
use vstd::prelude::*;

use crate::chars::str_eq;

verus! {

/// The map described by an association list, later entries taking
/// precedence (the store keeps its keys unique, so no entry shadows
/// another).
spec fn entries_map(s: Seq<(String, usize)>) -> Map<Seq<char>, usize>
    decreases s.len(),
{
    if s.len() == 0 {
        Map::empty()
    } else {
        entries_map(s.drop_last()).insert(s.last().0@, s.last().1)
    }
}

/// No two entries hold the same key.
spec fn unique_keys(s: Seq<(String, usize)>) -> bool {
    forall|i: int, j: int| 0 <= i < j < s.len() ==> s[i].0@ != s[j].0@
}

/// The count a map holds for a key, zero for an absent key.
pub open spec fn spec_count(m: Map<Seq<char>, usize>, k: Seq<char>) -> int {
    if m.dom().contains(k) {
        m[k] as int
    } else {
        0
    }
}

/// One increment at the map level: the key's count is raised by one
/// (from zero for an absent key), saturating at `usize::MAX`.
pub open spec fn spec_inc(m: Map<Seq<char>, usize>, k: Seq<char>) -> Map<Seq<char>, usize> {
    if spec_count(m, k) < usize::MAX {
        m.insert(k, (spec_count(m, k) + 1) as usize)
    } else {
        m
    }
}

proof fn lemma_entries_map_dom(s: Seq<(String, usize)>, k: Seq<char>)
    ensures
        entries_map(s).dom().contains(k) <==> exists|i: int| 0 <= i < s.len() && s[i].0@ == k,
    decreases s.len(),
{
    if s.len() > 0 {
        lemma_entries_map_dom(s.drop_last(), k);
        if s.last().0@ == k {
            assert(s[s.len() - 1].0@ == k);
        } else {
            if exists|i: int| 0 <= i < s.len() && s[i].0@ == k {
                let i = choose|i: int| 0 <= i < s.len() && s[i].0@ == k;
                assert(i < s.len() - 1);
                assert(s.drop_last()[i] == s[i]);
            }
        }
    }
}

proof fn lemma_entries_map_lookup(s: Seq<(String, usize)>, i: int)
    requires
        unique_keys(s),
        0 <= i < s.len(),
    ensures
        entries_map(s).dom().contains(s[i].0@),
        entries_map(s)[s[i].0@] == s[i].1,
    decreases s.len(),
{
    if i == s.len() - 1 {
    } else {
        assert(unique_keys(s.drop_last())) by {
            assert(forall|p: int, q: int|
                0 <= p < q < s.len() - 1 ==> s.drop_last()[p] == s[p] && s.drop_last()[q] == s[q]);
        }
        lemma_entries_map_lookup(s.drop_last(), i);
        assert(s.drop_last()[i] == s[i]);
        assert(s[i].0@ != s.last().0@);
    }
}

proof fn lemma_entries_map_update(s: Seq<(String, usize)>, i: int, p: (String, usize))
    requires
        unique_keys(s),
        0 <= i < s.len(),
        p.0@ == s[i].0@,
    ensures
        entries_map(s.update(i, p)) == entries_map(s).insert(p.0@, p.1),
        unique_keys(s.update(i, p)),
    decreases s.len(),
{
    let t = s.update(i, p);
    assert(forall|q: int| 0 <= q < s.len() && q != i ==> t[q] == s[q]);
    if i == s.len() - 1 {
        assert(t.drop_last() =~= s.drop_last());
        assert(t.last() == p);
        assert(entries_map(s.drop_last()).insert(p.0@, p.1) =~= entries_map(s).insert(
            p.0@,
            p.1,
        ));
    } else {
        assert(unique_keys(s.drop_last())) by {
            assert(forall|a: int, b: int|
                0 <= a < b < s.len() - 1 ==> s.drop_last()[a] == s[a] && s.drop_last()[b] == s[b]);
        }
        lemma_entries_map_update(s.drop_last(), i, p);
        assert(t.drop_last() =~= s.drop_last().update(i, p));
        assert(t.last() == s.last());
        assert(s.last().0@ != p.0@);
        assert(entries_map(s.drop_last()).insert(p.0@, p.1).insert(s.last().0@, s.last().1)
            =~= entries_map(s.drop_last()).insert(s.last().0@, s.last().1).insert(p.0@, p.1));
    }
}

proof fn lemma_entries_map_push(s: Seq<(String, usize)>, p: (String, usize))
    ensures
        entries_map(s.push(p)) == entries_map(s).insert(p.0@, p.1),
{
    assert(s.push(p).drop_last() =~= s);
    assert(s.push(p).last() == p);
}

/// The request-counting store.
pub struct CounterStore {
    entries: Vec<(String, usize)>,
}

impl View for CounterStore {
    type V = Map<Seq<char>, usize>;

    closed spec fn view(&self) -> Map<Seq<char>, usize> {
        entries_map(self.entries@)
    }
}

impl CounterStore {
    /// Well-formedness: the entry list never holds a key twice.
    pub closed spec fn wf(&self) -> bool {
        unique_keys(self.entries@)
    }

    /// An empty store.
    pub fn new() -> (s: CounterStore)
        ensures
            s.wf(),
            s@ == Map::<Seq<char>, usize>::empty(),
    {
        CounterStore { entries: Vec::new() }
    }

    fn find_key(&self, key: &str) -> (r: Option<usize>)
        ensures
            match r {
                Some(i) => i < self.entries@.len() && self.entries@[i as int].0@ == key@,
                None => forall|j: int| 0 <= j < self.entries@.len() ==> self.entries@[j].0@ != key@,
            },
    {
        let n = self.entries.len();
        let mut i: usize = 0;
        while i < n
            invariant
                n == self.entries@.len(),
                i <= n,
                forall|j: int| 0 <= j < i ==> self.entries@[j].0@ != key@,
            decreases n - i,
        {
            if str_eq(self.entries[i].0.as_str(), key) {
                return Some(i);
            }
            i = i + 1;
        }
        None
    }

    /// The count currently tallied under a key (zero if the key is absent).
    pub fn count(&self, key: &str) -> (c: usize)
        requires
            self.wf(),
        ensures
            c as int == spec_count(self@, key@),
    {
        match self.find_key(key) {
            Some(i) => {
                proof {
                    lemma_entries_map_lookup(self.entries@, i as int);
                }
                self.entries[i].1
            },
            None => {
                proof {
                    lemma_entries_map_dom(self.entries@, key@);
                }
                0
            },
        }
    }

    /// Tallies one request under a key, as one atomic read-modify-write on
    /// the store, and returns the key's new count: 1 for a key seen for the
    /// first time, the old count plus one otherwise (saturating at
    /// `usize::MAX`).
    pub fn increment(&mut self, key: &str) -> (count: usize)
        requires
            old(self).wf(),
        ensures
            final(self).wf(),
            final(self)@ == spec_inc(old(self)@, key@),
            count as int == spec_count(final(self)@, key@),
            spec_count(old(self)@, key@) < usize::MAX ==> count as int == spec_count(
                old(self)@,
                key@,
            ) + 1,
    {
        match self.find_key(key) {
            Some(i) => {
                proof {
                    lemma_entries_map_lookup(self.entries@, i as int);
                }
                let c = self.entries[i].1;
                if c < usize::MAX {
                    let ghost olde = self.entries@;
                    let e = &mut self.entries[i];
                    e.1 = c + 1;
                    proof {
                        assert(self.entries@ =~= olde.update(i as int, (olde[i as int].0, (c
                            + 1) as usize)));
                        lemma_entries_map_update(
                            olde,
                            i as int,
                            (olde[i as int].0, (c + 1) as usize),
                        );
                        lemma_entries_map_lookup(self.entries@, i as int);
                    }
                    c + 1
                } else {
                    c
                }
            },
            None => {
                proof {
                    lemma_entries_map_dom(self.entries@, key@);
                }
                let ghost olde = self.entries@;
                self.entries.push((key.to_owned(), 1));
                proof {
                    let p = self.entries@[olde.len() as int];
                    assert(self.entries@ =~= olde.push(p));
                    lemma_entries_map_push(olde, p);
                    assert(unique_keys(self.entries@)) by {
                        assert(forall|q: int|
                            0 <= q < olde.len() ==> self.entries@[q] == olde[q]);
                    }
                    lemma_entries_map_lookup(self.entries@, olde.len() as int);
                }
                1
            },
        }
    }
}

/// Running a sequence of increments, one key per increment, at the map
/// level.
pub open spec fn run_increments(m: Map<Seq<char>, usize>, ks: Seq<Seq<char>>) -> Map<
    Seq<char>,
    usize,
>
    decreases ks.len(),
{
    if ks.len() == 0 {
        m
    } else {
        spec_inc(run_increments(m, ks.drop_last()), ks.last())
    }
}

/// How often a key occurs in a sequence of increment keys.
pub open spec fn occurrences(ks: Seq<Seq<char>>, k: Seq<char>) -> nat
    decreases ks.len(),
{
    if ks.len() == 0 {
        0
    } else {
        occurrences(ks.drop_last(), k) + if ks.last() == k {
            1nat
        } else {
            0nat
        }
    }
}

/// An increment never lowers any count, and leaves every other key's count
/// exactly as it was.
pub proof fn lemma_increment_monotonic(m: Map<Seq<char>, usize>, k: Seq<char>, k2: Seq<char>)
    ensures
        spec_count(spec_inc(m, k), k2) >= spec_count(m, k2),
        k2 != k ==> spec_count(spec_inc(m, k), k2) == spec_count(m, k2),
{
}

/// Per-key independence of a whole run: after any sequence of increments,
/// a key's count has grown by exactly the number of increments made under
/// that key, however increments for other keys were interleaved.
pub proof fn lemma_increment_tally(m: Map<Seq<char>, usize>, ks: Seq<Seq<char>>, k: Seq<char>)
    requires
        spec_count(m, k) + occurrences(ks, k) <= usize::MAX,
    ensures
        spec_count(run_increments(m, ks), k) == spec_count(m, k) + occurrences(ks, k),
    decreases ks.len(),
{
    if ks.len() > 0 {
        lemma_increment_tally(m, ks.drop_last(), k);
    }
}

/// The k-th successful increment for a key returns exactly k: an increment
/// returns the new count, and right after the increment at position `i`,
/// made under key `k`, that key's count is its number of occurrences so far
/// plus one.
pub proof fn lemma_kth_increment(ks: Seq<Seq<char>>, k: Seq<char>, i: int)
    requires
        0 <= i < ks.len(),
        ks[i] == k,
        occurrences(ks.take(i + 1), k) <= usize::MAX,
    ensures
        spec_count(run_increments(Map::empty(), ks.take(i + 1)), k) == occurrences(ks.take(i), k)
            + 1,
{
    lemma_increment_tally(Map::empty(), ks.take(i + 1), k);
    assert(ks.take(i + 1).drop_last() =~= ks.take(i));
    assert(ks.take(i + 1).last() == ks[i]);
}

} // verus!
