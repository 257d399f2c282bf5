//! The in-memory reference store: a vector of `(day, content)` pairs with
//! pairwise distinct days, verified against the day-keyed map model. It is
//! the executable witness of the `Store` contract and the store the tests
//! drive the protocol against.

use vstd::prelude::*;

use crate::day::Day;
use crate::error::Error;
use crate::store::{store_model, Store};

verus! {

/// No two pairs share a day.
spec fn distinct_days(s: Seq<(Day, String)>) -> bool {
    forall|i: int, j: int| 0 <= i < j < s.len() ==> (#[trigger] s[i]).0 != (#[trigger] s[j]).0
}

/// The map the pairs denote: later pairs would win, and under
/// `distinct_days` each day appears at most once.
spec fn entries_map(s: Seq<(Day, String)>) -> Map<Day, Seq<char>>
    decreases s.len(),
{
    if s.len() == 0 {
        Map::<Day, Seq<char>>::empty()
    } else {
        entries_map(s.drop_last()).insert(s.last().0, s.last().1@)
    }
}

proof fn lemma_distinct_drop_last(s: Seq<(Day, String)>)
    requires
        distinct_days(s),
        s.len() > 0,
    ensures
        distinct_days(s.drop_last()),
{
    assert forall|i: int, j: int| 0 <= i < j < s.drop_last().len() implies (#[trigger] s.drop_last()[i]).0
        != (#[trigger] s.drop_last()[j]).0 by {
        assert(s.drop_last()[i] == s[i]);
        assert(s.drop_last()[j] == s[j]);
    }
}

/// A day no pair carries is not in the denoted map.
proof fn lemma_entries_map_absent(s: Seq<(Day, String)>, d: Day)
    requires
        forall|i: int| 0 <= i < s.len() ==> (#[trigger] s[i]).0 != d,
    ensures
        !entries_map(s).contains_key(d),
    decreases s.len(),
{
    if s.len() > 0 {
        assert(s.last() == s[s.len() - 1]);
        assert forall|i: int| 0 <= i < s.drop_last().len() implies (#[trigger] s.drop_last()[i]).0
            != d by {
            assert(s.drop_last()[i] == s[i]);
        }
        lemma_entries_map_absent(s.drop_last(), d);
    }
}

/// The pair at index `i` is what the denoted map holds for its day.
proof fn lemma_entries_map_at(s: Seq<(Day, String)>, i: int)
    requires
        distinct_days(s),
        0 <= i < s.len(),
    ensures
        entries_map(s).contains_key(s[i].0),
        entries_map(s)[s[i].0] == s[i].1@,
    decreases s.len(),
{
    assert(s.last() == s[s.len() - 1]);
    if i < s.len() - 1 {
        lemma_distinct_drop_last(s);
        assert(s.drop_last()[i] == s[i]);
        lemma_entries_map_at(s.drop_last(), i);
        assert(s[i].0 != s.last().0);
    }
}

/// Replacing the pair at `i` by one with the same day updates the denoted
/// map at exactly that day.
proof fn lemma_entries_map_update(s: Seq<(Day, String)>, i: int, p: (Day, String))
    requires
        distinct_days(s),
        0 <= i < s.len(),
        p.0 == s[i].0,
    ensures
        entries_map(s.update(i, p)) == entries_map(s).insert(p.0, p.1@),
    decreases s.len(),
{
    let t = s.update(i, p);
    assert(s.last() == s[s.len() - 1]);
    assert(t.last() == t[s.len() - 1]);
    if i == s.len() - 1 {
        assert(t.drop_last() =~= s.drop_last());
        assert(t.last() == p);
        assert(entries_map(s.drop_last()).insert(p.0, p.1@) =~= entries_map(s.drop_last()).insert(
            s.last().0,
            s.last().1@,
        ).insert(p.0, p.1@));
    } else {
        lemma_distinct_drop_last(s);
        assert(t.drop_last() =~= s.drop_last().update(i, p));
        assert(t.last() == s.last());
        lemma_entries_map_update(s.drop_last(), i, p);
        assert(s.drop_last()[i] == s[i]);
        assert(p.0 != s.last().0);
        assert(entries_map(s.drop_last()).insert(p.0, p.1@).insert(s.last().0, s.last().1@)
            =~= entries_map(s.drop_last()).insert(s.last().0, s.last().1@).insert(p.0, p.1@));
    }
}

/// Appending a pair for a fresh day extends the denoted map at that day.
proof fn lemma_entries_map_push(s: Seq<(Day, String)>, p: (Day, String))
    ensures
        entries_map(s.push(p)) == entries_map(s).insert(p.0, p.1@),
{
    assert(s.push(p).drop_last() =~= s);
    assert(s.push(p).last() == p);
}

/// The in-memory diary store.
pub struct Memory {
    entries: Vec<(Day, String)>,
}

impl Memory {
    /// A store holding no entries at all.
    pub fn new() -> (r: Memory)
        ensures
            r.inv(),
            r.contents() == Map::<Day, Seq<char>>::empty(),
    {
        Memory { entries: Vec::new() }
    }

    /// The index of the pair holding `day`, if one does.
    fn position(&self, day: &Day) -> (r: Option<usize>)
        ensures
            r matches Some(i) ==> i < self.entries@.len() && self.entries@[i as int].0 == *day,
            r is None ==> forall|i: int|
                0 <= i < self.entries@.len() ==> (#[trigger] self.entries@[i]).0 != *day,
    {
        let mut idx: usize = 0;
        while idx < self.entries.len()
            invariant
                idx <= self.entries@.len(),
                forall|i: int| 0 <= i < idx ==> (#[trigger] self.entries@[i]).0 != *day,
            decreases self.entries@.len() - idx,
        {
            if self.entries[idx].0 == *day {
                return Some(idx);
            }
            idx = idx + 1;
        }
        None
    }
}

impl Store for Memory {
    closed spec fn contents(&self) -> Map<Day, Seq<char>> {
        entries_map(self.entries@)
    }

    closed spec fn inv(&self) -> bool {
        distinct_days(self.entries@)
    }

    fn retrieve_latest(&mut self, today: &Day) -> (r: String) {
        match self.position(today) {
            Some(i) => {
                proof {
                    lemma_entries_map_at(self.entries@, i as int);
                }
                self.entries[i].1.clone()
            },
            None => {
                proof {
                    lemma_entries_map_absent(self.entries@, *today);
                }
                String::new()
            },
        }
    }

    fn store(&mut self, today: &Day, content: &str) -> (r: Result<(), Error>)
        ensures
            r is Ok,
    {
        let ghost s0 = self.entries@;
        let pair = (*today, content.to_owned());
        match self.position(today) {
            Some(i) => {
                proof {
                    lemma_entries_map_update(s0, i as int, pair);
                }
                self.entries[i] = pair;
                proof {
                    assert forall|a: int, b: int|
                        0 <= a < b < self.entries@.len() implies (#[trigger] self.entries@[a]).0
                        != (#[trigger] self.entries@[b]).0 by {
                        assert(s0[a].0 != s0[b].0);
                    }
                }
            },
            None => {
                proof {
                    lemma_entries_map_push(s0, pair);
                }
                self.entries.push(pair);
                proof {
                    assert forall|a: int, b: int|
                        0 <= a < b < self.entries@.len() implies (#[trigger] self.entries@[a]).0
                        != (#[trigger] self.entries@[b]).0 by {
                        if b < s0.len() {
                            assert(s0[a].0 != s0[b].0);
                        } else {
                            assert(s0[a].0 != *today);
                        }
                    }
                }
            },
        }
        proof {
            assert(self.contents() == store_model(entries_map(s0), *today, content@));
        }
        Ok(())
    }
}

} // verus!
