//! Records keyed by a u32, the last entry for a key standing for it: lookup, filtering and
//! replacing one key's entry.
use vstd::prelude::*;

verus! {

/// The value recorded for `key` in `s` (the last entry for it wins).
pub open spec fn entry_of<T>(s: Seq<(u32, T)>, unit: u32) -> Option<T>
    decreases s.len(),
{
    if s.len() == 0 {
        None
    } else if s.last().0 == unit {
        Some(s.last().1)
    } else {
        entry_of(s.drop_last(), unit)
    }
}

/// The map that `s` records: each key to the value of its last entry.
pub open spec fn entry_map<T>(s: Seq<(u32, T)>) -> Map<u32, T> {
    Map::new(|k: u32| entry_of(s, k) is Some, |k: u32| entry_of(s, k)->Some_0)
}

/// No key is recorded twice.
pub open spec fn distinct_keys<T>(s: Seq<(u32, T)>) -> bool {
    forall|i: int, j: int| 0 <= i < j < s.len() ==> s[i].0 != s[j].0
}

/// The entries of `s` that satisfy `keep`, in order.
pub open spec fn filter_entries<T>(s: Seq<(u32, T)>, keep: spec_fn((u32, T)) -> bool) -> Seq<(u32, T)>
    decreases s.len(),
{
    if s.len() == 0 {
        Seq::empty()
    } else if keep(s.last()) {
        filter_entries(s.drop_last(), keep).push(s.last())
    } else {
        filter_entries(s.drop_last(), keep)
    }
}

pub proof fn lemma_entry_absent<T>(s: Seq<(u32, T)>, unit: u32)
    requires
        forall|i: int| 0 <= i < s.len() ==> s[i].0 != unit,
    ensures
        entry_of(s, unit) is None,
    decreases s.len(),
{
    if s.len() > 0 {
        lemma_entry_absent(s.drop_last(), unit);
    }
}

pub proof fn lemma_filter_entries<T>(s: Seq<(u32, T)>, keep: spec_fn((u32, T)) -> bool, unit: u32)
    requires
        distinct_keys(s),
    ensures
        entry_of(filter_entries(s, keep), unit) == match entry_of(s, unit) {
            Some(t) => if keep((unit, t)) {
                Some(t)
            } else {
                None
            },
            None => None,
        },
        distinct_keys(filter_entries(s, keep)),
        forall|i: int|
            0 <= i < filter_entries(s, keep).len() ==> exists|j: int|
                0 <= j < s.len() && s[j] == #[trigger] filter_entries(s, keep)[i],
        forall|i: int|
            0 <= i < filter_entries(s, keep).len() ==> keep(#[trigger] filter_entries(s, keep)[i]),
    decreases s.len(),
{
    if s.len() > 0 {
        let p = s.drop_last();
        assert(distinct_keys(p));
        lemma_filter_entries(p, keep, unit);
        let f = filter_entries(p, keep);
        if s.last().0 != unit {
            assert(entry_of(s, unit) == entry_of(p, unit));
        }
        if s.last().0 == unit && !keep(s.last()) {
            assert forall|i: int| 0 <= i < f.len() implies f[i].0 != unit by {
                let j = choose|j: int| 0 <= j < p.len() && p[j] == f[i];
                assert(s[j] == p[j]);
            }
            lemma_entry_absent(f, unit);
        }
        if keep(s.last()) {
            let g = f.push(s.last());
            assert(g.drop_last() =~= f);
            assert forall|i: int, k: int| 0 <= i < k < g.len() implies g[i].0 != g[k].0 by {
                if k == f.len() {
                    let j = choose|j: int| 0 <= j < p.len() && p[j] == f[i];
                    assert(s[j] == p[j]);
                }
            }
            assert forall|i: int| 0 <= i < g.len() implies exists|j: int|
                0 <= j < s.len() && s[j] == #[trigger] g[i] by {
                if i == f.len() {
                    assert(s[s.len() - 1] == g[i]);
                } else {
                    let j = choose|j: int| 0 <= j < p.len() && p[j] == f[i];
                    assert(s[j] == g[i]);
                }
            }
        } else {
            assert forall|i: int| 0 <= i < f.len() implies exists|j: int|
                0 <= j < s.len() && s[j] == #[trigger] f[i] by {
                let j = choose|j: int| 0 <= j < p.len() && p[j] == f[i];
                assert(s[j] == f[i]);
            }
        }
    }
}


pub proof fn lemma_entry_present<T>(s: Seq<(u32, T)>, k: int)
    requires
        0 <= k < s.len(),
    ensures
        entry_of(s, s[k].0) is Some,
    decreases s.len(),
{
    if s.last().0 != s[k].0 {
        assert(k < s.len() - 1);
        assert(s.drop_last()[k] == s[k]);
        lemma_entry_present(s.drop_last(), k);
    }
}

pub proof fn lemma_entry_index<T>(s: Seq<(u32, T)>, unit: u32) -> (k: int)
    requires
        entry_of(s, unit) is Some,
    ensures
        0 <= k < s.len(),
        s[k].0 == unit,
    decreases s.len(),
{
    if s.last().0 == unit {
        s.len() - 1
    } else {
        let k = lemma_entry_index(s.drop_last(), unit);
        assert(s[k] == s.drop_last()[k]);
        k
    }
}

/// `s` with `tick` recorded for `unit`, any earlier entry for it dropped.
pub fn upsert_entry<T: Copy>(s: &Vec<(u32, T)>, unit: u32, tick: T) -> (r: Vec<(u32, T)>)
    requires
        distinct_keys(s@),
    ensures
        distinct_keys(r@),
        forall|w: u32| #[trigger] entry_of(r@, w) == if w == unit {
            Some(tick)
        } else {
            entry_of(s@, w)
        },
{
    let mut kept: Vec<(u32, T)> = Vec::new();
    let mut i: usize = 0;
    while i < s.len()
        invariant
            i <= s.len(),
            distinct_keys(s@),
            kept@ == filter_entries(s@.take(i as int), |e: (u32, T)| e.0 != unit),
        decreases s.len() - i,
    {
        assert(s@.take(i + 1).drop_last() =~= s@.take(i as int));
        if s[i].0 != unit {
            kept.push(s[i]);
        }
        i = i + 1;
    }
    assert(s@.take(s@.len() as int) =~= s@);
    let ghost keep = |e: (u32, T)| e.0 != unit;
    proof {
        assert forall|w: u32| true implies entry_of(kept@, w) == if w == unit {
            None
        } else {
            entry_of(s@, w)
        } by {
            lemma_filter_entries(s@, keep, w);
        }
        lemma_filter_entries(s@, keep, unit);
    }
    let ghost before = kept@;
    kept.push((unit, tick));
    proof {
        assert forall|a: int, b: int| 0 <= a < b < kept@.len() implies kept@[a].0 != kept@[b].0 by {
            if b == before.len() {
                assert(keep(before[a]));
            }
        }
        assert forall|w: u32| #[trigger] entry_of(kept@, w) == if w == unit {
            Some(tick)
        } else {
            entry_of(s@, w)
        } by {
            assert(kept@.drop_last() =~= before);
            lemma_filter_entries(s@, keep, w);
        }
    }
    kept
}




/// The value recorded for `key` in `s`.
pub fn lookup_entry<T: Copy>(s: &Vec<(u32, T)>, key: u32) -> (r: Option<T>)
    ensures
        r == entry_of(s@, key),
{
    let mut found: Option<T> = None;
    let mut i: usize = 0;
    while i < s.len()
        invariant
            i <= s.len(),
            found == entry_of(s@.take(i as int), key),
        decreases s.len() - i,
    {
        assert(s@.take(i + 1).drop_last() =~= s@.take(i as int));
        if s[i].0 == key {
            found = Some(s[i].1);
        }
        i = i + 1;
    }
    assert(s@.take(s@.len() as int) =~= s@);
    found
}

} // verus!
