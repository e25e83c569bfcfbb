//! Ranking by a four-part key, compared part by part: the order in which the opponent
//! prefers one candidate to another when several rules break ties in turn.
use vstd::prelude::*;
use vstd::seq_lib::to_multiset_insert;

verus! {

/// `a` ranks no later than `b`: the keys compared part by part, first difference deciding.
pub open spec fn key_le(a: (u64, u64, u64, u64), b: (u64, u64, u64, u64)) -> bool {
    a.0 < b.0 || (a.0 == b.0 && (a.1 < b.1 || (a.1 == b.1 && (a.2 < b.2 || (a.2 == b.2
        && a.3 <= b.3)))))
}

/// Every entry of `s` ranks no later than the entries after it.
pub open spec fn keyed_sorted<T>(s: Seq<((u64, u64, u64, u64), T)>) -> bool {
    forall|i: int, j: int| 0 <= i <= j < s.len() ==> key_le(s[i].0, s[j].0)
}

proof fn lemma_key_le_total(a: (u64, u64, u64, u64), b: (u64, u64, u64, u64))
    ensures
        key_le(a, b) || key_le(b, a),
{
}

proof fn lemma_key_le_transitive(
    a: (u64, u64, u64, u64),
    b: (u64, u64, u64, u64),
    c: (u64, u64, u64, u64),
)
    requires
        key_le(a, b),
        key_le(b, c),
    ensures
        key_le(a, c),
{
}

pub fn key_at_most(a: (u64, u64, u64, u64), b: (u64, u64, u64, u64)) -> (r: bool)
    ensures
        r == key_le(a, b),
{
    if a.0 != b.0 {
        a.0 < b.0
    } else if a.1 != b.1 {
        a.1 < b.1
    } else if a.2 != b.2 {
        a.2 < b.2
    } else {
        a.3 <= b.3
    }
}

/// `v` rearranged so that keys never decrease.
pub fn sort_keyed<T: Copy>(v: Vec<((u64, u64, u64, u64), T)>) -> (r: Vec<((u64, u64, u64, u64), T)>)
    ensures
        keyed_sorted(r@),
        r@.to_multiset() == v@.to_multiset(),
        r@.len() == v@.len(),
{
    let mut out: Vec<((u64, u64, u64, u64), T)> = Vec::new();
    let mut i: usize = 0;
    proof {
        assert(v@.take(0) =~= Seq::<((u64, u64, u64, u64), T)>::empty());
        assert(out@ =~= v@.take(0));
    }
    while i < v.len()
        invariant
            i <= v.len(),
            keyed_sorted(out@),
            out@.to_multiset() == v@.take(i as int).to_multiset(),
            out@.len() == i,
        decreases v.len() - i,
    {
        let x = v[i];
        let mut pos: usize = 0;
        while pos < out.len() && key_at_most(out[pos].0, x.0)
            invariant
                pos <= out.len(),
                forall|k: int| 0 <= k < pos ==> key_le(#[trigger] out@[k].0, x.0),
            decreases out.len() - pos,
        {
            pos = pos + 1;
        }
        let ghost before = out@;
        proof {
            to_multiset_insert(before, pos as int, x);
            assert(v@.take(i + 1) =~= v@.take(i as int).push(x));
            vstd::seq_lib::to_multiset_build(v@.take(i as int), x);
        }
        out.insert(pos, x);
        assert(out@ == before.insert(pos as int, x));
        assert forall|a: int, b: int| 0 <= a <= b < out@.len() implies key_le(
            out@[a].0,
            out@[b].0,
        ) by {
            if a <= pos && pos < b {
                // x ranks before every entry that was after it.
                assert(!key_le(before[pos as int].0, x.0));
                lemma_key_le_total(before[pos as int].0, x.0);
                assert(key_le(before[pos as int].0, before[b - 1].0));
                lemma_key_le_transitive(x.0, before[pos as int].0, before[b - 1].0);
                if a < pos {
                    assert(key_le(before[a].0, x.0));
                    lemma_key_le_transitive(before[a].0, x.0, before[b - 1].0);
                }
            }
        }
        i = i + 1;
    }
    assert(v@.take(v@.len() as int) =~= v@);
    out
}

} // verus!
