//! Unit-id lists: selection by a property of the owned entity, and ascending order.
use crate::ai::model::EntitySummary;
use vstd::prelude::*;
use vstd::seq_lib::to_multiset_insert;

verus! {

pub open spec fn sorted_ids(s: Seq<u32>) -> bool {
    forall|i: int, j: int| 0 <= i <= j < s.len() ==> s[i] <= s[j]
}

/// The ids of the entities of `owned` that satisfy `pred`, in observation order.
pub open spec fn ids_where(owned: Seq<EntitySummary>, pred: spec_fn(EntitySummary) -> bool) -> Seq<u32>
    decreases owned.len(),
{
    if owned.len() == 0 {
        Seq::empty()
    } else if pred(owned.last()) {
        ids_where(owned.drop_last(), pred).push(owned.last().id)
    } else {
        ids_where(owned.drop_last(), pred)
    }
}

/// `v` in ascending order.
pub fn sort_ids(v: Vec<u32>) -> (r: Vec<u32>)
    ensures
        sorted_ids(r@),
        r@.to_multiset() == v@.to_multiset(),
        r@.len() == v@.len(),
{
    let mut out: Vec<u32> = Vec::new();
    let mut i: usize = 0;
    proof {
        assert(v@.take(0) =~= Seq::<u32>::empty());
        assert(out@ =~= v@.take(0));
    }
    while i < v.len()
        invariant
            i <= v.len(),
            sorted_ids(out@),
            out@.to_multiset() == v@.take(i as int).to_multiset(),
            out@.len() == i,
        decreases v.len() - i,
    {
        let x = v[i];
        let mut pos: usize = 0;
        while pos < out.len() && out[pos] <= x
            invariant
                pos <= out.len(),
                forall|k: int| 0 <= k < pos ==> out@[k] <= x,
            decreases out.len() - pos,
        {
            pos = pos + 1;
        }
        let ghost before = out@;
        proof {
            to_multiset_insert(before, pos as int, x);
            assert(v@.take(i + 1) =~= v@.take(i as int).push(x));
            vstd::seq_lib::to_multiset_build(v@.take(i as int), x);
        }
        out.insert(pos, x);
        assert(out@ == before.insert(pos as int, x));
        assert forall|a: int, b: int| 0 <= a <= b < out@.len() implies out@[a] <= out@[b] by {
            if pos < before.len() {
                assert(x < before[pos as int]);
            }
        }
        i = i + 1;
    }
    assert(v@.take(v@.len() as int) =~= v@);
    out
}

pub fn contains_id(ids: &Vec<u32>, id: u32) -> (r: bool)
    ensures
        r == ids@.contains(id),
{
    let mut i: usize = 0;
    while i < ids.len()
        invariant
            i <= ids.len(),
            forall|j: int| 0 <= j < i ==> ids@[j] != id,
        decreases ids.len() - i,
    {
        if ids[i] == id {
            return true;
        }
        i = i + 1;
    }
    false
}


/// `s` without the ids that fail `keep`, order kept.
pub open spec fn keep_ids(s: Seq<u32>, keep: spec_fn(u32) -> bool) -> Seq<u32>
    decreases s.len(),
{
    if s.len() == 0 {
        Seq::empty()
    } else if keep(s.last()) {
        keep_ids(s.drop_last(), keep).push(s.last())
    } else {
        keep_ids(s.drop_last(), keep)
    }
}

/// Strictly ascending: sorted with no id twice.
pub open spec fn strictly_sorted_ids(s: Seq<u32>) -> bool {
    forall|i: int, j: int| 0 <= i < j < s.len() ==> s[i] < s[j]
}

/// The distinct ids of `v` in ascending order.
pub fn sorted_unique_ids(v: &Vec<u32>) -> (r: Vec<u32>)
    ensures
        strictly_sorted_ids(r@),
        forall|x: u32| r@.contains(x) <==> v@.contains(x),
{
    let mut out: Vec<u32> = Vec::new();
    let mut i: usize = 0;
    while i < v.len()
        invariant
            i <= v.len(),
            strictly_sorted_ids(out@),
            forall|x: u32| out@.contains(x) <==> v@.take(i as int).contains(x),
        decreases v.len() - i,
    {
        let x = v[i];
        let mut pos: usize = 0;
        while pos < out.len() && out[pos] < x
            invariant
                pos <= out.len(),
                forall|k: int| 0 <= k < pos ==> out@[k] < x,
            decreases out.len() - pos,
        {
            pos = pos + 1;
        }
        let ghost before = out@;
        let ghost pre = v@.take(i as int);
        let ghost post = v@.take(i + 1);
        proof {
            assert(post =~= pre.push(x));
            assert(forall|y: u32| before.contains(y) <==> pre.contains(y));
        }
        if pos < out.len() && out[pos] == x {
            assert forall|y: u32| out@.contains(y) <==> post.contains(y) by {
                if y == x {
                    assert(out@[pos as int] == x);
                }
                if post.contains(y) && y != x {
                    let k = choose|k: int| 0 <= k < i + 1 && post[k] == y;
                    assert(pre[k] == y);
                }
            }
        } else {
            out.insert(pos, x);
            assert(out@ == before.insert(pos as int, x));
            assert forall|a: int, b: int| 0 <= a < b < out@.len() implies out@[a] < out@[b] by {
                if pos < before.len() {
                    assert(x < before[pos as int]);
                }
            }
            assert forall|y: u32| out@.contains(y) <==> post.contains(y) by {
                if y == x {
                    assert(out@[pos as int] == x);
                    assert(post[i as int] == x);
                } else {
                    if out@.contains(y) {
                        let k = choose|k: int| 0 <= k < out@.len() && out@[k] == y;
                        if k < pos {
                            assert(before[k] == y);
                        } else {
                            assert(before[k - 1] == y);
                        }
                        assert(before.contains(y));
                        let m = choose|m: int| 0 <= m < i && pre[m] == y;
                        assert(post[m] == y);
                    }
                    if post.contains(y) {
                        let k = choose|k: int| 0 <= k < i + 1 && post[k] == y;
                        assert(pre[k] == y);
                        assert(pre.contains(y));
                        assert(before.contains(y));
                        let m = choose|m: int| 0 <= m < before.len() && before[m] == y;
                        if m < pos {
                            assert(out@[m] == y);
                        } else {
                            assert(out@[m + 1] == y);
                        }
                    }
                }
            }
        }
        i = i + 1;
    }
    assert(v@.take(v@.len() as int) =~= v@);
    out
}

} // verus!
