//! The escort party of the expansion site: who is recruited, which post each member holds, how
//! escorts that stall are dropped and kept out for a while, and how a blocked site is given up.
use crate::ai::expansion::{
    escort_progress, escort_progress_spec, EscortProgress, ExpansionSecurity,
    ExpansionSecurityView,
};
use crate::ai::ids::{contains_id, keep_ids};
use crate::ai::keyed::{
    distinct_keys, entry_map, entry_of, filter_entries, lemma_entry_index, lemma_filter_entries,
    lookup_entry, upsert_entry,
};
use crate::ai::ranking::{keyed_sorted, sort_keyed};
use vstd::prelude::*;

verus! {

/// Riflemen that escort the expansion party.
pub const ESCORT_PARTY_SIZE: usize = 4;

/// Riflemen kept at home, the lowest ids not in the party, before any is recruited.
pub const HOME_RIFLES: usize = 4;

/// Seconds a stalled escort is kept out of the party.
pub const ESCORT_RETRY_SECONDS: u64 = 10;

/// `m` without the entries that fail `keep`.
pub open spec fn restrict_map<T>(m: Map<u32, T>, keep: spec_fn(u32, T) -> bool) -> Map<u32, T> {
    Map::new(|k: u32| m.contains_key(k) && keep(k, m[k]), |k: u32| m[k])
}

/// How many of `rifles` are outside `party` and below `x`.
pub open spec fn rifles_below(rifles: Seq<u32>, party: Seq<u32>, x: u32) -> nat
    decreases rifles.len(),
{
    if rifles.len() == 0 {
        0
    } else {
        rifles_below(rifles.drop_last(), party, x) + if !party.contains(rifles.last())
            && rifles.last() < x {
            1nat
        } else {
            0nat
        }
    }
}

/// `x` is kept at home: a rifle outside the party among the lowest `HOME_RIFLES` of them.
pub open spec fn in_home_reserve(rifles: Seq<u32>, party: Seq<u32>, x: u32) -> bool {
    rifles.contains(x) && !party.contains(x) && rifles_below(rifles, party, x) < HOME_RIFLES
}

/// A rifle that may join the party: not a member, not kept at home, not waiting to retry.
pub open spec fn recruitable(rifles: Seq<u32>, party: Seq<u32>, retry: Map<u32, u32>, x: u32) -> bool {
    !party.contains(x) && !in_home_reserve(rifles, party, x) && !retry.contains_key(x)
}

/// The entries of `s` whose id passes `keep`, in order.
pub open spec fn keep_keyed(
    s: Seq<((u64, u64, u64, u64), u32)>,
    keep: spec_fn(u32) -> bool,
) -> Seq<((u64, u64, u64, u64), u32)>
    decreases s.len(),
{
    if s.len() == 0 {
        Seq::empty()
    } else if keep(s.last().1) {
        keep_keyed(s.drop_last(), keep).push(s.last())
    } else {
        keep_keyed(s.drop_last(), keep)
    }
}

/// Each rifle with its key: its distance key, then its id.
pub open spec fn rifle_entries(rifles: Seq<u32>, keys: Seq<u64>) -> Seq<((u64, u64, u64, u64), u32)> {
    Seq::new(rifles.len(), |i: int| ((keys[i], rifles[i] as u64, 0u64, 0u64), rifles[i]))
}

/// The ids of `s` joined to `party` in order: each id not yet a member joins while the party
/// has room.
pub open spec fn joined_party(party: Seq<u32>, ids: Seq<u32>) -> Seq<u32>
    decreases ids.len(),
{
    if ids.len() == 0 {
        party
    } else {
        let p = joined_party(party, ids.drop_last());
        if p.len() >= ESCORT_PARTY_SIZE || p.contains(ids.last()) {
            p
        } else {
            p.push(ids.last())
        }
    }
}

/// Some member holds post `k`.
pub open spec fn slot_taken(slots: Map<u32, usize>, k: usize) -> bool {
    exists|id: u32| slots.contains_key(id) && slots[id] == k
}

/// The lowest free post from `k` on.
pub open spec fn least_free_slot_from(slots: Map<u32, usize>, k: usize) -> Option<usize>
    decreases ESCORT_PARTY_SIZE - k,
{
    if k >= ESCORT_PARTY_SIZE {
        None
    } else if slot_taken(slots, k) {
        least_free_slot_from(slots, (k + 1) as usize)
    } else {
        Some(k)
    }
}

/// `slots` after each member of `party` without a post, in order, takes the lowest free one.
pub open spec fn slots_assigned(slots: Map<u32, usize>, party: Seq<u32>) -> Map<u32, usize>
    decreases party.len(),
{
    if party.len() == 0 {
        slots
    } else {
        let s = slots_assigned(slots, party.drop_last());
        let id = party.last();
        if s.contains_key(id) {
            s
        } else {
            match least_free_slot_from(s, 0) {
                Some(k) => s.insert(id, k),
                None => s,
            }
        }
    }
}

/// The room left in a party of `n` members.
pub open spec fn party_room(n: nat) -> int {
    if n >= ESCORT_PARTY_SIZE {
        0
    } else {
        ESCORT_PARTY_SIZE - n
    }
}

/// The retry ticks still in force at `tick`.
pub open spec fn retries_in_force(retry: Map<u32, u32>, tick: u32) -> Map<u32, u32> {
    restrict_map(retry, |k: u32, t: u32| tick < t)
}

/// The members that are still among `rifles`, in order.
pub open spec fn remaining_party(party: Seq<u32>, rifles: Seq<u32>) -> Seq<u32> {
    keep_ids(party, |id: u32| rifles.contains(id))
}

/// The rifles that may join, as entries keyed by distance key then id.
pub open spec fn candidate_entries(
    s: ExpansionSecurityView,
    tick: u32,
    rifles: Seq<u32>,
    keys: Seq<u64>,
) -> Seq<((u64, u64, u64, u64), u32)> {
    let party = remaining_party(s.riflemen, rifles);
    let retry = retries_in_force(s.retry_after, tick);
    keep_keyed(rifle_entries(rifles, keys), |x: u32| recruitable(rifles, party, retry, x))
}

/// The party after recruiting at `tick` from the complete live `rifles` (`keys[i]` the distance
/// key of `rifles[i]`, ordered as the distances to the site are), where `sorted` is the
/// candidates' entries in key order: retries that ran out are dropped; members that are no
/// longer among the rifles leave; the nearest candidates, as many as the party has room for,
/// join; posts and progress are kept only for members; and each member without a post takes
/// the lowest free one.
pub open spec fn recruited_with(
    s: ExpansionSecurityView,
    tick: u32,
    rifles: Seq<u32>,
    sorted: Seq<((u64, u64, u64, u64), u32)>,
) -> ExpansionSecurityView {
    let party = remaining_party(s.riflemen, rifles);
    let room = party_room(party.len());
    let n = if sorted.len() <= room {
        sorted.len() as int
    } else {
        room
    };
    let cands = sorted.take(n).map_values(|e: ((u64, u64, u64, u64), u32)| e.1);
    let members = joined_party(party, cands);
    ExpansionSecurityView {
        riflemen: members,
        slots: slots_assigned(restrict_map(s.slots, |k: u32, v: usize| members.contains(k)), members),
        progress: restrict_map(s.progress, |k: u32, v: EscortProgress| members.contains(k)),
        retry_after: retries_in_force(s.retry_after, tick),
        ..s
    }
}

pub open spec fn recruited(
    s: ExpansionSecurityView,
    tick: u32,
    rifles: Seq<u32>,
    keys: Seq<u64>,
    r: ExpansionSecurityView,
) -> bool {
    exists|sorted: Seq<((u64, u64, u64, u64), u32)>|
        {
            &&& keyed_sorted(sorted)
            &&& sorted.to_multiset() == candidate_entries(s, tick, rifles, keys).to_multiset()
            &&& r == recruited_with(s, tick, rifles, sorted)
        }
}

/// The party after the `stalled` escorts, in order, leave it, their posts and progress are
/// dropped, and each may not be recruited again before `tick` plus the retry time (saturating).
pub open spec fn dropped_stalled(s: ExpansionSecurityView, tick: u32, stalled: Seq<u32>, tick_hz: u32) -> ExpansionSecurityView
    decreases stalled.len(),
{
    if stalled.len() == 0 {
        s
    } else {
        let p = dropped_stalled(s, tick, stalled.drop_last(), tick_hz);
        let id = stalled.last();
        ExpansionSecurityView {
            riflemen: keep_ids(p.riflemen, |x: u32| x != id),
            slots: p.slots.remove(id),
            progress: p.progress.remove(id),
            retry_after: p.retry_after.insert(id, retry_tick(tick, tick_hz)),
            ..p
        }
    }
}

/// `tick` plus the retry time, saturating.
pub open spec fn retry_tick(tick: u32, tick_hz: u32) -> u32 {
    if tick + ESCORT_RETRY_SECONDS * tick_hz > u32::MAX {
        u32::MAX
    } else {
        (tick + ESCORT_RETRY_SECONDS * tick_hz) as u32
    }
}

/// The bookkeeping left after a blocked site is given up: everything reset but the sites
/// rejected before.
pub open spec fn reset_view(s: ExpansionSecurityView) -> ExpansionSecurityView {
    ExpansionSecurityView {
        site: None,
        riflemen: Seq::empty(),
        secure_since: None,
        build_attempt_tick: None,
        build_attempt_worker: None,
        retry_builder: None,
        rejected_sites: s.rejected_sites,
        slots: Map::empty(),
        progress: Map::empty(),
        retry_after: Map::empty(),
    }
}

// ---------------------------------------------------------------- keyed records

proof fn lemma_entry_value<T>(s: Seq<(u32, T)>, i: int)
    requires
        distinct_keys(s),
        0 <= i < s.len(),
    ensures
        entry_of(s, s[i].0) == Some(s[i].1),
    decreases s.len(),
{
    if i < s.len() - 1 {
        let p = s.drop_last();
        assert(s.last().0 != s[i].0);
        assert(p[i] == s[i]);
        lemma_entry_value(p, i);
    }
}

proof fn lemma_filtered_map<T>(s: Seq<(u32, T)>, keep: spec_fn((u32, T)) -> bool, kept: spec_fn(u32, T) -> bool)
    requires
        distinct_keys(s),
        forall|k: u32, v: T| #[trigger] kept(k, v) == keep((k, v)),
    ensures
        entry_map(filter_entries(s, keep)) == restrict_map(entry_map(s), kept),
        distinct_keys(filter_entries(s, keep)),
{
    assert forall|k: u32| true implies entry_of(filter_entries(s, keep), k) == match entry_of(s, k) {
        Some(t) => if keep((k, t)) {
            Some(t)
        } else {
            None
        },
        None => None,
    } by {
        lemma_filter_entries(s, keep, k);
    }
    lemma_filter_entries(s, keep, 0);
    assert(entry_map(filter_entries(s, keep)) =~= restrict_map(entry_map(s), kept));
}

fn keep_members<T: Copy>(s: &Vec<(u32, T)>, members: &Vec<u32>) -> (r: Vec<(u32, T)>)
    requires
        distinct_keys(s@),
    ensures
        entry_map(r@) == restrict_map(entry_map(s@), |k: u32, v: T| members@.contains(k)),
        distinct_keys(r@),
{
    let ghost keep = |e: (u32, T)| members@.contains(e.0);
    let mut out: Vec<(u32, T)> = Vec::new();
    let mut i: usize = 0;
    while i < s.len()
        invariant
            i <= s.len(),
            keep == (|e: (u32, T)| members@.contains(e.0)),
            out@ == filter_entries(s@.take(i as int), keep),
        decreases s.len() - i,
    {
        assert(s@.take(i + 1).drop_last() =~= s@.take(i as int));
        if contains_id(members, s[i].0) {
            out.push(s[i]);
        }
        i = i + 1;
    }
    assert(s@.take(s@.len() as int) =~= s@);
    proof {
        lemma_filtered_map(s@, keep, |k: u32, v: T| members@.contains(k));
    }
    out
}

fn without_key<T: Copy>(s: &Vec<(u32, T)>, key: u32) -> (r: Vec<(u32, T)>)
    requires
        distinct_keys(s@),
    ensures
        entry_map(r@) == entry_map(s@).remove(key),
        distinct_keys(r@),
{
    let ghost keep = |e: (u32, T)| e.0 != key;
    let mut out: Vec<(u32, T)> = Vec::new();
    let mut i: usize = 0;
    while i < s.len()
        invariant
            i <= s.len(),
            keep == (|e: (u32, T)| e.0 != key),
            out@ == filter_entries(s@.take(i as int), keep),
        decreases s.len() - i,
    {
        assert(s@.take(i + 1).drop_last() =~= s@.take(i as int));
        if s[i].0 != key {
            out.push(s[i]);
        }
        i = i + 1;
    }
    assert(s@.take(s@.len() as int) =~= s@);
    proof {
        lemma_filtered_map(s@, keep, |k: u32, v: T| k != key);
        assert(restrict_map(entry_map(s@), |k: u32, v: T| k != key) =~= entry_map(s@).remove(key));
    }
    out
}

fn retries_still_in_force(s: &Vec<(u32, u32)>, tick: u32) -> (r: Vec<(u32, u32)>)
    requires
        distinct_keys(s@),
    ensures
        entry_map(r@) == retries_in_force(entry_map(s@), tick),
        distinct_keys(r@),
{
    let ghost keep = |e: (u32, u32)| tick < e.1;
    let mut out: Vec<(u32, u32)> = Vec::new();
    let mut i: usize = 0;
    while i < s.len()
        invariant
            i <= s.len(),
            keep == (|e: (u32, u32)| tick < e.1),
            out@ == filter_entries(s@.take(i as int), keep),
        decreases s.len() - i,
    {
        assert(s@.take(i + 1).drop_last() =~= s@.take(i as int));
        if tick < s[i].1 {
            out.push(s[i]);
        }
        i = i + 1;
    }
    assert(s@.take(s@.len() as int) =~= s@);
    proof {
        lemma_filtered_map(s@, keep, |k: u32, t: u32| tick < t);
    }
    out
}

fn insert_entry<T: Copy>(s: &Vec<(u32, T)>, key: u32, value: T) -> (r: Vec<(u32, T)>)
    requires
        distinct_keys(s@),
    ensures
        entry_map(r@) == entry_map(s@).insert(key, value),
        distinct_keys(r@),
{
    let r = upsert_entry(s, key, value);
    assert(entry_map(r@) =~= entry_map(s@).insert(key, value));
    r
}

/// Whether some entry of `s` has the value `k`.
fn slot_used(s: &Vec<(u32, usize)>, k: usize) -> (r: bool)
    requires
        distinct_keys(s@),
    ensures
        r == slot_taken(entry_map(s@), k),
{
    let mut i: usize = 0;
    while i < s.len()
        invariant
            i <= s.len(),
            distinct_keys(s@),
            forall|j: int| 0 <= j < i ==> (#[trigger] s@[j]).1 != k,
        decreases s.len() - i,
    {
        if s[i].1 == k {
            proof {
                lemma_entry_value(s@, i as int);
                assert(entry_map(s@).contains_key(s@[i as int].0));
                assert(entry_map(s@)[s@[i as int].0] == k);
            }
            return true;
        }
        i = i + 1;
    }
    proof {
        if slot_taken(entry_map(s@), k) {
            let id = choose|id: u32| entry_map(s@).contains_key(id) && entry_map(s@)[id] == k;
            let j = lemma_entry_index(s@, id);
            lemma_entry_value(s@, j);
            assert(s@[j].1 == k);
        }
    }
    false
}

fn least_free_slot(s: &Vec<(u32, usize)>) -> (r: Option<usize>)
    requires
        distinct_keys(s@),
    ensures
        r == least_free_slot_from(entry_map(s@), 0),
{
    let mut k: usize = 0;
    while k < ESCORT_PARTY_SIZE
        invariant
            k <= ESCORT_PARTY_SIZE,
            distinct_keys(s@),
            least_free_slot_from(entry_map(s@), 0) == least_free_slot_from(entry_map(s@), k),
        decreases ESCORT_PARTY_SIZE - k,
    {
        if !slot_used(s, k) {
            return Some(k);
        }
        k = k + 1;
    }
    None
}

fn count_rifles_below(rifles: &Vec<u32>, party: &Vec<u32>, x: u32) -> (r: usize)
    ensures
        r == rifles_below(rifles@, party@, x),
{
    let mut n: usize = 0;
    let mut i: usize = 0;
    while i < rifles.len()
        invariant
            i <= rifles.len(),
            n == rifles_below(rifles@.take(i as int), party@, x),
            n <= i,
        decreases rifles.len() - i,
    {
        assert(rifles@.take(i + 1).drop_last() =~= rifles@.take(i as int));
        if !contains_id(party, rifles[i]) && rifles[i] < x {
            n = n + 1;
        }
        i = i + 1;
    }
    assert(rifles@.take(rifles@.len() as int) =~= rifles@);
    n
}

// ---------------------------------------------------------------- the party

impl ExpansionSecurity {
    /// Recruits the escort party at `tick` from the complete live `rifles`, `keys[i]` being the
    /// distance key of `rifles[i]` (all equal when the site has no centre): see `recruited_with`.
    pub fn recruit_party(&mut self, tick: u32, rifles: &Vec<u32>, keys: &Vec<u64>)
        requires
            old(self).wf(),
            keys@.len() == rifles@.len(),
        ensures
            final(self).wf(),
            recruited(old(self).view(), tick, rifles@, keys@, final(self).view()),
    {
        let ghost s0 = self.view();
        let retry = retries_still_in_force(&self.retry_after, tick);
        self.retry_after = retry;
        // Members that are still among the rifles.
        let mut party: Vec<u32> = Vec::new();
        let mut i: usize = 0;
        while i < self.riflemen.len()
            invariant
                i <= self.riflemen.len(),
                party@ == keep_ids(self.riflemen@.take(i as int), |id: u32| rifles@.contains(id)),
            decreases self.riflemen.len() - i,
        {
            assert(self.riflemen@.take(i + 1).drop_last() =~= self.riflemen@.take(i as int));
            if contains_id(rifles, self.riflemen[i]) {
                party.push(self.riflemen[i]);
            }
            i = i + 1;
        }
        assert(self.riflemen@.take(self.riflemen@.len() as int) =~= self.riflemen@);
        let ghost party0 = party@;
        let ghost retry0 = entry_map(self.retry_after@);
        assert(party0 == remaining_party(s0.riflemen, rifles@));
        assert(retry0 == retries_in_force(s0.retry_after, tick));
        // The candidates.
        let ghost pick = |x: u32| recruitable(rifles@, party0, retry0, x);
        let mut entries: Vec<((u64, u64, u64, u64), u32)> = Vec::new();
        let mut j: usize = 0;
        while j < rifles.len()
            invariant
                j <= rifles.len(),
                keys@.len() == rifles@.len(),
                party@ == party0,
                entry_map(self.retry_after@) == retry0,
                pick == (|x: u32| recruitable(rifles@, party0, retry0, x)),
                entries@ == keep_keyed(rifle_entries(rifles@, keys@).take(j as int), pick),
            decreases rifles.len() - j,
        {
            let x = rifles[j];
            let e = ((keys[j], x as u64, 0u64, 0u64), x);
            proof {
                assert(rifle_entries(rifles@, keys@).take(j + 1) =~= rifle_entries(rifles@, keys@).take(
                    j as int,
                ).push(e));
                assert(rifles@.contains(x));
            }
            let member = contains_id(&party, x);
            let below = count_rifles_below(rifles, &party, x);
            let waiting = lookup_entry(&self.retry_after, x).is_some();
            proof {
                assert(waiting == retry0.contains_key(x));
                assert(pick(x) == (!member && below >= HOME_RIFLES && !waiting));
                assert(e.1 == x);
            }
            let ghost t = rifle_entries(rifles@, keys@).take(j + 1);
            proof {
                assert(t.drop_last() =~= rifle_entries(rifles@, keys@).take(j as int));
                assert(t.last() == e);
            }
            if !member && below >= HOME_RIFLES && !waiting {
                entries.push(e);
            }
            j = j + 1;
        }
        assert(rifle_entries(rifles@, keys@).take(rifles@.len() as int) =~= rifle_entries(rifles@, keys@));
        assert(entries@ == candidate_entries(s0, tick, rifles@, keys@));
        let sorted = sort_keyed(entries);
        let room: usize = if party.len() >= ESCORT_PARTY_SIZE {
            0
        } else {
            ESCORT_PARTY_SIZE - party.len()
        };
        let n: usize = if sorted.len() <= room {
            sorted.len()
        } else {
            room
        };
        let ghost cands = sorted@.take(n as int).map_values(|e: ((u64, u64, u64, u64), u32)| e.1);
        let mut k: usize = 0;
        while k < n
            invariant
                k <= n <= sorted@.len(),
                party@ == joined_party(party0, cands.take(k as int)),
                cands == sorted@.take(n as int).map_values(|e: ((u64, u64, u64, u64), u32)| e.1),
            decreases n - k,
        {
            let id = sorted[k].1;
            proof {
                assert(cands.take(k + 1).drop_last() =~= cands.take(k as int));
                assert(cands.take(k + 1).last() == id);
            }
            if party.len() < ESCORT_PARTY_SIZE && !contains_id(&party, id) {
                party.push(id);
            }
            k = k + 1;
        }
        assert(cands.take(n as int) =~= cands);
        self.riflemen = party;
        let ghost members = self.riflemen@;
        // Posts and progress of members only.
        let slots = keep_members(&self.slots, &self.riflemen);
        self.slots = slots;
        let progress = keep_members(&self.progress, &self.riflemen);
        self.progress = progress;
        let ghost slots0 = entry_map(self.slots@);
        let ghost progress1 = self.progress@;
        let ghost retry1 = self.retry_after@;
        let ghost rejected1 = self.rejected_sites@;
        // Posts for the members without one.
        let mut m: usize = 0;
        while m < self.riflemen.len()
            invariant
                m <= self.riflemen.len(),
                self.riflemen@ == members,
                self.progress@ == progress1,
                self.retry_after@ == retry1,
                self.rejected_sites@ == rejected1,
                self.site == s0.site,
                self.secure_since == s0.secure_since,
                self.build_attempt_tick == s0.build_attempt_tick,
                self.build_attempt_worker == s0.build_attempt_worker,
                self.retry_builder == s0.retry_builder,
                distinct_keys(self.slots@),
                entry_map(self.slots@) == slots_assigned(slots0, members.take(m as int)),
            decreases self.riflemen.len() - m,
        {
            let id = self.riflemen[m];
            proof {
                assert(members.take(m + 1).drop_last() =~= members.take(m as int));
                assert(members.take(m + 1).last() == id);
            }
            if lookup_entry(&self.slots, id).is_none() {
                match least_free_slot(&self.slots) {
                    Some(free) => {
                        let next = insert_entry(&self.slots, id, free);
                        self.slots = next;
                    },
                    None => {},
                }
            }
            m = m + 1;
        }
        assert(members.take(members.len() as int) =~= members);
        proof {
            let s1 = self.view();
            let expected = recruited_with(s0, tick, rifles@, sorted@);
            assert(s1.riflemen == expected.riflemen);
            assert(s1.slots == expected.slots);
            assert(s1.progress == expected.progress);
            assert(s1.retry_after == expected.retry_after);
            assert(s1 == expected);
        }
    }

    /// The `stalled` escorts leave the party, their posts and progress, and wait out the retry
    /// time before they may be recruited again: see `dropped_stalled`.
    pub fn drop_stalled(&mut self, tick: u32, stalled: &Vec<u32>, tick_hz: u32)
        requires
            old(self).wf(),
        ensures
            final(self).wf(),
            final(self).view() == dropped_stalled(old(self).view(), tick, stalled@, tick_hz),
    {
        let ghost s0 = self.view();
        assert(10 * (tick_hz as u64) <= 10 * 0xffff_ffffu64) by (nonlinear_arith)
            requires
                tick_hz <= 0xffff_ffffu32,
        ;
        let sum = (tick as u64) + 10 * (tick_hz as u64);
        let until: u32 = if sum > u32::MAX as u64 {
            u32::MAX
        } else {
            sum as u32
        };
        assert(until == retry_tick(tick, tick_hz));
        let mut i: usize = 0;
        while i < stalled.len()
            invariant
                i <= stalled.len(),
                self.wf(),
                until == retry_tick(tick, tick_hz),
                self.view() == dropped_stalled(s0, tick, stalled@.take(i as int), tick_hz),
            decreases stalled.len() - i,
        {
            let id = stalled[i];
            proof {
                assert(stalled@.take(i + 1).drop_last() =~= stalled@.take(i as int));
                assert(stalled@.take(i + 1).last() == id);
            }
            let ghost before = self.riflemen@;
            let mut kept: Vec<u32> = Vec::new();
            let mut j: usize = 0;
            while j < self.riflemen.len()
                invariant
                    j <= self.riflemen.len(),
                    self.riflemen@ == before,
                    kept@ == keep_ids(before.take(j as int), |x: u32| x != id),
                decreases self.riflemen.len() - j,
            {
                assert(before.take(j + 1).drop_last() =~= before.take(j as int));
                if self.riflemen[j] != id {
                    kept.push(self.riflemen[j]);
                }
                j = j + 1;
            }
            assert(before.take(before.len() as int) =~= before);
            self.riflemen = kept;
            let slots = without_key(&self.slots, id);
            self.slots = slots;
            let progress = without_key(&self.progress, id);
            self.progress = progress;
            let retry = insert_entry(&self.retry_after, id, until);
            self.retry_after = retry;
            i = i + 1;
        }
        assert(stalled@.take(stalled@.len() as int) =~= stalled@);
    }

    /// An escort reported `distance` thousandths of a tile from its post at `tick`. One that
    /// already covers the site drops its progress record and never stalls; another records its
    /// progress as `escort_progress_spec` says and reports whether it stalled.
    pub fn note_escort(&mut self, id: u32, covering_site: bool, distance: u32, tick: u32, tick_hz: u32) -> (stalled: bool)
        requires
            old(self).wf(),
        ensures
            final(self).wf(),
            covering_site ==> !stalled && final(self).view() == (ExpansionSecurityView {
                progress: old(self).view().progress.remove(id),
                ..old(self).view()
            }),
            !covering_site ==> ({
                let previous = if old(self).view().progress.contains_key(id) {
                    Some(old(self).view().progress[id])
                } else {
                    None
                };
                let (next, stall) = escort_progress_spec(previous, distance, tick, tick_hz);
                stalled == stall && final(self).view() == (ExpansionSecurityView {
                    progress: old(self).view().progress.insert(id, next),
                    ..old(self).view()
                })
            }),
    {
        if covering_site {
            let progress = without_key(&self.progress, id);
            self.progress = progress;
            return false;
        }
        let previous = lookup_entry(&self.progress, id);
        let (next, stall) = escort_progress(previous, distance, tick, tick_hz);
        let progress = insert_entry(&self.progress, id, next);
        self.progress = progress;
        stall
    }

    /// A site that became blocked is given up: everything is reset but the rejected sites.
    pub fn reset_blocked_site(&mut self, blocked: bool)
        requires
            old(self).wf(),
        ensures
            final(self).wf(),
            blocked ==> final(self).view() == reset_view(old(self).view()),
            !blocked ==> final(self).view() == old(self).view(),
            final(self).rejected_sites@ == old(self).rejected_sites@,
    {
        if blocked {
            self.site = None;
            self.riflemen = Vec::new();
            self.secure_since = None;
            self.build_attempt_tick = None;
            self.build_attempt_worker = None;
            self.retry_builder = None;
            self.slots = Vec::new();
            self.progress = Vec::new();
            self.retry_after = Vec::new();
            assert(entry_map(self.slots@) =~= Map::<u32, usize>::empty());
            assert(entry_map(self.progress@) =~= Map::<u32, EscortProgress>::empty());
            assert(entry_map(self.retry_after@) =~= Map::<u32, u32>::empty());
        }
    }

    /// `riflemen` without the party's members (the containment gives them up to the escort).
    pub fn without_party(&self, riflemen: &Vec<u32>) -> (r: Vec<u32>)
        ensures
            r@ == keep_ids(riflemen@, |x: u32| !self.riflemen@.contains(x)),
    {
        let mut out: Vec<u32> = Vec::new();
        let mut i: usize = 0;
        while i < riflemen.len()
            invariant
                i <= riflemen.len(),
                out@ == keep_ids(riflemen@.take(i as int), |x: u32| !self.riflemen@.contains(x)),
            decreases riflemen.len() - i,
        {
            assert(riflemen@.take(i + 1).drop_last() =~= riflemen@.take(i as int));
            if !contains_id(&self.riflemen, riflemen[i]) {
                out.push(riflemen[i]);
            }
            i = i + 1;
        }
        assert(riflemen@.take(riflemen@.len() as int) =~= riflemen@);
        out
    }
}

} // verus!
