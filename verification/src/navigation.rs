//! Tracking of the one page load the shell is waiting for, so a load timeout fires only for
//! the navigation that started it.
use vstd::prelude::*;

verus! {

/// A page load that has started and not yet finished.
pub struct PendingNavigation {
    pub sequence: u64,
    pub url: String,
    pub profile_id: Option<&'static str>,
}

impl PendingNavigation {
    pub open spec fn view(&self) -> (u64, Seq<char>, Option<Seq<char>>) {
        (
            self.sequence,
            self.url@,
            match self.profile_id {
                Some(p) => Some(p@),
                None => None,
            },
        )
    }
}

/// The state behind the shell's navigation monitor: a load counter and the load in flight.
pub struct NavigationMonitorState {
    pub sequence: u64,
    pub pending: Option<PendingNavigation>,
}

pub open spec fn pending_view(p: Option<PendingNavigation>) -> Option<(u64, Seq<char>, Option<Seq<char>>)> {
    match p {
        Some(n) => Some(n.view()),
        None => None,
    }
}

/// The counter after one more load has started; it stops at `u64::MAX`.
pub open spec fn next_sequence(sequence: u64) -> u64 {
    if sequence == u64::MAX {
        u64::MAX
    } else {
        (sequence + 1) as u64
    }
}

pub type PendingView = (u64, Seq<char>, Option<Seq<char>>);

pub type MonitorView = (u64, Option<PendingView>);

/// The state after a load of `url` starts, and the pending record handed back.
pub open spec fn start_spec(st: MonitorView, url: Seq<char>, profile_id: Option<Seq<char>>) -> (
    MonitorView,
    PendingView,
) {
    let n = next_sequence(st.0);
    ((n, Some((n, url, profile_id))), (n, url, profile_id))
}

/// The state after the timeout of load `sequence` fires, and the record it clears.
pub open spec fn clear_sequence_spec(st: MonitorView, sequence: u64) -> (
    MonitorView,
    Option<PendingView>,
) {
    match st.1 {
        Some(p) => if p.0 == sequence {
            ((st.0, None), Some(p))
        } else {
            (st, None)
        },
        None => (st, None),
    }
}

impl NavigationMonitorState {
    pub open spec fn view(&self) -> MonitorView {
        (self.sequence, pending_view(self.pending))
    }

    pub fn new() -> (r: Self)
        ensures
            r.view() == (0u64, None::<PendingView>),
    {
        NavigationMonitorState { sequence: 0, pending: None }
    }

    /// Records a started load under the next sequence number and returns it.
    pub fn start(&mut self, url: String, profile_id: Option<&'static str>) -> (r: PendingNavigation)
        ensures
            (final(self).view(), r.view()) == start_spec(
                old(self).view(),
                url@,
                match profile_id {
                    Some(p) => Some(p@),
                    None => None,
                },
            ),
    {
        self.sequence = self.sequence.saturating_add(1);
        let stored = PendingNavigation { sequence: self.sequence, url: url.clone(), profile_id };
        self.pending = Some(stored);
        PendingNavigation { sequence: self.sequence, url, profile_id }
    }

    /// Forgets the load in flight and returns it.
    pub fn clear(&mut self) -> (r: Option<PendingNavigation>)
        ensures
            final(self).view() == (old(self).sequence, None::<PendingView>),
            pending_view(r) == pending_view(old(self).pending),
    {
        self.pending.take()
    }

    /// Forgets the load in flight only if it is the one numbered `sequence`.
    pub fn clear_sequence(&mut self, sequence: u64) -> (r: Option<PendingNavigation>)
        ensures
            (final(self).view(), pending_view(r)) == clear_sequence_spec(old(self).view(), sequence),
    {
        let matches = match &self.pending {
            Some(p) => p.sequence == sequence,
            None => false,
        };
        if matches {
            self.pending.take()
        } else {
            None
        }
    }
}

/// The timeout of the load that started last clears exactly that load.
pub proof fn law_timeout_clears_its_own_load(
    st: MonitorView,
    url: Seq<char>,
    profile_id: Option<Seq<char>>,
)
    ensures
        ({
            let (st1, p) = start_spec(st, url, profile_id);
            clear_sequence_spec(st1, p.0) == ((st1.0, None::<PendingView>), Some(p))
        }),
{
}

/// Once a newer load has started, the timeout of an older one changes nothing (while the
/// counter is below its cap, so that the two loads get different numbers).
pub proof fn law_stale_timeout_is_ignored(
    st: MonitorView,
    url1: Seq<char>,
    profile1: Option<Seq<char>>,
    url2: Seq<char>,
    profile2: Option<Seq<char>>,
)
    requires
        st.0 < u64::MAX - 1,
    ensures
        ({
            let (st1, p1) = start_spec(st, url1, profile1);
            let (st2, p2) = start_spec(st1, url2, profile2);
            clear_sequence_spec(st2, p1.0) == (st2, None::<PendingView>)
        }),
{
}

} // verus!
