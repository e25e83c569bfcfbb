//! Bookkeeping of the native cursor capture: whether it runs, the event counters the page sees
//! in its diagnostics, and the last reason and error. Cursor positions and the system calls
//! stay with the shell.
use crate::fullscreen::opt_view;
use vstd::prelude::*;
use vstd::string::StringExecFns;

verus! {

/// The capture's state apart from the cursor position and its bounds.
#[derive(Debug)]
pub struct CaptureBookkeeping {
    pub active: bool,
    pub cursor_hidden: bool,
    pub cursor_disconnected: bool,
    pub native_events_received: u64,
    pub js_events_dispatched: u64,
    pub dropped_events: u64,
    pub last_reason: String,
    pub last_error: Option<String>,
}

/// `n + 1`, saturated at `u64::MAX`.
pub open spec fn bumped(n: u64) -> u64 {
    if n == u64::MAX {
        n
    } else {
        (n + 1) as u64
    }
}

impl CaptureBookkeeping {
    /// A capture that never ran: every counter zero, reason `ready`.
    pub fn ready() -> (r: Self)
        ensures
            !r.active,
            !r.cursor_hidden,
            !r.cursor_disconnected,
            r.native_events_received == 0,
            r.js_events_dispatched == 0,
            r.dropped_events == 0,
            r.last_reason@ == "ready"@,
            r.last_error is None,
    {
        CaptureBookkeeping {
            active: false,
            cursor_hidden: false,
            cursor_disconnected: false,
            native_events_received: 0,
            js_events_dispatched: 0,
            dropped_events: 0,
            last_reason: String::from_str("ready"),
            last_error: None,
        }
    }

    /// The system capture started, hiding and disconnecting the cursor as reported.
    pub fn note_capture_started(&mut self, cursor_hidden: bool, cursor_disconnected: bool)
        ensures
            final(self).active,
            final(self).cursor_hidden == cursor_hidden,
            final(self).cursor_disconnected == cursor_disconnected,
            final(self).last_reason@ == "capture-start"@,
            final(self).last_error is None,
            final(self).native_events_received == old(self).native_events_received,
            final(self).js_events_dispatched == old(self).js_events_dispatched,
            final(self).dropped_events == old(self).dropped_events,
    {
        self.cursor_hidden = cursor_hidden;
        self.cursor_disconnected = cursor_disconnected;
        self.active = true;
        self.last_reason = String::from_str("capture-start");
        self.last_error = None;
    }

    /// The system capture could not start: `err` is recorded, nothing else changes.
    pub fn note_capture_failed(&mut self, err: &str)
        ensures
            final(self).last_reason@ == "capture-start-failed"@,
            opt_view(final(self).last_error) == Some(err@),
            final(self).active == old(self).active,
            final(self).cursor_hidden == old(self).cursor_hidden,
            final(self).cursor_disconnected == old(self).cursor_disconnected,
            final(self).native_events_received == old(self).native_events_received,
            final(self).js_events_dispatched == old(self).js_events_dispatched,
            final(self).dropped_events == old(self).dropped_events,
    {
        self.last_reason = String::from_str("capture-start-failed");
        self.last_error = Some(String::from_str(err));
    }

    /// Stops the capture for `reason`. A running capture counts one more native event, the
    /// capture event the page is told of, whose sequence number is returned; a stopped one
    /// returns `None` and only records the reason.
    pub fn stop(&mut self, reason: &str) -> (sequence: Option<u64>)
        ensures
            !final(self).active,
            !final(self).cursor_hidden,
            !final(self).cursor_disconnected,
            final(self).last_reason@ == reason@,
            final(self).last_error is None,
            final(self).native_events_received == if old(self).active {
                bumped(old(self).native_events_received)
            } else {
                old(self).native_events_received
            },
            sequence == if old(self).active {
                Some(final(self).native_events_received)
            } else {
                None
            },
            final(self).js_events_dispatched == old(self).js_events_dispatched,
            final(self).dropped_events == old(self).dropped_events,
    {
        let was_active = self.active;
        self.active = false;
        self.cursor_hidden = false;
        self.cursor_disconnected = false;
        self.last_reason = String::from_str(reason);
        self.last_error = None;
        if was_active {
            self.native_events_received = self.native_events_received.saturating_add(1);
            Some(self.native_events_received)
        } else {
            None
        }
    }

    /// A native mouse event arrived. While capturing it is counted and its sequence number
    /// returned; otherwise it is ignored.
    pub fn note_native_event(&mut self) -> (sequence: Option<u64>)
        ensures
            !old(self).active ==> sequence is None && final(self).native_events_received
                == old(self).native_events_received && final(self).last_reason@
                == old(self).last_reason@ && opt_view(final(self).last_error) == opt_view(
                old(self).last_error,
            ),
            old(self).active ==> sequence == Some(final(self).native_events_received)
                && final(self).native_events_received == bumped(old(self).native_events_received)
                && final(self).last_reason@ == "native-event"@ && final(self).last_error is None,
            final(self).active == old(self).active,
            final(self).cursor_hidden == old(self).cursor_hidden,
            final(self).cursor_disconnected == old(self).cursor_disconnected,
            final(self).js_events_dispatched == old(self).js_events_dispatched,
            final(self).dropped_events == old(self).dropped_events,
    {
        if !self.active {
            return None;
        }
        self.native_events_received = self.native_events_received.saturating_add(1);
        self.last_reason = String::from_str("native-event");
        self.last_error = None;
        Some(self.native_events_received)
    }

    /// An event reached the page.
    pub fn note_dispatched(&mut self)
        ensures
            final(self).js_events_dispatched == bumped(old(self).js_events_dispatched),
            final(self).active == old(self).active,
            final(self).cursor_hidden == old(self).cursor_hidden,
            final(self).cursor_disconnected == old(self).cursor_disconnected,
            final(self).native_events_received == old(self).native_events_received,
            final(self).dropped_events == old(self).dropped_events,
            final(self).last_reason@ == old(self).last_reason@,
            opt_view(final(self).last_error) == opt_view(old(self).last_error),
    {
        self.js_events_dispatched = self.js_events_dispatched.saturating_add(1);
    }

    /// An event could not reach the page, for `err`: it is counted as dropped.
    pub fn note_dispatch_failed(&mut self, err: &str)
        ensures
            final(self).dropped_events == bumped(old(self).dropped_events),
            opt_view(final(self).last_error) == Some(err@),
            final(self).active == old(self).active,
            final(self).cursor_hidden == old(self).cursor_hidden,
            final(self).cursor_disconnected == old(self).cursor_disconnected,
            final(self).native_events_received == old(self).native_events_received,
            final(self).js_events_dispatched == old(self).js_events_dispatched,
            final(self).last_reason@ == old(self).last_reason@,
    {
        self.dropped_events = self.dropped_events.saturating_add(1);
        self.last_error = Some(String::from_str(err));
    }
}

} // verus!
