//! Exclusive fullscreen on Windows: the session's state machine and the window geometry rules.
//! The display and window calls are made by the shell; this module decides what they mean.
use crate::shell::{decimal_spec, push_decimal};
use vstd::prelude::*;
use vstd::string::StringExecFns;

verus! {

/// What the page sees of the exclusive fullscreen session.
pub struct ExclusiveFullscreenSnapshot {
    pub supported: bool,
    pub requested: bool,
    pub active: bool,
    pub mode: &'static str,
    pub last_reason: String,
    pub last_error: Option<String>,
}

pub open spec fn opt_view(o: Option<String>) -> Option<Seq<char>> {
    match o {
        Some(s) => Some(s@),
        None => None,
    }
}

/// The session: whether the player asked for exclusive fullscreen, whether it is on, whether a
/// window restoration is held, and the last transition's reason and error.
pub struct FullscreenSession {
    pub requested: bool,
    pub active: bool,
    pub restoration_pending: bool,
    pub last_reason: String,
    pub last_error: Option<String>,
}

/// A session as `(requested, active, restoration held, last reason, last error)`.
pub type SessionView = (bool, bool, bool, Seq<char>, Option<Seq<char>>);

/// The steps a session takes. Each `note_*` method below is one of them.
pub enum SessionStep {
    /// The player turned exclusive fullscreen on or off.
    Preference(bool),
    /// The shell is closing: the request is withdrawn.
    Shutdown,
    /// A window restoration was captured before the display mode changes.
    RestorationCaptured,
    /// The held restoration was given up.
    RestorationDropped,
    /// Entering succeeded, for the given reason.
    Entered,
    /// A transition failed with the given message.
    Failed,
    /// Leaving was asked for the given reason; with nothing on and nothing held, only the
    /// reason is recorded.
    ExitChecked,
    /// Restoring the display or the window failed with the given message.
    RestoreFailed,
    /// Leaving succeeded, for the given reason.
    Exited,
}

/// What the session becomes after `step`, where `text` is the step's reason or message.
pub open spec fn session_after(s: SessionView, step: SessionStep, text: Seq<char>) -> SessionView {
    match step {
        SessionStep::Preference(enabled) => (
            enabled,
            s.1,
            s.2,
            if enabled {
                "preference-enabled"@
            } else {
                "preference-disabled"@
            },
            s.4,
        ),
        SessionStep::Shutdown => (false, s.1, s.2, s.3, s.4),
        SessionStep::RestorationCaptured => (s.0, s.1, true, s.3, s.4),
        SessionStep::RestorationDropped => (s.0, s.1, false, s.3, s.4),
        SessionStep::Entered => (s.0, true, s.2, text, None),
        SessionStep::Failed => (s.0, false, s.2, "exclusive-fullscreen-failed"@, Some(text)),
        SessionStep::ExitChecked => if !s.1 && !s.2 {
            (s.0, s.1, s.2, text, s.4)
        } else {
            s
        },
        SessionStep::RestoreFailed => (
            s.0,
            s.1,
            s.2,
            "exclusive-fullscreen-restore-failed"@,
            Some(text),
        ),
        SessionStep::Exited => (s.0, false, false, text, None),
    }
}

/// The session after `steps`, taken in order, each with its reason or message.
pub open spec fn session_run(s: SessionView, steps: Seq<(SessionStep, Seq<char>)>) -> SessionView
    decreases steps.len(),
{
    if steps.len() == 0 {
        s
    } else {
        let last = steps.last();
        session_after(session_run(s, steps.drop_last()), last.0, last.1)
    }
}

/// The steps that entering and leaving take, as opposed to the player's preference and the
/// shell's shutdown.
pub open spec fn is_transition_step(step: SessionStep) -> bool {
    !(step is Preference) && !(step is Shutdown)
}

/// Only the player's preference and the shell's shutdown change what was requested: any run of
/// entering and leaving steps, successful or failed, keeps it.
pub proof fn law_transitions_keep_the_request(s: SessionView, steps: Seq<(SessionStep, Seq<char>)>)
    requires
        forall|i: int| 0 <= i < steps.len() ==> is_transition_step(#[trigger] steps[i].0),
    ensures
        session_run(s, steps).0 == s.0,
    decreases steps.len(),
{
    if steps.len() > 0 {
        law_transitions_keep_the_request(s, steps.drop_last());
        assert(is_transition_step(steps[steps.len() - 1].0));
    }
}

/// Turning exclusive fullscreen on or off stores the preference before entering or leaving
/// runs, and whatever that attempt does, success or any failure, the session still holds the
/// preference afterwards.
pub proof fn law_preference_survives_the_attempt(
    s: SessionView,
    enabled: bool,
    attempt: Seq<(SessionStep, Seq<char>)>,
)
    requires
        forall|i: int| 0 <= i < attempt.len() ==> is_transition_step(#[trigger] attempt[i].0),
    ensures
        session_run(session_after(s, SessionStep::Preference(enabled), Seq::empty()), attempt).0
            == enabled,
{
    law_transitions_keep_the_request(
        session_after(s, SessionStep::Preference(enabled), Seq::empty()),
        attempt,
    );
}

/// What entering does next.
#[derive(Clone, Copy, PartialEq, Eq, Structural, Debug)]
pub enum EnterStep {
    /// Already on: report the session as it is.
    AlreadyActive,
    /// A restoration from an earlier attempt is still held: fail.
    RestorationPending,
    /// Switch the display mode and reconfigure the window.
    Proceed,
}

/// What leaving does next.
#[derive(Clone, Copy, PartialEq, Eq, Structural, Debug)]
pub enum ExitStep {
    /// Nothing is on and nothing is held: only the reason was recorded.
    NothingToRestore,
    /// Restore the display mode and the window.
    Restore,
}

/// An active session reports itself; one that still holds a restoration fails; only a
/// clean session switches.
pub open spec fn enter_step_spec(active: bool, restoration_pending: bool) -> EnterStep {
    if active {
        EnterStep::AlreadyActive
    } else if restoration_pending {
        EnterStep::RestorationPending
    } else {
        EnterStep::Proceed
    }
}

/// Why entering is refused while a restoration from an earlier attempt is still held.
pub fn restoration_pending_message() -> (r: &'static str)
    ensures
        r@ == "exclusive fullscreen cannot re-enter while restoration is pending"@,
{
    "exclusive fullscreen cannot re-enter while restoration is pending"
}

/// `code` in decimal, with a minus sign when it is negative.
pub open spec fn signed_decimal(code: i32) -> Seq<char> {
    if code < 0 {
        seq!['-'] + decimal_spec((0 - code) as nat)
    } else {
        decimal_spec(code as nat)
    }
}

/// Why entering failed when the display refused the fullscreen mode with `code`.
pub fn display_change_failure_message(code: i32) -> (r: String)
    ensures
        r@ == "ChangeDisplaySettingsExW(CDS_FULLSCREEN) failed with code "@ + signed_decimal(code),
{
    proof {
        reveal_strlit("-");
    }
    let mut r = String::from_str("ChangeDisplaySettingsExW(CDS_FULLSCREEN) failed with code ");
    if code < 0 {
        r.append("-");
        let magnitude = (0i64 - (code as i64)) as u32;
        push_decimal(&mut r, magnitude);
    } else {
        push_decimal(&mut r, code as u32);
    }
    r
}

pub open spec fn opt_str_view(o: Option<&str>) -> Option<Seq<char>> {
    match o {
        Some(s) => Some(s@),
        None => None,
    }
}

/// The errors that were reported, display first, joined with `; `.
pub open spec fn joined_errors(display: Option<Seq<char>>, window: Option<Seq<char>>) -> Seq<char> {
    match (display, window) {
        (Some(d), Some(w)) => d + "; "@ + w,
        (Some(d), None) => d,
        (None, Some(w)) => w,
        (None, None) => Seq::empty(),
    }
}

/// The message of an entry that failed after the display mode changed: `err` alone when both
/// rollbacks succeeded, else `err` followed by the rollback errors.
pub open spec fn rollback_failure_message(
    err: Seq<char>,
    display: Option<Seq<char>>,
    window: Option<Seq<char>>,
) -> Seq<char> {
    if display is None && window is None {
        err
    } else {
        err + "; rollback failed: "@ + joined_errors(display, window)
    }
}

fn join_errors(display: Option<&str>, window: Option<&str>) -> (r: String)
    ensures
        r@ == joined_errors(opt_str_view(display), opt_str_view(window)),
{
    proof {
        reveal_strlit("; ");
    }
    match (display, window) {
        (Some(d), Some(w)) => {
            let mut r = String::from_str(d);
            r.append("; ");
            r.append(w);
            r
        },
        (Some(d), None) => String::from_str(d),
        (None, Some(w)) => String::from_str(w),
        (None, None) => String::new(),
    }
}

/// The message of a failed restore, from the display and window results (`None` when the
/// restore succeeded): `None` when both succeeded, else their errors joined with `; `.
pub fn restore_failure_message(display: Option<&str>, window: Option<&str>) -> (r: Option<String>)
    ensures
        match r {
            None => display is None && window is None,
            Some(m) => !(display is None && window is None) && m@ == joined_errors(
                opt_str_view(display),
                opt_str_view(window),
            ),
        },
{
    if display.is_none() && window.is_none() {
        None
    } else {
        Some(join_errors(display, window))
    }
}

impl FullscreenSession {
    pub open spec fn view(&self) -> SessionView {
        (self.requested, self.active, self.restoration_pending, self.last_reason@, opt_view(self.last_error))
    }

    /// The session of a shell with diagnostics: nothing requested, reason `ready`.
    pub fn ready() -> (r: Self)
        ensures
            r.view() == (false, false, false, "ready"@, None::<Seq<char>>),
    {
        FullscreenSession {
            requested: false,
            active: false,
            restoration_pending: false,
            last_reason: String::from_str("ready"),
            last_error: None,
        }
    }

    /// The default session: nothing requested, no reason yet.
    pub fn new() -> (r: Self)
        ensures
            r.view() == (false, false, false, Seq::<char>::empty(), None::<Seq<char>>),
    {
        FullscreenSession {
            requested: false,
            active: false,
            restoration_pending: false,
            last_reason: String::new(),
            last_error: None,
        }
    }

    /// The snapshot the page receives.
    pub fn snapshot(&self) -> (r: ExclusiveFullscreenSnapshot)
        ensures
            r.supported,
            r.requested == self.requested,
            r.active == self.active,
            r.mode@ == "windows-display-mode"@,
            r.last_reason@ == self.last_reason@,
            opt_view(r.last_error) == opt_view(self.last_error),
    {
        ExclusiveFullscreenSnapshot {
            supported: true,
            requested: self.requested,
            active: self.active,
            mode: "windows-display-mode",
            last_reason: self.last_reason.clone(),
            last_error: match &self.last_error {
                Some(e) => Some(e.clone()),
                None => None,
            },
        }
    }

    /// Records the player's preference before entering or leaving.
    pub fn note_preference(&mut self, enabled: bool)
        ensures
            final(self).view() == session_after(
                old(self).view(),
                SessionStep::Preference(enabled),
                Seq::empty(),
            ),
    {
        self.requested = enabled;
        self.last_reason = if enabled {
            String::from_str("preference-enabled")
        } else {
            String::from_str("preference-disabled")
        };
    }

    /// Whether regaining focus re-enters: only when the player asked for it.
    pub fn resume_enters(&self) -> (r: bool)
        ensures
            r == self.requested,
    {
        self.requested
    }

    /// Shutting down withdraws the request before leaving.
    pub fn note_shutdown(&mut self)
        ensures
            final(self).view() == session_after(old(self).view(), SessionStep::Shutdown, Seq::empty()),
    {
        self.requested = false;
    }

    /// What entering does from this session.
    pub fn enter_step(&self) -> (r: EnterStep)
        ensures
            r == enter_step_spec(self.active, self.restoration_pending),
    {
        if self.active {
            EnterStep::AlreadyActive
        } else if self.restoration_pending {
            EnterStep::RestorationPending
        } else {
            EnterStep::Proceed
        }
    }

    /// A restoration was captured and the display mode is about to change.
    pub fn note_restoration_captured(&mut self)
        ensures
            final(self).view() == session_after(
                old(self).view(),
                SessionStep::RestorationCaptured,
                Seq::empty(),
            ),
    {
        self.restoration_pending = true;
    }

    /// The restoration was given up (the display mode never changed).
    pub fn note_restoration_dropped(&mut self)
        ensures
            final(self).view() == session_after(
                old(self).view(),
                SessionStep::RestorationDropped,
                Seq::empty(),
            ),
    {
        self.restoration_pending = false;
    }

    /// Entering succeeded.
    pub fn note_entered(&mut self, reason: &str)
        ensures
            final(self).view() == session_after(old(self).view(), SessionStep::Entered, reason@),
    {
        self.active = true;
        self.last_reason = String::from_str(reason);
        self.last_error = None;
    }

    /// A transition failed with `message`.
    pub fn note_failed(&mut self, message: &str)
        ensures
            final(self).view() == session_after(old(self).view(), SessionStep::Failed, message@),
    {
        self.active = false;
        self.last_reason = String::from_str("exclusive-fullscreen-failed");
        self.last_error = Some(String::from_str(message));
    }

    /// Entering failed with `err` after the display mode changed, and the display and the
    /// window were rolled back, each reporting `None` on success or its error. The held
    /// restoration is given up only when both rollbacks succeeded; the failure's message,
    /// which is returned, carries the rollback errors after `err`.
    pub fn note_enter_rolled_back(
        &mut self,
        err: &str,
        display_rollback: Option<&str>,
        window_rollback: Option<&str>,
    ) -> (message: String)
        ensures
            message@ == rollback_failure_message(
                err@,
                opt_str_view(display_rollback),
                opt_str_view(window_rollback),
            ),
            final(self).view() == session_after(
                if display_rollback is None && window_rollback is None {
                    session_after(old(self).view(), SessionStep::RestorationDropped, Seq::empty())
                } else {
                    old(self).view()
                },
                SessionStep::Failed,
                message@,
            ),
    {
        proof {
            reveal_strlit("; rollback failed: ");
        }
        let message = if display_rollback.is_none() && window_rollback.is_none() {
            self.note_restoration_dropped();
            String::from_str(err)
        } else {
            let mut m = String::from_str(err);
            m.append("; rollback failed: ");
            let joined = join_errors(display_rollback, window_rollback);
            m.append(joined.as_str());
            m
        };
        self.note_failed(message.as_str());
        message
    }

    /// What leaving does; with nothing on and nothing held it only records the reason.
    pub fn exit_step(&mut self, reason: &str) -> (r: ExitStep)
        ensures
            r == if !old(self).active && !old(self).restoration_pending {
                ExitStep::NothingToRestore
            } else {
                ExitStep::Restore
            },
            final(self).view() == session_after(old(self).view(), SessionStep::ExitChecked, reason@),
    {
        if !self.active && !self.restoration_pending {
            self.last_reason = String::from_str(reason);
            ExitStep::NothingToRestore
        } else {
            ExitStep::Restore
        }
    }

    /// Restoring the display or the window failed with `message`.
    pub fn note_restore_failed(&mut self, message: &str)
        ensures
            final(self).view() == session_after(old(self).view(), SessionStep::RestoreFailed, message@),
    {
        self.last_reason = String::from_str("exclusive-fullscreen-restore-failed");
        self.last_error = Some(String::from_str(message));
    }

    /// Leaving succeeded: the display and the window are back.
    pub fn note_exited(&mut self, reason: &str)
        ensures
            final(self).view() == session_after(old(self).view(), SessionStep::Exited, reason@),
    {
        self.active = false;
        self.last_reason = String::from_str(reason);
        self.last_error = None;
        self.restoration_pending = false;
    }
}

/// A session never enters twice, and never enters while an earlier restoration is held:
/// entering switches the display only from a clean session, an entered session reports
/// itself, and a session that left cleanly may enter again.
pub proof fn law_enter_proceeds_only_from_a_clean_session(
    active: bool,
    restoration_pending: bool,
)
    ensures
        enter_step_spec(active, restoration_pending) == EnterStep::Proceed <==> !active
            && !restoration_pending,
        enter_step_spec(true, restoration_pending) == EnterStep::AlreadyActive,
        enter_step_spec(false, false) == EnterStep::Proceed,
{
}

// ---------------------------------------------------------------- window geometry

/// `WS_OVERLAPPEDWINDOW | WS_MAXIMIZE | WS_MINIMIZE` of the Win32 API.
pub const FRAME_STYLE_BITS: isize = 0x00cf_0000 | 0x0100_0000 | 0x2000_0000;

/// The window style for exclusive fullscreen: the overlapped frame, maximize and minimize bits
/// cleared, every other bit kept.
pub fn fullscreen_window_style(style: isize) -> (r: isize)
    ensures
        r == style & !FRAME_STYLE_BITS,
{
    style & !FRAME_STYLE_BITS
}

#[derive(Clone, Copy, PartialEq, Eq, Structural)]
pub struct Rect {
    pub left: i32,
    pub top: i32,
    pub right: i32,
    pub bottom: i32,
}

pub open spec fn sat_sub_i32(a: i32, b: i32) -> int {
    let d = a - b;
    if d > i32::MAX {
        i32::MAX as int
    } else if d < i32::MIN {
        i32::MIN as int
    } else {
        d
    }
}

fn sat_sub_i32_exec(a: i32, b: i32) -> (r: i32)
    ensures
        r == sat_sub_i32(a, b),
{
    let d = (a as i64) - (b as i64);
    if d > i32::MAX as i64 {
        i32::MAX
    } else if d < i32::MIN as i64 {
        i32::MIN
    } else {
        d as i32
    }
}

/// Width and height of a rectangle, each at least 1 (differences saturate).
pub fn rect_size(rect: Rect) -> (r: (i32, i32))
    ensures
        r.0 == if sat_sub_i32(rect.right, rect.left) >= 1 {
            sat_sub_i32(rect.right, rect.left)
        } else {
            1
        },
        r.1 == if sat_sub_i32(rect.bottom, rect.top) >= 1 {
            sat_sub_i32(rect.bottom, rect.top)
        } else {
            1
        },
{
    let w = sat_sub_i32_exec(rect.right, rect.left);
    let h = sat_sub_i32_exec(rect.bottom, rect.top);
    (if w >= 1 {
        w
    } else {
        1
    }, if h >= 1 {
        h
    } else {
        1
    })
}

/// The window covers exactly the expected rectangle.
pub fn rect_matches(actual: Rect, expected: Rect) -> (r: bool)
    ensures
        r == (actual == expected),
{
    actual.left == expected.left && actual.top == expected.top && actual.right == expected.right
        && actual.bottom == expected.bottom
}

} // verus!
