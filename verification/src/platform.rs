//! Desktop integration: the idle monitor abstraction and the GNOME monitor's
//! poll cache and reply parsing. Querying the session bus is left to the
//! caller; this module decides when to query and what a reply means.

use vstd::prelude::*;
use std::time::Duration;
use crate::text::{
    all_ascii_digits, chars_of, contains_chars, contains_text, is_ascii_digit,
    is_ascii_digit_char, parse_u64_span, parse_u64_spec,
};

verus! {

broadcast use vstd::string::group_string_axioms;

/// The desktops eastStar knows how to integrate with.
#[derive(Debug, Clone, Copy, PartialEq, Eq, Structural)]
pub enum DesktopTarget {
    GnomeWayland,
}

/// A source of the session's idle time.
pub trait IdleMonitor {
    fn backend_name(&self) -> &'static str;

    fn current_idle_duration(&mut self) -> Option<Duration>;

    fn is_inhibited(&self) -> bool;
}

/// The idle monitor is queried at most once per this many milliseconds.
pub const POLL_INTERVAL_MS: u64 = 750;

/// What the GNOME idle monitor remembers between calls: when it last
/// queried, and what that query returned.
#[derive(Debug, Clone, Copy, PartialEq, Eq, Structural)]
pub struct IdlePollState {
    pub last_poll_at_ms: Option<u64>,
    pub cached_idle_ms: Option<u64>,
}

/// Whether a query is due at `now_ms`: on the first call, and once at least
/// the poll interval has passed since the last query (a clock reading
/// earlier than the last query counts as no time passed).
pub open spec fn poll_due(state: IdlePollState, now_ms: u64) -> bool {
    match state.last_poll_at_ms {
        None => true,
        Some(last) => now_ms >= last && now_ms - last >= POLL_INTERVAL_MS,
    }
}

/// The idle monitor backed by GNOME Mutter's `IdleMonitor` bus interface.
/// Times are milliseconds on a monotonic clock of the caller's choosing.
pub struct GnomeIdleMonitor {
    last_poll_at_ms: Option<u64>,
    cached_idle_ms: Option<u64>,
}

impl View for GnomeIdleMonitor {
    type V = IdlePollState;

    closed spec fn view(&self) -> IdlePollState {
        IdlePollState { last_poll_at_ms: self.last_poll_at_ms, cached_idle_ms: self.cached_idle_ms }
    }
}

/// `s` without its trailing run of characters that are not ASCII digits.
pub open spec fn drop_trailing_non_digits(s: Seq<char>) -> Seq<char>
    decreases s.len(),
{
    if s.len() > 0 && !is_ascii_digit(s.last()) {
        drop_trailing_non_digits(s.drop_last())
    } else {
        s
    }
}

/// The run of ASCII digits that `s` ends with.
pub open spec fn trailing_digits(s: Seq<char>) -> Seq<char>
    decreases s.len(),
{
    if s.len() > 0 && is_ascii_digit(s.last()) {
        trailing_digits(s.drop_last()).push(s.last())
    } else {
        Seq::empty()
    }
}

/// The idle time in a `GetIdletime` reply: the last run of ASCII digits in
/// it, read as a `u64` (none when there is no such run or it overflows).
pub open spec fn idle_millis_spec(reply: Seq<char>) -> Option<u64> {
    let t = drop_trailing_non_digits(reply);
    if t.len() == 0 {
        None
    } else {
        parse_u64_spec(trailing_digits(t))
    }
}

impl GnomeIdleMonitor {
    pub fn new() -> (monitor: GnomeIdleMonitor)
        ensures
            monitor@ == (IdlePollState { last_poll_at_ms: None, cached_idle_ms: None }),
    {
        GnomeIdleMonitor { last_poll_at_ms: None, cached_idle_ms: None }
    }

    pub fn backend_name(&self) -> (name: &'static str)
        ensures
            name@ == "gnome-mutter-idle-monitor"@,
    {
        "gnome-mutter-idle-monitor"
    }

    /// Whether the bus should be queried at `now_ms`.
    pub fn needs_poll(&self, now_ms: u64) -> (due: bool)
        ensures
            due == poll_due(self@, now_ms),
    {
        match self.last_poll_at_ms {
            None => true,
            Some(last) => now_ms >= last && now_ms - last >= POLL_INTERVAL_MS,
        }
    }

    /// Remembers a query made at `now_ms` and its result.
    pub fn record_poll(&mut self, now_ms: u64, idle_ms: Option<u64>)
        ensures
            final(self)@ == (IdlePollState { last_poll_at_ms: Some(now_ms), cached_idle_ms: idle_ms }),
    {
        self.last_poll_at_ms = Some(now_ms);
        self.cached_idle_ms = idle_ms;
    }

    /// The idle time from the last query.
    pub fn cached_idle_millis(&self) -> (idle_ms: Option<u64>)
        ensures
            idle_ms == self@.cached_idle_ms,
    {
        self.cached_idle_ms
    }

    /// Reads the idle time in milliseconds out of the text of a
    /// `GetIdletime` reply, such as `(uint64 5123,)`.
    pub fn idle_millis_from_reply(reply: &str) -> (idle_ms: Option<u64>)
        ensures
            idle_ms == idle_millis_spec(reply@),
    {
        let chars = chars_of(reply);
        let s = chars.as_slice();
        let mut end = s.len();
        assert(s@.take(s@.len() as int) == s@);
        while end > 0 && !is_ascii_digit_char(s[end - 1])
            invariant
                s@ == reply@,
                0 <= end <= s@.len(),
                drop_trailing_non_digits(reply@) == drop_trailing_non_digits(s@.take(end as int)),
            decreases end,
        {
            assert(s@.take(end as int).drop_last() == s@.take(end - 1));
            end -= 1;
        }
        assert(s@.take(s@.len() as int) == s@);
        assert(drop_trailing_non_digits(s@.take(end as int)) == s@.take(end as int));
        if end == 0 {
            return None;
        }
        let mut start = end;
        while start > 0 && is_ascii_digit_char(s[start - 1])
            invariant
                s@ == reply@,
                0 <= start <= end <= s@.len(),
                trailing_digits(s@.take(end as int)) == trailing_digits(s@.take(start as int))
                    + s@.subrange(start as int, end as int),
            decreases start,
        {
            assert(s@.take(start as int).drop_last() == s@.take(start - 1));
            assert(s@.subrange(start - 1, end as int) == seq![s@[start - 1]] + s@.subrange(
                start as int,
                end as int,
            ));
            assert(trailing_digits(s@.take(start as int)) == trailing_digits(
                s@.take(start - 1),
            ).push(s@[start - 1]));
            assert(trailing_digits(s@.take(start - 1)).push(s@[start - 1]) + s@.subrange(
                start as int,
                end as int,
            ) =~= trailing_digits(s@.take(start - 1)) + s@.subrange(start - 1, end as int));
            start -= 1;
        }
        assert(trailing_digits(s@.take(start as int)) == Seq::<char>::empty());
        assert(trailing_digits(s@.take(end as int)) =~= s@.subrange(start as int, end as int));
        parse_u64_span(s, start, end)
    }

    /// Whether an `IsInhibited` reply says that idling is inhibited: the
    /// reply mentions `true`.
    pub fn inhibited_from_reply(reply: &str) -> (inhibited: bool)
        ensures
            inhibited == contains_text(reply@, "true"@),
    {
        let chars = chars_of(reply);
        contains_chars(chars.as_slice(), "true")
    }
}

/// Whether `loginctl show-session self -p LockedHint` says the session is locked.
pub fn logind_reply_locked(reply: &str) -> (locked: bool)
    ensures
        locked == contains_text(reply@, "LockedHint=yes"@),
{
    let chars = chars_of(reply);
    contains_chars(chars.as_slice(), "LockedHint=yes")
}

/// Whether a GNOME `ScreenSaver.GetActive` reply says the screen saver is active.
pub fn screensaver_reply_active(reply: &str) -> (active: bool)
    ensures
        active == contains_text(reply@, "true"@),
{
    let chars = chars_of(reply);
    contains_chars(chars.as_slice(), "true")
}

/// After a query at `t`, no further query is due until the poll interval
/// has passed, and one is due as soon as it has.
pub proof fn lemma_poll_interval(state: IdlePollState, t: u64, later: u64)
    requires
        state.last_poll_at_ms == Some(t),
        t <= later,
    ensures
        poll_due(state, later) <==> later - t >= POLL_INTERVAL_MS,
{
}

} // verus!
