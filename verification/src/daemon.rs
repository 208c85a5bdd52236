//! The background daemon's decisions. Once a second the daemon reloads the
//! settings, looks at the session lock state, checks on the saver it
//! launched, and otherwise reads the idle time; this module decides what
//! each of those observations leads to. Observing and acting is left to the
//! caller.

use vstd::prelude::*;
use crate::settings::{join_path, AppSettings};

verus! {

/// A saver process the daemon launched and is watching.
#[derive(Debug, Clone, Copy, PartialEq, Eq, Structural)]
pub struct SaverRun {
    pub lock_requested: bool,
}

/// What the daemon remembers between ticks.
#[derive(Debug, Clone, Copy, PartialEq, Eq, Structural)]
pub struct DaemonState {
    pub settings: AppSettings,
    pub saver: Option<SaverRun>,
    pub was_locked: bool,
}

/// What follows from the session's lock state.
#[derive(Debug, Clone, Copy, PartialEq, Eq, Structural)]
pub enum SessionDecision {
    /// The session was just unlocked: kill the saver and end this tick.
    DismissSaver,
    /// A saver is running: check on it.
    CheckSaver,
    /// No saver is running: read the idle time.
    PollIdle,
}

/// What a check on the running saver found.
#[derive(Debug, Clone, Copy, PartialEq, Eq, Structural)]
pub enum SaverCheck {
    Running { elapsed_secs: u64 },
    Exited,
    Failed,
}

/// What follows from a check on the saver.
#[derive(Debug, Clone, Copy, PartialEq, Eq, Structural)]
pub enum SaverDecision {
    /// The saver is still up: end this tick.
    Wait,
    /// The saver is still up and the lock delay has passed: request a
    /// session lock, then end this tick.
    LockAndWait,
    /// The saver is gone: read the idle time.
    PollIdle,
}

pub open spec fn session_step(state: DaemonState, currently_locked: bool) -> (
    DaemonState,
    SessionDecision,
) {
    match state.saver {
        None => (state, SessionDecision::PollIdle),
        Some(_) => if state.was_locked && !currently_locked {
            (
                DaemonState { saver: None, was_locked: currently_locked, ..state },
                SessionDecision::DismissSaver,
            )
        } else {
            (DaemonState { was_locked: currently_locked, ..state }, SessionDecision::CheckSaver)
        },
    }
}

pub open spec fn lock_due(state: DaemonState, elapsed_secs: u64) -> bool {
    &&& state.saver matches Some(run) && !run.lock_requested
    &&& state.settings.lock_after_seconds > 0
    &&& elapsed_secs >= state.settings.lock_after_seconds
}

pub open spec fn saver_step(state: DaemonState, check: SaverCheck) -> (DaemonState, SaverDecision) {
    match check {
        SaverCheck::Running { elapsed_secs } => if lock_due(state, elapsed_secs) {
            (
                DaemonState { saver: Some(SaverRun { lock_requested: true }), ..state },
                SaverDecision::LockAndWait,
            )
        } else {
            (state, SaverDecision::Wait)
        },
        _ => (DaemonState { saver: None, ..state }, SaverDecision::PollIdle),
    }
}

/// Whether to consider launching the saver: idle for at least the delay and
/// not locked (the lock screen would hide the saver). Whether something
/// inhibits idling is asked only then.
pub open spec fn launch_due(state: DaemonState, idle_secs: u64, currently_locked: bool) -> bool {
    idle_secs >= state.settings.saver_delay_seconds && !currently_locked
}

impl DaemonState {
    pub fn new(settings: AppSettings, currently_locked: bool) -> (state: DaemonState)
        ensures
            state == (DaemonState { settings, saver: None, was_locked: currently_locked }),
    {
        DaemonState { settings, saver: None, was_locked: currently_locked }
    }

    /// Takes the freshly loaded settings; says whether they differ from the
    /// ones in use.
    pub fn reload_settings(&mut self, loaded: AppSettings) -> (changed: bool)
        ensures
            changed == (loaded != old(self).settings),
            *final(self) == (DaemonState { settings: loaded, ..*old(self) }),
    {
        let changed = loaded.saver_delay_seconds != self.settings.saver_delay_seconds
            || loaded.lock_after_seconds != self.settings.lock_after_seconds
            || loaded.visual_effect != self.settings.visual_effect;
        self.settings = loaded;
        changed
    }

    pub fn saver_running(&self) -> (running: bool)
        ensures
            running == self.saver is Some,
    {
        self.saver.is_some()
    }

    /// Takes the session's lock state at the start of a tick.
    pub fn on_session_state(&mut self, currently_locked: bool) -> (decision: SessionDecision)
        ensures
            (*final(self), decision) == session_step(*old(self), currently_locked),
    {
        if self.saver.is_none() {
            return SessionDecision::PollIdle;
        }
        if self.was_locked && !currently_locked {
            self.saver = None;
            self.was_locked = currently_locked;
            return SessionDecision::DismissSaver;
        }
        self.was_locked = currently_locked;
        SessionDecision::CheckSaver
    }

    /// Takes what a check on the running saver found.
    pub fn on_saver_check(&mut self, check: SaverCheck) -> (decision: SaverDecision)
        requires
            old(self).saver is Some,
        ensures
            (*final(self), decision) == saver_step(*old(self), check),
    {
        match check {
            SaverCheck::Running { elapsed_secs } => {
                let requested = match self.saver {
                    Some(run) => run.lock_requested,
                    None => true,
                };
                if self.settings.lock_after_seconds > 0 && !requested && elapsed_secs
                    >= self.settings.lock_after_seconds {
                    self.saver = Some(SaverRun { lock_requested: true });
                    SaverDecision::LockAndWait
                } else {
                    SaverDecision::Wait
                }
            },
            _ => {
                self.saver = None;
                SaverDecision::PollIdle
            },
        }
    }

    /// Whether the idle time read this tick calls for launching the saver.
    pub fn launch_due(&self, idle_secs: u64, currently_locked: bool) -> (due: bool)
        ensures
            due == launch_due(*self, idle_secs, currently_locked),
    {
        idle_secs >= self.settings.saver_delay_seconds && !currently_locked
    }

    /// Records that the saver was launched.
    pub fn saver_launched(&mut self)
        ensures
            *final(self) == (DaemonState {
                saver: Some(SaverRun { lock_requested: false }),
                ..*old(self)
            }),
    {
        self.saver = Some(SaverRun { lock_requested: false });
    }
}

/// Where the daemon looks for the saver program, in order: beside the
/// daemon's own executable, in `/usr/local/bin` and `/usr/bin`, then at the
/// path `EASTSTAR_SAVER_BIN` names.
pub open spec fn saver_candidates_spec(bin_dir: Seq<char>, explicit: Option<Seq<char>>) -> Seq<
    Seq<char>,
> {
    let fixed = seq![
        join_path(bin_dir, "eaststar-saver"@),
        "/usr/local/bin/eaststar-saver"@,
        "/usr/bin/eaststar-saver"@,
    ];
    match explicit {
        Some(path) => fixed.push(path),
        None => fixed,
    }
}

pub(crate) fn joined(base: &str, component: &str) -> (path: String)
    ensures
        path@ == join_path(base@, component@),
{
    let mut path = String::from_str(base);
    let n = base.unicode_len();
    if n > 0 && base.get_char(n - 1) != '/' {
        path.append("/");
    }
    path.append(component);
    path
}

/// The paths the daemon tries for the saver program, in order.
pub fn saver_candidates(bin_dir: &str, explicit: Option<&str>) -> (paths: Vec<String>)
    ensures
        paths@.map_values(|p: String| p@) == saver_candidates_spec(
            bin_dir@,
            match explicit {
                Some(e) => Some(e@),
                None => None,
            },
        ),
{
    let mut paths: Vec<String> = Vec::new();
    paths.push(joined(bin_dir, "eaststar-saver"));
    paths.push(String::from_str("/usr/local/bin/eaststar-saver"));
    paths.push(String::from_str("/usr/bin/eaststar-saver"));
    if let Some(e) = explicit {
        paths.push(String::from_str(e));
    }
    assert(paths@.map_values(|p: String| p@) =~= saver_candidates_spec(
        bin_dir@,
        match explicit {
            Some(e) => Some(e@),
            None => None,
        },
    ));
    paths
}

/// A lock is requested at most once per saver run.
pub proof fn lemma_lock_requested_once(state: DaemonState, elapsed_secs: u64)
    requires
        state.saver == Some(SaverRun { lock_requested: true }),
    ensures
        saver_step(state, SaverCheck::Running { elapsed_secs }).1 != SaverDecision::LockAndWait,
{
}

/// A lock is requested only when a lock delay is set and has passed since
/// the saver started, and afterwards the run is marked as having requested it.
pub proof fn lemma_lock_only_after_delay(state: DaemonState, check: SaverCheck)
    requires
        state.saver is Some,
        saver_step(state, check).1 == SaverDecision::LockAndWait,
    ensures
        state.settings.lock_after_seconds > 0,
        check matches SaverCheck::Running { elapsed_secs } && elapsed_secs
            >= state.settings.lock_after_seconds,
        saver_step(state, check).0.saver == Some(SaverRun { lock_requested: true }),
{
}

/// The saver is dismissed only when a running saver sees the session go from
/// locked to unlocked, and is then no longer tracked.
pub proof fn lemma_dismiss_only_on_unlock(state: DaemonState, currently_locked: bool)
    requires
        session_step(state, currently_locked).1 == SessionDecision::DismissSaver,
    ensures
        state.saver is Some,
        state.was_locked,
        !currently_locked,
        session_step(state, currently_locked).0.saver is None,
{
}

/// The saver is never launched while the session is locked or before the
/// idle time has reached the delay.
pub proof fn lemma_no_launch_when_locked_or_early(
    state: DaemonState,
    idle_secs: u64,
    currently_locked: bool,
)
    requires
        currently_locked || idle_secs < state.settings.saver_delay_seconds,
    ensures
        !launch_due(state, idle_secs, currently_locked),
{
}

/// With a lock delay of zero, locking is left entirely to the desktop: the
/// daemon never requests a lock.
pub proof fn lemma_zero_lock_delay_never_locks(state: DaemonState, check: SaverCheck)
    requires
        state.settings.lock_after_seconds == 0,
    ensures
        saver_step(state, check).1 != SaverDecision::LockAndWait,
{
}

/// While a saver runs the idle time is not read, so no second saver is
/// launched: the session check leads to dismissing or checking the saver,
/// and a saver that is still up ends the tick.
pub proof fn lemma_no_idle_poll_while_saver_runs(
    state: DaemonState,
    currently_locked: bool,
    elapsed_secs: u64,
)
    requires
        state.saver is Some,
    ensures
        session_step(state, currently_locked).1 != SessionDecision::PollIdle,
        saver_step(state, SaverCheck::Running { elapsed_secs }).1 != SaverDecision::PollIdle,
        saver_step(state, SaverCheck::Running { elapsed_secs }).0.saver is Some,
{
}

/// The remembered lock state changes only while a saver is running.
pub proof fn lemma_lock_state_tracked_with_saver(state: DaemonState, currently_locked: bool)
    requires
        state.saver is None,
    ensures
        session_step(state, currently_locked).0 == state,
{
}

/// Once the lock delay (when one is set) has passed since the saver started,
/// every check on a saver that has not asked for a lock yet asks for one and
/// marks the run; before that, or with no delay set, it only waits.
pub proof fn lemma_lock_requested_when_delay_passed(
    settings: AppSettings,
    was_locked: bool,
    elapsed_secs: u64,
)
    ensures
        ({
            let state = DaemonState {
                settings,
                saver: Some(SaverRun { lock_requested: false }),
                was_locked,
            };
            let (next, decision) = saver_step(state, SaverCheck::Running { elapsed_secs });
            &&& (settings.lock_after_seconds > 0 && elapsed_secs >= settings.lock_after_seconds)
                ==> decision == SaverDecision::LockAndWait && next == DaemonState {
                saver: Some(SaverRun { lock_requested: true }),
                ..state
            }
            &&& !(settings.lock_after_seconds > 0 && elapsed_secs >= settings.lock_after_seconds)
                ==> decision == SaverDecision::Wait && next == state
        }),
{
}

/// A lock that is due at some moment of a run is still due at every later
/// moment, until it has been requested: a tick that misses the exact second
/// does not skip the lock.
pub proof fn lemma_lock_due_stays_due(state: DaemonState, elapsed_secs: u64, later_secs: u64)
    requires
        state.saver == Some(SaverRun { lock_requested: false }),
        saver_step(state, SaverCheck::Running { elapsed_secs }).1 == SaverDecision::LockAndWait,
        elapsed_secs <= later_secs,
    ensures
        saver_step(state, SaverCheck::Running { elapsed_secs: later_secs }).1
            == SaverDecision::LockAndWait,
{
}

/// Whenever the session is unlocked and the idle time has reached the saver
/// delay, a launch is due.
pub proof fn lemma_launch_due_when_idle_reached(state: DaemonState, idle_secs: u64)
    requires
        idle_secs >= state.settings.saver_delay_seconds,
    ensures
        launch_due(state, idle_secs, false),
{
}

/// A launch that is due at some idle time is due at every longer idle time.
pub proof fn lemma_launch_due_stays_due(
    state: DaemonState,
    idle_secs: u64,
    later_secs: u64,
    currently_locked: bool,
)
    requires
        launch_due(state, idle_secs, currently_locked),
        idle_secs <= later_secs,
    ensures
        launch_due(state, later_secs, currently_locked),
{
}

} // verus!
