//! The preferences panel's logic: how durations and the countdown to the
//! next activation are worded, how the delay buttons move the delay, and how
//! the panel tracks a saver it launched (for a preview, or automatically
//! when the idle time reaches the delay).

use vstd::prelude::*;
use crate::daemon::joined;
use crate::settings::{clamp, join_path, MAX_SAVER_DELAY_SECONDS, MIN_SAVER_DELAY_SECONDS};
use crate::text::{decimal, push_decimal};

verus! {

broadcast use vstd::string::group_string_axioms;

/// `{seconds:02}`: at least two digits.
pub open spec fn two_digits(n: nat) -> Seq<char> {
    if n < 10 {
        "0"@ + decimal(n)
    } else {
        decimal(n)
    }
}

/// A duration in words: `M min SS s` from a minute on, `S s` below.
pub open spec fn format_duration_spec(total_seconds: nat) -> Seq<char> {
    let minutes = total_seconds / 60;
    let seconds = total_seconds % 60;
    if minutes > 0 {
        decimal(minutes) + " min "@ + two_digits(seconds) + " s"@
    } else {
        decimal(seconds) + " s"@
    }
}

/// The time left until the saver starts, given the idle time (if known).
pub open spec fn countdown_spec(idle_seconds: Option<u64>, delay_seconds: u64) -> Seq<char> {
    match idle_seconds {
        Some(idle) => if idle >= delay_seconds {
            "Launching now"@
        } else {
            "In "@ + format_duration_spec((delay_seconds - idle) as nat)
        },
        None => "Waiting for GNOME idle monitor"@,
    }
}

/// The idle reading as shown on the panel.
pub open spec fn idle_label_spec(idle_seconds: Option<u64>) -> Seq<char> {
    match idle_seconds {
        Some(seconds) => format_duration_spec(seconds as nat),
        None => "Unavailable"@,
    }
}

/// The saver delay after pressing a button that moves it by `delta_seconds`:
/// the move saturates at the ends of `u64`, then the result is clamped to
/// the allowed range.
pub open spec fn adjusted_delay_spec(current: u64, delta_seconds: i64) -> u64 {
    let moved = current + delta_seconds;
    let saturated: int = if moved < 0 {
        0
    } else if moved > u64::MAX {
        u64::MAX as int
    } else {
        moved
    };
    clamp(saturated as u64, MIN_SAVER_DELAY_SECONDS, MAX_SAVER_DELAY_SECONDS)
}

/// Writes a duration in words.
pub fn format_duration(total_seconds: u64) -> (text: String)
    ensures
        text@ == format_duration_spec(total_seconds as nat),
{
    let minutes = total_seconds / 60;
    let seconds = total_seconds % 60;
    let mut text = String::new();
    if minutes > 0 {
        push_decimal(&mut text, minutes);
        text.append(" min ");
        if seconds < 10 {
            text.append("0");
        }
        push_decimal(&mut text, seconds);
        text.append(" s");
    } else {
        push_decimal(&mut text, seconds);
        text.append(" s");
    }
    text
}

/// The panel's countdown line.
pub fn countdown_text(idle_seconds: Option<u64>, delay_seconds: u64) -> (text: String)
    ensures
        text@ == countdown_spec(idle_seconds, delay_seconds),
{
    match idle_seconds {
        Some(idle) => if idle >= delay_seconds {
            String::from_str("Launching now")
        } else {
            let mut text = String::from_str("In ");
            let rest = format_duration(delay_seconds - idle);
            text.append(rest.as_str());
            text
        },
        None => String::from_str("Waiting for GNOME idle monitor"),
    }
}

/// The panel's idle reading.
pub fn idle_label(idle_seconds: Option<u64>) -> (text: String)
    ensures
        text@ == idle_label_spec(idle_seconds),
{
    match idle_seconds {
        Some(seconds) => format_duration(seconds),
        None => String::from_str("Unavailable"),
    }
}

/// The saver delay after a delay button moves it by `delta_seconds`.
pub fn adjust_saver_delay(current: u64, delta_seconds: i64) -> (delay: u64)
    ensures
        delay == adjusted_delay_spec(current, delta_seconds),
{
    let moved = if delta_seconds < 0 {
        let magnitude: u64 = if delta_seconds == i64::MIN {
            0x8000_0000_0000_0000u64
        } else {
            (-delta_seconds) as u64
        };
        current.saturating_sub(magnitude)
    } else {
        current.saturating_add(delta_seconds as u64)
    };
    if moved < MIN_SAVER_DELAY_SECONDS {
        MIN_SAVER_DELAY_SECONDS
    } else if moved > MAX_SAVER_DELAY_SECONDS {
        MAX_SAVER_DELAY_SECONDS
    } else {
        moved
    }
}


/// Where the panel looks for an installed saver program, in order: beside
/// its own executable, then at the path `EASTSTAR_SAVER_BIN` names.
pub open spec fn panel_saver_candidates_spec(bin_dir: Seq<char>, explicit: Option<Seq<char>>) -> Seq<
    Seq<char>,
> {
    let fixed = seq![join_path(bin_dir, "eaststar-saver"@)];
    match explicit {
        Some(path) => fixed.push(path),
        None => fixed,
    }
}

/// The paths the panel tries for an installed saver program, in order.
pub fn panel_saver_candidates(bin_dir: &str, explicit: Option<&str>) -> (paths: Vec<String>)
    ensures
        paths@.map_values(|p: String| p@) == panel_saver_candidates_spec(
            bin_dir@,
            match explicit {
                Some(e) => Some(e@),
                None => None,
            },
        ),
{
    let mut paths: Vec<String> = Vec::new();
    paths.push(joined(bin_dir, "eaststar-saver"));
    if let Some(e) = explicit {
        paths.push(String::from_str(e));
    }
    assert(paths@.map_values(|p: String| p@) =~= panel_saver_candidates_spec(
        bin_dir@,
        match explicit {
            Some(e) => Some(e@),
            None => None,
        },
    ));
    paths
}

/// How a saver launched by the panel was started.
#[derive(Debug, Clone, Copy, PartialEq, Eq, Structural)]
pub enum SaverLaunchMode {
    Preview,
    Automatic,
}

/// A saver process the panel launched and is watching.
#[derive(Debug, Clone, Copy, PartialEq, Eq, Structural)]
pub struct PanelSaver {
    pub mode: SaverLaunchMode,
    pub lock_requested: bool,
}

/// What a check on the panel's saver process found.
pub enum ProcessCheck {
    Exited { success: bool, lifetime_secs: u64 },
    Running { elapsed_secs: u64 },
    Failed { error: String },
}

/// What the panel does after a refresh: new texts for its status line and
/// its saver line (`None` leaves a line as it is), whether to request a
/// session lock, and whether to launch the saver automatically.
pub struct PanelRefresh {
    pub status_text: Option<String>,
    pub saver_state_text: Option<String>,
    pub request_lock: bool,
    pub launch_automatic: bool,
}

pub struct PanelRefreshSpec {
    pub status_text: Option<Seq<char>>,
    pub saver_state_text: Option<Seq<char>>,
    pub request_lock: bool,
    pub launch_automatic: bool,
}

pub open spec fn text_view(t: Option<String>) -> Option<Seq<char>> {
    match t {
        Some(s) => Some(s@),
        None => None,
    }
}

impl View for PanelRefresh {
    type V = PanelRefreshSpec;

    open spec fn view(&self) -> PanelRefreshSpec {
        PanelRefreshSpec {
            status_text: text_view(self.status_text),
            saver_state_text: text_view(self.saver_state_text),
            request_lock: self.request_lock,
            launch_automatic: self.launch_automatic,
        }
    }
}

pub open spec fn mode_lower(mode: SaverLaunchMode) -> Seq<char> {
    match mode {
        SaverLaunchMode::Preview => "preview"@,
        SaverLaunchMode::Automatic => "automatic"@,
    }
}

pub open spec fn mode_title(mode: SaverLaunchMode) -> Seq<char> {
    match mode {
        SaverLaunchMode::Preview => "Preview"@,
        SaverLaunchMode::Automatic => "Automatic"@,
    }
}

pub open spec fn exit_message(mode: SaverLaunchMode, success: bool, lifetime_secs: u64) -> Seq<
    char,
> {
    "The "@ + mode_lower(mode) + " session "@ + (if success {
        "finished"@
    } else {
        "failed"@
    }) + " after "@ + format_duration_spec(lifetime_secs as nat) + "."@
}

/// No saver is running (any more): launch one if the idle time reached the
/// delay, else say the saver is idle.
pub open spec fn refresh_without_saver(
    status_text: Option<Seq<char>>,
    idle_seconds: Option<u64>,
    delay_seconds: u64,
) -> (Option<PanelSaver>, PanelRefreshSpec) {
    if idle_seconds matches Some(idle) && idle >= delay_seconds {
        (
            None,
            PanelRefreshSpec {
                status_text,
                saver_state_text: None,
                request_lock: false,
                launch_automatic: true,
            },
        )
    } else {
        (
            None,
            PanelRefreshSpec {
                status_text,
                saver_state_text: Some("Screen saver is idle."@),
                request_lock: false,
                launch_automatic: false,
            },
        )
    }
}

/// One refresh of the panel: a running saver is left running (an automatic
/// one gets a lock request once the lock delay has passed); a finished or
/// unreadable one is reported and forgotten; without a running saver, one
/// is launched automatically once the idle time reaches the delay.
pub open spec fn refresh_spec(
    running: Option<PanelSaver>,
    check: Option<ProcessCheck>,
    idle_seconds: Option<u64>,
    delay_seconds: u64,
    lock_after_seconds: u64,
) -> (Option<PanelSaver>, PanelRefreshSpec) {
    match running {
        Some(p) => match check {
            Some(ProcessCheck::Running { elapsed_secs }) => {
                let lock = p.mode == SaverLaunchMode::Automatic && lock_after_seconds > 0
                    && !p.lock_requested && elapsed_secs >= lock_after_seconds;
                (
                    Some(PanelSaver { lock_requested: p.lock_requested || lock, ..p }),
                    PanelRefreshSpec {
                        status_text: if lock {
                            Some("Lock request sent after the saver delay."@)
                        } else {
                            None
                        },
                        saver_state_text: Some(mode_title(p.mode) + " mode is currently running."@),
                        request_lock: lock,
                        launch_automatic: false,
                    },
                )
            },
            Some(ProcessCheck::Exited { success, lifetime_secs }) => refresh_without_saver(
                Some(exit_message(p.mode, success, lifetime_secs)),
                idle_seconds,
                delay_seconds,
            ),
            Some(ProcessCheck::Failed { error }) => refresh_without_saver(
                Some("Could not monitor saver process: "@ + error@),
                idle_seconds,
                delay_seconds,
            ),
            None => refresh_without_saver(None, idle_seconds, delay_seconds),
        },
        None => refresh_without_saver(None, idle_seconds, delay_seconds),
    }
}

/// The saver processes the panel itself launched.
pub struct PanelSaverTracker {
    pub running: Option<PanelSaver>,
}

impl PanelSaverTracker {
    pub fn new() -> (tracker: PanelSaverTracker)
        ensures
            tracker.running is None,
    {
        PanelSaverTracker { running: None }
    }

    /// Whether a preview may start: not while a saver is running.
    pub fn preview_request(&self) -> (allowed: Result<(), String>)
        ensures
            match allowed {
                Ok(()) => self.running is None,
                Err(e) => self.running is Some && e@ == "saver is already running"@,
            },
    {
        if self.running.is_some() {
            Err(String::from_str("saver is already running"))
        } else {
            Ok(())
        }
    }

    /// Records that a preview was launched.
    pub fn preview_started(&mut self)
        requires
            old(self).running is None,
        ensures
            final(self).running == Some(
                PanelSaver { mode: SaverLaunchMode::Preview, lock_requested: false },
            ),
    {
        self.running = Some(PanelSaver { mode: SaverLaunchMode::Preview, lock_requested: false });
    }

    /// One refresh of the panel, given what a check on its saver found (a
    /// check is made exactly when a saver is running) and the idle time.
    pub fn refresh(
        &mut self,
        check: Option<ProcessCheck>,
        idle_seconds: Option<u64>,
        delay_seconds: u64,
        lock_after_seconds: u64,
    ) -> (outcome: PanelRefresh)
        requires
            old(self).running is Some <==> check is Some,
        ensures
            (final(self).running, outcome@) == refresh_spec(
                old(self).running,
                check,
                idle_seconds,
                delay_seconds,
                lock_after_seconds,
            ),
    {
        let mut status_text: Option<String> = None;
        if let Some(p) = self.running {
            match check {
                Some(ProcessCheck::Running { elapsed_secs }) => {
                    let lock = p.mode == SaverLaunchMode::Automatic && lock_after_seconds > 0
                        && !p.lock_requested && elapsed_secs >= lock_after_seconds;
                    if lock {
                        self.running = Some(PanelSaver { mode: p.mode, lock_requested: true });
                        status_text = Some(String::from_str("Lock request sent after the saver delay."));
                    }
                    let mut state = match p.mode {
                        SaverLaunchMode::Preview => String::from_str("Preview"),
                        SaverLaunchMode::Automatic => String::from_str("Automatic"),
                    };
                    state.append(" mode is currently running.");
                    return PanelRefresh {
                        status_text,
                        saver_state_text: Some(state),
                        request_lock: lock,
                        launch_automatic: false,
                    };
                },
                Some(ProcessCheck::Exited { success, lifetime_secs }) => {
                    let mut text = String::from_str("The ");
                    match p.mode {
                        SaverLaunchMode::Preview => text.append("preview"),
                        SaverLaunchMode::Automatic => text.append("automatic"),
                    }
                    text.append(" session ");
                    if success {
                        text.append("finished");
                    } else {
                        text.append("failed");
                    }
                    text.append(" after ");
                    let lifetime = format_duration(lifetime_secs);
                    text.append(lifetime.as_str());
                    text.append(".");
                    status_text = Some(text);
                    self.running = None;
                },
                Some(ProcessCheck::Failed { error }) => {
                    let mut text = String::from_str("Could not monitor saver process: ");
                    text.append(error.as_str());
                    status_text = Some(text);
                    self.running = None;
                },
                None => {
                    self.running = None;
                },
            }
        }
        let launch = match idle_seconds {
            Some(idle) => idle >= delay_seconds,
            None => false,
        };
        if launch {
            PanelRefresh {
                status_text,
                saver_state_text: None,
                request_lock: false,
                launch_automatic: true,
            }
        } else {
            PanelRefresh {
                status_text,
                saver_state_text: Some(String::from_str("Screen saver is idle.")),
                request_lock: false,
                launch_automatic: false,
            }
        }
    }

    /// Takes the result of launching the saver automatically.
    pub fn automatic_launch_finished(&mut self, spawned: Result<(), String>) -> (outcome: PanelRefresh)
        requires
            old(self).running is None,
        ensures
            match spawned {
                Ok(()) => {
                    &&& final(self).running == Some(
                        PanelSaver { mode: SaverLaunchMode::Automatic, lock_requested: false },
                    )
                    &&& outcome@ == (PanelRefreshSpec {
                        status_text: Some("Idle time reached the activation delay."@),
                        saver_state_text: Some("Automatic mode is currently running."@),
                        request_lock: false,
                        launch_automatic: false,
                    })
                },
                Err(e) => {
                    &&& final(self).running is None
                    &&& outcome@ == (PanelRefreshSpec {
                        status_text: Some(
                            "Could not start the screen saver automatically: "@ + e@,
                        ),
                        saver_state_text: None,
                        request_lock: false,
                        launch_automatic: false,
                    })
                },
            },
    {
        match spawned {
            Ok(()) => {
                self.running = Some(
                    PanelSaver { mode: SaverLaunchMode::Automatic, lock_requested: false },
                );
                PanelRefresh {
                    status_text: Some(String::from_str("Idle time reached the activation delay.")),
                    saver_state_text: Some(String::from_str("Automatic mode is currently running.")),
                    request_lock: false,
                    launch_automatic: false,
                }
            },
            Err(e) => {
                let mut text = String::from_str("Could not start the screen saver automatically: ");
                text.append(e.as_str());
                PanelRefresh {
                    status_text: Some(text),
                    saver_state_text: None,
                    request_lock: false,
                    launch_automatic: false,
                }
            },
        }
    }
}

/// With a lock delay of zero the panel never requests a session lock.
pub proof fn lemma_panel_zero_lock_delay(
    running: Option<PanelSaver>,
    check: Option<ProcessCheck>,
    idle_seconds: Option<u64>,
    delay_seconds: u64,
)
    ensures
        !refresh_spec(running, check, idle_seconds, delay_seconds, 0).1.request_lock,
{
}

/// The panel launches a saver automatically only when none is running and
/// the idle time has reached the delay.
pub proof fn lemma_panel_launch_only_when_idle(
    running: Option<PanelSaver>,
    check: Option<ProcessCheck>,
    idle_seconds: Option<u64>,
    delay_seconds: u64,
    lock_after_seconds: u64,
)
    requires
        refresh_spec(running, check, idle_seconds, delay_seconds, lock_after_seconds).1.launch_automatic,
    ensures
        refresh_spec(running, check, idle_seconds, delay_seconds, lock_after_seconds).0 is None,
        idle_seconds matches Some(idle) && idle >= delay_seconds,
{
}

/// A preview never requests a session lock, and an automatic run requests
/// one at most once.
pub proof fn lemma_panel_lock_requests(
    p: PanelSaver,
    elapsed_secs: u64,
    idle_seconds: Option<u64>,
    delay_seconds: u64,
    lock_after_seconds: u64,
)
    requires
        p.mode == SaverLaunchMode::Preview || p.lock_requested,
    ensures
        !refresh_spec(
            Some(p),
            Some(ProcessCheck::Running { elapsed_secs }),
            idle_seconds,
            delay_seconds,
            lock_after_seconds,
        ).1.request_lock,
{
}

/// An automatic run that has not asked for a lock yet asks for one, with
/// the status line saying so, at every refresh once the lock delay (when one
/// is set) has passed, and is then marked as having asked.
pub proof fn lemma_panel_lock_when_delay_passed(
    elapsed_secs: u64,
    idle_seconds: Option<u64>,
    delay_seconds: u64,
    lock_after_seconds: u64,
)
    requires
        lock_after_seconds > 0,
        elapsed_secs >= lock_after_seconds,
    ensures
        ({
            let (next, outcome) = refresh_spec(
                Some(PanelSaver { mode: SaverLaunchMode::Automatic, lock_requested: false }),
                Some(ProcessCheck::Running { elapsed_secs }),
                idle_seconds,
                delay_seconds,
                lock_after_seconds,
            );
            &&& outcome.request_lock
            &&& outcome.status_text == Some("Lock request sent after the saver delay."@)
            &&& !outcome.launch_automatic
            &&& next == Some(
                PanelSaver { mode: SaverLaunchMode::Automatic, lock_requested: true },
            )
        }),
{
}

/// Before the lock delay has passed a running saver gets no lock request and
/// stays as it was.
pub proof fn lemma_panel_no_lock_before_delay(
    p: PanelSaver,
    elapsed_secs: u64,
    idle_seconds: Option<u64>,
    delay_seconds: u64,
    lock_after_seconds: u64,
)
    requires
        elapsed_secs < lock_after_seconds,
    ensures
        !refresh_spec(
            Some(p),
            Some(ProcessCheck::Running { elapsed_secs }),
            idle_seconds,
            delay_seconds,
            lock_after_seconds,
        ).1.request_lock,
        refresh_spec(
            Some(p),
            Some(ProcessCheck::Running { elapsed_secs }),
            idle_seconds,
            delay_seconds,
            lock_after_seconds,
        ).0 == Some(p),
{
}

/// With no saver running, the panel launches one automatically exactly when
/// the idle time is known and has reached the delay.
pub proof fn lemma_panel_launch_when_idle_reached(
    idle_seconds: Option<u64>,
    delay_seconds: u64,
    lock_after_seconds: u64,
)
    ensures
        refresh_spec(None, None, idle_seconds, delay_seconds, lock_after_seconds).1.launch_automatic
            <==> (idle_seconds matches Some(idle) && idle >= delay_seconds),
        !refresh_spec(None, None, idle_seconds, delay_seconds, lock_after_seconds).1.request_lock,
{
}

} // verus!
