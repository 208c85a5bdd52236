//! Requesting a desktop lock: the ordered list of commands to try, and the
//! bookkeeping that stops at the first one that works and otherwise reports
//! every failure in order. Running the commands is left to the caller.

use vstd::prelude::*;
use crate::text::{chars_of, trim, trim_bounds};

verus! {

broadcast use vstd::string::group_string_axioms;

/// Something that can lock the session.
pub trait SessionLocker {
    fn lock(&self);
}

/// Locks the session through logind, the GNOME and freedesktop screensaver
/// bus interfaces and the desktop's command-line tools, whichever works first.
pub struct SystemLocker;

/// One way of locking the session: a program, its arguments, and what to
/// report when it succeeds.
pub struct LockCommand {
    pub program: String,
    pub args: Vec<String>,
    pub success_message: String,
}

/// A lock command as plain text.
#[verifier::ext_equal]
pub struct LockCommandSpec {
    pub program: Seq<char>,
    pub args: Seq<Seq<char>>,
    pub success_message: Seq<char>,
}

impl View for LockCommand {
    type V = LockCommandSpec;

    open spec fn view(&self) -> LockCommandSpec {
        LockCommandSpec {
            program: self.program@,
            args: self.args@.map_values(|a: String| a@),
            success_message: self.success_message@,
        }
    }
}

pub open spec fn lock_command_spec(
    program: Seq<char>,
    args: Seq<Seq<char>>,
    success_message: Seq<char>,
) -> LockCommandSpec {
    LockCommandSpec { program, args, success_message }
}

/// The commands tried after the session-specific one, in order.
pub open spec fn fallback_lock_commands() -> Seq<LockCommandSpec> {
    seq![
        lock_command_spec(
            "loginctl"@,
            seq!["lock-sessions"@],
            "lock: loginctl lock-sessions triggered"@,
        ),
        lock_command_spec(
            "gdbus"@,
            seq![
                "call"@,
                "--session"@,
                "--dest"@,
                "org.gnome.ScreenSaver"@,
                "--object-path"@,
                "/org/gnome/ScreenSaver"@,
                "--method"@,
                "org.gnome.ScreenSaver.Lock"@,
            ],
            "lock: org.gnome.ScreenSaver.Lock triggered"@,
        ),
        lock_command_spec(
            "gdbus"@,
            seq![
                "call"@,
                "--session"@,
                "--dest"@,
                "org.gnome.ScreenSaver"@,
                "--object-path"@,
                "/org/gnome/ScreenSaver"@,
                "--method"@,
                "org.gnome.ScreenSaver.SetActive"@,
                "true"@,
            ],
            "lock: org.gnome.ScreenSaver.SetActive true triggered"@,
        ),
        lock_command_spec(
            "gdbus"@,
            seq![
                "call"@,
                "--session"@,
                "--dest"@,
                "org.freedesktop.ScreenSaver"@,
                "--object-path"@,
                "/org/freedesktop/ScreenSaver"@,
                "--method"@,
                "org.freedesktop.ScreenSaver.Lock"@,
            ],
            "lock: org.freedesktop.ScreenSaver.Lock triggered"@,
        ),
        lock_command_spec(
            "dbus-send"@,
            seq![
                "--session"@,
                "--dest=org.gnome.ScreenSaver"@,
                "--type=method_call"@,
                "/org/gnome/ScreenSaver"@,
                "org.gnome.ScreenSaver.Lock"@,
            ],
            "lock: dbus-send org.gnome.ScreenSaver.Lock triggered"@,
        ),
        lock_command_spec(
            "xdg-screensaver"@,
            seq!["lock"@],
            "lock: xdg-screensaver lock triggered"@,
        ),
        lock_command_spec(
            "gnome-screensaver-command"@,
            seq!["--lock"@],
            "lock: gnome-screensaver-command --lock triggered"@,
        ),
    ]
}

/// The commands to try, in order: locking the given logind session first
/// when there is one, then the fallbacks.
pub open spec fn lock_plan_spec(session_id: Option<Seq<char>>) -> Seq<LockCommandSpec> {
    match session_id {
        Some(id) => seq![
            lock_command_spec(
                "loginctl"@,
                seq!["lock-session"@, id],
                "lock: loginctl lock-session "@ + id + " triggered"@,
            ),
        ] + fallback_lock_commands(),
        None => fallback_lock_commands(),
    }
}

fn command(program: &str, args: &[&str], success_message: &str) -> (c: LockCommand)
    ensures
        c@ == lock_command_spec(program@, args@.map_values(|a: &str| a@), success_message@),
{
    let mut owned: Vec<String> = Vec::new();
    let mut i: usize = 0;
    while i < args.len()
        invariant
            0 <= i <= args@.len(),
            owned@.len() == i,
            forall|k: int| 0 <= k < i ==> (#[trigger] owned@[k])@ == args@[k]@,
        decreases args@.len() - i,
    {
        owned.push(String::from_str(args[i]));
        i += 1;
    }
    assert(owned@.map_values(|a: String| a@) =~= args@.map_values(|a: &str| a@));
    LockCommand {
        program: String::from_str(program),
        args: owned,
        success_message: String::from_str(success_message),
    }
}

impl SystemLocker {
    /// The logind session id from `XDG_SESSION_ID`, when it holds more than
    /// whitespace (it is used as it is, untrimmed).
    pub fn session_id_from(value: Option<String>) -> (id: Option<String>)
        ensures
            id == (if value is Some && trim(value->0@).len() > 0 {
                value
            } else {
                None
            }),
    {
        match value {
            Some(v) => {
                let chars = chars_of(v.as_str());
                let (a, b) = trim_bounds(chars.as_slice(), 0, chars.len());
                assert(chars@.subrange(0, chars@.len() as int) == v@);
                if a == b {
                    None
                } else {
                    Some(v)
                }
            },
            None => None,
        }
    }

    /// The lock commands to try, in order.
    pub fn lock_commands(session_id: Option<&str>) -> (plan: Vec<LockCommand>)
        ensures
            plan@.map_values(|c: LockCommand| c@) == lock_plan_spec(
                match session_id {
                    Some(id) => Some(id@),
                    None => None,
                },
            ),
    {
        let mut plan: Vec<LockCommand> = Vec::new();
        if let Some(id) = session_id {
            let mut message = String::from_str("lock: loginctl lock-session ");
            message.append(id);
            message.append(" triggered");
            let mut args: Vec<String> = Vec::new();
            args.push(String::from_str("lock-session"));
            args.push(String::from_str(id));
            assert(args@.map_values(|a: String| a@) =~= seq!["lock-session"@, id@]);
            plan.push(LockCommand { program: String::from_str("loginctl"), args, success_message: message });
        }
        let ghost first = plan@;
        plan.push(command("loginctl", &["lock-sessions"], "lock: loginctl lock-sessions triggered"));
        plan.push(
            command(
                "gdbus",
                &[
                    "call",
                    "--session",
                    "--dest",
                    "org.gnome.ScreenSaver",
                    "--object-path",
                    "/org/gnome/ScreenSaver",
                    "--method",
                    "org.gnome.ScreenSaver.Lock",
                ],
                "lock: org.gnome.ScreenSaver.Lock triggered",
            ),
        );
        plan.push(
            command(
                "gdbus",
                &[
                    "call",
                    "--session",
                    "--dest",
                    "org.gnome.ScreenSaver",
                    "--object-path",
                    "/org/gnome/ScreenSaver",
                    "--method",
                    "org.gnome.ScreenSaver.SetActive",
                    "true",
                ],
                "lock: org.gnome.ScreenSaver.SetActive true triggered",
            ),
        );
        plan.push(
            command(
                "gdbus",
                &[
                    "call",
                    "--session",
                    "--dest",
                    "org.freedesktop.ScreenSaver",
                    "--object-path",
                    "/org/freedesktop/ScreenSaver",
                    "--method",
                    "org.freedesktop.ScreenSaver.Lock",
                ],
                "lock: org.freedesktop.ScreenSaver.Lock triggered",
            ),
        );
        plan.push(
            command(
                "dbus-send",
                &[
                    "--session",
                    "--dest=org.gnome.ScreenSaver",
                    "--type=method_call",
                    "/org/gnome/ScreenSaver",
                    "org.gnome.ScreenSaver.Lock",
                ],
                "lock: dbus-send org.gnome.ScreenSaver.Lock triggered",
            ),
        );
        plan.push(command("xdg-screensaver", &["lock"], "lock: xdg-screensaver lock triggered"));
        plan.push(
            command(
                "gnome-screensaver-command",
                &["--lock"],
                "lock: gnome-screensaver-command --lock triggered",
            ),
        );
        proof {
            let off = first.len() as int;
            let fb = fallback_lock_commands();
            assert(plan@[off + 0]@ =~~= fb[0]);
            assert(plan@[off + 1]@ =~~= fb[1]);
            assert(plan@[off + 2]@ =~~= fb[2]);
            assert(plan@[off + 3]@ =~~= fb[3]);
            assert(plan@[off + 4]@ =~~= fb[4]);
            assert(plan@[off + 5]@ =~~= fb[5]);
            assert(plan@[off + 6]@ =~~= fb[6]);
        }
        assert(plan@.map_values(|c: LockCommand| c@) =~~= lock_plan_spec(
            match session_id {
                Some(id) => Some(id@),
                None => None,
            },
        ));
        plan
    }
}


/// Progress through a list of lock commands: they are tried in order until
/// one succeeds, and the error of each one that failed is kept, in order.
pub struct LockAttempts {
    pub commands: usize,
    pub next: usize,
    pub succeeded: Option<usize>,
    pub errors: Vec<String>,
}

impl LockAttempts {
    pub open spec fn wf(&self) -> bool {
        &&& self.next <= self.commands
        &&& self.succeeded is None ==> self.errors@.len() == self.next
        &&& self.succeeded matches Some(i) ==> i + 1 == self.next && self.errors@.len() == i
    }

    /// Nothing tried yet out of `commands` commands.
    pub fn new(commands: usize) -> (attempts: LockAttempts)
        ensures
            attempts.wf(),
            attempts.commands == commands,
            attempts.next == 0,
            attempts.succeeded is None,
            attempts.errors@.len() == 0,
    {
        LockAttempts { commands, next: 0, succeeded: None, errors: Vec::new() }
    }

    /// The index of the command to try next: none once one has succeeded or
    /// all have been tried.
    pub fn next_command(&self) -> (index: Option<usize>)
        ensures
            index == (if self.succeeded is None && self.next < self.commands {
                Some(self.next)
            } else {
                None
            }),
    {
        if self.succeeded.is_none() && self.next < self.commands {
            Some(self.next)
        } else {
            None
        }
    }

    /// Records the result of trying the next command.
    pub fn record(&mut self, result: Result<(), String>)
        requires
            old(self).wf(),
            old(self).succeeded is None,
            old(self).next < old(self).commands,
        ensures
            final(self).wf(),
            final(self).commands == old(self).commands,
            final(self).next == old(self).next + 1,
            match result {
                Ok(()) => final(self).succeeded == Some(old(self).next) && final(self).errors@
                    == old(self).errors@,
                Err(e) => final(self).succeeded is None && final(self).errors@ == old(
                    self,
                ).errors@.push(e),
            },
    {
        match result {
            Ok(()) => {
                self.succeeded = Some(self.next);
            },
            Err(e) => {
                self.errors.push(e);
            },
        }
        self.next = self.next + 1;
    }
}

/// When no command is left to try and none succeeded, every command was
/// tried and its error kept.
pub proof fn lemma_all_lock_commands_failed(attempts: LockAttempts)
    requires
        attempts.wf(),
        attempts.succeeded is None,
        !(attempts.next < attempts.commands),
    ensures
        attempts.errors@.len() == attempts.commands,
{
}

} // verus!
