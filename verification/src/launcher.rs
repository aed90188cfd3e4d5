//! Start-up decisions of the launcher: which mode the arguments select, the build
//! commands for the programs, how waiting for a component polls, and when the master
//! panel's status file says it is ready.

use vstd::prelude::*;
use crate::text::{str_eq, chars_of, chars_eq, string_from_chars, trim_chars, trim, views};

verus! {

/// How the launcher starts the programs.
#[derive(Clone, Copy, Debug, PartialEq, Eq, Structural)]
pub enum LaunchMode {
    /// One master panel embedding the others.
    MasterGui,
    /// Audio monitor, stepper panel and operations panel as separate programs.
    Separate,
}

/// Whether an argument list holds `--separate`.
pub open spec fn has_separate(args: Seq<String>) -> bool {
    exists|i: int| 0 <= i < args.len() && args[i]@ == "--separate"@
}

impl LaunchMode {
    /// The mode the arguments select: separate when any argument is `--separate`.
    pub fn from_args(args: &Vec<String>) -> (r: LaunchMode)
        ensures
            r == if has_separate(args@) { LaunchMode::Separate } else { LaunchMode::MasterGui },
    {
        let mut i: usize = 0;
        while i < args.len()
            invariant
                i <= args@.len(),
                forall|j: int| 0 <= j < i ==> args@[j]@ != "--separate"@,
            decreases args@.len() - i,
        {
            if str_eq(args[i].as_str(), "--separate") {
                return LaunchMode::Separate;
            }
            i = i + 1;
        }
        LaunchMode::MasterGui
    }
}

fn owned(s: &str) -> (r: String)
    ensures
        r@ == s@,
{
    s.to_owned()
}

/// The arguments of the build of the master panel.
pub open spec fn master_build_args(gpio_enabled: bool) -> Seq<Seq<char>> {
    seq!["build"@, "--release"@, "--bin"@, "master_gui"@] + if gpio_enabled { seq!["--features"@, "gpiod"@] } else { Seq::empty() }
}

/// The arguments of the build of the stepper and operations panels.
pub open spec fn separate_build_args(gpio_enabled: bool) -> Seq<Seq<char>> {
    seq!["build"@, "--release"@] + (if gpio_enabled { seq!["--features"@, "gpiod"@] } else { Seq::empty() })
        + seq!["--bin"@, "stepper_gui"@, "--bin"@, "operations_gui"@]
}

/// The views of a list of strings.
pub open spec fn string_views(v: Seq<String>) -> Seq<Seq<char>> {
    Seq::new(v.len(), |i: int| v[i]@)
}

/// `cargo` arguments that build the master panel (with the GPIO feature on GPIO hosts).
pub fn master_build_command(gpio_enabled: bool) -> (r: Vec<String>)
    ensures
        string_views(r@) == master_build_args(gpio_enabled),
{
    let mut v: Vec<String> = Vec::new();
    v.push(owned("build"));
    v.push(owned("--release"));
    v.push(owned("--bin"));
    v.push(owned("master_gui"));
    if gpio_enabled {
        v.push(owned("--features"));
        v.push(owned("gpiod"));
    }
    assert(string_views(v@) =~= master_build_args(gpio_enabled));
    v
}

/// `cargo` arguments that build the stepper and operations panels (with the GPIO feature on GPIO hosts).
pub fn separate_build_command(gpio_enabled: bool) -> (r: Vec<String>)
    ensures
        string_views(r@) == separate_build_args(gpio_enabled),
{
    let mut v: Vec<String> = Vec::new();
    v.push(owned("build"));
    v.push(owned("--release"));
    if gpio_enabled {
        v.push(owned("--features"));
        v.push(owned("gpiod"));
    }
    v.push(owned("--bin"));
    v.push(owned("stepper_gui"));
    v.push(owned("--bin"));
    v.push(owned("operations_gui"));
    assert(string_views(v@) =~= separate_build_args(gpio_enabled));
    v
}

/// How waiting for a component polls.
#[derive(Clone, Copy, Debug, PartialEq, Eq, Structural)]
pub struct PollSchedule {
    pub max_attempts: u32,
    pub interval_ms: u64,
    pub dot_every: u32,
}

/// Waiting for the shared audio memory: 60 polls, 500 ms apart, a dot every 10.
pub fn shared_memory_schedule() -> (r: PollSchedule)
    ensures
        r == (PollSchedule { max_attempts: 60, interval_ms: 500, dot_every: 10 }),
{
    PollSchedule { max_attempts: 60, interval_ms: 500, dot_every: 10 }
}

/// Waiting for the master panel's status: 60 polls, 500 ms apart, a dot every 10.
pub fn master_status_schedule() -> (r: PollSchedule)
    ensures
        r == (PollSchedule { max_attempts: 60, interval_ms: 500, dot_every: 10 }),
{
    PollSchedule { max_attempts: 60, interval_ms: 500, dot_every: 10 }
}

/// Waiting for the stepper panel's socket: 30 polls, 200 ms apart, a dot every 5.
pub fn stepper_socket_schedule() -> (r: PollSchedule)
    ensures
        r == (PollSchedule { max_attempts: 30, interval_ms: 200, dot_every: 5 }),
{
    PollSchedule { max_attempts: 30, interval_ms: 200, dot_every: 5 }
}

/// What to do after poll number `attempt` (counted from 1).
#[derive(Clone, Copy, Debug, PartialEq, Eq, Structural)]
pub enum PollAction {
    /// The component is ready.
    Ready,
    /// Wait the interval (printing a progress dot if `dot`) and poll again.
    Wait { dot: bool },
    /// The last poll failed: give up.
    GiveUp,
}

/// The action after a poll.
pub open spec fn poll_action_spec(s: PollSchedule, attempt: u32, ready: bool) -> PollAction {
    if ready {
        PollAction::Ready
    } else if attempt < s.max_attempts {
        PollAction::Wait { dot: s.dot_every != 0 && attempt % s.dot_every == 0 }
    } else {
        PollAction::GiveUp
    }
}

impl PollSchedule {
    /// The action after poll number `attempt`: ready ends the wait; before the last poll,
    /// wait (with a dot every `dot_every` polls); after the last, give up.
    pub fn after_poll(&self, attempt: u32, ready: bool) -> (r: PollAction)
        ensures
            r == poll_action_spec(*self, attempt, ready),
    {
        if ready {
            PollAction::Ready
        } else if attempt < self.max_attempts {
            PollAction::Wait { dot: self.dot_every != 0 && attempt % self.dot_every == 0 }
        } else {
            PollAction::GiveUp
        }
    }
}

/// A wait that polls until ready gives up only after `max_attempts` polls, and waits
/// `max_attempts - 1` times at most.
pub proof fn lemma_poll_gives_up_last(s: PollSchedule, attempt: u32)
    requires
        1 <= attempt,
    ensures
        poll_action_spec(s, attempt, false) == PollAction::GiveUp <==> attempt >= s.max_attempts,
        poll_action_spec(s, attempt, true) == PollAction::Ready,
{
}

/// Whether the master panel's status file says it is ready: its trimmed content is `ready`.
pub fn status_ready(content: &str) -> (r: bool)
    ensures
        r == (trim(content@) == "ready"@),
{
    let cs = chars_of(content);
    let t = trim_chars(cs.as_slice());
    let ready = chars_of("ready");
    chars_eq(t.as_slice(), ready.as_slice())
}

/// Whether a program needs a fresh build: its binary's modification time is unknown
/// (the binary is missing or unreadable), or some tracked source file is newer.
/// Times are nanoseconds since the Unix epoch.
pub fn needs_build(binary_mtime: Option<u128>, source_mtimes: &Vec<u128>) -> (r: bool)
    ensures
        r == match binary_mtime {
            None => true,
            Some(b) => exists|i: int| 0 <= i < source_mtimes@.len() && source_mtimes@[i] > b,
        },
{
    let b = match binary_mtime {
        None => { return true; },
        Some(b) => b,
    };
    let mut i: usize = 0;
    while i < source_mtimes.len()
        invariant
            i <= source_mtimes@.len(),
            binary_mtime == Some(b),
            forall|j: int| 0 <= j < i ==> source_mtimes@[j] <= b,
        decreases source_mtimes@.len() - i,
    {
        if source_mtimes[i] > b {
            assert(source_mtimes@[i as int] > b);
            return true;
        }
        i = i + 1;
    }
    false
}

} // verus!
