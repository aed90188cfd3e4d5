//! Z calibration: after a bump check, each enabled Z stepper has its counter set to
//! its maximum and is moved down until its touch sensor reports contact (then its
//! counter is set to zero) or its counter reaches zero (then it is disabled). Bump
//! checks are repeated afterwards until no enabled stepper touches, at most ten times.

use vstd::prelude::*;
use std::collections::HashMap;
use crate::operations::{Operations, z_indices_spec, z_stepper_indices, enabled_updated};
use crate::procedure::{Action, Reply, OpError, OpMessage, Rest, seq_get_or, map_get_or, Progress, progress_less, progress_valid};
use crate::bump::{BumpCheck, BumpView, BumpPhase, bump_step, bump_wf, bump_initial, first_touch, sensor_index, bump_measure, lemma_bump_terminates, lemma_bump_measure_valid, lemma_bump_start_leaves_start};

verus! {

broadcast use vstd::std_specs::hash::group_hash_axioms;

/// How many bump checks the final clearing pass may run.
pub const MAX_BUMP_CHECK_ITERATIONS: u32 = 10;

/// Where a Z calibration stands.
#[derive(Clone, Copy, Debug, PartialEq, Eq, Structural)]
pub enum CalPhase {
    Start,
    /// Running the bump check that precedes calibration.
    InitialBump,
    /// About to calibrate Z stepper `j`.
    Next { j: usize },
    /// Waiting for the counter of stepper `j` to be set to its maximum.
    AwaitStartReset { j: usize, max_pos: i32 },
    /// Stepper `j` is at `pos` (as counted here) and not yet touching.
    Probe { j: usize, pos: i32 },
    AwaitTouch { j: usize, pos: i32 },
    AwaitMove { j: usize, pos: i32 },
    Rested { j: usize, pos: i32 },
    AwaitBottomDisable { j: usize },
    /// The descent of stepper `j` has ended.
    AfterLoop { j: usize, touched: bool },
    AwaitZeroReset { j: usize },
    /// All steppers done: report and start the clearing pass.
    Summary,
    /// About to run clearing bump check number `iter`.
    FinalLoop { iter: u32 },
    FinalBump { iter: u32 },
    /// Looking for an enabled stepper that still touches, from stepper `j`.
    TouchScan { iter: u32, j: usize },
    AwaitScan { iter: u32, j: usize },
    Done,
}

/// A Z calibration in progress.
#[derive(Debug)]
pub struct ZCalibration {
    pub phase: CalPhase,
    pub positions: Vec<i32>,
    pub max_positions: HashMap<usize, i32>,
    pub z_indices: Vec<usize>,
    pub enabled: HashMap<usize, bool>,
    pub z_down: i32,
    pub z_first: usize,
    pub max_map: HashMap<usize, i32>,
    pub enabled_now: HashMap<usize, bool>,
    pub sub: BumpCheck,
    pub messages: Vec<OpMessage>,
    pub error: Option<OpError>,
}

/// The mathematical state of a Z calibration.
#[verifier::ext_equal]
pub struct CalView {
    pub phase: CalPhase,
    pub positions: Seq<i32>,
    pub max_positions: Map<usize, i32>,
    pub z_indices: Seq<usize>,
    pub enabled: Map<usize, bool>,
    pub z_down: i32,
    pub z_first: usize,
    pub max_map: Map<usize, i32>,
    pub enabled_now: Map<usize, bool>,
    pub sub: BumpView,
    pub messages: Seq<OpMessage>,
    pub error: Option<OpError>,
}

impl View for ZCalibration {
    type V = CalView;

    open spec fn view(&self) -> CalView {
        CalView {
            phase: self.phase,
            positions: self.positions@,
            max_positions: self.max_positions@,
            z_indices: self.z_indices@,
            enabled: self.enabled@,
            z_down: self.z_down,
            z_first: self.z_first,
            max_map: self.max_map@,
            enabled_now: self.enabled_now@,
            sub: self.sub@,
            messages: self.messages@,
            error: self.error,
        }
    }
}

/// The maximum positions used by the clearing pass: each Z stepper's own, or 100.
pub open spec fn clearing_max_map(z_indices: Seq<usize>, max_positions: Map<usize, i32>) -> Map<usize, i32> {
    Map::new(|k: usize| z_indices.contains(k), |k: usize| map_get_or(max_positions, k, 100i32))
}

/// The placeholder kept where no bump check is running.
pub open spec fn idle_bump() -> BumpView {
    bump_initial(None, Seq::empty(), Map::empty())
}

/// A Z calibration that has not started.
pub open spec fn cal_initial(positions: Seq<i32>, max_positions: Map<usize, i32>) -> CalView {
    CalView {
        phase: CalPhase::Start,
        positions,
        max_positions,
        z_indices: Seq::empty(),
        enabled: Map::empty(),
        z_down: 0,
        z_first: 0,
        max_map: Map::empty(),
        enabled_now: Map::empty(),
        sub: idle_bump(),
        messages: Seq::empty(),
        error: None,
    }
}

pub open spec fn cal_goto(s: CalView, p: CalPhase, a: Action) -> (CalView, Option<usize>, Action) {
    (CalView { phase: p, ..s }, None, a)
}

pub open spec fn cal_finish_ok(s: CalView) -> (CalView, Option<usize>, Action) {
    (CalView { phase: CalPhase::Done, ..s }, None, Action::Finished)
}

pub open spec fn cal_finish_err(s: CalView, e: OpError) -> (CalView, Option<usize>, Action) {
    (CalView { phase: CalPhase::Done, error: Some(e), ..s }, None, Action::Finished)
}

pub open spec fn cal_push(s: CalView, m: OpMessage) -> CalView {
    CalView { messages: s.messages.push(m), ..s }
}

/// One step of a Z calibration: the next state, the stepper whose enable flag is
/// cleared in the operations context (if any), and the next action.
pub open spec fn cal_step(s: CalView, ops: Operations, exit: bool, reply: Reply) -> (CalView, Option<usize>, Action) {
    match s.phase {
        CalPhase::Start => match ops.gpio {
            None => cal_finish_err(s, OpError::GpioNotInitialized),
            Some(g) => if !g.exist {
                cal_finish_ok(CalView { messages: seq![OpMessage::CalRequiresGpio], ..s })
            } else {
                cal_goto(
                    CalView {
                        messages: seq![OpMessage::CalRunningInitialBump],
                        sub: bump_initial(None, s.positions, s.max_positions),
                        ..s
                    },
                    CalPhase::InitialBump,
                    Action::Continue,
                )
            },
        },
        CalPhase::InitialBump => {
            let (b, a) = bump_step(s.sub, ops, exit, reply);
            if a != Action::Finished {
                (CalView { sub: b, ..s }, None, a)
            } else {
                match b.error {
                    Some(e) => cal_finish_err(CalView { sub: idle_bump(), ..s }, e),
                    None => cal_goto(
                        CalView {
                            sub: idle_bump(),
                            messages: (s.messages + b.messages).push(OpMessage::CalStarting),
                            z_indices: z_indices_spec(ops.z_first_index, ops.string_num),
                            enabled: ops.stepper_enabled@,
                            z_down: ops.z_down_step,
                            z_first: ops.z_first_index,
                            ..s
                        },
                        CalPhase::Next { j: 0 },
                        Action::Continue,
                    ),
                }
            }
        },
        CalPhase::Next { j } => {
            if j >= s.z_indices.len() {
                cal_goto(s, CalPhase::Summary, Action::Continue)
            } else if exit {
                cal_finish_ok(cal_push(s, OpMessage::CalCancelled))
            } else {
                let idx = s.z_indices[j as int];
                if !map_get_or(s.enabled, idx, false) {
                    cal_goto(cal_push(s, OpMessage::CalSkippingDisabled { stepper: idx }), CalPhase::Next { j: (j + 1) as usize }, Action::Continue)
                } else {
                    let mp = map_get_or(s.max_positions, idx, 100i32);
                    cal_goto(s, CalPhase::AwaitStartReset { j, max_pos: mp }, Action::Reset { stepper: idx, position: mp })
                }
            }
        },
        CalPhase::AwaitStartReset { j, max_pos } => match reply {
            Reply::Stepper(Err(e)) => cal_finish_err(s, OpError::Stepper(e)),
            Reply::Stepper(Ok(())) => cal_goto(s, CalPhase::Probe { j, pos: max_pos }, Action::Continue),
            _ => cal_finish_err(s, OpError::UnexpectedReply),
        },
        CalPhase::Probe { j, pos } => {
            let idx = s.z_indices[j as int];
            if exit {
                cal_goto(cal_push(s, OpMessage::CalCancelledFor { stepper: idx }), CalPhase::AfterLoop { j, touched: false }, Action::Continue)
            } else {
                cal_goto(s, CalPhase::AwaitTouch { j, pos }, Action::ReadTouch { gpio_index: sensor_index(idx, s.z_first) })
            }
        },
        CalPhase::AwaitTouch { j, pos } => {
            let idx = s.z_indices[j as int];
            match reply {
                Reply::Touch(Err(e)) => cal_goto(
                    cal_push(s, OpMessage::GpioError { stepper: idx, error: e }),
                    CalPhase::AfterLoop { j, touched: false },
                    Action::Continue,
                ),
                Reply::Touch(Ok(states)) => {
                    if first_touch(states@) {
                        cal_goto(s, CalPhase::AfterLoop { j, touched: true }, Action::Continue)
                    } else if pos <= 0 {
                        (
                            CalView { phase: CalPhase::AwaitBottomDisable { j }, ..cal_push(s, OpMessage::CalBottomedOut { stepper: idx }) },
                            Some(idx),
                            Action::Disable { stepper: idx },
                        )
                    } else {
                        cal_goto(s, CalPhase::AwaitMove { j, pos }, Action::RelMove { stepper: idx, delta: s.z_down, rest: Some(Rest::Z) })
                    }
                },
                _ => cal_finish_err(s, OpError::UnexpectedReply),
            }
        },
        CalPhase::AwaitMove { j, pos } => match reply {
            Reply::Stepper(Err(e)) => cal_finish_err(s, OpError::Stepper(e)),
            Reply::Stepper(Ok(())) => {
                let np = pos + s.z_down;
                if np < i32::MIN || np > i32::MAX {
                    cal_finish_err(s, OpError::Overflow)
                } else {
                    cal_goto(s, CalPhase::Rested { j, pos: np as i32 }, Action::Pause(Rest::Z))
                }
            },
            _ => cal_finish_err(s, OpError::UnexpectedReply),
        },
        CalPhase::Rested { j, pos } => match reply {
            Reply::Nothing => cal_goto(s, CalPhase::Probe { j, pos }, Action::Continue),
            _ => cal_finish_err(s, OpError::UnexpectedReply),
        },
        CalPhase::AwaitBottomDisable { j } => match reply {
            Reply::Stepper(Err(e)) => cal_finish_err(s, OpError::Stepper(e)),
            Reply::Stepper(Ok(())) => cal_goto(s, CalPhase::AfterLoop { j, touched: false }, Action::Continue),
            _ => cal_finish_err(s, OpError::UnexpectedReply),
        },
        CalPhase::AfterLoop { j, touched } => {
            let idx = s.z_indices[j as int];
            if touched {
                cal_goto(s, CalPhase::AwaitZeroReset { j }, Action::Reset { stepper: idx, position: 0 })
            } else {
                cal_goto(cal_push(s, OpMessage::CalIncomplete { stepper: idx }), CalPhase::Next { j: (j + 1) as usize }, Action::Continue)
            }
        },
        CalPhase::AwaitZeroReset { j } => {
            let idx = s.z_indices[j as int];
            match reply {
                Reply::Stepper(Err(e)) => cal_finish_err(s, OpError::Stepper(e)),
                Reply::Stepper(Ok(())) => cal_goto(
                    cal_push(s, OpMessage::CalCalibrated { stepper: idx }),
                    CalPhase::Next { j: (j + 1) as usize },
                    Action::Continue,
                ),
                _ => cal_finish_err(s, OpError::UnexpectedReply),
            }
        },
        CalPhase::Summary => cal_goto(
            CalView {
                messages: s.messages.push(OpMessage::CalOffsetsNone).push(OpMessage::CalComplete).push(OpMessage::CalRunningFinalBump),
                max_map: clearing_max_map(s.z_indices, s.max_positions),
                ..s
            },
            CalPhase::FinalLoop { iter: 0 },
            Action::Continue,
        ),
        CalPhase::FinalLoop { iter } => {
            if iter >= MAX_BUMP_CHECK_ITERATIONS {
                cal_finish_ok(cal_push(s, OpMessage::CalBumpMaxIterations))
            } else {
                cal_goto(CalView { sub: bump_initial(None, s.positions, s.max_map), ..s }, CalPhase::FinalBump { iter }, Action::Continue)
            }
        },
        CalPhase::FinalBump { iter } => {
            let (b, a) = bump_step(s.sub, ops, exit, reply);
            if a != Action::Finished {
                (CalView { sub: b, ..s }, None, a)
            } else {
                match b.error {
                    Some(e) => cal_finish_err(CalView { sub: idle_bump(), ..s }, e),
                    None => cal_goto(
                        CalView { sub: idle_bump(), enabled_now: ops.stepper_enabled@, ..s },
                        CalPhase::TouchScan { iter, j: 0 },
                        Action::Continue,
                    ),
                }
            }
        },
        CalPhase::TouchScan { iter, j } => {
            if j >= s.z_indices.len() {
                cal_finish_ok(cal_push(s, OpMessage::CalAllCleared))
            } else {
                let idx = s.z_indices[j as int];
                if !map_get_or(s.enabled_now, idx, false) {
                    cal_goto(s, CalPhase::TouchScan { iter, j: (j + 1) as usize }, Action::Continue)
                } else {
                    cal_goto(s, CalPhase::AwaitScan { iter, j }, Action::ReadTouch { gpio_index: sensor_index(idx, s.z_first) })
                }
            }
        },
        CalPhase::AwaitScan { iter, j } => match reply {
            Reply::Touch(Ok(states)) => {
                if first_touch(states@) {
                    cal_goto(
                        cal_push(s, OpMessage::CalBumpIteration { iteration: (iter + 1) as u32 }),
                        CalPhase::FinalLoop { iter: (iter + 1) as u32 },
                        Action::Continue,
                    )
                } else {
                    cal_goto(s, CalPhase::TouchScan { iter, j: (j + 1) as usize }, Action::Continue)
                }
            },
            Reply::Touch(Err(_)) => cal_goto(s, CalPhase::TouchScan { iter, j: (j + 1) as usize }, Action::Continue),
            _ => cal_finish_err(s, OpError::UnexpectedReply),
        },
        CalPhase::Done => (s, None, Action::Finished),
    }
}

/// Indices in range, the clearing pass bounded, and the running bump check well formed.
pub open spec fn cal_wf(s: CalView) -> bool {
    match s.phase {
        CalPhase::Start => true,
        CalPhase::InitialBump => bump_wf(s.sub),
        CalPhase::Next { j } => j <= s.z_indices.len(),
        CalPhase::AwaitStartReset { j, .. } => j < s.z_indices.len() && map_get_or(s.enabled, s.z_indices[j as int], false),
        CalPhase::Probe { j, .. } => j < s.z_indices.len() && map_get_or(s.enabled, s.z_indices[j as int], false),
        CalPhase::AwaitTouch { j, .. } => j < s.z_indices.len() && map_get_or(s.enabled, s.z_indices[j as int], false),
        CalPhase::AwaitMove { j, .. } => j < s.z_indices.len() && map_get_or(s.enabled, s.z_indices[j as int], false),
        CalPhase::Rested { j, .. } => j < s.z_indices.len() && map_get_or(s.enabled, s.z_indices[j as int], false),
        CalPhase::AwaitBottomDisable { j } => j < s.z_indices.len(),
        CalPhase::AfterLoop { j, .. } => j < s.z_indices.len(),
        CalPhase::AwaitZeroReset { j } => j < s.z_indices.len(),
        CalPhase::Summary => true,
        CalPhase::FinalLoop { iter } => iter <= MAX_BUMP_CHECK_ITERATIONS,
        CalPhase::FinalBump { iter } => iter < MAX_BUMP_CHECK_ITERATIONS && bump_wf(s.sub),
        CalPhase::TouchScan { iter, j } => iter < MAX_BUMP_CHECK_ITERATIONS && j <= s.z_indices.len(),
        CalPhase::AwaitScan { iter, j } => iter < MAX_BUMP_CHECK_ITERATIONS && j < s.z_indices.len(),
        CalPhase::Done => true,
    }
}

/// The operations context after a step: unchanged, or with one stepper's enable flag cleared.
pub open spec fn ops_after(old: Operations, new: Operations, disabled: Option<usize>) -> bool {
    match disabled {
        None => new == old,
        Some(i) => enabled_updated(old, new, i, false),
    }
}

/// Every step keeps a Z calibration well formed.
pub proof fn lemma_cal_step_wf(s: CalView, ops: Operations, exit: bool, reply: Reply)
    requires
        cal_wf(s),
        ops.wf(),
    ensures
        cal_wf(cal_step(s, ops, exit, reply).0),
{
    match s.phase {
        CalPhase::InitialBump => { crate::bump::lemma_bump_step_wf(s.sub, ops, exit, reply); },
        CalPhase::FinalBump { .. } => { crate::bump::lemma_bump_step_wf(s.sub, ops, exit, reply); },
        _ => {},
    }
}

/// In the clearing pass, an enabled stepper whose sensor still reads touching (first state
/// `true`) starts another bump-check iteration, numbered one more; a clear reading (first
/// state `false`, no state, or a read error) goes on to the next stepper. A touching
/// stepper never lets the pass report every stepper cleared.
pub proof fn lemma_cal_clearing_repeats_while_touching(s: CalView, ops: Operations, exit: bool, reply: Reply, iter: u32, j: usize)
    requires
        cal_wf(s),
        s.phase == (CalPhase::AwaitScan { iter, j }),
        reply is Touch,
    ensures
        ({
            let t = cal_step(s, ops, exit, reply).0;
            let touching = reply->Touch_0 is Ok && reply->Touch_0->Ok_0@.len() > 0 && reply->Touch_0->Ok_0@[0];
            &&& touching ==> {
                &&& t.phase == (CalPhase::FinalLoop { iter: (iter + 1) as u32 })
                &&& t.messages == s.messages.push(OpMessage::CalBumpIteration { iteration: (iter + 1) as u32 })
            }
            &&& !touching ==> t.phase == (CalPhase::TouchScan { iter, j: (j + 1) as usize }) && t.messages == s.messages
        }),
{
}

/// The descent of a stepper stops exactly when its sensor reads touching (first state
/// `true`): then its counter is set to zero. While it reads clear (first state `false`, or
/// no state) it moves down by the down step with a Z rest as long as its counted position
/// is above zero, and is disabled once that position reaches zero.
pub proof fn lemma_cal_descent_stops_at_touch(s: CalView, ops: Operations, exit: bool, reply: Reply, j: usize, pos: i32)
    requires
        cal_wf(s),
        s.phase == (CalPhase::AwaitTouch { j, pos }),
        reply is Touch,
        reply->Touch_0 is Ok,
    ensures
        ({
            let states = reply->Touch_0->Ok_0@;
            let touching = states.len() > 0 && states[0];
            let idx = s.z_indices[j as int];
            let (t, dis, a) = cal_step(s, ops, exit, reply);
            &&& touching ==> t.phase == (CalPhase::AfterLoop { j, touched: true }) && a == Action::Continue && dis is None
            &&& touching ==> cal_step(t, ops, exit, Reply::Nothing).2 == (Action::Reset { stepper: idx, position: 0 })
            &&& !touching && pos > 0 ==> a == (Action::RelMove { stepper: idx, delta: s.z_down, rest: Some(Rest::Z) }) && dis is None
            &&& !touching && pos <= 0 ==> a == (Action::Disable { stepper: idx }) && dis == Some(idx)
        }),
{
}

/// The clearing pass reports every stepper cleared only once the scan has passed the last
/// Z stepper: no other step adds that report.
pub proof fn lemma_cal_all_cleared_only_at_end(s: CalView, ops: Operations, exit: bool, reply: Reply)
    requires
        cal_wf(s),
        cal_step(s, ops, exit, reply).0.messages == s.messages.push(OpMessage::CalAllCleared),
    ensures
        s.phase matches CalPhase::TouchScan { j, .. } && j >= s.z_indices.len(),
{
    match s.phase {
        CalPhase::InitialBump | CalPhase::FinalBump { .. } => {
            let (b, a) = bump_step(s.sub, ops, exit, reply);
            if a == Action::Finished && b.error is None {
                let r = cal_step(s, ops, exit, reply).0;
                assert(r.messages.last() == s.messages.push(OpMessage::CalAllCleared).last());
            }
        },
        _ => {
            let r = cal_step(s, ops, exit, reply).0;
            assert(r.messages.last() == s.messages.push(OpMessage::CalAllCleared).last());
        },
    }
}

/// How far a Z calibration has come, as a measure that every step lowers: the stage, then
/// the steppers (or clearing passes) left, then within a stepper the counted position and
/// the place in its descent, and within a bump check that check's own measure.
pub open spec fn cal_measure(s: CalView) -> Progress {
    let n = s.z_indices.len() as int;
    let sub_started: int = if s.sub.phase is Start { 1 } else { 0 };
    match s.phase {
        CalPhase::Start => (5, 0, 0, 0, 0, 0),
        CalPhase::InitialBump => (4, 0, 0, 0, sub_started, bump_measure(s.sub)),
        CalPhase::Next { j } => (3, n - j, 3, 0, 0, 0),
        CalPhase::AwaitStartReset { j, .. } => (3, n - j, 2, 0, 0, 0),
        CalPhase::Rested { j, pos } => (3, n - j, 1, pos - i32::MIN, 3, 0),
        CalPhase::Probe { j, pos } => (3, n - j, 1, pos - i32::MIN, 2, 0),
        CalPhase::AwaitTouch { j, pos } => (3, n - j, 1, pos - i32::MIN, 1, 0),
        CalPhase::AwaitMove { j, pos } => (3, n - j, 1, pos - i32::MIN, 0, 0),
        CalPhase::AwaitBottomDisable { j } => (3, n - j, 0, 2, 0, 0),
        CalPhase::AfterLoop { j, .. } => (3, n - j, 0, 1, 0, 0),
        CalPhase::AwaitZeroReset { j } => (3, n - j, 0, 0, 0, 0),
        CalPhase::Summary => (2, 0, 0, 0, 0, 0),
        CalPhase::FinalLoop { iter } => (1, MAX_BUMP_CHECK_ITERATIONS - iter, 2, 0, 0, 0),
        CalPhase::FinalBump { iter } => (1, MAX_BUMP_CHECK_ITERATIONS - iter, 1, sub_started, bump_measure(s.sub), 0),
        CalPhase::TouchScan { iter, j } => (1, MAX_BUMP_CHECK_ITERATIONS - iter, 0, n - j, 1, 0),
        CalPhase::AwaitScan { iter, j } => (1, MAX_BUMP_CHECK_ITERATIONS - iter, 0, n - j, 0, 0),
        CalPhase::Done => (0, 0, 0, 0, 0, 0),
    }
}

/// A Z calibration ends when its down step is negative: every step before the end lowers
/// `cal_measure`, whose counts never go below zero. (With a down step of zero or more the
/// descent of a stepper that never touches does not end.)
#[verifier::spinoff_prover]
#[verifier::rlimit(40)]
pub proof fn lemma_cal_terminates(s: CalView, ops: Operations, exit: bool, reply: Reply)
    requires
        cal_wf(s),
        ops.wf(),
        ops.z_down_step < 0,
        !(s.phase is Start || s.phase is InitialBump || s.phase is Done) ==> s.z_down < 0,
        s.sub.targets.len() <= usize::MAX,
        s.z_indices.len() <= usize::MAX,
        s.phase != CalPhase::Done,
    ensures
        progress_valid(cal_measure(s)),
        progress_valid(cal_measure(cal_step(s, ops, exit, reply).0)),
        progress_less(cal_measure(cal_step(s, ops, exit, reply).0), cal_measure(s)),
        !(cal_step(s, ops, exit, reply).0.phase is Start || cal_step(s, ops, exit, reply).0.phase is InitialBump
            || cal_step(s, ops, exit, reply).0.phase is Done) ==> cal_step(s, ops, exit, reply).0.z_down < 0,
{
    lemma_cal_step_wf(s, ops, exit, reply);
    match s.phase {
        CalPhase::InitialBump | CalPhase::FinalBump { .. } => {
            if s.sub.phase != BumpPhase::Start && s.sub.phase != BumpPhase::Done {
                lemma_bump_terminates(s.sub, ops, exit, reply);
            }
            if s.sub.phase == BumpPhase::Start {
                lemma_bump_start_leaves_start(s.sub, ops);
            }
            lemma_bump_measure_valid(s.sub);
        },
        CalPhase::Start => {},
        CalPhase::Next { .. } => {},
        CalPhase::AwaitStartReset { .. } => {},
        CalPhase::Probe { .. } => {},
        CalPhase::AwaitTouch { .. } => {},
        CalPhase::AwaitMove { .. } => {},
        CalPhase::Rested { .. } => {},
        CalPhase::AwaitBottomDisable { .. } => {},
        CalPhase::AfterLoop { .. } => {},
        CalPhase::AwaitZeroReset { .. } => {},
        CalPhase::Summary => {},
        CalPhase::FinalLoop { .. } => {},
        CalPhase::TouchScan { .. } => {},
        CalPhase::AwaitScan { .. } => {},
        CalPhase::Done => {},
    }
}

/// During its descent a calibration moves only an enabled Z stepper, only downward
/// by the down step followed by a Z rest, and only while its counted position is above zero;
/// moves of the surrounding bump checks obey the bump check's bounds.
pub proof fn lemma_cal_moves(s: CalView, ops: Operations, exit: bool, reply: Reply, stepper: usize, delta: i32, rest: Option<Rest>)
    requires
        cal_wf(s),
        ops.wf(),
        cal_step(s, ops, exit, reply).2 == (Action::RelMove { stepper, delta, rest }),
    ensures
        match s.phase {
            CalPhase::AwaitTouch { j, pos } => {
                &&& s.z_indices[j as int] == stepper
                &&& pos > 0
                &&& delta == s.z_down
                &&& rest == Some(Rest::Z)
                &&& map_get_or(s.enabled, stepper, false)
            },
            CalPhase::InitialBump | CalPhase::FinalBump { .. } => {
                &&& 0 < delta <= s.sub.z_up
                &&& crate::bump::position_of(s.sub, stepper) + delta <= crate::bump::max_pos_of(s.sub, stepper)
            },
            _ => false,
        },
{
    match s.phase {
        CalPhase::InitialBump | CalPhase::FinalBump { .. } => {
            crate::bump::lemma_bump_moves_bounded(s.sub, ops, exit, reply, stepper, delta, rest);
        },
        _ => {},
    }
}

/// A calibration clears a stepper's enable flag only when its counted position has
/// reached zero and its touch sensor reported no contact.
pub proof fn lemma_cal_disables_only_bottomed_out(s: CalView, ops: Operations, exit: bool, reply: Reply, stepper: usize)
    requires
        cal_wf(s),
        ops.wf(),
        cal_step(s, ops, exit, reply).1 == Some(stepper),
    ensures
        s.phase matches CalPhase::AwaitTouch { j, pos } && pos <= 0 && s.z_indices[j as int] == stepper,
        reply matches Reply::Touch(Ok(states)) && !first_touch(states@),
        cal_step(s, ops, exit, reply).2 == (Action::Disable { stepper }),
{
}

impl ZCalibration {
    /// A Z calibration that has not started.
    pub fn new(positions: Vec<i32>, max_positions: HashMap<usize, i32>) -> (r: Self)
        ensures
            r@ == cal_initial(positions@, max_positions@),
            cal_wf(r@),
    {
        let r = ZCalibration {
            phase: CalPhase::Start,
            positions,
            max_positions,
            z_indices: Vec::new(),
            enabled: HashMap::new(),
            z_down: 0,
            z_first: 0,
            max_map: HashMap::new(),
            enabled_now: HashMap::new(),
            sub: BumpCheck::new(None, Vec::new(), HashMap::new()),
            messages: Vec::new(),
            error: None,
        };
        assert(r@ =~= cal_initial(positions@, max_positions@));
        r
    }

    fn finish_err(&mut self, e: OpError) -> (a: Action)
        ensures
            (final(self)@, None::<usize>, a) == cal_finish_err(old(self)@, e),
    {
        self.phase = CalPhase::Done;
        self.error = Some(e);
        Action::Finished
    }

    fn fresh_bump(&self, max_positions: &HashMap<usize, i32>) -> (b: BumpCheck)
        ensures
            b@ == bump_initial(None, self.positions@, max_positions@),
            bump_wf(b@),
    {
        let p = self.positions.clone();
        assert(p@ =~= self.positions@);
        BumpCheck::new(None, p, max_positions.clone())
    }

    fn clearing_map(&self) -> (m: HashMap<usize, i32>)
        ensures
            m@ == clearing_max_map(self.z_indices@, self.max_positions@),
    {
        let mut m: HashMap<usize, i32> = HashMap::new();
        let mut j: usize = 0;
        while j < self.z_indices.len()
            invariant
                j <= self.z_indices@.len(),
                m@ == Map::new(|k: usize| self.z_indices@.take(j as int).contains(k), |k: usize| map_get_or(self.max_positions@, k, 100i32)),
            decreases self.z_indices@.len() - j,
        {
            let idx = self.z_indices[j];
            let mp: i32 = match self.max_positions.get(&idx) { Some(v) => *v, None => 100 };
            m.insert(idx, mp);
            let ghost prev = self.z_indices@.take(j as int);
            assert(self.z_indices@.take(j + 1) =~= prev.push(idx));
            assert forall|k: usize| prev.push(idx).contains(k) <==> (prev.contains(k) || k == idx) by {
                if prev.push(idx).contains(k) && k != idx {
                    let i = choose|i: int| 0 <= i < prev.push(idx).len() && prev.push(idx)[i] == k;
                    assert(prev[i] == k);
                }
                if k == idx {
                    assert(prev.push(idx)[prev.len() as int] == idx);
                }
                if prev.contains(k) {
                    let i = choose|i: int| 0 <= i < prev.len() && prev[i] == k;
                    assert(prev.push(idx)[i] == k);
                }
            }
            j = j + 1;
            assert(m@ =~= Map::new(|k: usize| self.z_indices@.take(j as int).contains(k), |k: usize| map_get_or(self.max_positions@, k, 100i32)));
        }
        assert(self.z_indices@.take(j as int) =~= self.z_indices@);
        assert(m@ =~= clearing_max_map(self.z_indices@, self.max_positions@));
        m
    }

    /// Advances the calibration by one step.
    pub fn step(&mut self, ops: &mut Operations, exit: bool, reply: Reply) -> (a: Action)
        requires
            old(ops).wf(),
            cal_wf(old(self)@),
        ensures
            final(self)@ == cal_step(old(self)@, *old(ops), exit, reply).0,
            ops_after(*old(ops), *final(ops), cal_step(old(self)@, *old(ops), exit, reply).1),
            a == cal_step(old(self)@, *old(ops), exit, reply).2,
            final(ops).wf(),
            cal_wf(final(self)@),
    {
        let ghost pre = self@;
        let ghost ops0 = *ops;
        let a = match self.phase {
            CalPhase::Start => {
                let exists = match &ops.gpio { None => None, Some(g) => Some(g.exist) };
                match exists {
                    None => self.finish_err(OpError::GpioNotInitialized),
                    Some(false) => {
                        self.messages = vec![OpMessage::CalRequiresGpio];
                        self.phase = CalPhase::Done;
                        Action::Finished
                    },
                    Some(true) => {
                        self.messages = vec![OpMessage::CalRunningInitialBump];
                        let mp = self.max_positions.clone();
                        self.sub = self.fresh_bump(&mp);
                        self.phase = CalPhase::InitialBump;
                        Action::Continue
                    },
                }
            },
            CalPhase::InitialBump => {
                let a = self.sub.step(ops, exit, reply);
                match a {
                    Action::Finished => {
                        let mut done = BumpCheck::new(None, Vec::new(), HashMap::new());
                        std::mem::swap(&mut done, &mut self.sub);
                        match done.result() {
                            Err(e) => self.finish_err(e),
                            Ok(mut ms) => {
                                self.messages.append(&mut ms);
                                self.messages.push(OpMessage::CalStarting);
                                self.z_indices = z_stepper_indices(ops.z_first_index, ops.string_num);
                                self.enabled = ops.stepper_enabled.clone();
                                self.z_down = ops.z_down_step;
                                self.z_first = ops.z_first_index;
                                self.phase = CalPhase::Next { j: 0 };
                                Action::Continue
                            },
                        }
                    },
                    _ => a,
                }
            },
            CalPhase::Next { j } => {
                if j >= self.z_indices.len() {
                    self.phase = CalPhase::Summary;
                    Action::Continue
                } else if exit {
                    self.messages.push(OpMessage::CalCancelled);
                    self.phase = CalPhase::Done;
                    Action::Finished
                } else {
                    let idx = self.z_indices[j];
                    assert(j < self.z_indices.len());
                    let en = match self.enabled.get(&idx) { Some(b) => *b, None => false };
                    if !en {
                        self.messages.push(OpMessage::CalSkippingDisabled { stepper: idx });
                        self.phase = CalPhase::Next { j: j + 1 };
                        Action::Continue
                    } else {
                        let mp: i32 = match self.max_positions.get(&idx) { Some(v) => *v, None => 100 };
                        self.phase = CalPhase::AwaitStartReset { j, max_pos: mp };
                        Action::Reset { stepper: idx, position: mp }
                    }
                }
            },
            CalPhase::AwaitStartReset { j, max_pos } => match reply {
                Reply::Stepper(Err(e)) => self.finish_err(OpError::Stepper(e)),
                Reply::Stepper(Ok(())) => {
                    self.phase = CalPhase::Probe { j, pos: max_pos };
                    Action::Continue
                },
                _ => self.finish_err(OpError::UnexpectedReply),
            },
            CalPhase::Probe { j, pos } => {
                let idx = self.z_indices[j];
                if exit {
                    self.messages.push(OpMessage::CalCancelledFor { stepper: idx });
                    self.phase = CalPhase::AfterLoop { j, touched: false };
                    Action::Continue
                } else {
                    self.phase = CalPhase::AwaitTouch { j, pos };
                    Action::ReadTouch { gpio_index: idx.saturating_sub(self.z_first) }
                }
            },
            CalPhase::AwaitTouch { j, pos } => {
                let idx = self.z_indices[j];
                match reply {
                    Reply::Touch(Err(e)) => {
                        self.messages.push(OpMessage::GpioError { stepper: idx, error: e });
                        self.phase = CalPhase::AfterLoop { j, touched: false };
                        Action::Continue
                    },
                    Reply::Touch(Ok(states)) => {
                        let t = if states.len() > 0 { states[0] } else { false };
                        if t {
                            self.phase = CalPhase::AfterLoop { j, touched: true };
                            Action::Continue
                        } else if pos <= 0 {
                            self.messages.push(OpMessage::CalBottomedOut { stepper: idx });
                            ops.set_stepper_enabled(idx, false);
                            self.phase = CalPhase::AwaitBottomDisable { j };
                            Action::Disable { stepper: idx }
                        } else {
                            self.phase = CalPhase::AwaitMove { j, pos };
                            Action::RelMove { stepper: idx, delta: self.z_down, rest: Some(Rest::Z) }
                        }
                    },
                    _ => self.finish_err(OpError::UnexpectedReply),
                }
            },
            CalPhase::AwaitMove { j, pos } => match reply {
                Reply::Stepper(Err(e)) => self.finish_err(OpError::Stepper(e)),
                Reply::Stepper(Ok(())) => {
                    let np: i64 = pos as i64 + self.z_down as i64;
                    if np < i32::MIN as i64 || np > i32::MAX as i64 {
                        self.finish_err(OpError::Overflow)
                    } else {
                        self.phase = CalPhase::Rested { j, pos: np as i32 };
                        Action::Pause(Rest::Z)
                    }
                },
                _ => self.finish_err(OpError::UnexpectedReply),
            },
            CalPhase::Rested { j, pos } => match reply {
                Reply::Nothing => {
                    self.phase = CalPhase::Probe { j, pos };
                    Action::Continue
                },
                _ => self.finish_err(OpError::UnexpectedReply),
            },
            CalPhase::AwaitBottomDisable { j } => match reply {
                Reply::Stepper(Err(e)) => self.finish_err(OpError::Stepper(e)),
                Reply::Stepper(Ok(())) => {
                    self.phase = CalPhase::AfterLoop { j, touched: false };
                    Action::Continue
                },
                _ => self.finish_err(OpError::UnexpectedReply),
            },
            CalPhase::AfterLoop { j, touched } => {
                let idx = self.z_indices[j];
                assert(j < self.z_indices.len());
                if touched {
                    self.phase = CalPhase::AwaitZeroReset { j };
                    Action::Reset { stepper: idx, position: 0 }
                } else {
                    self.messages.push(OpMessage::CalIncomplete { stepper: idx });
                    self.phase = CalPhase::Next { j: j + 1 };
                    Action::Continue
                }
            },
            CalPhase::AwaitZeroReset { j } => {
                let idx = self.z_indices[j];
                assert(j < self.z_indices.len());
                match reply {
                    Reply::Stepper(Err(e)) => self.finish_err(OpError::Stepper(e)),
                    Reply::Stepper(Ok(())) => {
                        self.messages.push(OpMessage::CalCalibrated { stepper: idx });
                        self.phase = CalPhase::Next { j: j + 1 };
                        Action::Continue
                    },
                    _ => self.finish_err(OpError::UnexpectedReply),
                }
            },
            CalPhase::Summary => {
                self.messages.push(OpMessage::CalOffsetsNone);
                self.messages.push(OpMessage::CalComplete);
                self.messages.push(OpMessage::CalRunningFinalBump);
                self.max_map = self.clearing_map();
                self.phase = CalPhase::FinalLoop { iter: 0 };
                Action::Continue
            },
            CalPhase::FinalLoop { iter } => {
                if iter >= MAX_BUMP_CHECK_ITERATIONS {
                    self.messages.push(OpMessage::CalBumpMaxIterations);
                    self.phase = CalPhase::Done;
                    Action::Finished
                } else {
                    let mm = self.max_map.clone();
                    self.sub = self.fresh_bump(&mm);
                    self.phase = CalPhase::FinalBump { iter };
                    Action::Continue
                }
            },
            CalPhase::FinalBump { iter } => {
                let a = self.sub.step(ops, exit, reply);
                match a {
                    Action::Finished => {
                        let mut done = BumpCheck::new(None, Vec::new(), HashMap::new());
                        std::mem::swap(&mut done, &mut self.sub);
                        match done.result() {
                            Err(e) => self.finish_err(e),
                            Ok(_) => {
                                self.enabled_now = ops.stepper_enabled.clone();
                                self.phase = CalPhase::TouchScan { iter, j: 0 };
                                Action::Continue
                            },
                        }
                    },
                    _ => a,
                }
            },
            CalPhase::TouchScan { iter, j } => {
                if j >= self.z_indices.len() {
                    self.messages.push(OpMessage::CalAllCleared);
                    self.phase = CalPhase::Done;
                    Action::Finished
                } else {
                    let idx = self.z_indices[j];
                    let en = match self.enabled_now.get(&idx) { Some(b) => *b, None => false };
                    if !en {
                        self.phase = CalPhase::TouchScan { iter, j: j + 1 };
                        Action::Continue
                    } else {
                        self.phase = CalPhase::AwaitScan { iter, j };
                        Action::ReadTouch { gpio_index: idx.saturating_sub(self.z_first) }
                    }
                }
            },
            CalPhase::AwaitScan { iter, j } => {
                assert(j < self.z_indices.len());
                match reply {
                    Reply::Touch(Ok(states)) => {
                        let t = if states.len() > 0 { states[0] } else { false };
                        if t {
                            self.messages.push(OpMessage::CalBumpIteration { iteration: iter + 1 });
                            self.phase = CalPhase::FinalLoop { iter: iter + 1 };
                        } else {
                            self.phase = CalPhase::TouchScan { iter, j: j + 1 };
                        }
                        Action::Continue
                    },
                    Reply::Touch(Err(_)) => {
                        self.phase = CalPhase::TouchScan { iter, j: j + 1 };
                        Action::Continue
                    },
                    _ => self.finish_err(OpError::UnexpectedReply),
                }
            },
            CalPhase::Done => Action::Finished,
        };
        assert(self@ =~= cal_step(pre, ops0, exit, reply).0);
        proof { lemma_cal_step_wf(pre, ops0, exit, reply); }
        a
    }

    /// Whether the calibration has ended.
    pub fn is_done(&self) -> (r: bool)
        ensures
            r == (self@.phase == CalPhase::Done),
    {
        match self.phase { CalPhase::Done => true, _ => false }
    }

    /// The report of the calibration: its messages, or the error that ended it.
    pub fn result(self) -> (r: Result<Vec<OpMessage>, OpError>)
        ensures
            match self@.error {
                Some(e) => r == Err::<Vec<OpMessage>, OpError>(e),
                None => r matches Ok(m) && m@ == self@.messages,
            },
    {
        match self.error {
            Some(e) => Err(e),
            None => Ok(self.messages),
        }
    }
}

impl Operations {
    /// A Z calibration of the enabled Z steppers.
    pub fn z_calibrate(&self, positions: Vec<i32>, max_positions: HashMap<usize, i32>) -> (r: ZCalibration)
        ensures
            r@ == cal_initial(positions@, max_positions@),
            cal_wf(r@),
    {
        ZCalibration::new(positions, max_positions)
    }
}

} // verus!
