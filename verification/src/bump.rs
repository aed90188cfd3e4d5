//! Bump check: a Z stepper whose touch sensor reports contact is moved up, step by
//! step, until the sensor clears (then its counter is set to the up step), until it
//! reaches its maximum position, or until fifty moves have been spent (then it is disabled).

use vstd::prelude::*;
use std::collections::HashMap;
use crate::operations::{Operations, z_indices_spec, z_stepper_indices};
use crate::procedure::{Action, Reply, OpError, OpMessage, Rest, seq_get_or, map_get_or};

verus! {

broadcast use vstd::std_specs::hash::group_hash_axioms;

/// How many upward moves a bumping stepper may take before it is disabled.
pub const MAX_MOVE_ITERATIONS: u32 = 50;

/// Where a bump check stands.
#[derive(Clone, Copy, Debug, PartialEq, Eq, Structural)]
pub enum BumpPhase {
    /// Not started: the first step reads the parameters.
    Start,
    /// About to examine target `k`.
    Next { k: usize },
    /// Waiting for the first touch reading of target `k`.
    AwaitInitial { k: usize },
    /// Target `k` is bumping; `it` moves have been rested after.
    Probe { k: usize, it: u32 },
    /// Waiting for the upward move of target `k`.
    AwaitMove { k: usize, it: u32 },
    /// Waiting for the touch reading after the move.
    AwaitStill { k: usize, it: u32 },
    /// Waiting for the Z rest after a move that did not clear the sensor.
    Rested { k: usize, it: u32 },
    /// Waiting for the disable of target `k` (at its maximum, or out of attempts).
    AwaitDisable { k: usize, at_max: bool, max_pos: i32 },
    /// Waiting for the counter reset of target `k`.
    AwaitReset { k: usize },
    /// Finished.
    Done,
}

/// A bump check in progress.
#[derive(Debug)]
pub struct BumpCheck {
    pub phase: BumpPhase,
    pub stepper_index: Option<usize>,
    pub positions: Vec<i32>,
    pub max_positions: HashMap<usize, i32>,
    pub targets: Vec<usize>,
    pub enabled: HashMap<usize, bool>,
    pub z_up: i32,
    pub z_first: usize,
    pub messages: Vec<OpMessage>,
    pub error: Option<OpError>,
}

/// The mathematical state of a bump check.
#[verifier::ext_equal]
pub struct BumpView {
    pub phase: BumpPhase,
    pub stepper_index: Option<usize>,
    pub positions: Seq<i32>,
    pub max_positions: Map<usize, i32>,
    pub targets: Seq<usize>,
    pub enabled: Map<usize, bool>,
    pub z_up: i32,
    pub z_first: usize,
    pub messages: Seq<OpMessage>,
    pub error: Option<OpError>,
}

impl View for BumpCheck {
    type V = BumpView;

    open spec fn view(&self) -> BumpView {
        BumpView {
            phase: self.phase,
            stepper_index: self.stepper_index,
            positions: self.positions@,
            max_positions: self.max_positions@,
            targets: self.targets@,
            enabled: self.enabled@,
            z_up: self.z_up,
            z_first: self.z_first,
            messages: self.messages@,
            error: self.error,
        }
    }
}

/// The first sensor state, or "not touching" when there is none.
pub open spec fn first_touch(states: Seq<bool>) -> bool {
    seq_get_or(states, 0, false)
}

/// Sensor index of a Z stepper (`stepper - z_first`, saturating at zero).
pub open spec fn sensor_index(stepper: usize, z_first: usize) -> usize {
    if stepper >= z_first { (stepper - z_first) as usize } else { 0 }
}

/// Position of a stepper in the caller's position list (0 when absent).
pub open spec fn position_of(s: BumpView, stepper: usize) -> i32 {
    seq_get_or(s.positions, stepper as int, 0i32)
}

/// Maximum position of a stepper (100 when absent).
pub open spec fn max_pos_of(s: BumpView, stepper: usize) -> i32 {
    map_get_or(s.max_positions, stepper, 100i32)
}

/// The upward step from `cur` toward `max` (`max > cur`): the up step, shortened so as not to pass `max`.
pub open spec fn up_delta(cur: i32, max: i32, z_up: i32) -> i32 {
    if max - cur < z_up { (max - cur) as i32 } else { z_up }
}

pub open spec fn finish_ok(s: BumpView) -> (BumpView, Action) {
    (BumpView { phase: BumpPhase::Done, ..s }, Action::Finished)
}

pub open spec fn finish_err(s: BumpView, e: OpError) -> (BumpView, Action) {
    (BumpView { phase: BumpPhase::Done, error: Some(e), ..s }, Action::Finished)
}

pub open spec fn goto(s: BumpView, p: BumpPhase, a: Action) -> (BumpView, Action) {
    (BumpView { phase: p, ..s }, a)
}

/// A bump check that has not started.
pub open spec fn bump_initial(stepper_index: Option<usize>, positions: Seq<i32>, max_positions: Map<usize, i32>) -> BumpView {
    BumpView {
        phase: BumpPhase::Start,
        stepper_index,
        positions,
        max_positions,
        targets: Seq::empty(),
        enabled: Map::empty(),
        z_up: 0,
        z_first: 0,
        messages: Seq::empty(),
        error: None,
    }
}

/// The first step: reads the parameters, decides the targets or ends at once.
pub open spec fn bump_start(s: BumpView, ops: Operations) -> (BumpView, Action) {
    match ops.gpio {
        None => finish_err(s, OpError::GpioNotInitialized),
        Some(g) => {
            if !g.exist {
                finish_ok(BumpView { messages: seq![OpMessage::BumpNoGpio], ..s })
            } else if !ops.bump_check_enable {
                finish_ok(BumpView { messages: seq![OpMessage::BumpSkipped], ..s })
            } else if ops.z_up_step <= 0 {
                finish_err(s, OpError::InvalidZUpStep(ops.z_up_step))
            } else if ops.string_num == 0 {
                finish_ok(BumpView { messages: Seq::empty(), ..s })
            } else {
                let all = z_indices_spec(ops.z_first_index, ops.string_num);
                let base = BumpView {
                    enabled: ops.stepper_enabled@,
                    z_up: ops.z_up_step,
                    z_first: ops.z_first_index,
                    messages: Seq::empty(),
                    ..s
                };
                match s.stepper_index {
                    Some(si) => {
                        let idx0 = if si > 0 { si - 1 } else { si as int };
                        if idx0 < all.len() {
                            goto(BumpView { targets: seq![all[idx0]], ..base }, BumpPhase::Next { k: 0 }, Action::Continue)
                        } else {
                            finish_ok(BumpView { messages: seq![OpMessage::BumpInvalidIndex { index: si }], ..base })
                        }
                    },
                    None => goto(BumpView { targets: all, ..base }, BumpPhase::Next { k: 0 }, Action::Continue),
                }
            }
        },
    }
}

/// One step of a bump check: the next state and the next action, given the exit flag and the last reply.
pub open spec fn bump_step(s: BumpView, ops: Operations, exit: bool, reply: Reply) -> (BumpView, Action) {
    match s.phase {
        BumpPhase::Start => bump_start(s, ops),
        BumpPhase::Next { k } => {
            if k >= s.targets.len() || exit {
                finish_ok(s)
            } else {
                let idx = s.targets[k as int];
                if !map_get_or(s.enabled, idx, false) {
                    goto(s, BumpPhase::Next { k: (k + 1) as usize }, Action::Continue)
                } else {
                    goto(s, BumpPhase::AwaitInitial { k }, Action::ReadTouch { gpio_index: sensor_index(idx, s.z_first) })
                }
            }
        },
        BumpPhase::AwaitInitial { k } => {
            let idx = s.targets[k as int];
            match reply {
                Reply::Touch(Err(e)) => goto(
                    BumpView { messages: s.messages.push(OpMessage::GpioError { stepper: idx, error: e }), ..s },
                    BumpPhase::Next { k: (k + 1) as usize },
                    Action::Continue,
                ),
                Reply::Touch(Ok(states)) => {
                    if first_touch(states@) {
                        goto(s, BumpPhase::Probe { k, it: 0 }, Action::Continue)
                    } else {
                        goto(s, BumpPhase::Next { k: (k + 1) as usize }, Action::Continue)
                    }
                },
                _ => finish_err(s, OpError::UnexpectedReply),
            }
        },
        BumpPhase::Probe { k, it } => {
            if exit {
                finish_ok(s)
            } else {
                let idx = s.targets[k as int];
                let cur = position_of(s, idx);
                let mp = max_pos_of(s, idx);
                if cur >= mp {
                    goto(s, BumpPhase::AwaitDisable { k, at_max: true, max_pos: mp }, Action::Disable { stepper: idx })
                } else {
                    goto(
                        s,
                        BumpPhase::AwaitMove { k, it },
                        Action::RelMove { stepper: idx, delta: up_delta(cur, mp, s.z_up), rest: None },
                    )
                }
            }
        },
        BumpPhase::AwaitMove { k, it } => {
            let idx = s.targets[k as int];
            match reply {
                Reply::Stepper(Err(e)) => finish_err(s, OpError::Stepper(e)),
                Reply::Stepper(Ok(())) => goto(
                    s,
                    BumpPhase::AwaitStill { k, it },
                    Action::ReadTouch { gpio_index: sensor_index(idx, s.z_first) },
                ),
                _ => finish_err(s, OpError::UnexpectedReply),
            }
        },
        BumpPhase::AwaitStill { k, it } => {
            let idx = s.targets[k as int];
            match reply {
                Reply::Touch(Err(e)) => goto(
                    BumpView { messages: s.messages.push(OpMessage::GpioError { stepper: idx, error: e }), ..s },
                    BumpPhase::AwaitReset { k },
                    Action::Reset { stepper: idx, position: s.z_up },
                ),
                Reply::Touch(Ok(states)) => {
                    if first_touch(states@) {
                        goto(s, BumpPhase::Rested { k, it }, Action::Pause(Rest::Z))
                    } else {
                        goto(s, BumpPhase::AwaitReset { k }, Action::Reset { stepper: idx, position: s.z_up })
                    }
                },
                _ => finish_err(s, OpError::UnexpectedReply),
            }
        },
        BumpPhase::Rested { k, it } => {
            let idx = s.targets[k as int];
            match reply {
                Reply::Nothing => {
                    if it + 1 >= MAX_MOVE_ITERATIONS {
                        goto(s, BumpPhase::AwaitDisable { k, at_max: false, max_pos: 0 }, Action::Disable { stepper: idx })
                    } else {
                        goto(s, BumpPhase::Probe { k, it: (it + 1) as u32 }, Action::Continue)
                    }
                },
                _ => finish_err(s, OpError::UnexpectedReply),
            }
        },
        BumpPhase::AwaitDisable { k, at_max, max_pos } => {
            let idx = s.targets[k as int];
            match reply {
                Reply::Stepper(Err(e)) => finish_err(s, OpError::Stepper(e)),
                Reply::Stepper(Ok(())) => {
                    let m = if at_max {
                        OpMessage::BumpDisablingAtMax { stepper: idx, max_pos }
                    } else {
                        OpMessage::BumpExceededAttempts { stepper: idx }
                    };
                    goto(BumpView { messages: s.messages.push(m), ..s }, BumpPhase::Next { k: (k + 1) as usize }, Action::Continue)
                },
                _ => finish_err(s, OpError::UnexpectedReply),
            }
        },
        BumpPhase::AwaitReset { k } => {
            let idx = s.targets[k as int];
            match reply {
                Reply::Stepper(Err(e)) => finish_err(s, OpError::Stepper(e)),
                Reply::Stepper(Ok(())) => goto(
                    BumpView { messages: s.messages.push(OpMessage::BumpCleared { stepper: idx, z_up_step: s.z_up }), ..s },
                    BumpPhase::Next { k: (k + 1) as usize },
                    Action::Continue,
                ),
                _ => finish_err(s, OpError::UnexpectedReply),
            }
        },
        BumpPhase::Done => (s, Action::Finished),
    }
}

/// Indices stay in range, every target is a Z stepper, and the attempt count stays under the limit.
pub open spec fn bump_wf(s: BumpView) -> bool {
    &&& forall|i: int| 0 <= i < s.targets.len() ==> s.targets[i] >= s.z_first
    &&& match s.phase {
        BumpPhase::Start => s.targets.len() == 0,
        BumpPhase::Done => true,
        BumpPhase::Next { k } => k <= s.targets.len() && s.z_up > 0,
        BumpPhase::AwaitInitial { k } => k < s.targets.len() && s.z_up > 0 && map_get_or(s.enabled, s.targets[k as int], false),
        BumpPhase::Probe { k, it } => k < s.targets.len() && it < MAX_MOVE_ITERATIONS && s.z_up > 0 && map_get_or(s.enabled, s.targets[k as int], false),
        BumpPhase::AwaitMove { k, it } => k < s.targets.len() && it < MAX_MOVE_ITERATIONS && s.z_up > 0 && map_get_or(s.enabled, s.targets[k as int], false),
        BumpPhase::AwaitStill { k, it } => k < s.targets.len() && it < MAX_MOVE_ITERATIONS && s.z_up > 0 && map_get_or(s.enabled, s.targets[k as int], false),
        BumpPhase::Rested { k, it } => k < s.targets.len() && it < MAX_MOVE_ITERATIONS && s.z_up > 0 && map_get_or(s.enabled, s.targets[k as int], false),
        BumpPhase::AwaitDisable { k, .. } => k < s.targets.len() && s.z_up > 0 && map_get_or(s.enabled, s.targets[k as int], false),
        BumpPhase::AwaitReset { k } => k < s.targets.len() && s.z_up > 0 && map_get_or(s.enabled, s.targets[k as int], false),
    }
}

/// Every step keeps the bump check well formed.
pub proof fn lemma_bump_step_wf(s: BumpView, ops: Operations, exit: bool, reply: Reply)
    requires
        bump_wf(s),
        ops.wf(),
    ensures
        bump_wf(bump_step(s, ops, exit, reply).0),
{
    if s.phase == BumpPhase::Start {
        let all = z_indices_spec(ops.z_first_index, ops.string_num);
        let r = bump_step(s, ops, exit, reply).0;
        if ops.gpio is Some && ops.gpio->0.exist && ops.bump_check_enable && ops.z_up_step > 0 && ops.string_num != 0 {
            let base = BumpView {
                enabled: ops.stepper_enabled@,
                z_up: ops.z_up_step,
                z_first: ops.z_first_index,
                messages: Seq::empty(),
                ..s
            };
            match s.stepper_index {
                Some(si) => {
                    let idx0 = if si > 0 { si - 1 } else { si as int };
                    if idx0 < all.len() {
                        let t = BumpView { targets: seq![all[idx0]], ..base };
                        assert(r == t.with_phase(BumpPhase::Next { k: 0 }));
                        assert forall|i: int| 0 <= i < r.targets.len() implies r.targets[i] >= r.z_first by {
                            assert(r.targets[i] == all[idx0]);
                        }
                    }
                },
                None => {
                    assert(r.targets == all);
                    assert forall|i: int| 0 <= i < r.targets.len() implies r.targets[i] >= r.z_first by {
                        assert(r.targets[i] == all[i]);
                    }
                },
            }
        }
    } else {
        let r = bump_step(s, ops, exit, reply).0;
        assert(r.targets == s.targets && r.z_first == s.z_first);
    }
}

/// After an upward move, a sensor that still reads touching (its first state `true`) keeps
/// the stepper bumping: a Z rest and another probe, never the counter reset that reports it
/// cleared. A sensor that reads clear (first state `false`, or no state) ends the bump of
/// that stepper with its counter set to the up step.
pub proof fn lemma_bump_clears_only_when_clear(s: BumpView, ops: Operations, exit: bool, reply: Reply, k: usize, it: u32)
    requires
        bump_wf(s),
        s.phase == (BumpPhase::AwaitStill { k, it }),
        reply is Touch,
        reply->Touch_0 is Ok,
    ensures
        ({
            let states = reply->Touch_0->Ok_0@;
            let (t, a) = bump_step(s, ops, exit, reply);
            &&& states.len() > 0 && states[0] ==> {
                &&& a == Action::Pause(Rest::Z)
                &&& t.phase == (BumpPhase::Rested { k, it })
                &&& t.messages == s.messages
            }
            &&& !(states.len() > 0 && states[0]) ==> {
                &&& a == (Action::Reset { stepper: s.targets[k as int], position: s.z_up })
                &&& t.phase == (BumpPhase::AwaitReset { k })
            }
        }),
{
}

/// A stepper is bumped only when its sensor first reads touching: a first reading whose
/// first state is `true` starts the probe of that target, any other reading skips it.
pub proof fn lemma_bump_starts_only_when_touching(s: BumpView, ops: Operations, exit: bool, reply: Reply, k: usize)
    requires
        bump_wf(s),
        s.phase == (BumpPhase::AwaitInitial { k }),
        reply is Touch,
        reply->Touch_0 is Ok,
    ensures
        ({
            let states = reply->Touch_0->Ok_0@;
            let t = bump_step(s, ops, exit, reply).0;
            &&& states.len() > 0 && states[0] ==> t.phase == (BumpPhase::Probe { k, it: 0 })
            &&& !(states.len() > 0 && states[0]) ==> t.phase == (BumpPhase::Next { k: (k + 1) as usize })
        }),
{
}

/// A stepper that still touches after an upward move, and has moves left, is moved up again
/// after its Z rest; one that has spent its moves is disabled.
pub proof fn lemma_bump_retries_after_rest(s: BumpView, ops: Operations, exit: bool, k: usize, it: u32)
    requires
        bump_wf(s),
        s.phase == (BumpPhase::Rested { k, it }),
    ensures
        it + 1 < MAX_MOVE_ITERATIONS ==> bump_step(s, ops, exit, Reply::Nothing).0.phase == (BumpPhase::Probe { k, it: (it + 1) as u32 }),
        it + 1 >= MAX_MOVE_ITERATIONS ==> bump_step(s, ops, exit, Reply::Nothing).1 == (Action::Disable { stepper: s.targets[k as int] }),
{
}

/// Steps left before a bump check ends, at most: each target takes at most
/// `4 * MAX_MOVE_ITERATIONS + 5` steps (fifty moves, each with its reading and rest).
pub open spec fn bump_measure(s: BumpView) -> int {
    let w = 4 * MAX_MOVE_ITERATIONS + 5;
    let n = s.targets.len() as int;
    match s.phase {
        BumpPhase::Start => 0,
        BumpPhase::Done => 0,
        BumpPhase::Next { k } => (n - k) * w + 1,
        BumpPhase::AwaitInitial { k } => (n - k - 1) * w + w,
        BumpPhase::Probe { k, it } => (n - k - 1) * w + 4 * (MAX_MOVE_ITERATIONS - it) + 4,
        BumpPhase::AwaitMove { k, it } => (n - k - 1) * w + 4 * (MAX_MOVE_ITERATIONS - it) + 3,
        BumpPhase::AwaitStill { k, it } => (n - k - 1) * w + 4 * (MAX_MOVE_ITERATIONS - it) + 2,
        BumpPhase::Rested { k, it } => (n - k - 1) * w + 4 * (MAX_MOVE_ITERATIONS - it) + 1,
        BumpPhase::AwaitDisable { k, .. } => (n - k - 1) * w + 3,
        BumpPhase::AwaitReset { k } => (n - k - 1) * w + 2,
    }
}

/// A bump check ends: after its first step, every step either finishes it or lowers
/// `bump_measure`, which never goes below zero; so a check over `n` targets takes at most
/// `n * (4 * MAX_MOVE_ITERATIONS + 5) + 2` steps.
pub proof fn lemma_bump_terminates(s: BumpView, ops: Operations, exit: bool, reply: Reply)
    requires
        bump_wf(s),
        ops.wf(),
        s.targets.len() <= usize::MAX,
        s.phase != BumpPhase::Start,
        s.phase != BumpPhase::Done,
    ensures
        0 <= bump_measure(bump_step(s, ops, exit, reply).0) < bump_measure(s),
        bump_step(s, ops, exit, reply).0.targets == s.targets,
        bump_step(s, ops, exit, reply).0.phase != BumpPhase::Start,
        bump_step(s, ops, exit, reply).0.phase is Next ==> bump_measure(bump_step(s, ops, exit, reply).0) <= s.targets.len() * (4 * MAX_MOVE_ITERATIONS + 5) + 1,
{
    let r = bump_step(s, ops, exit, reply).0;
    lemma_bump_step_wf(s, ops, exit, reply);
    let w: int = 4 * MAX_MOVE_ITERATIONS + 5;
    let n = s.targets.len() as int;
    match s.phase {
        BumpPhase::Next { k } => lemma_rows(n, k as int, w),
        BumpPhase::AwaitInitial { k } => lemma_rows(n, k as int, w),
        BumpPhase::Probe { k, .. } => lemma_rows(n, k as int, w),
        BumpPhase::AwaitMove { k, .. } => lemma_rows(n, k as int, w),
        BumpPhase::AwaitStill { k, .. } => lemma_rows(n, k as int, w),
        BumpPhase::Rested { k, .. } => lemma_rows(n, k as int, w),
        BumpPhase::AwaitDisable { k, .. } => lemma_rows(n, k as int, w),
        BumpPhase::AwaitReset { k } => lemma_rows(n, k as int, w),
        _ => {},
    }
    match r.phase {
        BumpPhase::Next { k } => {
            lemma_rows(n, k as int, w);
            assert((n - k) * w <= n * w) by (nonlinear_arith) requires 0 <= k, w > 0;
        },
        BumpPhase::AwaitInitial { k } => lemma_rows(n, k as int, w),
        BumpPhase::Probe { k, .. } => lemma_rows(n, k as int, w),
        BumpPhase::AwaitMove { k, .. } => lemma_rows(n, k as int, w),
        BumpPhase::AwaitStill { k, .. } => lemma_rows(n, k as int, w),
        BumpPhase::Rested { k, .. } => lemma_rows(n, k as int, w),
        BumpPhase::AwaitDisable { k, .. } => lemma_rows(n, k as int, w),
        BumpPhase::AwaitReset { k } => lemma_rows(n, k as int, w),
        _ => {},
    }
}

/// The first step of a bump check leaves its start: it either finishes or goes on to the
/// first target.
pub proof fn lemma_bump_start_leaves_start(s: BumpView, ops: Operations)
    requires
        s.phase == BumpPhase::Start,
    ensures
        bump_start(s, ops).0.phase is Done || bump_start(s, ops).0.phase == (BumpPhase::Next { k: 0 }),
{
}

/// The measure of a well-formed bump check is never negative.
pub proof fn lemma_bump_measure_valid(s: BumpView)
    requires
        bump_wf(s),
    ensures
        bump_measure(s) >= 0,
{
    let w: int = 4 * MAX_MOVE_ITERATIONS + 5;
    let n = s.targets.len() as int;
    match s.phase {
        BumpPhase::Next { k } => lemma_rows(n, k as int, w),
        BumpPhase::AwaitInitial { k } => lemma_rows(n, k as int, w),
        BumpPhase::Probe { k, .. } => lemma_rows(n, k as int, w),
        BumpPhase::AwaitMove { k, .. } => lemma_rows(n, k as int, w),
        BumpPhase::AwaitStill { k, .. } => lemma_rows(n, k as int, w),
        BumpPhase::Rested { k, .. } => lemma_rows(n, k as int, w),
        BumpPhase::AwaitDisable { k, .. } => lemma_rows(n, k as int, w),
        BumpPhase::AwaitReset { k } => lemma_rows(n, k as int, w),
        _ => {},
    }
}

/// Row arithmetic for the step measures: `rows` rows of width `w`.
proof fn lemma_rows(n: int, k: int, w: int)
    requires
        0 <= k,
        w > 0,
    ensures
        (n - k) * w == (n - k - 1) * w + w,
        (n - (k + 1)) * w == (n - k - 1) * w,
        k < n ==> (n - k - 1) * w >= 0,
        k <= n ==> (n - k) * w >= 0,
{
    assert((n - k) * w == (n - k - 1) * w + w) by (nonlinear_arith);
    assert(k < n ==> (n - k - 1) * w >= 0) by (nonlinear_arith) requires w > 0;
    assert(k <= n ==> (n - k) * w >= 0) by (nonlinear_arith) requires w > 0;
}

/// A bump check only moves steppers upward, by at most the up step, never past the
/// stepper's maximum position, never a disabled stepper, without a rest, and at most
/// fifty times per stepper.
pub proof fn lemma_bump_moves_bounded(s: BumpView, ops: Operations, exit: bool, reply: Reply, stepper: usize, delta: i32, rest: Option<Rest>)
    requires
        bump_wf(s),
        ops.wf(),
        bump_step(s, ops, exit, reply).1 == (Action::RelMove { stepper, delta, rest }),
    ensures
        s.phase matches BumpPhase::Probe { k, it } && it < MAX_MOVE_ITERATIONS && s.targets[k as int] == stepper,
        0 < delta <= s.z_up,
        position_of(s, stepper) + delta <= max_pos_of(s, stepper),
        map_get_or(s.enabled, stepper, false),
        rest is None,
{
}

/// A bump check resets a stepper's counter only to the up step, and only for an enabled target.
pub proof fn lemma_bump_reset_to_up_step(s: BumpView, ops: Operations, exit: bool, reply: Reply, stepper: usize, position: i32)
    requires
        bump_wf(s),
        ops.wf(),
        bump_step(s, ops, exit, reply).1 == (Action::Reset { stepper, position }),
    ensures
        position == s.z_up,
        position > 0,
        map_get_or(s.enabled, stepper, false),
{
}

/// A bump check disables a stepper only when it sits at or above its maximum position
/// while touching, or after its fiftieth move.
pub proof fn lemma_bump_disable_reason(s: BumpView, ops: Operations, exit: bool, reply: Reply, stepper: usize)
    requires
        bump_wf(s),
        ops.wf(),
        bump_step(s, ops, exit, reply).1 == (Action::Disable { stepper }),
    ensures
        match s.phase {
            BumpPhase::Probe { k, it } => s.targets[k as int] == stepper && position_of(s, stepper) >= max_pos_of(s, stepper),
            BumpPhase::Rested { k, it } => s.targets[k as int] == stepper && it + 1 == MAX_MOVE_ITERATIONS,
            _ => false,
        },
{
}

impl BumpView {
    pub open spec fn with_phase(self, p: BumpPhase) -> BumpView {
        BumpView { phase: p, ..self }
    }
}

impl BumpCheck {
    /// A bump check that has not started. With `stepper_index` = `Some(n)` only the
    /// `n`-th Z stepper (counted from 1; 0 also names the first) is checked.
    pub fn new(stepper_index: Option<usize>, positions: Vec<i32>, max_positions: HashMap<usize, i32>) -> (r: Self)
        ensures
            r@ == bump_initial(stepper_index, positions@, max_positions@),
            bump_wf(r@),
    {
        let r = BumpCheck {
            phase: BumpPhase::Start,
            stepper_index,
            positions,
            max_positions,
            targets: Vec::new(),
            enabled: HashMap::new(),
            z_up: 0,
            z_first: 0,
            messages: Vec::new(),
            error: None,
        };
        assert(r@ =~= bump_initial(stepper_index, positions@, max_positions@));
        r
    }

    fn finish_ok(&mut self) -> (a: Action)
        ensures
            (final(self)@, a) == finish_ok(old(self)@),
    {
        self.phase = BumpPhase::Done;
        Action::Finished
    }

    fn finish_err(&mut self, e: OpError) -> (a: Action)
        ensures
            (final(self)@, a) == finish_err(old(self)@, e),
    {
        self.phase = BumpPhase::Done;
        self.error = Some(e);
        Action::Finished
    }

    fn start(&mut self, ops: &Operations) -> (a: Action)
        requires
            old(self)@.phase == BumpPhase::Start,
            ops.wf(),
        ensures
            (final(self)@, a) == bump_start(old(self)@, *ops),
    {
        match &ops.gpio {
            None => { return self.finish_err(OpError::GpioNotInitialized); },
            Some(g) => {
                if !g.exist {
                    self.messages = vec![OpMessage::BumpNoGpio];
                    return self.finish_ok();
                }
            },
        }
        if !ops.bump_check_enable {
            self.messages = vec![OpMessage::BumpSkipped];
            return self.finish_ok();
        }
        if ops.z_up_step <= 0 {
            return self.finish_err(OpError::InvalidZUpStep(ops.z_up_step));
        }
        if ops.string_num == 0 {
            self.messages = Vec::new();
            return self.finish_ok();
        }
        let all = z_stepper_indices(ops.z_first_index, ops.string_num);
        self.enabled = ops.stepper_enabled.clone();
        self.z_up = ops.z_up_step;
        self.z_first = ops.z_first_index;
        self.messages = Vec::new();
        match self.stepper_index {
            Some(si) => {
                let idx0 = if si > 0 { si - 1 } else { si };
                if idx0 < all.len() {
                    self.targets = vec![all[idx0]];
                    self.phase = BumpPhase::Next { k: 0 };
                    Action::Continue
                } else {
                    self.messages = vec![OpMessage::BumpInvalidIndex { index: si }];
                    self.finish_ok()
                }
            },
            None => {
                self.targets = all;
                self.phase = BumpPhase::Next { k: 0 };
                Action::Continue
            },
        }
    }

    /// Advances the bump check by one step.
    pub fn step(&mut self, ops: &Operations, exit: bool, reply: Reply) -> (a: Action)
        requires
            ops.wf(),
            bump_wf(old(self)@),
        ensures
            (final(self)@, a) == bump_step(old(self)@, *ops, exit, reply),
            bump_wf(final(self)@),
    {
        let ghost pre = self@;
        let a = match self.phase {
            BumpPhase::Start => self.start(ops),
            BumpPhase::Next { k } => {
                if k >= self.targets.len() || exit {
                    self.finish_ok()
                } else {
                    let idx = self.targets[k];
                assert(k < self.targets.len());
                    let en = match self.enabled.get(&idx) { Some(b) => *b, None => false };
                    if !en {
                        self.phase = BumpPhase::Next { k: k + 1 };
                        Action::Continue
                    } else {
                        self.phase = BumpPhase::AwaitInitial { k };
                        Action::ReadTouch { gpio_index: idx.saturating_sub(self.z_first) }
                    }
                }
            },
            BumpPhase::AwaitInitial { k } => {
                let idx = self.targets[k];
                assert(k < self.targets.len());
                match reply {
                    Reply::Touch(Err(e)) => {
                        self.messages.push(OpMessage::GpioError { stepper: idx, error: e });
                        self.phase = BumpPhase::Next { k: k + 1 };
                        Action::Continue
                    },
                    Reply::Touch(Ok(states)) => {
                        let t = if states.len() > 0 { states[0] } else { false };
                        if t {
                            self.phase = BumpPhase::Probe { k, it: 0 };
                        } else {
                            self.phase = BumpPhase::Next { k: k + 1 };
                        }
                        Action::Continue
                    },
                    _ => self.finish_err(OpError::UnexpectedReply),
                }
            },
            BumpPhase::Probe { k, it } => {
                if exit {
                    self.finish_ok()
                } else {
                    let idx = self.targets[k];
                assert(k < self.targets.len());
                    let cur: i32 = if idx < self.positions.len() { self.positions[idx] } else { 0 };
                    let mp: i32 = match self.max_positions.get(&idx) { Some(m) => *m, None => 100 };
                    if cur >= mp {
                        self.phase = BumpPhase::AwaitDisable { k, at_max: true, max_pos: mp };
                        Action::Disable { stepper: idx }
                    } else {
                        let remaining: i64 = mp as i64 - cur as i64;
                        let delta: i32 = if remaining < self.z_up as i64 { remaining as i32 } else { self.z_up };
                        self.phase = BumpPhase::AwaitMove { k, it };
                        Action::RelMove { stepper: idx, delta, rest: None }
                    }
                }
            },
            BumpPhase::AwaitMove { k, it } => {
                let idx = self.targets[k];
                assert(k < self.targets.len());
                match reply {
                    Reply::Stepper(Err(e)) => self.finish_err(OpError::Stepper(e)),
                    Reply::Stepper(Ok(())) => {
                        self.phase = BumpPhase::AwaitStill { k, it };
                        Action::ReadTouch { gpio_index: idx.saturating_sub(self.z_first) }
                    },
                    _ => self.finish_err(OpError::UnexpectedReply),
                }
            },
            BumpPhase::AwaitStill { k, it } => {
                let idx = self.targets[k];
                assert(k < self.targets.len());
                match reply {
                    Reply::Touch(Err(e)) => {
                        self.messages.push(OpMessage::GpioError { stepper: idx, error: e });
                        self.phase = BumpPhase::AwaitReset { k };
                        Action::Reset { stepper: idx, position: self.z_up }
                    },
                    Reply::Touch(Ok(states)) => {
                        let t = if states.len() > 0 { states[0] } else { false };
                        if t {
                            self.phase = BumpPhase::Rested { k, it };
                            Action::Pause(Rest::Z)
                        } else {
                            self.phase = BumpPhase::AwaitReset { k };
                            Action::Reset { stepper: idx, position: self.z_up }
                        }
                    },
                    _ => self.finish_err(OpError::UnexpectedReply),
                }
            },
            BumpPhase::Rested { k, it } => {
                let idx = self.targets[k];
                assert(k < self.targets.len());
                match reply {
                    Reply::Nothing => {
                        if it + 1 >= MAX_MOVE_ITERATIONS {
                            self.phase = BumpPhase::AwaitDisable { k, at_max: false, max_pos: 0 };
                            Action::Disable { stepper: idx }
                        } else {
                            self.phase = BumpPhase::Probe { k, it: it + 1 };
                            Action::Continue
                        }
                    },
                    _ => self.finish_err(OpError::UnexpectedReply),
                }
            },
            BumpPhase::AwaitDisable { k, at_max, max_pos } => {
                let idx = self.targets[k];
                assert(k < self.targets.len());
                match reply {
                    Reply::Stepper(Err(e)) => self.finish_err(OpError::Stepper(e)),
                    Reply::Stepper(Ok(())) => {
                        let m = if at_max {
                            OpMessage::BumpDisablingAtMax { stepper: idx, max_pos }
                        } else {
                            OpMessage::BumpExceededAttempts { stepper: idx }
                        };
                        self.messages.push(m);
                        self.phase = BumpPhase::Next { k: k + 1 };
                        Action::Continue
                    },
                    _ => self.finish_err(OpError::UnexpectedReply),
                }
            },
            BumpPhase::AwaitReset { k } => {
                let idx = self.targets[k];
                assert(k < self.targets.len());
                match reply {
                    Reply::Stepper(Err(e)) => self.finish_err(OpError::Stepper(e)),
                    Reply::Stepper(Ok(())) => {
                        self.messages.push(OpMessage::BumpCleared { stepper: idx, z_up_step: self.z_up });
                        self.phase = BumpPhase::Next { k: k + 1 };
                        Action::Continue
                    },
                    _ => self.finish_err(OpError::UnexpectedReply),
                }
            },
            BumpPhase::Done => Action::Finished,
        };
        assert(self@ =~= bump_step(pre, *ops, exit, reply).0);
        proof { lemma_bump_step_wf(pre, *ops, exit, reply); }
        a
    }

    /// Whether the check has ended.
    pub fn is_done(&self) -> (r: bool)
        ensures
            r == (self@.phase == BumpPhase::Done),
    {
        match self.phase { BumpPhase::Done => true, _ => false }
    }

    /// The report of the check: its messages, or the error that ended it.
    pub fn result(self) -> (r: Result<Vec<OpMessage>, OpError>)
        ensures
            match self@.error {
                Some(e) => r == Err::<Vec<OpMessage>, OpError>(e),
                None => r matches Ok(m) && m@ == self@.messages,
            },
    {
        match self.error {
            Some(e) => Err(e),
            None => Ok(self.messages),
        }
    }
}

impl Operations {
    /// A bump check of every enabled Z stepper, or of the `n`-th only (counted from 1).
    pub fn bump_check(&self, stepper_index: Option<usize>, positions: Vec<i32>, max_positions: HashMap<usize, i32>) -> (r: BumpCheck)
        ensures
            r@ == bump_initial(stepper_index, positions@, max_positions@),
            bump_wf(r@),
    {
        BumpCheck::new(stepper_index, positions, max_positions)
    }

    /// The Z steppers whose bump state is shown, each with its touch-sensor index; none
    /// without GPIO hardware.
    pub fn bump_status_sensors(&self) -> (r: Vec<(usize, usize)>)
        requires
            self.wf(),
        ensures
            r@ == bump_sensors_spec(*self),
    {
        let hardware = match &self.gpio {
            Some(g) => g.exist,
            None => false,
        };
        let mut r: Vec<(usize, usize)> = Vec::new();
        if !hardware {
            assert(r@ =~= bump_sensors_spec(*self));
            return r;
        }
        let n = 2 * self.string_num;
        let mut i: usize = 0;
        while i < n
            invariant
                n == 2 * self.string_num,
                self.wf(),
                i <= n,
                hardware == (self.gpio is Some && self.gpio->0.exist),
                hardware,
                r@ =~= bump_sensors_spec(*self).take(i as int),
            decreases n - i,
        {
            let stepper = self.z_first_index + i;
            r.push((stepper, i));
            i = i + 1;
        }
        assert(r@ =~= bump_sensors_spec(*self));
        r
    }
}

/// The sensors of the bump display: every Z stepper with its sensor index, when there is
/// GPIO hardware.
pub open spec fn bump_sensors_spec(ops: Operations) -> Seq<(usize, usize)> {
    if ops.gpio matches Some(g) && g.exist {
        Seq::new((2 * ops.string_num) as nat, |i: int| ((ops.z_first_index + i) as usize, sensor_index((ops.z_first_index + i) as usize, ops.z_first_index)))
    } else {
        Seq::empty()
    }
}

/// Whether a touch reading says "bumping": its first state, `false` on an error.
pub open spec fn reading_bumps(r: Result<Vec<bool>, String>) -> bool {
    match r {
        Ok(states) => first_touch(states@),
        Err(_) => false,
    }
}

impl Operations {
    /// The bump state of each shown Z stepper (see `bump_status_sensors`) from the
    /// readings of its sensor, in the same order: bumping when the reading's first state
    /// is set; not bumping on a read error or a missing reading.
    pub fn get_bump_status(&self, readings: &Vec<Result<Vec<bool>, String>>) -> (r: Vec<(usize, bool)>)
        requires
            self.wf(),
        ensures
            r@.len() == bump_sensors_spec(*self).len(),
            forall|i: int| 0 <= i < r@.len() ==> #[trigger] r@[i] == (bump_sensors_spec(*self)[i].0,
                i < readings@.len() && reading_bumps(readings@[i])),
    {
        let sensors = self.bump_status_sensors();
        let mut r: Vec<(usize, bool)> = Vec::new();
        let mut i: usize = 0;
        while i < sensors.len()
            invariant
                i <= sensors@.len(),
                sensors@ == bump_sensors_spec(*self),
                r@.len() == i,
                forall|j: int| 0 <= j < i ==> #[trigger] r@[j] == (sensors@[j].0,
                    j < readings@.len() && reading_bumps(readings@[j])),
            decreases sensors@.len() - i,
        {
            let bumping = if i < readings.len() {
                match &readings[i] {
                    Ok(states) => states.len() > 0 && states[0],
                    Err(_) => false,
                }
            } else {
                false
            };
            r.push((sensors[i].0, bumping));
            i = i + 1;
        }
        r
    }
}

} // verus!
