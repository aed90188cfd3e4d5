//! X sweeps: the carriage steps from one end of its range to the other; at each X
//! position Z adjustment and a bump check are repeated until the adjustment level is
//! met by consecutive passes (every string in range), with a Z calibration when the
//! attempts reach the retry threshold or the voice counts vary more than allowed.

use vstd::prelude::*;
use std::collections::HashMap;
use crate::operations::Operations;
use crate::procedure::{Action, Reply, OpError, OpMessage, Rest, Sweep, ChannelReading, seq_get_or};
use crate::bump::{BumpCheck, BumpView, bump_step, bump_wf, bump_initial};
use crate::adjust::{ZAdjustment, AdjView, AdjPhase, adj_step, adj_wf, adj_initial};
use crate::calibrate::{ZCalibration, CalView, CalPhase, cal_step, cal_wf, idle_bump, ops_after, cal_initial};

verus! {

broadcast use vstd::std_specs::hash::group_hash_axioms;

/// String `i` passes: its amplitude sum and voice count are within range.
pub open spec fn string_passes(readings: Seq<ChannelReading>, voice_counts: Seq<usize>, min_voices: Seq<usize>, max_voices: Seq<usize>, i: int) -> bool {
    &&& i < readings.len()
    &&& i < voice_counts.len()
    &&& readings[i].amp_in_range
    &&& seq_get_or(min_voices, i, 0usize) <= voice_counts[i]
    &&& voice_counts[i] <= seq_get_or(max_voices, i, 12usize)
}

/// Every string passes.
pub open spec fn all_pass(readings: Seq<ChannelReading>, voice_counts: Seq<usize>, min_voices: Seq<usize>, max_voices: Seq<usize>, string_num: usize) -> bool {
    forall|i: int| 0 <= i < string_num ==> #[trigger] string_passes(readings, voice_counts, min_voices, max_voices, i)
}

/// A count as the `as i32` conversion sees it.
pub open spec fn count_i32(v: usize) -> int {
    (v as i32) as int
}

/// Sum of `|count_i32(a[k]) - count_i32(b[k])|` over the first `n` entries.
pub open spec fn abs_diff_sum(a: Seq<usize>, b: Seq<usize>, n: nat) -> int
    decreases n,
{
    if n == 0 {
        0
    } else {
        let k = (n - 1) as int;
        let d = count_i32(a[k]) - count_i32(b[k]);
        abs_diff_sum(a, b, (n - 1) as nat) + (if d < 0 { -d } else { d })
    }
}

/// Whether computing the variance in `i32` overflows: a difference outside `i32`,
/// a difference of `i32::MIN` (whose absolute value does not fit), or a sum above `i32::MAX`.
pub open spec fn variance_overflows(a: Seq<usize>, b: Seq<usize>) -> bool {
    ||| exists|k: int| 0 <= k < a.len() && {
        let d = #[trigger] count_i32(a[k]) - count_i32(b[k]);
        d <= i32::MIN || d > i32::MAX
    }
    ||| abs_diff_sum(a, b, a.len()) > i32::MAX
}

proof fn lemma_abs_diff_sum_monotone(a: Seq<usize>, b: Seq<usize>, m: nat, n: nat)
    requires
        m <= n,
    ensures
        abs_diff_sum(a, b, m) <= abs_diff_sum(a, b, n),
    decreases n,
{
    if m < n {
        lemma_abs_diff_sum_monotone(a, b, m, (n - 1) as nat);
    }
}

/// The voice-count variance between two readings (sum of absolute differences), or
/// `None` when computing it in `i32` overflows.
pub fn voice_variance(a: &Vec<usize>, b: &Vec<usize>) -> (r: Option<i32>)
    requires
        a@.len() == b@.len(),
    ensures
        r is None <==> variance_overflows(a@, b@),
        r matches Some(v) ==> v as int == abs_diff_sum(a@, b@, a@.len()),
{
    let mut acc: i64 = 0;
    let mut k: usize = 0;
    while k < a.len()
        invariant
            a@.len() == b@.len(),
            k <= a@.len(),
            acc as int == abs_diff_sum(a@, b@, k as nat),
            0 <= acc <= i32::MAX,
            forall|j: int| 0 <= j < k ==> {
                let d = #[trigger] count_i32(a@[j]) - count_i32(b@[j]);
                i32::MIN < d <= i32::MAX
            },
        decreases a@.len() - k,
    {
        let d: i64 = (a[k] as i32) as i64 - (b[k] as i32) as i64;
        assert(d == count_i32(a@[k as int]) - count_i32(b@[k as int]));
        if d <= i32::MIN as i64 || d > i32::MAX as i64 {
            return None;
        }
        let ad: i64 = if d < 0 { -d } else { d };
        acc = acc + ad;
        assert(acc as int == abs_diff_sum(a@, b@, (k + 1) as nat));
        if acc > i32::MAX as i64 {
            proof { lemma_abs_diff_sum_monotone(a@, b@, (k + 1) as nat, a@.len()); }
            return None;
        }
        k = k + 1;
    }
    Some(acc as i32)
}

/// Whether every string passes, checked in string order.
pub fn check_all_pass(readings: &Vec<ChannelReading>, voice_counts: &Vec<usize>, min_voices: &Vec<usize>, max_voices: &Vec<usize>, string_num: usize) -> (r: bool)
    ensures
        r == all_pass(readings@, voice_counts@, min_voices@, max_voices@, string_num),
{
    let mut i: usize = 0;
    while i < string_num
        invariant
            i <= string_num,
            forall|j: int| 0 <= j < i ==> #[trigger] string_passes(readings@, voice_counts@, min_voices@, max_voices@, j),
        decreases string_num - i,
    {
        if i >= readings.len() || i >= voice_counts.len() {
            assert(!string_passes(readings@, voice_counts@, min_voices@, max_voices@, i as int));
            return false;
        }
        let vc = voice_counts[i];
        let min_v: usize = if i < min_voices.len() { min_voices[i] } else { 0 };
        let max_v: usize = if i < max_voices.len() { max_voices[i] } else { 12 };
        if !(readings[i].amp_in_range && min_v <= vc && vc <= max_v) {
            assert(!string_passes(readings@, voice_counts@, min_voices@, max_voices@, i as int));
            return false;
        }
        i = i + 1;
    }
    true
}

/// Where an X sweep stands.
#[derive(Clone, Copy, Debug, PartialEq, Eq, Structural)]
pub enum SweepPhase {
    Start,
    /// Waiting for the absolute move to the first X position.
    AwaitAbs,
    /// At the top of the X loop.
    Outer,
    /// At the top of the attempt loop at the current X position.
    Inner,
    /// Running the Z adjustment of an attempt.
    Adjusting,
    /// Running the bump check of an attempt.
    Bumping,
    /// Waiting for the audio analysis that judges the attempt.
    AwaitAudio,
    /// Waiting for the X step after the adjustment level was met.
    AwaitStepMove,
    /// About to compare the attempts with the retry threshold.
    Checks,
    /// Running the calibration after the retry threshold was reached.
    CalRetry,
    /// About to compare the voice counts with those of the previous attempt.
    VarianceCheck,
    /// Running the calibration after the variance threshold was exceeded.
    CalVariance,
    Done,
}

/// An X sweep in progress.
#[derive(Debug)]
pub struct XSweep {
    pub sweep: Sweep,
    pub phase: SweepPhase,
    pub positions: Vec<i32>,
    pub max_positions: HashMap<usize, i32>,
    pub min_voices: Vec<usize>,
    pub max_voices: Vec<usize>,
    pub x_idx: usize,
    pub from: i32,
    pub to: i32,
    pub step: i32,
    pub level: i32,
    pub retry: i32,
    pub variance_threshold: i32,
    pub abs_step: i32,
    pub up: bool,
    pub cur: i32,
    pub pass_count: i32,
    pub attempts: i32,
    pub voice_counts: Vec<usize>,
    pub last_voice_counts: Vec<usize>,
    pub adj: ZAdjustment,
    pub bump: BumpCheck,
    pub cal: ZCalibration,
    pub messages: Vec<OpMessage>,
    pub error: Option<OpError>,
}

/// The mathematical state of an X sweep.
#[verifier::ext_equal]
pub struct SweepView {
    pub sweep: Sweep,
    pub phase: SweepPhase,
    pub positions: Seq<i32>,
    pub max_positions: Map<usize, i32>,
    pub min_voices: Seq<usize>,
    pub max_voices: Seq<usize>,
    pub x_idx: usize,
    pub from: i32,
    pub to: i32,
    pub step: i32,
    pub level: i32,
    pub retry: i32,
    pub variance_threshold: i32,
    pub abs_step: i32,
    pub up: bool,
    pub cur: i32,
    pub pass_count: i32,
    pub attempts: i32,
    pub voice_counts: Seq<usize>,
    pub last_voice_counts: Seq<usize>,
    pub adj: AdjView,
    pub bump: BumpView,
    pub cal: CalView,
    pub messages: Seq<OpMessage>,
    pub error: Option<OpError>,
}

impl View for XSweep {
    type V = SweepView;

    open spec fn view(&self) -> SweepView {
        SweepView {
            sweep: self.sweep,
            phase: self.phase,
            positions: self.positions@,
            max_positions: self.max_positions@,
            min_voices: self.min_voices@,
            max_voices: self.max_voices@,
            x_idx: self.x_idx,
            from: self.from,
            to: self.to,
            step: self.step,
            level: self.level,
            retry: self.retry,
            variance_threshold: self.variance_threshold,
            abs_step: self.abs_step,
            up: self.up,
            cur: self.cur,
            pass_count: self.pass_count,
            attempts: self.attempts,
            voice_counts: self.voice_counts@,
            last_voice_counts: self.last_voice_counts@,
            adj: self.adj@,
            bump: self.bump@,
            cal: self.cal@,
            messages: self.messages@,
            error: self.error,
        }
    }
}

/// The placeholder kept where no Z adjustment is running.
pub open spec fn idle_adj() -> AdjView {
    adj_initial(Seq::empty(), Map::empty(), Seq::empty(), Seq::empty())
}

/// The placeholder kept where no calibration is running.
pub open spec fn idle_cal() -> CalView {
    cal_initial(Seq::empty(), Map::empty())
}

/// First and last X position of a sweep: right-left goes from `x_start` to `x_finish`,
/// left-right from `x_finish` to `x_start`.
pub open spec fn sweep_ends(sweep: Sweep, ops: Operations) -> (i32, i32) {
    match sweep {
        Sweep::RightLeft => (ops.x_start, ops.x_finish),
        Sweep::LeftRight => (ops.x_finish, ops.x_start),
    }
}

/// The X move made when the adjustment level is met: the step size toward the last position.
pub open spec fn step_delta(s: SweepView) -> i32 {
    if s.up { s.abs_step } else { (-s.abs_step) as i32 }
}

/// An X sweep that has not started.
pub open spec fn sweep_initial(sweep: Sweep, positions: Seq<i32>, max_positions: Map<usize, i32>, min_voices: Seq<usize>, max_voices: Seq<usize>) -> SweepView {
    SweepView {
        sweep,
        phase: SweepPhase::Start,
        positions,
        max_positions,
        min_voices,
        max_voices,
        x_idx: 0,
        from: 0,
        to: 0,
        step: 0,
        level: 0,
        retry: 0,
        variance_threshold: 0,
        abs_step: 0,
        up: false,
        cur: 0,
        pass_count: 0,
        attempts: 0,
        voice_counts: Seq::empty(),
        last_voice_counts: Seq::empty(),
        adj: idle_adj(),
        bump: idle_bump(),
        cal: idle_cal(),
        messages: Seq::empty(),
        error: None,
    }
}

pub open spec fn sw_goto(s: SweepView, p: SweepPhase, a: Action) -> (SweepView, Option<usize>, Action) {
    (SweepView { phase: p, ..s }, None, a)
}

pub open spec fn sw_finish_ok(s: SweepView) -> (SweepView, Option<usize>, Action) {
    (SweepView { phase: SweepPhase::Done, ..s }, None, Action::Finished)
}

pub open spec fn sw_finish_err(s: SweepView, e: OpError) -> (SweepView, Option<usize>, Action) {
    (SweepView { phase: SweepPhase::Done, error: Some(e), ..s }, None, Action::Finished)
}

pub open spec fn sw_push(s: SweepView, m: OpMessage) -> SweepView {
    SweepView { messages: s.messages.push(m), ..s }
}

/// After the first X position is reached: the position is read again, the step size and
/// the direction fixed (an `i32::MIN` step has no absolute value in `i32`).
pub open spec fn sw_after_initial(s: SweepView) -> (SweepView, Option<usize>, Action) {
    let cur = s.positions[s.x_idx as int];
    let t = sw_push(s, OpMessage::SweepAfterInitial { pos: cur });
    if s.step == i32::MIN {
        sw_finish_err(t, OpError::Overflow)
    } else {
        sw_goto(
            SweepView { cur, abs_step: if s.step < 0 { (-s.step) as i32 } else { s.step }, up: s.to > s.from, pass_count: 0, attempts: 0, ..t },
            SweepPhase::Outer,
            Action::Continue,
        )
    }
}

/// The first step of a sweep: reads the parameters and the X position, and moves X to
/// the first position when it is elsewhere.
pub open spec fn sw_start(s: SweepView, ops: Operations) -> (SweepView, Option<usize>, Action) {
    match ops.x_step_index {
        None => sw_finish_err(s, OpError::XNotConfigured),
        Some(x) => {
            let (from, to) = sweep_ends(s.sweep, ops);
            let t = SweepView {
                x_idx: x,
                from,
                to,
                step: ops.x_step,
                level: ops.adjustment_level,
                retry: ops.retry_threshold,
                variance_threshold: ops.z_variance_threshold,
                messages: seq![OpMessage::SweepStart { sweep: s.sweep, from, to, step: ops.x_step }],
                ..s
            };
            if x >= s.positions.len() {
                sw_finish_err(t, OpError::XPositionUnavailable)
            } else {
                let cur = s.positions[x as int];
                let t2 = sw_push(t, OpMessage::SweepCurrentX { pos: cur });
                if cur != from {
                    sw_goto(
                        sw_push(t2, OpMessage::SweepMovingAbs { target: from, current: cur }),
                        SweepPhase::AwaitAbs,
                        Action::AbsMove { stepper: x, position: from },
                    )
                } else {
                    sw_after_initial(t2)
                }
            }
        },
    }
}

/// What happens after a calibration of the attempt loop ended without error: its
/// messages join the report, the counters restart, and the loop goes on.
pub open spec fn sw_after_cal(s: SweepView, c: CalView, retry_cal: bool) -> SweepView {
    if retry_cal {
        SweepView { cal: idle_cal(), messages: s.messages + c.messages, pass_count: 0, attempts: 0, phase: SweepPhase::VarianceCheck, ..s }
    } else {
        SweepView {
            cal: idle_cal(),
            messages: s.messages + c.messages,
            pass_count: 0,
            attempts: 0,
            last_voice_counts: s.voice_counts,
            phase: SweepPhase::Inner,
            ..s
        }
    }
}

/// A step of a running calibration of the attempt loop.
pub open spec fn sw_cal_step(s: SweepView, ops: Operations, exit: bool, reply: Reply, retry_cal: bool) -> (SweepView, Option<usize>, Action) {
    let (c, dis, a) = cal_step(s.cal, ops, exit, reply);
    if a != Action::Finished {
        (SweepView { cal: c, ..s }, dis, a)
    } else {
        match c.error {
            Some(e) => (SweepView { cal: idle_cal(), phase: SweepPhase::Done, error: Some(e), ..s }, dis, Action::Finished),
            None => (sw_after_cal(s, c, retry_cal), dis, Action::Continue),
        }
    }
}

/// One step of an X sweep: next state, stepper whose enable flag is cleared (if any), next action.
pub open spec fn sw_step(s: SweepView, ops: Operations, exit: bool, reply: Reply) -> (SweepView, Option<usize>, Action) {
    match s.phase {
        SweepPhase::Start => sw_start(s, ops),
        SweepPhase::AwaitAbs => match reply {
            Reply::Stepper(Err(e)) => sw_finish_err(s, OpError::Stepper(e)),
            Reply::Stepper(Ok(())) => sw_after_initial(s),
            _ => sw_finish_err(s, OpError::UnexpectedReply),
        },
        SweepPhase::Outer => {
            if !((s.up && s.cur < s.to) || (!s.up && s.cur > s.to)) {
                sw_finish_ok(sw_push(s, OpMessage::SweepComplete { sweep: s.sweep }))
            } else if exit {
                sw_finish_ok(sw_push(s, OpMessage::SweepCancelled))
            } else {
                sw_goto(
                    SweepView { pass_count: 0, attempts: 0, last_voice_counts: Seq::empty(), ..s },
                    SweepPhase::Inner,
                    Action::Continue,
                )
            }
        },
        SweepPhase::Inner => {
            if exit {
                sw_finish_ok(sw_push(s, OpMessage::SweepCancelled))
            } else {
                sw_goto(
                    SweepView {
                        attempts: (s.attempts + 1) as i32,
                        adj: adj_initial(s.positions, s.max_positions, s.min_voices, s.max_voices),
                        ..s
                    },
                    SweepPhase::Adjusting,
                    Action::Continue,
                )
            }
        },
        SweepPhase::Adjusting => {
            let (a2, act) = adj_step(s.adj, ops, exit, reply);
            if act != Action::Finished {
                (SweepView { adj: a2, ..s }, None, act)
            } else {
                match a2.error {
                    Some(e) => sw_finish_err(SweepView { adj: idle_adj(), ..s }, e),
                    None => sw_goto(
                        SweepView { adj: idle_adj(), bump: bump_initial(None, s.positions, s.max_positions), ..s },
                        SweepPhase::Bumping,
                        Action::Continue,
                    ),
                }
            }
        },
        SweepPhase::Bumping => {
            let (b2, act) = bump_step(s.bump, ops, exit, reply);
            if act != Action::Finished {
                (SweepView { bump: b2, ..s }, None, act)
            } else {
                match b2.error {
                    Some(e) => sw_finish_err(SweepView { bump: idle_bump(), ..s }, e),
                    None => sw_goto(SweepView { bump: idle_bump(), ..s }, SweepPhase::AwaitAudio, Action::ReadAudio),
                }
            }
        },
        SweepPhase::AwaitAudio => match reply {
            Reply::Audio(readings) => {
                let vcs = ops.voice_count@;
                if all_pass(readings@, vcs, s.min_voices, s.max_voices, ops.string_num) {
                    let pc = (s.pass_count + 1) as i32;
                    let t = sw_push(
                        SweepView { voice_counts: vcs, ..s },
                        OpMessage::SweepPass { count: pc, level: s.level, x: s.cur, attempt: s.attempts },
                    );
                    if pc >= s.level {
                        sw_goto(
                            sw_push(t, OpMessage::SweepLevelMet { level: s.level, x: s.cur, attempts: s.attempts, step: s.abs_step }),
                            SweepPhase::AwaitStepMove,
                            Action::RelMove { stepper: s.x_idx, delta: step_delta(s), rest: Some(Rest::X) },
                        )
                    } else {
                        sw_goto(SweepView { pass_count: pc, ..t }, SweepPhase::Checks, Action::Continue)
                    }
                } else {
                    let t = if s.pass_count > 0 {
                        sw_push(s, OpMessage::SweepFailed { x: s.cur, count: s.pass_count })
                    } else {
                        s
                    };
                    sw_goto(SweepView { pass_count: 0, voice_counts: vcs, ..t }, SweepPhase::Checks, Action::Continue)
                }
            },
            _ => sw_finish_err(s, OpError::UnexpectedReply),
        },
        SweepPhase::AwaitStepMove => match reply {
            Reply::Stepper(Err(e)) => sw_finish_err(s, OpError::Stepper(e)),
            Reply::Stepper(Ok(())) => {
                let cur = s.positions[s.x_idx as int];
                sw_goto(
                    sw_push(
                        SweepView { cur, pass_count: 0, attempts: 0, ..s },
                        OpMessage::SweepMoved { delta: step_delta(s), pos: cur },
                    ),
                    SweepPhase::Outer,
                    Action::Continue,
                )
            },
            _ => sw_finish_err(s, OpError::UnexpectedReply),
        },
        SweepPhase::Checks => {
            if s.attempts >= s.retry {
                sw_goto(
                    SweepView {
                        cal: cal_initial(s.positions, s.max_positions),
                        ..sw_push(s, OpMessage::SweepRetryExceeded { threshold: s.retry, x: s.cur })
                    },
                    SweepPhase::CalRetry,
                    Action::Continue,
                )
            } else {
                sw_goto(s, SweepPhase::VarianceCheck, Action::Continue)
            }
        },
        SweepPhase::CalRetry => sw_cal_step(s, ops, exit, reply, true),
        SweepPhase::VarianceCheck => {
            if s.last_voice_counts.len() > 0 && s.last_voice_counts.len() == s.voice_counts.len() {
                if variance_overflows(s.voice_counts, s.last_voice_counts) {
                    sw_finish_err(s, OpError::Overflow)
                } else if abs_diff_sum(s.voice_counts, s.last_voice_counts, s.voice_counts.len()) > s.variance_threshold {
                    sw_goto(
                        SweepView {
                            cal: cal_initial(s.positions, s.max_positions),
                            ..sw_push(s, OpMessage::SweepVarianceExceeded { threshold: s.variance_threshold, x: s.cur })
                        },
                        SweepPhase::CalVariance,
                        Action::Continue,
                    )
                } else {
                    sw_goto(SweepView { last_voice_counts: s.voice_counts, ..s }, SweepPhase::Inner, Action::Continue)
                }
            } else {
                sw_goto(SweepView { last_voice_counts: s.voice_counts, ..s }, SweepPhase::Inner, Action::Continue)
            }
        },
        SweepPhase::CalVariance => sw_cal_step(s, ops, exit, reply, false),
        SweepPhase::Done => (s, None, Action::Finished),
    }
}

/// The X position is known, the counters stay below their thresholds, and a running
/// sub-procedure is well formed.
pub open spec fn sw_wf(s: SweepView) -> bool {
    match s.phase {
        SweepPhase::Start | SweepPhase::Done => true,
        SweepPhase::AwaitAbs => s.x_idx < s.positions.len(),
        _ => {
            &&& s.x_idx < s.positions.len()
            &&& s.cur == s.positions[s.x_idx as int]
            &&& s.up == (s.to > s.from)
            &&& 0 <= s.abs_step
            &&& 0 <= s.attempts
            &&& 0 <= s.pass_count
            &&& (s.pass_count == 0 || s.pass_count < s.level)
            &&& (s.phase == SweepPhase::Inner || s.phase == SweepPhase::VarianceCheck || s.phase == SweepPhase::CalVariance)
                ==> (s.attempts == 0 || s.attempts < s.retry)
            &&& s.phase == SweepPhase::Adjusting ==> adj_wf(s.adj)
            &&& s.phase == SweepPhase::Bumping ==> bump_wf(s.bump)
            &&& (s.phase == SweepPhase::CalRetry || s.phase == SweepPhase::CalVariance) ==> cal_wf(s.cal)
        },
    }
}

/// Every step keeps an X sweep well formed.
pub proof fn lemma_sw_step_wf(s: SweepView, ops: Operations, exit: bool, reply: Reply)
    requires
        sw_wf(s),
        ops.wf(),
    ensures
        sw_wf(sw_step(s, ops, exit, reply).0),
{
    match s.phase {
        SweepPhase::Adjusting => {
            crate::adjust::lemma_adj_step_wf(s.adj, ops, exit, reply);
            assert(bump_wf(bump_initial(None, s.positions, s.max_positions)));
        },
        SweepPhase::Bumping => { crate::bump::lemma_bump_step_wf(s.bump, ops, exit, reply); },
        SweepPhase::CalRetry | SweepPhase::CalVariance => { crate::calibrate::lemma_cal_step_wf(s.cal, ops, exit, reply); },
        _ => {},
    }
}

/// The moves a sweep makes itself: the X stepper alone is moved. It goes to the first
/// position by an absolute move only at the start, and by one step of the step size toward
/// the last position, with an X rest, only when every string passed and the passes in a
/// row reach the adjustment level. Moves inside the Z adjustments, bump checks and
/// calibrations obey their own bounds.
pub proof fn lemma_sweep_moves(s: SweepView, ops: Operations, exit: bool, reply: Reply)
    requires
        sw_wf(s),
        ops.wf(),
    ensures
        ({
            let (t, dis, a) = sw_step(s, ops, exit, reply);
            &&& a matches Action::AbsMove { stepper, position } ==> {
                &&& s.phase == SweepPhase::Start
                &&& ops.x_step_index == Some(stepper)
                &&& position == sweep_ends(s.sweep, ops).0
            }
            &&& s.phase == SweepPhase::AwaitAudio ==> (a matches Action::RelMove { stepper, delta, rest } ==> {
                &&& stepper == s.x_idx
                &&& delta == step_delta(s)
                &&& (delta > 0 ==> s.to > s.from)
                &&& (delta < 0 ==> s.to <= s.from)
                &&& rest == Some(Rest::X)
                &&& reply matches Reply::Audio(r) && all_pass(r@, ops.voice_count@, s.min_voices, s.max_voices, ops.string_num)
                &&& s.pass_count + 1 >= s.level
            })
            &&& (a matches Action::RelMove { .. } || a matches Action::Disable { .. } || dis is Some)
                ==> (s.phase == SweepPhase::AwaitAudio || s.phase == SweepPhase::Adjusting || s.phase == SweepPhase::Bumping
                    || s.phase == SweepPhase::CalRetry || s.phase == SweepPhase::CalVariance)
        }),
{
}

/// A sweep starts a calibration only when the attempts at the current X position reach
/// the retry threshold, or when the voice counts moved more than the variance threshold
/// since the previous attempt.
pub proof fn lemma_sweep_calibrates_only_when(s: SweepView, ops: Operations, exit: bool, reply: Reply)
    requires
        sw_wf(s),
        ops.wf(),
    ensures
        ({
            let t = sw_step(s, ops, exit, reply).0;
            &&& (t.phase == SweepPhase::CalRetry && s.phase != SweepPhase::CalRetry) ==> {
                &&& s.phase == SweepPhase::Checks
                &&& s.attempts >= s.retry
                &&& t.cal == cal_initial(s.positions, s.max_positions)
            }
            &&& (t.phase == SweepPhase::CalVariance && s.phase != SweepPhase::CalVariance) ==> {
                &&& s.phase == SweepPhase::VarianceCheck
                &&& s.last_voice_counts.len() > 0
                &&& s.last_voice_counts.len() == s.voice_counts.len()
                &&& abs_diff_sum(s.voice_counts, s.last_voice_counts, s.voice_counts.len()) > s.variance_threshold
            }
        }),
{
}

impl XSweep {
    /// A sweep in direction `sweep` that has not started. `min_voices`/`max_voices` give
    /// each string's voice-count range (0 and 12 where absent).
    pub fn new(sweep: Sweep, positions: Vec<i32>, max_positions: HashMap<usize, i32>, min_voices: Vec<usize>, max_voices: Vec<usize>) -> (r: Self)
        ensures
            r@ == sweep_initial(sweep, positions@, max_positions@, min_voices@, max_voices@),
            sw_wf(r@),
    {
        let r = XSweep {
            sweep,
            phase: SweepPhase::Start,
            positions,
            max_positions,
            min_voices,
            max_voices,
            x_idx: 0,
            from: 0,
            to: 0,
            step: 0,
            level: 0,
            retry: 0,
            variance_threshold: 0,
            abs_step: 0,
            up: false,
            cur: 0,
            pass_count: 0,
            attempts: 0,
            voice_counts: Vec::new(),
            last_voice_counts: Vec::new(),
            adj: ZAdjustment::new(Vec::new(), HashMap::new(), Vec::new(), Vec::new()),
            bump: BumpCheck::new(None, Vec::new(), HashMap::new()),
            cal: ZCalibration::new(Vec::new(), HashMap::new()),
            messages: Vec::new(),
            error: None,
        };
        assert(r@ =~= sweep_initial(sweep, positions@, max_positions@, min_voices@, max_voices@));
        r
    }

    fn finish_err(&mut self, e: OpError) -> (a: Action)
        ensures
            (final(self)@, None::<usize>, a) == sw_finish_err(old(self)@, e),
    {
        self.phase = SweepPhase::Done;
        self.error = Some(e);
        Action::Finished
    }

    fn after_initial(&mut self) -> (a: Action)
        requires
            old(self)@.x_idx < old(self)@.positions.len(),
        ensures
            (final(self)@, None::<usize>, a) == sw_after_initial(old(self)@),
    {
        let cur = self.positions[self.x_idx];
        self.messages.push(OpMessage::SweepAfterInitial { pos: cur });
        if self.step == i32::MIN {
            return self.finish_err(OpError::Overflow);
        }
        self.cur = cur;
        self.abs_step = if self.step < 0 { -self.step } else { self.step };
        self.up = self.to > self.from;
        self.pass_count = 0;
        self.attempts = 0;
        self.phase = SweepPhase::Outer;
        Action::Continue
    }

    fn start(&mut self, ops: &Operations) -> (a: Action)
        requires
            old(self)@.phase == SweepPhase::Start,
        ensures
            (final(self)@, None::<usize>, a) == sw_start(old(self)@, *ops),
    {
        let x = match ops.x_step_index {
            None => { return self.finish_err(OpError::XNotConfigured); },
            Some(x) => x,
        };
        let (from, to) = match self.sweep {
            Sweep::RightLeft => (ops.x_start, ops.x_finish),
            Sweep::LeftRight => (ops.x_finish, ops.x_start),
        };
        self.x_idx = x;
        self.from = from;
        self.to = to;
        self.step = ops.x_step;
        self.level = ops.adjustment_level;
        self.retry = ops.retry_threshold;
        self.variance_threshold = ops.z_variance_threshold;
        self.messages = vec![OpMessage::SweepStart { sweep: self.sweep, from, to, step: ops.x_step }];
        if x >= self.positions.len() {
            return self.finish_err(OpError::XPositionUnavailable);
        }
        let cur = self.positions[x];
        self.messages.push(OpMessage::SweepCurrentX { pos: cur });
        if cur != from {
            self.messages.push(OpMessage::SweepMovingAbs { target: from, current: cur });
            self.phase = SweepPhase::AwaitAbs;
            Action::AbsMove { stepper: x, position: from }
        } else {
            self.after_initial()
        }
    }

    fn step_cal(&mut self, ops: &mut Operations, exit: bool, reply: Reply, retry_cal: bool) -> (a: Action)
        requires
            old(ops).wf(),
            cal_wf(old(self)@.cal),
        ensures
            final(self)@ == sw_cal_step(old(self)@, *old(ops), exit, reply, retry_cal).0,
            ops_after(*old(ops), *final(ops), sw_cal_step(old(self)@, *old(ops), exit, reply, retry_cal).1),
            a == sw_cal_step(old(self)@, *old(ops), exit, reply, retry_cal).2,
            final(ops).wf(),
    {
        let ghost pre = self@;
        let a = self.cal.step(ops, exit, reply);
        match a {
            Action::Finished => {
                let mut done = ZCalibration::new(Vec::new(), HashMap::new());
                std::mem::swap(&mut done, &mut self.cal);
                match done.result() {
                    Err(e) => {
                        self.phase = SweepPhase::Done;
                        self.error = Some(e);
                        Action::Finished
                    },
                    Ok(mut ms) => {
                        self.messages.append(&mut ms);
                        self.pass_count = 0;
                        self.attempts = 0;
                        if retry_cal {
                            self.phase = SweepPhase::VarianceCheck;
                        } else {
                            let v = self.voice_counts.clone();
                            assert(v@ =~= self.voice_counts@);
                            self.last_voice_counts = v;
                            self.phase = SweepPhase::Inner;
                        }
                        Action::Continue
                    },
                }
            },
            _ => a,
        }
    }

    /// Advances the sweep by one step.
    pub fn step(&mut self, ops: &mut Operations, exit: bool, reply: Reply) -> (a: Action)
        requires
            old(ops).wf(),
            sw_wf(old(self)@),
        ensures
            final(self)@ == sw_step(old(self)@, *old(ops), exit, reply).0,
            ops_after(*old(ops), *final(ops), sw_step(old(self)@, *old(ops), exit, reply).1),
            a == sw_step(old(self)@, *old(ops), exit, reply).2,
            final(ops).wf(),
            sw_wf(final(self)@),
    {
        let ghost pre = self@;
        let ghost ops0 = *ops;
        let a = match self.phase {
            SweepPhase::Start => self.start(ops),
            SweepPhase::AwaitAbs => match reply {
                Reply::Stepper(Err(e)) => self.finish_err(OpError::Stepper(e)),
                Reply::Stepper(Ok(())) => self.after_initial(),
                _ => self.finish_err(OpError::UnexpectedReply),
            },
            SweepPhase::Outer => {
                if !((self.up && self.cur < self.to) || (!self.up && self.cur > self.to)) {
                    self.messages.push(OpMessage::SweepComplete { sweep: self.sweep });
                    self.phase = SweepPhase::Done;
                    Action::Finished
                } else if exit {
                    self.messages.push(OpMessage::SweepCancelled);
                    self.phase = SweepPhase::Done;
                    Action::Finished
                } else {
                    self.pass_count = 0;
                    self.attempts = 0;
                    self.last_voice_counts = Vec::new();
                    self.phase = SweepPhase::Inner;
                    Action::Continue
                }
            },
            SweepPhase::Inner => {
                if exit {
                    self.messages.push(OpMessage::SweepCancelled);
                    self.phase = SweepPhase::Done;
                    Action::Finished
                } else {
                    self.attempts = self.attempts + 1;
                    let p = self.positions.clone();
                    assert(p@ =~= self.positions@);
                    let lo = self.min_voices.clone();
                    assert(lo@ =~= self.min_voices@);
                    let hi = self.max_voices.clone();
                    assert(hi@ =~= self.max_voices@);
                    self.adj = ZAdjustment::new(p, self.max_positions.clone(), lo, hi);
                    self.phase = SweepPhase::Adjusting;
                    Action::Continue
                }
            },
            SweepPhase::Adjusting => {
                let a = self.adj.step(ops, exit, reply);
                match a {
                    Action::Finished => {
                        let mut done = ZAdjustment::new(Vec::new(), HashMap::new(), Vec::new(), Vec::new());
                        std::mem::swap(&mut done, &mut self.adj);
                        match done.result() {
                            Err(e) => self.finish_err(e),
                            Ok(_) => {
                                let p = self.positions.clone();
                                assert(p@ =~= self.positions@);
                                self.bump = BumpCheck::new(None, p, self.max_positions.clone());
                                self.phase = SweepPhase::Bumping;
                                Action::Continue
                            },
                        }
                    },
                    _ => a,
                }
            },
            SweepPhase::Bumping => {
                let a = self.bump.step(ops, exit, reply);
                match a {
                    Action::Finished => {
                        let mut done = BumpCheck::new(None, Vec::new(), HashMap::new());
                        std::mem::swap(&mut done, &mut self.bump);
                        match done.result() {
                            Err(e) => self.finish_err(e),
                            Ok(_) => {
                                self.phase = SweepPhase::AwaitAudio;
                                Action::ReadAudio
                            },
                        }
                    },
                    _ => a,
                }
            },
            SweepPhase::AwaitAudio => match reply {
                Reply::Audio(readings) => {
                    let vcs = ops.voice_count.clone();
                    assert(vcs@ =~= ops.voice_count@);
                    let pass = check_all_pass(&readings, &vcs, &self.min_voices, &self.max_voices, ops.string_num);
                    if pass {
                        let pc = self.pass_count + 1;
                        self.voice_counts = vcs;
                        self.messages.push(OpMessage::SweepPass { count: pc, level: self.level, x: self.cur, attempt: self.attempts });
                        if pc >= self.level {
                            self.messages.push(OpMessage::SweepLevelMet {
                                level: self.level,
                                x: self.cur,
                                attempts: self.attempts,
                                step: self.abs_step,
                            });
                            self.phase = SweepPhase::AwaitStepMove;
                            let d = if self.up { self.abs_step } else { -self.abs_step };
                            Action::RelMove { stepper: self.x_idx, delta: d, rest: Some(Rest::X) }
                        } else {
                            self.pass_count = pc;
                            self.phase = SweepPhase::Checks;
                            Action::Continue
                        }
                    } else {
                        if self.pass_count > 0 {
                            self.messages.push(OpMessage::SweepFailed { x: self.cur, count: self.pass_count });
                        }
                        self.pass_count = 0;
                        self.voice_counts = vcs;
                        self.phase = SweepPhase::Checks;
                        Action::Continue
                    }
                },
                _ => self.finish_err(OpError::UnexpectedReply),
            },
            SweepPhase::AwaitStepMove => match reply {
                Reply::Stepper(Err(e)) => self.finish_err(OpError::Stepper(e)),
                Reply::Stepper(Ok(())) => {
                    let d = if self.up { self.abs_step } else { -self.abs_step };
                    let cur = self.positions[self.x_idx];
                    self.cur = cur;
                    self.pass_count = 0;
                    self.attempts = 0;
                    self.messages.push(OpMessage::SweepMoved { delta: d, pos: cur });
                    self.phase = SweepPhase::Outer;
                    Action::Continue
                },
                _ => self.finish_err(OpError::UnexpectedReply),
            },
            SweepPhase::Checks => {
                if self.attempts >= self.retry {
                    self.messages.push(OpMessage::SweepRetryExceeded { threshold: self.retry, x: self.cur });
                    let p = self.positions.clone();
                    assert(p@ =~= self.positions@);
                    self.cal = ZCalibration::new(p, self.max_positions.clone());
                    self.phase = SweepPhase::CalRetry;
                } else {
                    self.phase = SweepPhase::VarianceCheck;
                }
                Action::Continue
            },
            SweepPhase::CalRetry => self.step_cal(ops, exit, reply, true),
            SweepPhase::VarianceCheck => {
                let comparable = self.last_voice_counts.len() > 0 && self.last_voice_counts.len() == self.voice_counts.len();
                if comparable {
                    match voice_variance(&self.voice_counts, &self.last_voice_counts) {
                        None => self.finish_err(OpError::Overflow),
                        Some(v) => {
                            if v > self.variance_threshold {
                                self.messages.push(OpMessage::SweepVarianceExceeded { threshold: self.variance_threshold, x: self.cur });
                                let p = self.positions.clone();
                                assert(p@ =~= self.positions@);
                                self.cal = ZCalibration::new(p, self.max_positions.clone());
                                self.phase = SweepPhase::CalVariance;
                            } else {
                                let vc = self.voice_counts.clone();
                                assert(vc@ =~= self.voice_counts@);
                                self.last_voice_counts = vc;
                                self.phase = SweepPhase::Inner;
                            }
                            Action::Continue
                        },
                    }
                } else {
                    let vc = self.voice_counts.clone();
                    assert(vc@ =~= self.voice_counts@);
                    self.last_voice_counts = vc;
                    self.phase = SweepPhase::Inner;
                    Action::Continue
                }
            },
            SweepPhase::CalVariance => self.step_cal(ops, exit, reply, false),
            SweepPhase::Done => Action::Finished,
        };
        assert(self@ =~= sw_step(pre, ops0, exit, reply).0);
        proof { lemma_sw_step_wf(pre, ops0, exit, reply); }
        a
    }

    /// Whether the sweep has ended.
    pub fn is_done(&self) -> (r: bool)
        ensures
            r == (self@.phase == SweepPhase::Done),
    {
        match self.phase { SweepPhase::Done => true, _ => false }
    }

    /// The report of the sweep: its messages, or the error that ended it.
    pub fn result(self) -> (r: Result<Vec<OpMessage>, OpError>)
        ensures
            match self@.error {
                Some(e) => r == Err::<Vec<OpMessage>, OpError>(e),
                None => r matches Ok(m) && m@ == self@.messages,
            },
    {
        match self.error {
            Some(e) => Err(e),
            None => Ok(self.messages),
        }
    }
}

impl Operations {
    /// A sweep from `x_start` to `x_finish`.
    pub fn right_left_move(&self, positions: Vec<i32>, max_positions: HashMap<usize, i32>, min_voices: Vec<usize>, max_voices: Vec<usize>) -> (r: XSweep)
        ensures
            r@ == sweep_initial(Sweep::RightLeft, positions@, max_positions@, min_voices@, max_voices@),
            sw_wf(r@),
    {
        XSweep::new(Sweep::RightLeft, positions, max_positions, min_voices, max_voices)
    }

    /// A sweep from `x_finish` to `x_start`.
    pub fn left_right_move(&self, positions: Vec<i32>, max_positions: HashMap<usize, i32>, min_voices: Vec<usize>, max_voices: Vec<usize>) -> (r: XSweep)
        ensures
            r@ == sweep_initial(Sweep::LeftRight, positions@, max_positions@, min_voices@, max_voices@),
            sw_wf(r@),
    {
        XSweep::new(Sweep::LeftRight, positions, max_positions, min_voices, max_voices)
    }
}

} // verus!
