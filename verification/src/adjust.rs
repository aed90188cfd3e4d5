//! Z adjustment: after a bump check, each string whose amplitude sum or voice count is
//! above its range has its closest Z stepper moved up by the up step, and each string
//! below its range has its farthest Z stepper moved down by the down step; a bump check follows.

use vstd::prelude::*;
use std::collections::HashMap;
use crate::operations::Operations;
use crate::procedure::{Action, Reply, OpError, OpMessage, Rest, ChannelReading, seq_get_or, map_get_or, Progress, progress_less, progress_valid};
use crate::bump::{BumpCheck, BumpView, BumpPhase, bump_step, bump_wf, bump_initial, bump_measure, lemma_bump_terminates, lemma_bump_measure_valid, lemma_bump_start_leaves_start};
use crate::calibrate::idle_bump;

verus! {

broadcast use vstd::std_specs::hash::group_hash_axioms;

/// Where a Z adjustment stands.
#[derive(Clone, Copy, Debug, PartialEq, Eq, Structural)]
pub enum AdjPhase {
    Start,
    AwaitAudio,
    InitialBump,
    /// About to examine string `i`.
    Examine { i: usize },
    /// Waiting for the move of `stepper` for string `i` (`close`: moved up).
    AwaitMove { i: usize, stepper: usize, close: bool },
    /// Waiting for the lap rest after string `i`.
    AwaitLap { i: usize },
    FinalBump,
    Done,
}

/// A Z adjustment in progress.
#[derive(Debug)]
pub struct ZAdjustment {
    pub phase: AdjPhase,
    pub positions: Vec<i32>,
    pub max_positions: HashMap<usize, i32>,
    pub min_voices: Vec<usize>,
    pub max_voices: Vec<usize>,
    pub enabled: HashMap<usize, bool>,
    pub z_up: i32,
    pub z_down: i32,
    pub z_first: usize,
    pub string_num: usize,
    pub readings: Vec<ChannelReading>,
    pub voice_counts: Vec<usize>,
    pub sub: BumpCheck,
    pub messages: Vec<OpMessage>,
    pub error: Option<OpError>,
}

/// The mathematical state of a Z adjustment.
#[verifier::ext_equal]
pub struct AdjView {
    pub phase: AdjPhase,
    pub positions: Seq<i32>,
    pub max_positions: Map<usize, i32>,
    pub min_voices: Seq<usize>,
    pub max_voices: Seq<usize>,
    pub enabled: Map<usize, bool>,
    pub z_up: i32,
    pub z_down: i32,
    pub z_first: usize,
    pub string_num: usize,
    pub readings: Seq<ChannelReading>,
    pub voice_counts: Seq<usize>,
    pub sub: BumpView,
    pub messages: Seq<OpMessage>,
    pub error: Option<OpError>,
}

impl View for ZAdjustment {
    type V = AdjView;

    open spec fn view(&self) -> AdjView {
        AdjView {
            phase: self.phase,
            positions: self.positions@,
            max_positions: self.max_positions@,
            min_voices: self.min_voices@,
            max_voices: self.max_voices@,
            enabled: self.enabled@,
            z_up: self.z_up,
            z_down: self.z_down,
            z_first: self.z_first,
            string_num: self.string_num,
            readings: self.readings@,
            voice_counts: self.voice_counts@,
            sub: self.sub@,
            messages: self.messages@,
            error: self.error,
        }
    }
}

/// The "in" Z stepper of string `i`.
pub open spec fn z_in_of(s: AdjView, i: usize) -> usize {
    (s.z_first + 2 * i) as usize
}

/// The "out" Z stepper of string `i`.
pub open spec fn z_out_of(s: AdjView, i: usize) -> usize {
    (s.z_first + 2 * i + 1) as usize
}

/// String `i` is too close: amplitude or voice count above its range.
pub open spec fn too_close(s: AdjView, i: usize) -> bool {
    s.readings[i as int].amp_above_max || s.voice_counts[i as int] > seq_get_or(s.max_voices, i as int, 12usize)
}

/// String `i` is too far: amplitude or voice count below its range.
pub open spec fn too_far(s: AdjView, i: usize) -> bool {
    s.readings[i as int].amp_below_min || s.voice_counts[i as int] < seq_get_or(s.min_voices, i as int, 0usize)
}

/// Which stepper of string `i` moves. With both enabled: when too close, the one
/// nearer the string (smaller position); when too far, the one farther away; ties
/// alternate with the parity of the string.
pub open spec fn chosen_stepper(s: AdjView, i: usize, in_en: bool, out_en: bool, close: bool) -> usize {
    let zi = z_in_of(s, i);
    let zo = z_out_of(s, i);
    let pi = seq_get_or(s.positions, zi as int, 0i32);
    let po = seq_get_or(s.positions, zo as int, 0i32);
    if !in_en {
        zo
    } else if !out_en {
        zi
    } else if close {
        if pi < po { zi } else if po < pi { zo } else if i % 2 == 0 { zi } else { zo }
    } else {
        if pi > po { zi } else if po > pi { zo } else if i % 2 == 0 { zo } else { zi }
    }
}

/// A Z adjustment that has not started.
pub open spec fn adj_initial(positions: Seq<i32>, max_positions: Map<usize, i32>, min_voices: Seq<usize>, max_voices: Seq<usize>) -> AdjView {
    AdjView {
        phase: AdjPhase::Start,
        positions,
        max_positions,
        min_voices,
        max_voices,
        enabled: Map::empty(),
        z_up: 0,
        z_down: 0,
        z_first: 0,
        string_num: 0,
        readings: Seq::empty(),
        voice_counts: Seq::empty(),
        sub: idle_bump(),
        messages: Seq::empty(),
        error: None,
    }
}

pub open spec fn adj_goto(s: AdjView, p: AdjPhase, a: Action) -> (AdjView, Action) {
    (AdjView { phase: p, ..s }, a)
}

pub open spec fn adj_finish_ok(s: AdjView) -> (AdjView, Action) {
    (AdjView { phase: AdjPhase::Done, ..s }, Action::Finished)
}

pub open spec fn adj_finish_err(s: AdjView, e: OpError) -> (AdjView, Action) {
    (AdjView { phase: AdjPhase::Done, error: Some(e), ..s }, Action::Finished)
}

pub open spec fn adj_push(s: AdjView, m: OpMessage) -> AdjView {
    AdjView { messages: s.messages.push(m), ..s }
}

/// One step of a Z adjustment.
pub open spec fn adj_step(s: AdjView, ops: Operations, exit: bool, reply: Reply) -> (AdjView, Action) {
    match s.phase {
        AdjPhase::Start => adj_goto(
            AdjView {
                enabled: ops.stepper_enabled@,
                z_up: ops.z_up_step,
                z_down: ops.z_down_step,
                z_first: ops.z_first_index,
                string_num: ops.string_num,
                ..s
            },
            AdjPhase::AwaitAudio,
            Action::ReadAudio,
        ),
        AdjPhase::AwaitAudio => match reply {
            Reply::Audio(readings) => adj_goto(
                AdjView {
                    readings: readings@,
                    voice_counts: ops.voice_count@,
                    messages: s.messages.push(OpMessage::AdjRunningInitialBump),
                    sub: bump_initial(None, s.positions, s.max_positions),
                    ..s
                },
                AdjPhase::InitialBump,
                Action::Continue,
            ),
            _ => adj_finish_err(s, OpError::UnexpectedReply),
        },
        AdjPhase::InitialBump => {
            let (b, a) = bump_step(s.sub, ops, exit, reply);
            if a != Action::Finished {
                (AdjView { sub: b, ..s }, a)
            } else {
                match b.error {
                    Some(e) => adj_finish_err(AdjView { sub: idle_bump(), ..s }, e),
                    None => adj_goto(
                        AdjView { sub: idle_bump(), messages: (s.messages + b.messages).push(OpMessage::AdjStarting), ..s },
                        AdjPhase::Examine { i: 0 },
                        Action::Continue,
                    ),
                }
            }
        },
        AdjPhase::Examine { i } => {
            if i >= s.string_num {
                adj_goto(
                    AdjView {
                        messages: s.messages.push(OpMessage::AdjRunningFinalBump),
                        sub: bump_initial(None, s.positions, s.max_positions),
                        ..s
                    },
                    AdjPhase::FinalBump,
                    Action::Continue,
                )
            } else if exit {
                adj_finish_ok(adj_push(s, OpMessage::AdjCancelled))
            } else if i >= s.readings.len() || i >= s.voice_counts.len() {
                adj_goto(s, AdjPhase::Examine { i: (i + 1) as usize }, Action::Continue)
            } else {
                let in_en = map_get_or(s.enabled, z_in_of(s, i), false);
                let out_en = map_get_or(s.enabled, z_out_of(s, i), false);
                let r = s.readings[i as int];
                let vc = s.voice_counts[i as int];
                if !in_en && !out_en {
                    adj_goto(adj_push(s, OpMessage::AdjBothDisabled { string: i }), AdjPhase::Examine { i: (i + 1) as usize }, Action::Continue)
                } else if too_close(s, i) || too_far(s, i) {
                    let close = too_close(s, i);
                    let st = chosen_stepper(s, i, in_en, out_en, close);
                    adj_goto(
                        s,
                        AdjPhase::AwaitMove { i, stepper: st, close },
                        Action::RelMove { stepper: st, delta: if close { s.z_up } else { s.z_down }, rest: Some(Rest::Z) },
                    )
                } else {
                    adj_goto(
                        adj_push(s, OpMessage::AdjInRange { string: i, amp_text: r.amp_text, voices: vc }),
                        AdjPhase::Examine { i: (i + 1) as usize },
                        Action::Continue,
                    )
                }
            }
        },
        AdjPhase::AwaitMove { i, stepper, close } => match reply {
            Reply::Stepper(Err(e)) => adj_finish_err(s, OpError::Stepper(e)),
            Reply::Stepper(Ok(())) => {
                let r = s.readings[i as int];
                let vc = s.voice_counts[i as int];
                let m = if close {
                    OpMessage::AdjTooClose { string: i, amp_text: r.amp_text, voices: vc, stepper, step: s.z_up }
                } else {
                    OpMessage::AdjTooFar { string: i, amp_text: r.amp_text, voices: vc, stepper, step: s.z_down }
                };
                adj_goto(adj_push(s, m), AdjPhase::AwaitLap { i }, Action::Pause(Rest::Lap))
            },
            _ => adj_finish_err(s, OpError::UnexpectedReply),
        },
        AdjPhase::AwaitLap { i } => match reply {
            Reply::Nothing => adj_goto(s, AdjPhase::Examine { i: (i + 1) as usize }, Action::Continue),
            _ => adj_finish_err(s, OpError::UnexpectedReply),
        },
        AdjPhase::FinalBump => {
            let (b, a) = bump_step(s.sub, ops, exit, reply);
            if a != Action::Finished {
                (AdjView { sub: b, ..s }, a)
            } else {
                match b.error {
                    Some(e) => adj_finish_err(AdjView { sub: idle_bump(), ..s }, e),
                    None => adj_finish_ok(
                        AdjView { sub: idle_bump(), messages: (s.messages + b.messages).push(OpMessage::AdjComplete), ..s },
                    ),
                }
            }
        },
        AdjPhase::Done => (s, Action::Finished),
    }
}

/// Indices in range and the running bump check well formed.
pub open spec fn adj_wf(s: AdjView) -> bool {
    match s.phase {
        AdjPhase::Start | AdjPhase::Done => true,
        AdjPhase::AwaitAudio => s.z_first + 2 * s.string_num <= usize::MAX,
        AdjPhase::InitialBump | AdjPhase::FinalBump => bump_wf(s.sub) && s.z_first + 2 * s.string_num <= usize::MAX,
        AdjPhase::Examine { i } => i <= s.string_num && s.z_first + 2 * s.string_num <= usize::MAX,
        AdjPhase::AwaitMove { i, .. } => i < s.string_num && i < s.readings.len() && i < s.voice_counts.len()
            && s.z_first + 2 * s.string_num <= usize::MAX,
        AdjPhase::AwaitLap { i } => i < s.string_num && s.z_first + 2 * s.string_num <= usize::MAX,
    }
}

/// Every step keeps a Z adjustment well formed.
pub proof fn lemma_adj_step_wf(s: AdjView, ops: Operations, exit: bool, reply: Reply)
    requires
        adj_wf(s),
        ops.wf(),
    ensures
        adj_wf(adj_step(s, ops, exit, reply).0),
{
    match s.phase {
        AdjPhase::InitialBump | AdjPhase::FinalBump => { crate::bump::lemma_bump_step_wf(s.sub, ops, exit, reply); },
        _ => {},
    }
}

/// The decision for one string. With at least one of its two Z steppers (`z_first + 2i`
/// and `z_first + 2i + 1`) enabled: a string whose amplitude is above its maximum or whose
/// voice count is above its maximum (12 when not given) is too close, and one enabled
/// stepper of the string moves up by the up step; otherwise a string whose amplitude is
/// below its minimum or whose voice count is below its minimum (0 when not given) is too
/// far, and one enabled stepper of the string moves down by the down step; with both
/// enabled, the nearer stepper (smaller position) moves up and the farther (larger
/// position) moves down. Only a string within both ranges is reported in range.
pub proof fn lemma_adj_string_decision(s: AdjView, ops: Operations, reply: Reply, i: usize)
    requires
        adj_wf(s),
        s.phase == (AdjPhase::Examine { i }),
        i < s.string_num,
        i < s.readings.len(),
        i < s.voice_counts.len(),
        map_get_or(s.enabled, (s.z_first + 2 * i) as usize, false) || map_get_or(s.enabled, (s.z_first + 2 * i + 1) as usize, false),
    ensures
        ({
            let r = s.readings[i as int];
            let vc = s.voice_counts[i as int];
            let above = r.amp_above_max || vc > seq_get_or(s.max_voices, i as int, 12usize);
            let below = r.amp_below_min || vc < seq_get_or(s.min_voices, i as int, 0usize);
            let zi = s.z_first + 2 * i;
            let zo = s.z_first + 2 * i + 1;
            let en_i = map_get_or(s.enabled, zi as usize, false);
            let en_o = map_get_or(s.enabled, zo as usize, false);
            let pi = seq_get_or(s.positions, zi, 0i32);
            let po = seq_get_or(s.positions, zo, 0i32);
            let (t, a) = adj_step(s, ops, false, reply);
            &&& (above || below) ==> (a matches Action::RelMove { stepper, delta, rest } && {
                &&& stepper == zi || stepper == zo
                &&& map_get_or(s.enabled, stepper, false)
                &&& rest == Some(Rest::Z)
                &&& delta == (if above { s.z_up } else { s.z_down })
                &&& (en_i && en_o && above && stepper == zi) ==> pi <= po
                &&& (en_i && en_o && above && stepper == zo) ==> po <= pi
                &&& (en_i && en_o && !above && stepper == zi) ==> pi >= po
                &&& (en_i && en_o && !above && stepper == zo) ==> po >= pi
                &&& (en_i && en_o && pi == po) ==> stepper == (if (i % 2 == 0) == above { zi } else { zo })
                &&& !en_i ==> stepper == zo
                &&& !en_o ==> stepper == zi
                &&& t.phase == (AdjPhase::AwaitMove { i, stepper: stepper, close: above })
            })
            &&& !(above || below) ==> {
                &&& a == Action::Continue
                &&& t.phase == (AdjPhase::Examine { i: (i + 1) as usize })
                &&& t.messages == s.messages.push(OpMessage::AdjInRange { string: i, amp_text: r.amp_text, voices: vc })
            }
        }),
{
}

/// After the move of a string's stepper succeeds, the adjustment reports it (too close with
/// the up step, too far with the down step), rests a lap, and goes on to the next string.
pub proof fn lemma_adj_after_move(s: AdjView, ops: Operations, exit: bool, i: usize, stepper: usize, close: bool)
    requires
        adj_wf(s),
        s.phase == (AdjPhase::AwaitMove { i, stepper, close }),
    ensures
        ({
            let (t, a) = adj_step(s, ops, exit, Reply::Stepper(Ok(())));
            let r = s.readings[i as int];
            let vc = s.voice_counts[i as int];
            &&& a == Action::Pause(Rest::Lap)
            &&& t.phase == (AdjPhase::AwaitLap { i })
            &&& close ==> t.messages == s.messages.push(OpMessage::AdjTooClose { string: i, amp_text: r.amp_text, voices: vc, stepper, step: s.z_up })
            &&& !close ==> t.messages == s.messages.push(OpMessage::AdjTooFar { string: i, amp_text: r.amp_text, voices: vc, stepper, step: s.z_down })
            &&& adj_step(t, ops, exit, Reply::Nothing).0.phase == (AdjPhase::Examine { i: (i + 1) as usize })
        }),
{
}

/// How far a Z adjustment has come, as a measure that every step lowers: the stage, the
/// strings left, the place in a string's examination, and a running bump check's measure.
pub open spec fn adj_measure(s: AdjView) -> Progress {
    let n = s.string_num as int;
    let sub_started: int = if s.sub.phase is Start { 1 } else { 0 };
    match s.phase {
        AdjPhase::Start => (5, 0, 0, 0, 0, 0),
        AdjPhase::AwaitAudio => (4, 0, 0, 0, 0, 0),
        AdjPhase::InitialBump => (3, 0, sub_started, bump_measure(s.sub), 0, 0),
        AdjPhase::Examine { i } => (2, n - i, 2, 0, 0, 0),
        AdjPhase::AwaitMove { i, .. } => (2, n - i, 1, 0, 0, 0),
        AdjPhase::AwaitLap { i } => (2, n - i, 0, 0, 0, 0),
        AdjPhase::FinalBump => (1, 0, sub_started, bump_measure(s.sub), 0, 0),
        AdjPhase::Done => (0, 0, 0, 0, 0, 0),
    }
}

/// A Z adjustment ends: every step before the end lowers `adj_measure`, whose counts never
/// go below zero (each string is examined once, with at most one move).
#[verifier::spinoff_prover]
pub proof fn lemma_adj_terminates(s: AdjView, ops: Operations, exit: bool, reply: Reply)
    requires
        adj_wf(s),
        ops.wf(),
        s.sub.targets.len() <= usize::MAX,
        s.phase != AdjPhase::Done,
    ensures
        progress_valid(adj_measure(s)),
        progress_valid(adj_measure(adj_step(s, ops, exit, reply).0)),
        progress_less(adj_measure(adj_step(s, ops, exit, reply).0), adj_measure(s)),
{
    lemma_adj_step_wf(s, ops, exit, reply);
    match s.phase {
        AdjPhase::InitialBump | AdjPhase::FinalBump => {
            if s.sub.phase != BumpPhase::Start && s.sub.phase != BumpPhase::Done {
                lemma_bump_terminates(s.sub, ops, exit, reply);
            }
            if s.sub.phase == BumpPhase::Start {
                lemma_bump_start_leaves_start(s.sub, ops);
            }
            lemma_bump_measure_valid(s.sub);
        },
        AdjPhase::Start => {},
        AdjPhase::AwaitAudio => {},
        AdjPhase::Examine { .. } => {},
        AdjPhase::AwaitMove { .. } => {},
        AdjPhase::AwaitLap { .. } => {},
        AdjPhase::Done => {},
    }
}

/// The position of a stepper in the caller's list (0 when absent).
pub open spec fn adj_pos(s: AdjView, stepper: usize) -> i32 {
    seq_get_or(s.positions, stepper as int, 0i32)
}

/// An adjustment moves, per string, one of the string's two Z steppers and only an
/// enabled one: up by the up step when the string is too close, otherwise (too far) down
/// by the down step, with a Z rest. With both enabled it moves the nearer stepper
/// (smaller position) up, or the farther one (larger position) down. Moves of the
/// surrounding bump checks obey the bump check's bounds.
pub proof fn lemma_adj_moves(s: AdjView, ops: Operations, exit: bool, reply: Reply, stepper: usize, delta: i32, rest: Option<Rest>)
    requires
        adj_wf(s),
        ops.wf(),
        adj_step(s, ops, exit, reply).1 == (Action::RelMove { stepper, delta, rest }),
    ensures
        match s.phase {
            AdjPhase::Examine { i } => {
                let zi = z_in_of(s, i);
                let zo = z_out_of(s, i);
                let other = if stepper == zi { zo } else { zi };
                let both = map_get_or(s.enabled, zi, false) && map_get_or(s.enabled, zo, false);
                &&& stepper == zi || stepper == zo
                &&& map_get_or(s.enabled, stepper, false)
                &&& rest == Some(Rest::Z)
                &&& if too_close(s, i) { delta == s.z_up } else { too_far(s, i) && delta == s.z_down }
                &&& (both && too_close(s, i)) ==> adj_pos(s, stepper) <= adj_pos(s, other)
                &&& (both && !too_close(s, i)) ==> adj_pos(s, stepper) >= adj_pos(s, other)
            },
            AdjPhase::InitialBump | AdjPhase::FinalBump => {
                &&& 0 < delta <= s.sub.z_up
                &&& crate::bump::position_of(s.sub, stepper) + delta <= crate::bump::max_pos_of(s.sub, stepper)
            },
            _ => false,
        },
{
    match s.phase {
        AdjPhase::InitialBump | AdjPhase::FinalBump => {
            crate::bump::lemma_bump_moves_bounded(s.sub, ops, exit, reply, stepper, delta, rest);
        },
        _ => {},
    }
}

impl ZAdjustment {
    /// A Z adjustment that has not started. `min_voices`/`max_voices` give each string's
    /// voice-count range (0 and 12 where absent).
    pub fn new(positions: Vec<i32>, max_positions: HashMap<usize, i32>, min_voices: Vec<usize>, max_voices: Vec<usize>) -> (r: Self)
        ensures
            r@ == adj_initial(positions@, max_positions@, min_voices@, max_voices@),
            adj_wf(r@),
    {
        let r = ZAdjustment {
            phase: AdjPhase::Start,
            positions,
            max_positions,
            min_voices,
            max_voices,
            enabled: HashMap::new(),
            z_up: 0,
            z_down: 0,
            z_first: 0,
            string_num: 0,
            readings: Vec::new(),
            voice_counts: Vec::new(),
            sub: BumpCheck::new(None, Vec::new(), HashMap::new()),
            messages: Vec::new(),
            error: None,
        };
        assert(r@ =~= adj_initial(positions@, max_positions@, min_voices@, max_voices@));
        r
    }

    fn finish_err(&mut self, e: OpError) -> (a: Action)
        ensures
            (final(self)@, a) == adj_finish_err(old(self)@, e),
    {
        self.phase = AdjPhase::Done;
        self.error = Some(e);
        Action::Finished
    }

    fn fresh_bump(&self) -> (b: BumpCheck)
        ensures
            b@ == bump_initial(None, self.positions@, self.max_positions@),
            bump_wf(b@),
    {
        let p = self.positions.clone();
        assert(p@ =~= self.positions@);
        BumpCheck::new(None, p, self.max_positions.clone())
    }

    /// Advances the adjustment by one step.
    pub fn step(&mut self, ops: &Operations, exit: bool, reply: Reply) -> (a: Action)
        requires
            ops.wf(),
            adj_wf(old(self)@),
        ensures
            (final(self)@, a) == adj_step(old(self)@, *ops, exit, reply),
            adj_wf(final(self)@),
    {
        let ghost pre = self@;
        let a = match self.phase {
            AdjPhase::Start => {
                self.enabled = ops.stepper_enabled.clone();
                self.z_up = ops.z_up_step;
                self.z_down = ops.z_down_step;
                self.z_first = ops.z_first_index;
                self.string_num = ops.string_num;
                self.phase = AdjPhase::AwaitAudio;
                Action::ReadAudio
            },
            AdjPhase::AwaitAudio => match reply {
                Reply::Audio(readings) => {
                    self.readings = readings;
                    let vc = ops.voice_count.clone();
                    assert(vc@ =~= ops.voice_count@);
                    self.voice_counts = vc;
                    self.messages.push(OpMessage::AdjRunningInitialBump);
                    self.sub = self.fresh_bump();
                    self.phase = AdjPhase::InitialBump;
                    Action::Continue
                },
                _ => self.finish_err(OpError::UnexpectedReply),
            },
            AdjPhase::InitialBump => {
                let a = self.sub.step(ops, exit, reply);
                match a {
                    Action::Finished => {
                        let mut done = BumpCheck::new(None, Vec::new(), HashMap::new());
                        std::mem::swap(&mut done, &mut self.sub);
                        match done.result() {
                            Err(e) => self.finish_err(e),
                            Ok(mut ms) => {
                                self.messages.append(&mut ms);
                                self.messages.push(OpMessage::AdjStarting);
                                self.phase = AdjPhase::Examine { i: 0 };
                                Action::Continue
                            },
                        }
                    },
                    _ => a,
                }
            },
            AdjPhase::Examine { i } => {
                if i >= self.string_num {
                    self.messages.push(OpMessage::AdjRunningFinalBump);
                    self.sub = self.fresh_bump();
                    self.phase = AdjPhase::FinalBump;
                    Action::Continue
                } else if exit {
                    self.messages.push(OpMessage::AdjCancelled);
                    self.phase = AdjPhase::Done;
                    Action::Finished
                } else if i >= self.readings.len() || i >= self.voice_counts.len() {
                    self.phase = AdjPhase::Examine { i: i + 1 };
                    Action::Continue
                } else {
                    let zi = self.z_first + 2 * i;
                    let zo = zi + 1;
                    let in_en = match self.enabled.get(&zi) { Some(b) => *b, None => false };
                    let out_en = match self.enabled.get(&zo) { Some(b) => *b, None => false };
                    let vc = self.voice_counts[i];
                    let above = self.readings[i].amp_above_max;
                    let below = self.readings[i].amp_below_min;
                    let max_v: usize = if i < self.max_voices.len() { self.max_voices[i] } else { 12 };
                    let min_v: usize = if i < self.min_voices.len() { self.min_voices[i] } else { 0 };
                    let close = above || vc > max_v;
                    let far = below || vc < min_v;
                    if !in_en && !out_en {
                        self.messages.push(OpMessage::AdjBothDisabled { string: i });
                        self.phase = AdjPhase::Examine { i: i + 1 };
                        Action::Continue
                    } else if close || far {
                        let pi: i32 = if zi < self.positions.len() { self.positions[zi] } else { 0 };
                        let po: i32 = if zo < self.positions.len() { self.positions[zo] } else { 0 };
                        let st = if !in_en {
                            zo
                        } else if !out_en {
                            zi
                        } else if close {
                            if pi < po { zi } else if po < pi { zo } else if i % 2 == 0 { zi } else { zo }
                        } else {
                            if pi > po { zi } else if po > pi { zo } else if i % 2 == 0 { zo } else { zi }
                        };
                        self.phase = AdjPhase::AwaitMove { i, stepper: st, close };
                        Action::RelMove { stepper: st, delta: if close { self.z_up } else { self.z_down }, rest: Some(Rest::Z) }
                    } else {
                        let t = self.readings[i].amp_text.clone();
                        self.messages.push(OpMessage::AdjInRange { string: i, amp_text: t, voices: vc });
                        self.phase = AdjPhase::Examine { i: i + 1 };
                        Action::Continue
                    }
                }
            },
            AdjPhase::AwaitMove { i, stepper, close } => match reply {
                Reply::Stepper(Err(e)) => self.finish_err(OpError::Stepper(e)),
                Reply::Stepper(Ok(())) => {
                    let t = self.readings[i].amp_text.clone();
                    let vc = self.voice_counts[i];
                    let m = if close {
                        OpMessage::AdjTooClose { string: i, amp_text: t, voices: vc, stepper, step: self.z_up }
                    } else {
                        OpMessage::AdjTooFar { string: i, amp_text: t, voices: vc, stepper, step: self.z_down }
                    };
                    self.messages.push(m);
                    self.phase = AdjPhase::AwaitLap { i };
                    Action::Pause(Rest::Lap)
                },
                _ => self.finish_err(OpError::UnexpectedReply),
            },
            AdjPhase::AwaitLap { i } => match reply {
                Reply::Nothing => {
                    self.phase = AdjPhase::Examine { i: i + 1 };
                    Action::Continue
                },
                _ => self.finish_err(OpError::UnexpectedReply),
            },
            AdjPhase::FinalBump => {
                let a = self.sub.step(ops, exit, reply);
                match a {
                    Action::Finished => {
                        let mut done = BumpCheck::new(None, Vec::new(), HashMap::new());
                        std::mem::swap(&mut done, &mut self.sub);
                        match done.result() {
                            Err(e) => self.finish_err(e),
                            Ok(mut ms) => {
                                self.messages.append(&mut ms);
                                self.messages.push(OpMessage::AdjComplete);
                                self.phase = AdjPhase::Done;
                                Action::Finished
                            },
                        }
                    },
                    _ => a,
                }
            },
            AdjPhase::Done => Action::Finished,
        };
        assert(self@ =~= adj_step(pre, *ops, exit, reply).0);
        proof { lemma_adj_step_wf(pre, *ops, exit, reply); }
        a
    }

    /// Whether the adjustment has ended.
    pub fn is_done(&self) -> (r: bool)
        ensures
            r == (self@.phase == AdjPhase::Done),
    {
        match self.phase { AdjPhase::Done => true, _ => false }
    }

    /// The report of the adjustment: its messages, or the error that ended it.
    pub fn result(self) -> (r: Result<Vec<OpMessage>, OpError>)
        ensures
            match self@.error {
                Some(e) => r == Err::<Vec<OpMessage>, OpError>(e),
                None => r matches Ok(m) && m@ == self@.messages,
            },
    {
        match self.error {
            Some(e) => Err(e),
            None => Ok(self.messages),
        }
    }
}

impl Operations {
    /// A Z adjustment of every string against its amplitude and voice-count ranges.
    pub fn z_adjust(&self, positions: Vec<i32>, max_positions: HashMap<usize, i32>, min_voices: Vec<usize>, max_voices: Vec<usize>) -> (r: ZAdjustment)
        ensures
            r@ == adj_initial(positions@, max_positions@, min_voices@, max_voices@),
            adj_wf(r@),
    {
        ZAdjustment::new(positions, max_positions, min_voices, max_voices)
    }
}

} // verus!
