//! X axis procedures: homing (toward the home limit switch), moving away (toward the
//! away limit switch or the maximum position), and calibration (home, then away).

use vstd::prelude::*;
use crate::operations::Operations;
use crate::procedure::{Action, Reply, OpError, OpMessage, Rest, seq_get_or};
use crate::calibrate::ops_after;

verus! {

/// Safety limit on the number of ten-step moves of a homing or away run.
pub const X_MAX_ITERATIONS: u32 = 1000;

/// Steps per X move of a homing or away run.
pub const X_STEP_SIZE: i32 = 10;

/// Steps of one move of a run: toward away (positive) or toward home (negative).
pub open spec fn x_delta(away: bool) -> i32 {
    if away { X_STEP_SIZE } else { -10i32 }
}

/// The limit-switch answer, a read error counting as "not pressed".
pub open spec fn limit_pressed(r: Result<bool, String>) -> bool {
    match r { Ok(b) => b, Err(_) => false }
}

/// Where an X run (home or away) stands.
#[derive(Clone, Copy, Debug, PartialEq, Eq, Structural)]
pub enum XPhase {
    Start,
    AwaitReset,
    /// At the top of the move loop, `it` moves done.
    Loop { it: u32 },
    AwaitLimit { it: u32 },
    AwaitMove { it: u32 },
    AwaitFinalLimit,
    AwaitFinalReset,
    AwaitDisable,
    Done,
}

/// An X homing or away run in progress.
#[derive(Debug)]
pub struct XRun {
    pub away: bool,
    pub phase: XPhase,
    pub positions: Vec<i32>,
    pub x_idx: usize,
    pub x_max: i32,
    pub messages: Vec<OpMessage>,
    pub error: Option<OpError>,
}

/// The mathematical state of an X run.
#[verifier::ext_equal]
pub struct XRunView {
    pub away: bool,
    pub phase: XPhase,
    pub positions: Seq<i32>,
    pub x_idx: usize,
    pub x_max: i32,
    pub messages: Seq<OpMessage>,
    pub error: Option<OpError>,
}

impl View for XRun {
    type V = XRunView;

    open spec fn view(&self) -> XRunView {
        XRunView {
            away: self.away,
            phase: self.phase,
            positions: self.positions@,
            x_idx: self.x_idx,
            x_max: self.x_max,
            messages: self.messages@,
            error: self.error,
        }
    }
}

pub open spec fn x_goto(s: XRunView, p: XPhase, a: Action) -> (XRunView, Option<usize>, Action) {
    (XRunView { phase: p, ..s }, None, a)
}

pub open spec fn x_finish(s: XRunView) -> (XRunView, Option<usize>, Action) {
    (XRunView { phase: XPhase::Done, ..s }, None, Action::Finished)
}

pub open spec fn x_finish_with(s: XRunView, ms: Seq<OpMessage>) -> (XRunView, Option<usize>, Action) {
    (XRunView { phase: XPhase::Done, messages: ms, ..s }, None, Action::Finished)
}

pub open spec fn x_finish_err(s: XRunView, e: OpError) -> (XRunView, Option<usize>, Action) {
    (XRunView { phase: XPhase::Done, error: Some(e), ..s }, None, Action::Finished)
}

pub open spec fn x_push(s: XRunView, m: OpMessage) -> XRunView {
    XRunView { messages: s.messages.push(m), ..s }
}

/// The caller's record of the X position (0 when absent).
pub open spec fn x_pos(s: XRunView) -> i32 {
    seq_get_or(s.positions, s.x_idx as int, 0i32)
}

/// The first step of a run: checks the configuration and sets the counter
/// (to the maximum before homing, to zero before moving away).
pub open spec fn x_start(s: XRunView, ops: Operations) -> (XRunView, Option<usize>, Action) {
    match ops.x_step_index {
        None => x_finish_err(s, OpError::XNotConfigured),
        Some(x_idx) => {
            if ops.x_max_pos == Some(0i32) {
                x_finish_with(s, seq![OpMessage::XDummy])
            } else {
                match ops.gpio {
                    None => x_finish_err(s, OpError::GpioNotInitialized),
                    Some(g) => {
                        if !g.exist {
                            x_finish_with(s, seq![if s.away { OpMessage::XAwayNoGpio } else { OpMessage::XHomeNoGpio }])
                        } else if !s.away && g.x_home_line is None {
                            x_finish_with(s, seq![OpMessage::XNoHomeSwitch])
                        } else {
                            match ops.x_max_pos {
                                None => x_finish_err(s, OpError::XMaxPosNotConfigured),
                                Some(m) => {
                                    if m <= 0 {
                                        x_finish_with(s, seq![OpMessage::XMaxInvalid])
                                    } else {
                                        let t = XRunView {
                                            x_idx,
                                            x_max: m,
                                            messages: seq![if s.away { OpMessage::XAwayStart } else { OpMessage::XHomeStart }],
                                            ..s
                                        };
                                        x_goto(t, XPhase::AwaitReset, Action::Reset { stepper: x_idx, position: if s.away { 0 } else { m } })
                                    }
                                },
                            }
                        }
                    },
                }
            }
        },
    }
}

/// One step of an X run: next state, stepper whose enable flag is cleared (if any), next action.
pub open spec fn x_step(s: XRunView, ops: Operations, exit: bool, reply: Reply) -> (XRunView, Option<usize>, Action) {
    match s.phase {
        XPhase::Start => x_start(s, ops),
        XPhase::AwaitReset => match reply {
            Reply::Stepper(Err(e)) => x_finish_err(s, OpError::Stepper(e)),
            Reply::Stepper(Ok(())) => x_goto(
                x_push(s, if s.away { OpMessage::XSetZero } else { OpMessage::XResetToMax { max: s.x_max } }),
                XPhase::Loop { it: 0 },
                Action::Continue,
            ),
            _ => x_finish_err(s, OpError::UnexpectedReply),
        },
        XPhase::Loop { it } => {
            if exit {
                x_finish(x_push(s, OpMessage::XCancelled))
            } else if s.away && x_pos(s) >= s.x_max {
                x_goto(x_push(s, OpMessage::XMaxReached { max: s.x_max }), XPhase::AwaitFinalLimit,
                    Action::ReadAwayLimit)
            } else {
                x_goto(s, XPhase::AwaitLimit { it }, if s.away { Action::ReadAwayLimit } else { Action::ReadHomeLimit })
            }
        },
        XPhase::AwaitLimit { it } => match reply {
            Reply::Limit(r) => {
                if limit_pressed(r) {
                    x_goto(x_push(s, if s.away { OpMessage::XAwayTrigger } else { OpMessage::XHomeTrigger }), XPhase::AwaitFinalLimit,
                        if s.away { Action::ReadAwayLimit } else { Action::ReadHomeLimit })
                } else if it >= X_MAX_ITERATIONS {
                    x_goto(x_push(s, OpMessage::XMaxIterations), XPhase::AwaitFinalLimit,
                        if s.away { Action::ReadAwayLimit } else { Action::ReadHomeLimit })
                } else {
                    x_goto(s, XPhase::AwaitMove { it },
                        Action::RelMove { stepper: s.x_idx, delta: x_delta(s.away), rest: Some(Rest::X) })
                }
            },
            _ => x_finish_err(s, OpError::UnexpectedReply),
        },
        XPhase::AwaitMove { it } => match reply {
            Reply::Stepper(Err(e)) => x_finish_err(s, OpError::Stepper(e)),
            Reply::Stepper(Ok(())) => {
                let n = (it + 1) as u32;
                let t = if n % 10 == 0 {
                    x_push(s, if s.away { OpMessage::XMovingAway { iteration: n, pos: x_pos(s) } } else { OpMessage::XMovingHome { iteration: n } })
                } else {
                    s
                };
                x_goto(t, XPhase::Loop { it: n }, Action::Continue)
            },
            _ => x_finish_err(s, OpError::UnexpectedReply),
        },
        XPhase::AwaitFinalLimit => match reply {
            Reply::Limit(r) => {
                if limit_pressed(r) {
                    x_goto(s, XPhase::AwaitFinalReset, Action::Reset { stepper: s.x_idx, position: if s.away { s.x_max } else { 0 } })
                } else if (!s.away && x_pos(s) == 0) || (s.away && x_pos(s) >= s.x_max) {
                    let t = if s.away {
                        x_push(x_push(s, OpMessage::XAwayFailedAtMax { pos: x_pos(s) }), OpMessage::XDisablingAway)
                    } else {
                        x_push(x_push(s, OpMessage::XHomeFailedAtZero), OpMessage::XDisablingHome)
                    };
                    (XRunView { phase: XPhase::AwaitDisable, ..t }, Some(s.x_idx), Action::Disable { stepper: s.x_idx })
                } else {
                    x_finish(x_push(s, if s.away { OpMessage::XAwayFailed { pos: x_pos(s) } } else { OpMessage::XHomeFailed { pos: x_pos(s) } }))
                }
            },
            _ => x_finish_err(s, OpError::UnexpectedReply),
        },
        XPhase::AwaitFinalReset => match reply {
            Reply::Stepper(Err(e)) => x_finish_err(s, OpError::Stepper(e)),
            Reply::Stepper(Ok(())) => x_finish(x_push(s, if s.away { OpMessage::XAwayComplete { max: s.x_max } } else { OpMessage::XHomeComplete })),
            _ => x_finish_err(s, OpError::UnexpectedReply),
        },
        XPhase::AwaitDisable => match reply {
            Reply::Stepper(Err(e)) => x_finish_err(s, OpError::Stepper(e)),
            Reply::Stepper(Ok(())) => x_finish(s),
            _ => x_finish_err(s, OpError::UnexpectedReply),
        },
        XPhase::Done => (s, None, Action::Finished),
    }
}

/// The move counter stays within the safety limit and the maximum is positive once running.
pub open spec fn x_wf(s: XRunView) -> bool {
    match s.phase {
        XPhase::Start | XPhase::Done => true,
        XPhase::Loop { it } => it <= X_MAX_ITERATIONS && s.x_max > 0,
        XPhase::AwaitLimit { it } => it <= X_MAX_ITERATIONS && s.x_max > 0,
        XPhase::AwaitMove { it } => it < X_MAX_ITERATIONS && s.x_max > 0,
        _ => s.x_max > 0,
    }
}

/// Every step keeps an X run well formed.
pub proof fn lemma_x_step_wf(s: XRunView, ops: Operations, exit: bool, reply: Reply)
    requires
        x_wf(s),
    ensures
        x_wf(x_step(s, ops, exit, reply).0),
{
}

/// An X run moves only while its limit switch reads released: a pressed switch (`Ok(true)`)
/// ends the moves and the switch is read once more; a released one (`Ok(false)`, or a read
/// error) brings another move of ten steps toward the switch, until the move limit.
pub proof fn lemma_x_moves_until_switch(s: XRunView, ops: Operations, exit: bool, reply: Reply, it: u32)
    requires
        x_wf(s),
        s.phase == (XPhase::AwaitLimit { it }),
        reply is Limit,
    ensures
        ({
            let pressed = reply->Limit_0 == Ok::<bool, String>(true);
            let (t, dis, a) = x_step(s, ops, exit, reply);
            &&& pressed ==> t.phase == XPhase::AwaitFinalLimit && !(a is RelMove)
            &&& !pressed && it < X_MAX_ITERATIONS ==> a == (Action::RelMove {
                stepper: s.x_idx, delta: if s.away { 10i32 } else { -10i32 }, rest: Some(Rest::X) })
            &&& !pressed && it >= X_MAX_ITERATIONS ==> t.phase == XPhase::AwaitFinalLimit
            &&& dis is None
        }),
{
}

/// A run that ends at its limit switch sets the X counter to where that switch is: the
/// maximum position after moving away, zero after homing; the completion report that
/// follows names that same position.
pub proof fn lemma_x_reset_at_switch(s: XRunView, ops: Operations, exit: bool)
    requires
        s.phase == XPhase::AwaitFinalLimit,
    ensures
        ({
            let (t, dis, a) = x_step(s, ops, exit, Reply::Limit(Ok(true)));
            &&& s.away ==> a == (Action::Reset { stepper: s.x_idx, position: s.x_max })
            &&& !s.away ==> a == (Action::Reset { stepper: s.x_idx, position: 0 })
            &&& t.phase == XPhase::AwaitFinalReset
            &&& dis is None
        }),
        ({
            let t = x_step(s, ops, exit, Reply::Limit(Ok(true))).0;
            let done = x_step(t, ops, exit, Reply::Stepper(Ok(()))).0;
            &&& s.away ==> done.messages.last() == (OpMessage::XAwayComplete { max: s.x_max })
            &&& !s.away ==> done.messages.last() == OpMessage::XHomeComplete
            &&& done.phase == XPhase::Done
            &&& done.error == s.error
        }),
{
}

/// Steps left before an X run ends, at most: three per move (reading the switch, moving,
/// going round), and a few to start and to finish.
pub open spec fn x_measure(s: XRunView) -> int {
    match s.phase {
        XPhase::Start => 3 * X_MAX_ITERATIONS + 7,
        XPhase::AwaitReset => 3 * X_MAX_ITERATIONS + 6,
        XPhase::Loop { it } => 3 * (X_MAX_ITERATIONS - it) + 5,
        XPhase::AwaitLimit { it } => 3 * (X_MAX_ITERATIONS - it) + 4,
        XPhase::AwaitMove { it } => 3 * (X_MAX_ITERATIONS - it) + 3,
        XPhase::AwaitFinalLimit => 2,
        XPhase::AwaitFinalReset => 1,
        XPhase::AwaitDisable => 1,
        XPhase::Done => 0,
    }
}

/// An X run ends: every step before the end lowers `x_measure`, which never goes below
/// zero, so a run takes at most `3 * X_MAX_ITERATIONS + 7` steps.
pub proof fn lemma_x_terminates(s: XRunView, ops: Operations, exit: bool, reply: Reply)
    requires
        x_wf(s),
        s.phase != XPhase::Done,
    ensures
        0 <= x_measure(x_step(s, ops, exit, reply).0) < x_measure(s),
        x_measure(s) <= 3 * X_MAX_ITERATIONS + 7,
{
}

/// An X run moves only the X stepper, ten steps at a time (toward home when homing,
/// away otherwise), with an X rest, at most a thousand times; it clears the X stepper's
/// enable flag only when it ended without the limit switch pressed and the recorded
/// position already at the end of travel (zero when homing, the maximum when moving away).
pub proof fn lemma_x_moves(s: XRunView, ops: Operations, exit: bool, reply: Reply)
    requires
        x_wf(s),
    ensures
        ({
            let (t, dis, a) = x_step(s, ops, exit, reply);
            &&& a matches Action::RelMove { stepper, delta, rest } ==> {
                &&& stepper == s.x_idx
                &&& delta == x_delta(s.away)
                &&& rest == Some(Rest::X)
                &&& s.phase matches XPhase::AwaitLimit { it } && it < X_MAX_ITERATIONS
                &&& reply matches Reply::Limit(r) && !limit_pressed(r)
            }
            &&& dis matches Some(i) ==> {
                &&& i == s.x_idx
                &&& s.phase == XPhase::AwaitFinalLimit
                &&& reply matches Reply::Limit(r) && !limit_pressed(r)
                &&& if s.away { x_pos(s) >= s.x_max } else { x_pos(s) == 0 }
            }
        }),
{
}

impl XRun {
    /// A homing run (`away` false) or an away run (`away` true) that has not started.
    pub fn new(away: bool, positions: Vec<i32>) -> (r: Self)
        ensures
            r@.away == away,
            r@.phase == XPhase::Start,
            r@.positions == positions@,
            r@.messages == Seq::<OpMessage>::empty(),
            r@.error is None,
            r@.x_idx == 0,
            r@.x_max == 0,
            x_wf(r@),
    {
        XRun { away, phase: XPhase::Start, positions, x_idx: 0, x_max: 0, messages: Vec::new(), error: None }
    }

    fn finish_err(&mut self, e: OpError) -> (a: Action)
        ensures
            (final(self)@, None::<usize>, a) == x_finish_err(old(self)@, e),
    {
        self.phase = XPhase::Done;
        self.error = Some(e);
        Action::Finished
    }

    fn finish_with(&mut self, m: OpMessage) -> (a: Action)
        ensures
            (final(self)@, None::<usize>, a) == x_finish_with(old(self)@, seq![m]),
    {
        self.messages = vec![m];
        self.phase = XPhase::Done;
        Action::Finished
    }

    fn pos(&self) -> (p: i32)
        ensures
            p == x_pos(self@),
    {
        if self.x_idx < self.positions.len() { self.positions[self.x_idx] } else { 0 }
    }

    fn start(&mut self, ops: &Operations) -> (a: Action)
        requires
            old(self)@.phase == XPhase::Start,
        ensures
            (final(self)@, None::<usize>, a) == x_start(old(self)@, *ops),
    {
        let x_idx = match ops.x_step_index {
            None => return self.finish_err(OpError::XNotConfigured),
            Some(i) => i,
        };
        if let Some(m) = ops.x_max_pos {
            if m == 0 {
                return self.finish_with(OpMessage::XDummy);
            }
        }
        let (exists, has_home) = match &ops.gpio {
            None => return self.finish_err(OpError::GpioNotInitialized),
            Some(g) => (g.exist, g.x_home_line.is_some()),
        };
        if !exists {
            return self.finish_with(if self.away { OpMessage::XAwayNoGpio } else { OpMessage::XHomeNoGpio });
        }
        if !self.away && !has_home {
            return self.finish_with(OpMessage::XNoHomeSwitch);
        }
        let m = match ops.x_max_pos {
            None => return self.finish_err(OpError::XMaxPosNotConfigured),
            Some(m) => m,
        };
        if m <= 0 {
            return self.finish_with(OpMessage::XMaxInvalid);
        }
        self.x_idx = x_idx;
        self.x_max = m;
        self.messages = vec![if self.away { OpMessage::XAwayStart } else { OpMessage::XHomeStart }];
        self.phase = XPhase::AwaitReset;
        Action::Reset { stepper: x_idx, position: if self.away { 0 } else { m } }
    }

    /// Advances the run by one step.
    pub fn step(&mut self, ops: &mut Operations, exit: bool, reply: Reply) -> (a: Action)
        requires
            x_wf(old(self)@),
        ensures
            final(self)@ == x_step(old(self)@, *old(ops), exit, reply).0,
            ops_after(*old(ops), *final(ops), x_step(old(self)@, *old(ops), exit, reply).1),
            a == x_step(old(self)@, *old(ops), exit, reply).2,
            x_wf(final(self)@),
    {
        let ghost pre = self@;
        let ghost ops0 = *ops;
        let a = match self.phase {
            XPhase::Start => self.start(ops),
            XPhase::AwaitReset => match reply {
                Reply::Stepper(Err(e)) => self.finish_err(OpError::Stepper(e)),
                Reply::Stepper(Ok(())) => {
                    self.messages.push(if self.away { OpMessage::XSetZero } else { OpMessage::XResetToMax { max: self.x_max } });
                    self.phase = XPhase::Loop { it: 0 };
                    Action::Continue
                },
                _ => self.finish_err(OpError::UnexpectedReply),
            },
            XPhase::Loop { it } => {
                if exit {
                    self.messages.push(OpMessage::XCancelled);
                    self.phase = XPhase::Done;
                    Action::Finished
                } else if self.away && self.pos() >= self.x_max {
                    self.messages.push(OpMessage::XMaxReached { max: self.x_max });
                    self.phase = XPhase::AwaitFinalLimit;
                    Action::ReadAwayLimit
                } else {
                    self.phase = XPhase::AwaitLimit { it };
                    if self.away { Action::ReadAwayLimit } else { Action::ReadHomeLimit }
                }
            },
            XPhase::AwaitLimit { it } => match reply {
                Reply::Limit(r) => {
                    let pressed = match r { Ok(b) => b, Err(_) => false };
                    if pressed {
                        self.messages.push(if self.away { OpMessage::XAwayTrigger } else { OpMessage::XHomeTrigger });
                        self.phase = XPhase::AwaitFinalLimit;
                        if self.away { Action::ReadAwayLimit } else { Action::ReadHomeLimit }
                    } else if it >= X_MAX_ITERATIONS {
                        self.messages.push(OpMessage::XMaxIterations);
                        self.phase = XPhase::AwaitFinalLimit;
                        if self.away { Action::ReadAwayLimit } else { Action::ReadHomeLimit }
                    } else {
                        self.phase = XPhase::AwaitMove { it };
                        Action::RelMove { stepper: self.x_idx, delta: if self.away { X_STEP_SIZE } else { -X_STEP_SIZE }, rest: Some(Rest::X) }
                    }
                },
                _ => self.finish_err(OpError::UnexpectedReply),
            },
            XPhase::AwaitMove { it } => match reply {
                Reply::Stepper(Err(e)) => self.finish_err(OpError::Stepper(e)),
                Reply::Stepper(Ok(())) => {
                    let n = it + 1;
                    if n % 10 == 0 {
                        let p = self.pos();
                        self.messages.push(if self.away { OpMessage::XMovingAway { iteration: n, pos: p } } else { OpMessage::XMovingHome { iteration: n } });
                    }
                    self.phase = XPhase::Loop { it: n };
                    Action::Continue
                },
                _ => self.finish_err(OpError::UnexpectedReply),
            },
            XPhase::AwaitFinalLimit => match reply {
                Reply::Limit(r) => {
                    let pressed = match r { Ok(b) => b, Err(_) => false };
                    let p = self.pos();
                    if pressed {
                        self.phase = XPhase::AwaitFinalReset;
                        Action::Reset { stepper: self.x_idx, position: if self.away { self.x_max } else { 0 } }
                    } else if (!self.away && p == 0) || (self.away && p >= self.x_max) {
                        if self.away {
                            self.messages.push(OpMessage::XAwayFailedAtMax { pos: p });
                            self.messages.push(OpMessage::XDisablingAway);
                        } else {
                            self.messages.push(OpMessage::XHomeFailedAtZero);
                            self.messages.push(OpMessage::XDisablingHome);
                        }
                        ops.set_stepper_enabled(self.x_idx, false);
                        self.phase = XPhase::AwaitDisable;
                        Action::Disable { stepper: self.x_idx }
                    } else {
                        self.messages.push(if self.away { OpMessage::XAwayFailed { pos: p } } else { OpMessage::XHomeFailed { pos: p } });
                        self.phase = XPhase::Done;
                        Action::Finished
                    }
                },
                _ => self.finish_err(OpError::UnexpectedReply),
            },
            XPhase::AwaitFinalReset => match reply {
                Reply::Stepper(Err(e)) => self.finish_err(OpError::Stepper(e)),
                Reply::Stepper(Ok(())) => {
                    self.messages.push(if self.away { OpMessage::XAwayComplete { max: self.x_max } } else { OpMessage::XHomeComplete });
                    self.phase = XPhase::Done;
                    Action::Finished
                },
                _ => self.finish_err(OpError::UnexpectedReply),
            },
            XPhase::AwaitDisable => match reply {
                Reply::Stepper(Err(e)) => self.finish_err(OpError::Stepper(e)),
                Reply::Stepper(Ok(())) => {
                    self.phase = XPhase::Done;
                    Action::Finished
                },
                _ => self.finish_err(OpError::UnexpectedReply),
            },
            XPhase::Done => Action::Finished,
        };
        assert(self@ =~= x_step(pre, ops0, exit, reply).0);
        proof { lemma_x_step_wf(pre, ops0, exit, reply); }
        a
    }

    /// Whether the run has ended.
    pub fn is_done(&self) -> (r: bool)
        ensures
            r == (self@.phase == XPhase::Done),
    {
        match self.phase { XPhase::Done => true, _ => false }
    }

    /// The report of the run: its messages, or the error that ended it.
    pub fn result(self) -> (r: Result<Vec<OpMessage>, OpError>)
        ensures
            match self@.error {
                Some(e) => r == Err::<Vec<OpMessage>, OpError>(e),
                None => r matches Ok(m) && m@ == self@.messages,
            },
    {
        match self.error {
            Some(e) => Err(e),
            None => Ok(self.messages),
        }
    }
}

} // verus!

verus! {

/// Where an X calibration stands.
#[derive(Clone, Copy, Debug, PartialEq, Eq, Structural)]
pub enum XCalPhase {
    Start,
    Home,
    AwaitReset,
    AfterReset,
    Away,
    Done,
}

/// An X calibration in progress: homing, counter to zero, then moving away.
#[derive(Debug)]
pub struct XCalibration {
    pub phase: XCalPhase,
    pub positions: Vec<i32>,
    pub x_idx: usize,
    pub sub: XRun,
    pub messages: Vec<OpMessage>,
    pub error: Option<OpError>,
}

/// The mathematical state of an X calibration.
#[verifier::ext_equal]
pub struct XCalView {
    pub phase: XCalPhase,
    pub positions: Seq<i32>,
    pub x_idx: usize,
    pub sub: XRunView,
    pub messages: Seq<OpMessage>,
    pub error: Option<OpError>,
}

impl View for XCalibration {
    type V = XCalView;

    open spec fn view(&self) -> XCalView {
        XCalView {
            phase: self.phase,
            positions: self.positions@,
            x_idx: self.x_idx,
            sub: self.sub@,
            messages: self.messages@,
            error: self.error,
        }
    }
}

/// A run that has not started.
pub open spec fn x_initial(away: bool, positions: Seq<i32>) -> XRunView {
    XRunView { away, phase: XPhase::Start, positions, x_idx: 0, x_max: 0, messages: Seq::empty(), error: None }
}

/// The placeholder kept where no run is active.
pub open spec fn idle_run() -> XRunView {
    x_initial(false, Seq::empty())
}

pub open spec fn xc_goto(s: XCalView, p: XCalPhase, a: Action) -> (XCalView, Option<usize>, Action) {
    (XCalView { phase: p, ..s }, None, a)
}

pub open spec fn xc_finish(s: XCalView) -> (XCalView, Option<usize>, Action) {
    (XCalView { phase: XCalPhase::Done, ..s }, None, Action::Finished)
}

pub open spec fn xc_finish_err(s: XCalView, e: OpError) -> (XCalView, Option<usize>, Action) {
    (XCalView { phase: XCalPhase::Done, error: Some(e), ..s }, None, Action::Finished)
}

/// One step of an X calibration.
pub open spec fn xc_step(s: XCalView, ops: Operations, exit: bool, reply: Reply) -> (XCalView, Option<usize>, Action) {
    match s.phase {
        XCalPhase::Start => match ops.x_step_index {
            None => xc_finish_err(s, OpError::XNotConfigured),
            Some(x) => {
                if ops.x_max_pos == Some(0i32) {
                    xc_finish(XCalView { messages: seq![OpMessage::XCalDummy], ..s })
                } else {
                    match ops.gpio {
                        None => xc_finish_err(s, OpError::GpioNotInitialized),
                        Some(g) => if !g.exist {
                            xc_finish(XCalView { messages: seq![OpMessage::XCalNoGpio], ..s })
                        } else {
                            xc_goto(
                                XCalView {
                                    x_idx: x,
                                    messages: seq![OpMessage::XCalStart, OpMessage::XCalStep1],
                                    sub: x_initial(false, s.positions),
                                    ..s
                                },
                                XCalPhase::Home,
                                Action::Continue,
                            )
                        },
                    }
                }
            },
        },
        XCalPhase::Home => {
            let (r, dis, a) = x_step(s.sub, ops, exit, reply);
            if a != Action::Finished {
                (XCalView { sub: r, ..s }, dis, a)
            } else {
                match r.error {
                    Some(e) => (XCalView { phase: XCalPhase::Done, error: Some(e), sub: idle_run(), ..s }, dis, Action::Finished),
                    None => {
                        let t = XCalView { sub: idle_run(), messages: s.messages + r.messages, ..s };
                        if exit {
                            (XCalView { phase: XCalPhase::Done, messages: t.messages.push(OpMessage::XCalCancelled), ..t }, dis, Action::Finished)
                        } else {
                            (XCalView { phase: XCalPhase::AwaitReset, messages: t.messages.push(OpMessage::XCalStep2), ..t }, dis,
                                Action::Reset { stepper: s.x_idx, position: 0 })
                        }
                    },
                }
            }
        },
        XCalPhase::AwaitReset => match reply {
            Reply::Stepper(Err(e)) => xc_finish_err(s, OpError::Stepper(e)),
            Reply::Stepper(Ok(())) => xc_goto(XCalView { messages: s.messages.push(OpMessage::XCalReset0), ..s }, XCalPhase::AfterReset, Action::Continue),
            _ => xc_finish_err(s, OpError::UnexpectedReply),
        },
        XCalPhase::AfterReset => {
            if exit {
                xc_finish(XCalView { messages: s.messages.push(OpMessage::XCalCancelled), ..s })
            } else {
                xc_goto(XCalView { messages: s.messages.push(OpMessage::XCalStep3), sub: x_initial(true, s.positions), ..s }, XCalPhase::Away, Action::Continue)
            }
        },
        XCalPhase::Away => {
            let (r, dis, a) = x_step(s.sub, ops, exit, reply);
            if a != Action::Finished {
                (XCalView { sub: r, ..s }, dis, a)
            } else {
                match r.error {
                    Some(e) => (XCalView { phase: XCalPhase::Done, error: Some(e), sub: idle_run(), ..s }, dis, Action::Finished),
                    None => {
                        let t = XCalView { sub: idle_run(), messages: s.messages + r.messages, ..s };
                        if exit {
                            (XCalView { phase: XCalPhase::Done, messages: t.messages.push(OpMessage::XCalCancelled), ..t }, dis, Action::Finished)
                        } else {
                            let p = seq_get_or(s.positions, s.x_idx as int, 0i32);
                            (XCalView {
                                phase: XCalPhase::Done,
                                messages: t.messages.push(OpMessage::XCalStep4 { pos: p }).push(OpMessage::XCalComplete { pos: p }),
                                ..t
                            }, dis, Action::Finished)
                        }
                    },
                }
            }
        },
        XCalPhase::Done => (s, None, Action::Finished),
    }
}

pub open spec fn xc_wf(s: XCalView) -> bool {
    match s.phase {
        XCalPhase::Home | XCalPhase::Away => x_wf(s.sub),
        _ => true,
    }
}

/// Steps left before an X calibration ends, at most: the homing run, the reset, and the
/// run away from home.
pub open spec fn xc_measure(s: XCalView) -> int {
    let b = 3 * X_MAX_ITERATIONS + 7;
    match s.phase {
        XCalPhase::Start => 2 * b + 5,
        XCalPhase::Home => x_measure(s.sub) + b + 4,
        XCalPhase::AwaitReset => b + 3,
        XCalPhase::AfterReset => b + 2,
        XCalPhase::Away => x_measure(s.sub) + 1,
        XCalPhase::Done => 0,
    }
}

/// An X calibration ends: every step before the end lowers `xc_measure`, which never goes
/// below zero, so a calibration takes at most `6 * X_MAX_ITERATIONS + 19` steps.
pub proof fn lemma_xc_terminates(s: XCalView, ops: Operations, exit: bool, reply: Reply)
    requires
        xc_wf(s),
        s.phase != XCalPhase::Done,
    ensures
        0 <= xc_measure(xc_step(s, ops, exit, reply).0) < xc_measure(s),
        xc_measure(s) <= 6 * X_MAX_ITERATIONS + 19,
{
    match s.phase {
        XCalPhase::Home | XCalPhase::Away => {
            if s.sub.phase != XPhase::Done {
                lemma_x_terminates(s.sub, ops, exit, reply);
            }
        },
        _ => {},
    }
}

impl XCalibration {
    /// An X calibration that has not started.
    pub fn new(positions: Vec<i32>) -> (r: Self)
        ensures
            r@.phase == XCalPhase::Start,
            r@.positions == positions@,
            r@.messages == Seq::<OpMessage>::empty(),
            r@.error is None,
            xc_wf(r@),
    {
        XCalibration { phase: XCalPhase::Start, positions, x_idx: 0, sub: XRun::new(false, Vec::new()), messages: Vec::new(), error: None }
    }

    fn finish_err(&mut self, e: OpError) -> (a: Action)
        ensures
            (final(self)@, None::<usize>, a) == xc_finish_err(old(self)@, e),
    {
        self.phase = XCalPhase::Done;
        self.error = Some(e);
        Action::Finished
    }

    fn fresh_run(&self, away: bool) -> (r: XRun)
        ensures
            r@ == x_initial(away, self.positions@),
            x_wf(r@),
    {
        let p = self.positions.clone();
        assert(p@ =~= self.positions@);
        let r = XRun::new(away, p);
        assert(r@ =~= x_initial(away, self.positions@));
        r
    }

    /// Advances the calibration by one step.
    pub fn step(&mut self, ops: &mut Operations, exit: bool, reply: Reply) -> (a: Action)
        requires
            xc_wf(old(self)@),
        ensures
            final(self)@ == xc_step(old(self)@, *old(ops), exit, reply).0,
            ops_after(*old(ops), *final(ops), xc_step(old(self)@, *old(ops), exit, reply).1),
            a == xc_step(old(self)@, *old(ops), exit, reply).2,
            xc_wf(final(self)@),
    {
        let ghost pre = self@;
        let ghost ops0 = *ops;
        let a = match self.phase {
            XCalPhase::Start => {
                let x = match ops.x_step_index {
                    None => return self.finish_err(OpError::XNotConfigured),
                    Some(x) => x,
                };
                if let Some(m) = ops.x_max_pos {
                    if m == 0 {
                        self.messages = vec![OpMessage::XCalDummy];
                        self.phase = XCalPhase::Done;
                        return Action::Finished;
                    }
                }
                let exists = match &ops.gpio {
                    None => return self.finish_err(OpError::GpioNotInitialized),
                    Some(g) => g.exist,
                };
                if !exists {
                    self.messages = vec![OpMessage::XCalNoGpio];
                    self.phase = XCalPhase::Done;
                    return Action::Finished;
                }
                self.x_idx = x;
                self.messages = vec![OpMessage::XCalStart, OpMessage::XCalStep1];
                self.sub = self.fresh_run(false);
                self.phase = XCalPhase::Home;
                Action::Continue
            },
            XCalPhase::Home | XCalPhase::Away => {
                let away_phase = match self.phase { XCalPhase::Away => true, _ => false };
                let a = self.sub.step(ops, exit, reply);
                match a {
                    Action::Finished => {
                        let mut done = XRun::new(false, Vec::new());
                        std::mem::swap(&mut done, &mut self.sub);
                        assert(self.sub@ =~= idle_run());
                        match done.result() {
                            Err(e) => self.finish_err(e),
                            Ok(mut ms) => {
                                self.messages.append(&mut ms);
                                if exit {
                                    self.messages.push(OpMessage::XCalCancelled);
                                    self.phase = XCalPhase::Done;
                                    Action::Finished
                                } else if !away_phase {
                                    self.messages.push(OpMessage::XCalStep2);
                                    self.phase = XCalPhase::AwaitReset;
                                    Action::Reset { stepper: self.x_idx, position: 0 }
                                } else {
                                    let p: i32 = if self.x_idx < self.positions.len() { self.positions[self.x_idx] } else { 0 };
                                    self.messages.push(OpMessage::XCalStep4 { pos: p });
                                    self.messages.push(OpMessage::XCalComplete { pos: p });
                                    self.phase = XCalPhase::Done;
                                    Action::Finished
                                }
                            },
                        }
                    },
                    _ => a,
                }
            },
            XCalPhase::AwaitReset => match reply {
                Reply::Stepper(Err(e)) => self.finish_err(OpError::Stepper(e)),
                Reply::Stepper(Ok(())) => {
                    self.messages.push(OpMessage::XCalReset0);
                    self.phase = XCalPhase::AfterReset;
                    Action::Continue
                },
                _ => self.finish_err(OpError::UnexpectedReply),
            },
            XCalPhase::AfterReset => {
                if exit {
                    self.messages.push(OpMessage::XCalCancelled);
                    self.phase = XCalPhase::Done;
                    Action::Finished
                } else {
                    self.messages.push(OpMessage::XCalStep3);
                    self.sub = self.fresh_run(true);
                    self.phase = XCalPhase::Away;
                    Action::Continue
                }
            },
            XCalPhase::Done => Action::Finished,
        };
        assert(self@ =~= xc_step(pre, ops0, exit, reply).0);
        a
    }

    /// Whether the calibration has ended.
    pub fn is_done(&self) -> (r: bool)
        ensures
            r == (self@.phase == XCalPhase::Done),
    {
        match self.phase { XCalPhase::Done => true, _ => false }
    }

    /// The report of the calibration: its messages, or the error that ended it.
    pub fn result(self) -> (r: Result<Vec<OpMessage>, OpError>)
        ensures
            match self@.error {
                Some(e) => r == Err::<Vec<OpMessage>, OpError>(e),
                None => r matches Ok(m) && m@ == self@.messages,
            },
    {
        match self.error {
            Some(e) => Err(e),
            None => Ok(self.messages),
        }
    }
}

impl Operations {
    /// A homing run of the X stepper.
    pub fn x_home(&self, positions: Vec<i32>) -> (r: XRun)
        ensures
            r@ == x_initial(false, positions@),
            x_wf(r@),
    {
        XRun::new(false, positions)
    }

    /// An away run of the X stepper.
    pub fn x_away(&self, positions: Vec<i32>) -> (r: XRun)
        ensures
            r@ == x_initial(true, positions@),
            x_wf(r@),
    {
        XRun::new(true, positions)
    }

    /// An X calibration: home, then away.
    pub fn x_calibrate(&self, positions: Vec<i32>) -> (r: XCalibration)
        ensures
            xc_wf(r@),
            r@.phase == XCalPhase::Start,
            r@.positions == positions@,
            r@.messages == Seq::<OpMessage>::empty(),
            r@.error is None,
    {
        XCalibration::new(positions)
    }
}

} // verus!
