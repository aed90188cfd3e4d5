//! The vocabulary shared by the stepper procedures: what a procedure asks the
//! hardware layer to do, what the hardware layer answers, and the messages and
//! errors a procedure reports.

use vstd::prelude::*;

verus! {

/// The pause taken after a request, by which of the configured rest times.
#[derive(Clone, Copy, Debug, PartialEq, Eq, Structural)]
pub enum Rest {
    Z,
    X,
    Lap,
}

/// What a procedure asks the hardware layer to do next.
#[derive(Clone, Copy, Debug, PartialEq, Eq, Structural)]
pub enum Action {
    /// Nothing to perform: step again.
    Continue,
    /// Read the Z touch sensor with this index (reply `Touch`).
    ReadTouch { gpio_index: usize },
    /// Read the X home limit switch (reply `Limit`).
    ReadHomeLimit,
    /// Read the X away limit switch (reply `Limit`).
    ReadAwayLimit,
    /// Read the audio analysis of every string (reply `Audio`).
    ReadAudio,
    /// Move a stepper by `delta` steps, then rest if asked (reply `Stepper`).
    RelMove { stepper: usize, delta: i32, rest: Option<Rest> },
    /// Move a stepper to an absolute position (reply `Stepper`).
    AbsMove { stepper: usize, position: i32 },
    /// Set a stepper's position counter without moving it (reply `Stepper`).
    Reset { stepper: usize, position: i32 },
    /// Disable a stepper (reply `Stepper`).
    Disable { stepper: usize },
    /// Pause (reply `Nothing`).
    Pause(Rest),
    /// The procedure has ended; its result is available.
    Finished,
}

/// The amplitude sum of one string, compared with its thresholds, and its text
/// as the messages show it (two decimals).
#[derive(Clone, Debug)]
pub struct ChannelReading {
    pub amp_text: String,
    pub amp_above_max: bool,
    pub amp_below_min: bool,
    pub amp_in_range: bool,
}

/// What the hardware layer answers to the last action.
#[derive(Debug)]
pub enum Reply {
    /// Answer to `Continue`, `Pause` and the first step.
    Nothing,
    /// Answer to `ReadTouch`: the sensor states, or the GPIO error.
    Touch(Result<Vec<bool>, String>),
    /// Answer to `ReadHomeLimit` / `ReadAwayLimit`.
    Limit(Result<bool, String>),
    /// Answer to `ReadAudio`: one reading per string, in string order.
    Audio(Vec<ChannelReading>),
    /// Answer to a stepper request.
    Stepper(Result<(), String>),
}

/// Why a procedure failed.
#[derive(Clone, Debug, PartialEq, Eq)]
pub enum OpError {
    GpioNotInitialized,
    InvalidZUpStep(i32),
    XNotConfigured,
    XPositionUnavailable,
    XMaxPosNotConfigured,
    /// A stepper request failed with this message.
    Stepper(String),
    /// The answer did not match the request (a fault of the driver loop).
    UnexpectedReply,
    /// An arithmetic step of the procedure left the range of its integer type.
    Overflow,
}

/// Direction of an X sweep.
#[derive(Clone, Copy, Debug, PartialEq, Eq, Structural)]
pub enum Sweep {
    /// From `x_start` to `x_finish`.
    RightLeft,
    /// From `x_finish` to `x_start`.
    LeftRight,
}

/// One line of a procedure's report.
#[derive(Clone, Debug, PartialEq, Eq)]
pub enum OpMessage {
    // bump check
    BumpNoGpio,
    BumpSkipped,
    BumpInvalidIndex { index: usize },
    GpioError { stepper: usize, error: String },
    BumpDisablingAtMax { stepper: usize, max_pos: i32 },
    BumpExceededAttempts { stepper: usize },
    BumpCleared { stepper: usize, z_up_step: i32 },
    // Z calibration
    CalRequiresGpio,
    CalRunningInitialBump,
    CalStarting,
    CalCancelled,
    CalSkippingDisabled { stepper: usize },
    CalCancelledFor { stepper: usize },
    CalBottomedOut { stepper: usize },
    CalCalibrated { stepper: usize },
    CalIncomplete { stepper: usize },
    CalOffsetsNone,
    CalComplete,
    CalRunningFinalBump,
    CalBumpMaxIterations,
    CalAllCleared,
    CalBumpIteration { iteration: u32 },
    // Z adjustment
    AdjRunningInitialBump,
    AdjStarting,
    AdjCancelled,
    AdjBothDisabled { string: usize },
    AdjTooClose { string: usize, amp_text: String, voices: usize, stepper: usize, step: i32 },
    AdjTooFar { string: usize, amp_text: String, voices: usize, stepper: usize, step: i32 },
    AdjInRange { string: usize, amp_text: String, voices: usize },
    AdjRunningFinalBump,
    AdjComplete,
    // X sweeps
    SweepStart { sweep: Sweep, from: i32, to: i32, step: i32 },
    SweepCurrentX { pos: i32 },
    SweepMovingAbs { target: i32, current: i32 },
    SweepAfterInitial { pos: i32 },
    SweepCancelled,
    SweepPass { count: i32, level: i32, x: i32, attempt: i32 },
    SweepLevelMet { level: i32, x: i32, attempts: i32, step: i32 },
    SweepMoved { delta: i32, pos: i32 },
    SweepFailed { x: i32, count: i32 },
    SweepRetryExceeded { threshold: i32, x: i32 },
    SweepVarianceExceeded { threshold: i32, x: i32 },
    SweepComplete { sweep: Sweep },
    // X home / away / calibration
    XDummy,
    XHomeNoGpio,
    XHomeStart,
    XNoHomeSwitch,
    XMaxInvalid,
    XResetToMax { max: i32 },
    XCancelled,
    XHomeTrigger,
    XMaxIterations,
    XMovingHome { iteration: u32 },
    XHomeComplete,
    XHomeFailedAtZero,
    XDisablingHome,
    XHomeFailed { pos: i32 },
    XAwayNoGpio,
    XAwayStart,
    XSetZero,
    XMaxReached { max: i32 },
    XAwayTrigger,
    XMovingAway { iteration: u32, pos: i32 },
    XAwayComplete { max: i32 },
    XAwayFailedAtMax { pos: i32 },
    XDisablingAway,
    XAwayFailed { pos: i32 },
    XCalDummy,
    XCalNoGpio,
    XCalStart,
    XCalStep1,
    XCalCancelled,
    XCalStep2,
    XCalReset0,
    XCalStep3,
    XCalStep4 { pos: i32 },
    XCalComplete { pos: i32 },
}

/// `slice.get(i).copied().unwrap_or(d)`.
pub open spec fn seq_get_or<T>(s: Seq<T>, i: int, d: T) -> T {
    if 0 <= i < s.len() { s[i] } else { d }
}

/// `map.get(&k).copied().unwrap_or(d)`.
pub open spec fn map_get_or<K, V>(m: Map<K, V>, k: K, d: V) -> V {
    if m.contains_key(k) { m[k] } else { d }
}

/// The stepper requests of a procedure, implemented by whatever drives the
/// carriage (a socket client, a direct serial connection, a simulator).
pub trait StepperOperations {
    fn rel_move(&mut self, stepper: usize, delta: i32) -> Result<(), String>;

    fn abs_move(&mut self, stepper: usize, position: i32) -> Result<(), String>;

    fn reset(&mut self, stepper: usize, position: i32) -> Result<(), String>;

    fn disable(&mut self, stepper: usize) -> Result<(), String>;
}

/// Whether the action is one of the four stepper requests.
pub open spec fn is_stepper_request(action: Action) -> bool {
    ||| action is RelMove
    ||| action is AbsMove
    ||| action is Reset
    ||| action is Disable
}

/// Performs a stepper request through `ops` and wraps its outcome as the reply
/// the procedure expects; any other action is left to the caller (`None`).
pub fn perform_stepper_action<T: StepperOperations>(ops: &mut T, action: Action) -> (r: Option<Reply>)
    ensures
        r is Some <==> is_stepper_request(action),
        r matches Some(reply) ==> reply is Stepper,
{
    match action {
        Action::RelMove { stepper, delta, rest: _ } => Some(Reply::Stepper(ops.rel_move(stepper, delta))),
        Action::AbsMove { stepper, position } => Some(Reply::Stepper(ops.abs_move(stepper, position))),
        Action::Reset { stepper, position } => Some(Reply::Stepper(ops.reset(stepper, position))),
        Action::Disable { stepper } => Some(Reply::Stepper(ops.disable(stepper))),
        _ => None,
    }
}

/// A progress measure of a procedure: six counts compared in order, the first deciding.
pub type Progress = (int, int, int, int, int, int);

/// `a` comes before `b`: at the first count where they differ, `a`'s is smaller.
pub open spec fn progress_less(a: Progress, b: Progress) -> bool {
    ||| a.0 < b.0
    ||| a.0 == b.0 && a.1 < b.1
    ||| a.0 == b.0 && a.1 == b.1 && a.2 < b.2
    ||| a.0 == b.0 && a.1 == b.1 && a.2 == b.2 && a.3 < b.3
    ||| a.0 == b.0 && a.1 == b.1 && a.2 == b.2 && a.3 == b.3 && a.4 < b.4
    ||| a.0 == b.0 && a.1 == b.1 && a.2 == b.2 && a.3 == b.3 && a.4 == b.4 && a.5 < b.5
}

/// No count of the measure is negative, so it cannot keep going down for ever.
pub open spec fn progress_valid(a: Progress) -> bool {
    0 <= a.0 && 0 <= a.1 && 0 <= a.2 && 0 <= a.3 && 0 <= a.4 && 0 <= a.5
}

} // verus!
