//! The stepper panel: the process that owns the main board's port (and the tuner
//! board's, when tuners have their own), keeps the positions the boards report and
//! turns requests into command frames. Each request gives the steps the caller
//! performs on the ports: frames to send (after clearing the port's input), pauses,
//! and position refreshes.

use vstd::prelude::*;
use std::collections::HashMap;
use crate::settings::{ArduinoFirmware, ArduinoSettings, OperationsSettings};
use crate::config::{mainboard_tuner_indices, tuner_indices_spec};
use crate::cmdmessenger::{build_frame, command_frame, decode_reply, reply_data, positions_from_data, positions_in, position_in, i16_from_le};
use crate::connection::{stepper_socket_path, panel_socket_path};
use crate::ipc::{parse_command, command_of, PanelCommand, PanelRequest, positions_response, positions_text};

verus! {

broadcast use vstd::std_specs::hash::group_hash_axioms;

/// The command ids and positions request of a board's firmware.
#[derive(Clone, Debug)]
pub struct CommandSet {
    pub positions_cmd: Vec<u8>,
    pub rmove_id: u8,
    pub set_stepper_id: u8,
    pub set_accel_id: u8,
    pub set_speed_id: u8,
    pub set_min_id: u8,
    pub set_max_id: u8,
}

impl CommandSet {
    /// A command set with the given request and ids.
    pub fn new(positions_cmd: Vec<u8>, rmove_id: u8, set_stepper_id: u8, set_accel_id: u8, set_speed_id: u8, set_min_id: u8, set_max_id: u8) -> (r: Self)
        ensures
            r.positions_cmd@ == positions_cmd@,
            r.rmove_id == rmove_id,
            r.set_stepper_id == set_stepper_id,
            r.set_accel_id == set_accel_id,
            r.set_speed_id == set_speed_id,
            r.set_min_id == set_min_id,
            r.set_max_id == set_max_id,
    {
        CommandSet { positions_cmd, rmove_id, set_stepper_id, set_accel_id, set_speed_id, set_min_id, set_max_id }
    }

    /// Whether this is the command set of `firmware`: v1 asks positions with `2;` and
    /// numbers its moves 4, 7, 8, 9, 10, 11; v2 asks with `1;` and numbers them 3, 6, 7, 8, 9, 10.
    pub open spec fn is_for(&self, firmware: ArduinoFirmware) -> bool {
        match firmware {
            ArduinoFirmware::StringDriverV1 => {
                &&& self.positions_cmd@ == seq![50u8, 59u8]
                &&& self.rmove_id == 4 && self.set_stepper_id == 7 && self.set_accel_id == 8
                &&& self.set_speed_id == 9 && self.set_min_id == 10 && self.set_max_id == 11
            },
            ArduinoFirmware::StringDriverV2 => {
                &&& self.positions_cmd@ == seq![49u8, 59u8]
                &&& self.rmove_id == 3 && self.set_stepper_id == 6 && self.set_accel_id == 7
                &&& self.set_speed_id == 8 && self.set_min_id == 9 && self.set_max_id == 10
            },
        }
    }

    /// The command set of a firmware.
    pub fn for_firmware(firmware: ArduinoFirmware) -> (r: Self)
        ensures
            r.wf(),
            r.is_for(firmware),
    {
        match firmware {
            ArduinoFirmware::StringDriverV1 => CommandSet::new(vec![50u8, 59u8], 4, 7, 8, 9, 10, 11),
            ArduinoFirmware::StringDriverV2 => CommandSet::new(vec![49u8, 59u8], 3, 6, 7, 8, 9, 10),
        }
    }

    /// Every id is a small number, as the frames' first byte needs.
    pub open spec fn wf(&self) -> bool {
        &&& self.rmove_id <= 207
        &&& self.set_stepper_id <= 207
        &&& self.set_accel_id <= 207
        &&& self.set_speed_id <= 207
        &&& self.set_min_id <= 207
        &&& self.set_max_id <= 207
    }

    fn clone_set(&self) -> (r: Self)
        ensures
            r.positions_cmd@ == self.positions_cmd@,
            r.rmove_id == self.rmove_id,
            r.set_stepper_id == self.set_stepper_id,
            r.set_accel_id == self.set_accel_id,
            r.set_speed_id == self.set_speed_id,
            r.set_min_id == self.set_min_id,
            r.set_max_id == self.set_max_id,
    {
        let p = self.positions_cmd.clone();
        assert(p@ =~= self.positions_cmd@);
        CommandSet::new(p, self.rmove_id, self.set_stepper_id, self.set_accel_id, self.set_speed_id, self.set_min_id, self.set_max_id)
    }
}

/// One thing the caller does on the ports.
#[derive(Debug)]
pub enum PanelStep {
    /// Clear the main port's input, then write the frame.
    SendMain(Vec<u8>),
    /// Clear the tuner port's input, then write the frame.
    SendTuner(Vec<u8>),
    /// Pause for this many milliseconds.
    Wait(u32),
    /// Ask the main board for its positions and hand the reply to `apply_positions_reply`.
    RefreshMain,
    /// Ask the tuner board for its positions and hand the reply to `apply_tuner_reply`.
    RefreshTuner,
}

/// The mathematical form of a step.
pub enum StepView {
    SendMain(Seq<u8>),
    SendTuner(Seq<u8>),
    Wait(u32),
    RefreshMain,
    RefreshTuner,
}

impl View for PanelStep {
    type V = StepView;

    open spec fn view(&self) -> StepView {
        match self {
            PanelStep::SendMain(f) => StepView::SendMain(f@),
            PanelStep::SendTuner(f) => StepView::SendTuner(f@),
            PanelStep::Wait(ms) => StepView::Wait(*ms),
            PanelStep::RefreshMain => StepView::RefreshMain,
            PanelStep::RefreshTuner => StepView::RefreshTuner,
        }
    }
}

/// The views of the steps.
pub open spec fn step_views(s: Seq<PanelStep>) -> Seq<StepView> {
    Seq::new(s.len(), |k: int| s[k]@)
}

/// The steps of a request's outcome, by their views.
pub open spec fn steps_view(r: Result<Vec<PanelStep>, PanelError>) -> Result<Seq<StepView>, PanelError> {
    match r {
        Ok(v) => Ok(step_views(v@)),
        Err(e) => Err(e),
    }
}

/// The steps of a successful outcome, none for a failed one.
pub open spec fn ok_steps(r: Result<Seq<StepView>, PanelError>) -> Seq<StepView> {
    match r {
        Ok(s) => s,
        Err(_) => Seq::empty(),
    }
}

/// Why a request could not be carried out.
#[derive(Clone, Copy, Debug, PartialEq, Eq, Structural)]
pub enum PanelError {
    /// The port the request needs is not open.
    NotConnected,
    /// The stepper index is outside the position list.
    OutOfRange,
    /// No tuners are configured.
    NoTuners,
    /// An index or a move does not fit its integer type.
    Overflow,
    /// The panel offers no such control for this board layout.
    Unavailable,
}

/// The panel's model of the boards.
#[derive(Debug)]
pub struct StepperPanel {
    pub positions: Vec<i32>,
    pub connected: bool,
    pub tuner_positions: Vec<i32>,
    pub tuner_connected: bool,
    pub main_port_open: bool,
    pub tuner_port_open: bool,
    pub port_path: String,
    pub tuner_port_path: Option<String>,
    pub string_num: usize,
    pub x_step_index: Option<usize>,
    pub z_first_index: Option<usize>,
    pub tuner_first_index: Option<usize>,
    pub tuner_num_steppers: Option<usize>,
    pub pending_positions: HashMap<usize, i32>,
    pub tuner_accel: i32,
    pub tuner_speed: i32,
    pub tuner_min: i32,
    pub tuner_max: i32,
    pub x_accel: i32,
    pub x_speed: i32,
    pub x_min: i32,
    pub x_max: i32,
    pub z_accel: i32,
    pub z_speed: i32,
    pub z_min: i32,
    pub z_max: i32,
    pub z_up_step: i32,
    pub z_down_step: i32,
    pub socket_path: String,
    pub firmware: ArduinoFirmware,
    pub command_set: CommandSet,
    pub tuner_command_set: CommandSet,
    pub x_max_pos: Option<i32>,
}

/// The panel's frame of a command (the '/' escape scheme).
pub open spec fn panel_frame(cmd_id: u8, stepper: usize, value: i32) -> Seq<u8> {
    command_frame(cmd_id, stepper as i16, value, true)
}

/// `position` clamped to `[-100, 100]`.
pub open spec fn clamp100(position: i32) -> i32 {
    if position < -100 { -100i32 } else if position > 100 { 100i32 } else { position }
}

/// The tuner limits of a layout: a separate board runs ±100000, main-board tuners ±25000.
pub open spec fn tuner_limits(tuner_port_path: Option<String>, tuner_first_index: Option<usize>, tuner_num_steppers: Option<usize>) -> (i32, i32) {
    if tuner_num_steppers is Some && tuner_port_path is None && tuner_first_index is Some {
        (-25000i32, 25000i32)
    } else {
        (-100000i32, 100000i32)
    }
}

impl StepperPanel {
    /// Command ids of both command sets fit a frame.
    pub open spec fn wf(&self) -> bool {
        self.command_set.wf() && self.tuner_command_set.wf()
    }

    /// A panel with the default parameters: thirteen steppers at zero, no port open,
    /// tuners ±100000 at acceleration 10000 and speed 250, X 0..2600 at 10000 and 500,
    /// Z ±100 at 10000 and 100, Z steps +2 and −2, firmware v2.
    pub fn default() -> (r: Self)
        ensures
            r.wf(),
            r.positions@ == Seq::new(13, |k: int| 0i32),
            !r.connected && !r.tuner_connected && !r.main_port_open && !r.tuner_port_open,
            r.tuner_positions@.len() == 0,
            r.string_num == 0,
            r.x_step_index is None && r.z_first_index is None && r.tuner_first_index is None && r.tuner_num_steppers is None,
            r.tuner_port_path is None,
            r.pending_positions@ == Map::<usize, i32>::empty(),
            r.tuner_accel == 10000 && r.tuner_speed == 250 && r.tuner_min == -100000 && r.tuner_max == 100000,
            r.x_accel == 10000 && r.x_speed == 500 && r.x_min == 0 && r.x_max == 2600,
            r.z_accel == 10000 && r.z_speed == 100 && r.z_min == -100 && r.z_max == 100,
            r.z_up_step == 2 && r.z_down_step == -2,
            r.firmware == ArduinoFirmware::StringDriverV2,
            r.command_set.is_for(ArduinoFirmware::StringDriverV2),
            r.tuner_command_set.is_for(ArduinoFirmware::StringDriverV2),
            r.x_max_pos is None,
            r.port_path@.len() == 0 && r.socket_path@.len() == 0,
    {
        let mut positions: Vec<i32> = Vec::new();
        let mut k: usize = 0;
        while k < 13
            invariant
                k <= 13,
                positions@ == Seq::new(k as nat, |j: int| 0i32),
            decreases 13 - k,
        {
            positions.push(0);
            k = k + 1;
            assert(positions@ =~= Seq::new(k as nat, |j: int| 0i32));
        }
        StepperPanel {
            positions,
            connected: false,
            tuner_positions: Vec::new(),
            tuner_connected: false,
            main_port_open: false,
            tuner_port_open: false,
            port_path: String::new(),
            tuner_port_path: None,
            string_num: 0,
            x_step_index: None,
            z_first_index: None,
            tuner_first_index: None,
            tuner_num_steppers: None,
            pending_positions: HashMap::new(),
            tuner_accel: 10000,
            tuner_speed: 250,
            tuner_min: -100000,
            tuner_max: 100000,
            x_accel: 10000,
            x_speed: 500,
            x_min: 0,
            x_max: 2600,
            z_accel: 10000,
            z_speed: 100,
            z_min: -100,
            z_max: 100,
            z_up_step: 2,
            z_down_step: -2,
            socket_path: String::new(),
            firmware: ArduinoFirmware::StringDriverV2,
            command_set: CommandSet::for_firmware(ArduinoFirmware::StringDriverV2),
            tuner_command_set: CommandSet::for_firmware(ArduinoFirmware::StringDriverV2),
            x_max_pos: None,
        }
    }

    /// A panel for a board layout: `num_steppers` positions at zero, the firmware's
    /// command set (the tuner board always speaks v2), tuner limits by where the tuners
    /// sit, and the socket named after the port.
    pub fn new(
        port_path: String,
        num_steppers: usize,
        string_num: usize,
        x_step_index: Option<usize>,
        z_first_index: Option<usize>,
        tuner_first_index: Option<usize>,
        tuner_port_path: Option<String>,
        tuner_num_steppers: Option<usize>,
        z_up_step: i32,
        z_down_step: i32,
        firmware: ArduinoFirmware,
        x_max_pos: Option<i32>,
    ) -> (r: Self)
        ensures
            r.wf(),
            r.port_path == port_path,
            r.positions@ == Seq::new(num_steppers as nat, |k: int| 0i32),
            r.string_num == string_num,
            r.x_step_index == x_step_index,
            r.z_first_index == z_first_index,
            r.tuner_first_index == tuner_first_index,
            r.tuner_port_path == tuner_port_path,
            r.tuner_num_steppers == tuner_num_steppers,
            r.firmware == firmware,
            r.command_set.is_for(firmware),
            r.tuner_command_set.is_for(if tuner_port_path is Some { ArduinoFirmware::StringDriverV2 } else { firmware }),
            r.tuner_positions@ == Seq::new(match tuner_num_steppers { Some(n) => n as nat, None => 0 }, |k: int| 0i32),
            (r.tuner_min, r.tuner_max) == tuner_limits(tuner_port_path, tuner_first_index, tuner_num_steppers),
            r.z_up_step == z_up_step && r.z_down_step == z_down_step,
            r.x_max_pos == x_max_pos,
            r.socket_path@ == panel_socket_path(port_path@),
            !r.connected && !r.tuner_connected && !r.main_port_open && !r.tuner_port_open,
    {
        let mut s = StepperPanel::default();
        let mut positions: Vec<i32> = Vec::new();
        let mut k: usize = 0;
        while k < num_steppers
            invariant
                k <= num_steppers,
                positions@ == Seq::new(k as nat, |j: int| 0i32),
            decreases num_steppers - k,
        {
            positions.push(0);
            k = k + 1;
            assert(positions@ =~= Seq::new(k as nat, |j: int| 0i32));
        }
        s.positions = positions;
        s.string_num = string_num;
        s.x_step_index = x_step_index;
        s.z_first_index = z_first_index;
        s.tuner_first_index = tuner_first_index;
        s.tuner_num_steppers = tuner_num_steppers;
        s.firmware = firmware;
        let main_cmds = CommandSet::for_firmware(firmware);
        s.tuner_command_set = if tuner_port_path.is_some() {
            CommandSet::for_firmware(ArduinoFirmware::StringDriverV2)
        } else {
            main_cmds.clone_set()
        };
        s.command_set = main_cmds;
        if let Some(num) = tuner_num_steppers {
            let mut tp: Vec<i32> = Vec::new();
            let mut j: usize = 0;
            while j < num
                invariant
                    j <= num,
                    tp@ == Seq::new(j as nat, |x: int| 0i32),
                decreases num - j,
            {
                tp.push(0);
                j = j + 1;
                assert(tp@ =~= Seq::new(j as nat, |x: int| 0i32));
            }
            s.tuner_positions = tp;
            if tuner_port_path.is_some() {
                s.tuner_min = -100000;
                s.tuner_max = 100000;
            } else if tuner_first_index.is_some() {
                s.tuner_min = -25000;
                s.tuner_max = 25000;
            }
        }
        s.tuner_port_path = tuner_port_path;
        s.z_up_step = z_up_step;
        s.z_down_step = z_down_step;
        s.socket_path = stepper_socket_path(port_path.as_str());
        s.port_path = port_path;
        s.x_max_pos = x_max_pos;
        s
    }
}

/// What a positions reply did to the model.
#[derive(Clone, Copy, Debug, PartialEq, Eq, Structural)]
pub enum RefreshOutcome {
    /// No complete reply: positions unchanged.
    NoReply,
    /// A reply with fewer than two bytes per stepper (missing positions read as 0).
    Short,
    /// A reply with every position.
    Full,
}

/// The steps of one command frame on the main port, if it is open.
pub open spec fn main_frame_steps(open: bool, cmd_id: u8, stepper: usize, value: i32) -> Seq<StepView> {
    if open { seq![StepView::SendMain(panel_frame(cmd_id, stepper, value))] } else { Seq::empty() }
}

/// The steps that apply the Z parameters to one Z stepper.
pub open spec fn z_param_steps(p: StepperPanel, idx: usize) -> Seq<StepView> {
    main_frame_steps(p.main_port_open, p.command_set.set_accel_id, idx, p.z_accel) + seq![StepView::Wait(10)]
        + main_frame_steps(p.main_port_open, p.command_set.set_speed_id, idx, p.z_speed) + seq![StepView::Wait(10)]
        + main_frame_steps(p.main_port_open, p.command_set.set_min_id, 1, p.z_min) + seq![StepView::Wait(10)]
        + main_frame_steps(p.main_port_open, p.command_set.set_max_id, 1, p.z_max) + seq![StepView::Wait(10)]
}

/// The steps for the first `n` Z steppers (only those within the position list).
pub open spec fn z_params_steps(p: StepperPanel, z_first: usize, n: nat) -> Seq<StepView>
    decreases n,
{
    if n == 0 {
        Seq::empty()
    } else {
        let idx = z_first + (n - 1);
        z_params_steps(p, z_first, (n - 1) as nat) + if idx < p.positions@.len() { z_param_steps(p, idx as usize) } else { Seq::empty() }
    }
}

impl StepperPanel {
    /// Records the outcome of opening the main port: when it opened, the panel is
    /// connected and refreshes its positions.
    pub fn connect(&mut self, opened: bool) -> (r: Vec<PanelStep>)
        ensures
            opened ==> *final(self) == (StepperPanel { main_port_open: true, connected: true, ..*old(self) })
                && step_views(r@) == seq![StepView::RefreshMain],
            !opened ==> *final(self) == *old(self) && r@.len() == 0,
    {
        if opened {
            self.main_port_open = true;
            self.connected = true;
            let r = vec![PanelStep::RefreshMain];
            assert(step_views(r@) =~= seq![StepView::RefreshMain]);
            r
        } else {
            Vec::new()
        }
    }

    /// Records the outcome of opening the tuner port, or, with tuners on the main board,
    /// takes the tuner positions from the main board.
    pub fn connect_tuner(&mut self, opened: bool) -> (r: Vec<PanelStep>)
        ensures
            old(self).tuner_port_path is Some ==> (if opened {
                *final(self) == (StepperPanel { tuner_port_open: true, tuner_connected: true, ..*old(self) })
                    && step_views(r@) == seq![StepView::RefreshTuner]
            } else {
                *final(self) == *old(self) && r@.len() == 0
            }),
            old(self).tuner_port_path is None && old(self).tuner_first_index is Some ==>
                *final(self) == (StepperPanel { tuner_connected: true, ..*old(self) })
                    && step_views(r@) == seq![StepView::RefreshTuner],
            old(self).tuner_port_path is None && old(self).tuner_first_index is None ==> *final(self) == *old(self) && r@.len() == 0,
    {
        if self.tuner_port_path.is_some() {
            if opened {
                self.tuner_port_open = true;
                self.tuner_connected = true;
                let r = vec![PanelStep::RefreshTuner];
                assert(step_views(r@) =~= seq![StepView::RefreshTuner]);
                r
            } else {
                Vec::new()
            }
        } else if self.tuner_first_index.is_some() {
            self.tuner_connected = true;
            let r = vec![PanelStep::RefreshTuner];
            assert(step_views(r@) =~= seq![StepView::RefreshTuner]);
            r
        } else {
            Vec::new()
        }
    }

    /// Takes the main board's positions from its reply: one little-endian `i16` per
    /// stepper in the reply's data, 0 for the steppers the data does not reach; an
    /// incomplete reply leaves the positions as they were.
    pub fn apply_positions_reply(&mut self, reply: &[u8]) -> (r: RefreshOutcome)
        ensures
            !(reply@.len() > 0 && reply@.contains(59u8)) ==> r == RefreshOutcome::NoReply && *final(self) == *old(self),
            (reply@.len() > 0 && reply@.contains(59u8)) ==> {
                &&& final(self).positions@ == positions_in(reply_data(reply@), old(self).positions@.len())
                &&& r == (if reply_data(reply@).len() < 2 * old(self).positions@.len() { RefreshOutcome::Short } else { RefreshOutcome::Full })
                &&& *final(self) == (StepperPanel { positions: final(self).positions, ..*old(self) })
            },
    {
        if reply.len() == 0 || !crate::cmdmessenger::has_terminator(reply) {
            return RefreshOutcome::NoReply;
        }
        let data = decode_reply(reply);
        let num = self.positions.len();
        let short = data.len() / 2 < num;
        self.positions = positions_from_data(data.as_slice(), num);
        if short { RefreshOutcome::Short } else { RefreshOutcome::Full }
    }

    /// Takes the tuner board's positions from its reply: a tuner whose two bytes the data
    /// holds takes them, the others keep their position; an incomplete reply changes nothing.
    pub fn apply_tuner_reply(&mut self, reply: &[u8]) -> (r: RefreshOutcome)
        ensures
            !(reply@.len() > 0 && reply@.contains(59u8)) ==> r == RefreshOutcome::NoReply && *final(self) == *old(self),
            (reply@.len() > 0 && reply@.contains(59u8)) ==> {
                let data = reply_data(reply@);
                &&& final(self).tuner_positions@.len() == old(self).tuner_positions@.len()
                &&& forall|k: int| 0 <= k < old(self).tuner_positions@.len() ==> #[trigger] final(self).tuner_positions@[k] ==
                    if 2 * k + 1 < data.len() { position_in(data, k) } else { old(self).tuner_positions@[k] }
                &&& r == (if data.len() < 2 * old(self).tuner_positions@.len() { RefreshOutcome::Short } else { RefreshOutcome::Full })
                &&& *final(self) == (StepperPanel { tuner_positions: final(self).tuner_positions, ..*old(self) })
            },
    {
        if reply.len() == 0 || !crate::cmdmessenger::has_terminator(reply) {
            return RefreshOutcome::NoReply;
        }
        let data = decode_reply(reply);
        let num = self.tuner_positions.len();
        let short = data.len() / 2 < num;
        let fresh = positions_from_data(data.as_slice(), num);
        let ghost before = self.tuner_positions@;
        let mut k: usize = 0;
        while k < num
            invariant
                num == before.len(),
                fresh@ == positions_in(data@, num as nat),
                data@ == reply_data(reply@),
                k <= num,
                self.tuner_positions@.len() == num,
                forall|j: int| 0 <= j < num ==> #[trigger] self.tuner_positions@[j] ==
                    if j < k && 2 * j + 1 < data@.len() { position_in(data@, j) } else { before[j] },
                *self == (StepperPanel { tuner_positions: self.tuner_positions, ..*old(self) }),
            decreases num - k,
        {
            if k < data.len() / 2 {
                self.tuner_positions.set(k, fresh[k]);
            }
            k = k + 1;
        }
        if short { RefreshOutcome::Short } else { RefreshOutcome::Full }
    }

    /// With tuners on the main board: each tuner takes the position of its main-board
    /// stepper, where the main list reaches it.
    pub fn copy_mainboard_tuner_positions(&mut self)
        ensures
            ({
                let tf = old(self).tuner_first_index;
                let active = !old(self).tuner_port_open && tf is Some && old(self).tuner_connected && old(self).tuner_num_steppers is Some;
                &&& final(self).tuner_positions@.len() == old(self).tuner_positions@.len()
                &&& forall|i: int| 0 <= i < old(self).tuner_positions@.len() ==> #[trigger] final(self).tuner_positions@[i] ==
                    if active && i < old(self).tuner_num_steppers->0 && tf->0 + i < old(self).positions@.len() {
                        old(self).positions@[tf->0 + i]
                    } else {
                        old(self).tuner_positions@[i]
                    }
                &&& *final(self) == (StepperPanel { tuner_positions: final(self).tuner_positions, ..*old(self) })
            }),
    {
        if self.tuner_port_open || !self.tuner_connected {
            return;
        }
        let tf = match self.tuner_first_index { Some(t) => t, None => { return; } };
        let num = match self.tuner_num_steppers { Some(n) => n, None => { return; } };
        let ghost before = self.tuner_positions@;
        let mut i: usize = 0;
        while i < num
            invariant
                i <= num,
                self.tuner_positions@.len() == before.len(),
                forall|j: int| 0 <= j < before.len() ==> #[trigger] self.tuner_positions@[j] ==
                    if j < i && tf + j < self.positions@.len() { self.positions@[tf + j] } else { before[j] },
                *self == (StepperPanel { tuner_positions: self.tuner_positions, ..*old(self) }),
                self.tuner_first_index == Some(tf),
                self.tuner_num_steppers == Some(num),
            decreases num - i,
        {
            if i < self.tuner_positions.len() && tf < self.positions.len() && i < self.positions.len() - tf {
                let v = self.positions[tf + i];
                self.tuner_positions.set(i, v);
            }
            i = i + 1;
        }
    }

    fn main_frame(&self, cmd_id: u8, stepper: usize, value: i32) -> (r: Vec<u8>)
        requires
            cmd_id <= 207,
        ensures
            r@ == panel_frame(cmd_id, stepper, value),
    {
        build_frame(cmd_id, stepper as i16, value, true)
    }

    /// Moves a stepper by `delta` steps: the move frame, a half-second wait, a refresh.
    pub fn move_stepper(&self, stepper: usize, delta: i32) -> (r: Result<Vec<PanelStep>, PanelError>)
        requires
            self.wf(),
        ensures
            !self.main_port_open ==> r == Err::<Vec<PanelStep>, PanelError>(PanelError::NotConnected),
            self.main_port_open ==> (r matches Ok(v) && step_views(v@) == seq![
                StepView::SendMain(panel_frame(self.command_set.rmove_id, stepper, delta)), StepView::Wait(500), StepView::RefreshMain]),
    {
        if !self.main_port_open {
            return Err(PanelError::NotConnected);
        }
        let f = self.main_frame(self.command_set.rmove_id, stepper, delta);
        let v = vec![PanelStep::SendMain(f), PanelStep::Wait(500), PanelStep::RefreshMain];
        assert(step_views(v@) =~= seq![
            StepView::SendMain(panel_frame(self.command_set.rmove_id, stepper, delta)), StepView::Wait(500), StepView::RefreshMain]);
        Ok(v)
    }

    /// Records a position in the model only (no move): the value clamped to ±100.
    pub fn set_position(&mut self, stepper: usize, position: i32) -> (r: Result<i32, PanelError>)
        ensures
            stepper >= old(self).positions@.len() ==> r == Err::<i32, PanelError>(PanelError::OutOfRange) && *final(self) == *old(self),
            stepper < old(self).positions@.len() ==> {
                &&& r == Ok::<i32, PanelError>(clamp100(position))
                &&& final(self).positions@ == old(self).positions@.update(stepper as int, clamp100(position))
                &&& *final(self) == (StepperPanel { positions: final(self).positions, ..*old(self) })
            },
    {
        let clamped = if position < -100 { -100 } else if position > 100 { 100 } else { position };
        if stepper < self.positions.len() {
            self.positions.set(stepper, clamped);
            Ok(clamped)
        } else {
            Err(PanelError::OutOfRange)
        }
    }

    /// Sets a stepper's counter without moving: the set frame, a short wait, a refresh.
    pub fn reset_position(&self, stepper: usize, position: i32) -> (r: Result<Vec<PanelStep>, PanelError>)
        requires
            self.wf(),
        ensures
            !self.main_port_open ==> r == Err::<Vec<PanelStep>, PanelError>(PanelError::NotConnected),
            self.main_port_open ==> (r matches Ok(v) && step_views(v@) == seq![
                StepView::SendMain(panel_frame(self.command_set.set_stepper_id, stepper, position)), StepView::Wait(100), StepView::RefreshMain]),
    {
        if !self.main_port_open {
            return Err(PanelError::NotConnected);
        }
        let f = self.main_frame(self.command_set.set_stepper_id, stepper, position);
        let v = vec![PanelStep::SendMain(f), PanelStep::Wait(100), PanelStep::RefreshMain];
        assert(step_views(v@) =~= seq![
            StepView::SendMain(panel_frame(self.command_set.set_stepper_id, stepper, position)), StepView::Wait(100), StepView::RefreshMain]);
        Ok(v)
    }

    fn one_frame(&self, cmd_id: u8, stepper: usize, value: i32) -> (r: Result<Vec<PanelStep>, PanelError>)
        requires
            cmd_id <= 207,
        ensures
            !self.main_port_open ==> r == Err::<Vec<PanelStep>, PanelError>(PanelError::NotConnected),
            self.main_port_open ==> (r matches Ok(v) && step_views(v@) == seq![StepView::SendMain(panel_frame(cmd_id, stepper, value))]),
    {
        if !self.main_port_open {
            return Err(PanelError::NotConnected);
        }
        let f = self.main_frame(cmd_id, stepper, value);
        let v = vec![PanelStep::SendMain(f)];
        assert(step_views(v@) =~= seq![StepView::SendMain(panel_frame(cmd_id, stepper, value))]);
        Ok(v)
    }

    /// Sets a stepper's acceleration.
    pub fn set_accel(&self, stepper: usize, accel: i32) -> (r: Result<Vec<PanelStep>, PanelError>)
        requires
            self.wf(),
        ensures
            !self.main_port_open ==> r == Err::<Vec<PanelStep>, PanelError>(PanelError::NotConnected),
            self.main_port_open ==> (r matches Ok(v) && step_views(v@) == seq![StepView::SendMain(panel_frame(self.command_set.set_accel_id, stepper, accel))]),
    {
        self.one_frame(self.command_set.set_accel_id, stepper, accel)
    }

    /// Sets a stepper's speed.
    pub fn set_speed(&self, stepper: usize, speed: i32) -> (r: Result<Vec<PanelStep>, PanelError>)
        requires
            self.wf(),
        ensures
            !self.main_port_open ==> r == Err::<Vec<PanelStep>, PanelError>(PanelError::NotConnected),
            self.main_port_open ==> (r matches Ok(v) && step_views(v@) == seq![StepView::SendMain(panel_frame(self.command_set.set_speed_id, stepper, speed))]),
    {
        self.one_frame(self.command_set.set_speed_id, stepper, speed)
    }

    /// Sets an axis' lower limit.
    pub fn set_min(&self, axis: usize, min_val: i32) -> (r: Result<Vec<PanelStep>, PanelError>)
        requires
            self.wf(),
        ensures
            !self.main_port_open ==> r == Err::<Vec<PanelStep>, PanelError>(PanelError::NotConnected),
            self.main_port_open ==> (r matches Ok(v) && step_views(v@) == seq![StepView::SendMain(panel_frame(self.command_set.set_min_id, axis, min_val))]),
    {
        self.one_frame(self.command_set.set_min_id, axis, min_val)
    }

    /// Sets an axis' upper limit.
    pub fn set_max(&self, axis: usize, max_val: i32) -> (r: Result<Vec<PanelStep>, PanelError>)
        requires
            self.wf(),
        ensures
            !self.main_port_open ==> r == Err::<Vec<PanelStep>, PanelError>(PanelError::NotConnected),
            self.main_port_open ==> (r matches Ok(v) && step_views(v@) == seq![StepView::SendMain(panel_frame(self.command_set.set_max_id, axis, max_val))]),
    {
        self.one_frame(self.command_set.set_max_id, axis, max_val)
    }

    fn tuner_frame(&self, cmd_id: u8, tuner_idx: usize, value: i32, settle: Option<u32>) -> (r: Vec<PanelStep>)
        requires
            cmd_id <= 207,
        ensures
            step_views(r@) == match settle {
                Some(ms) => seq![StepView::SendTuner(panel_frame(cmd_id, tuner_idx, value)), StepView::Wait(ms), StepView::RefreshTuner],
                None => seq![StepView::SendTuner(panel_frame(cmd_id, tuner_idx, value))],
            },
    {
        let f = build_frame(cmd_id, tuner_idx as i16, value, true);
        match settle {
            Some(ms) => {
                let v = vec![PanelStep::SendTuner(f), PanelStep::Wait(ms), PanelStep::RefreshTuner];
                assert(step_views(v@) =~= seq![StepView::SendTuner(panel_frame(cmd_id, tuner_idx, value)), StepView::Wait(ms), StepView::RefreshTuner]);
                v
            },
            None => {
                let v = vec![PanelStep::SendTuner(f)];
                assert(step_views(v@) =~= seq![StepView::SendTuner(panel_frame(cmd_id, tuner_idx, value))]);
                v
            },
        }
    }

    /// The main-board stepper of a tuner (`tuner_first + tuner_idx`).
    fn mainboard_index(&self, tuner_idx: usize) -> (r: Result<usize, PanelError>)
        ensures
            self.tuner_first_index is None ==> r == Err::<usize, PanelError>(PanelError::NoTuners),
            self.tuner_first_index matches Some(tf) ==> if tf + tuner_idx <= usize::MAX {
                r == Ok::<usize, PanelError>((self.tuner_first_index->0 + tuner_idx) as usize)
            } else {
                r == Err::<usize, PanelError>(PanelError::Overflow)
            },
    {
        match self.tuner_first_index {
            None => Err(PanelError::NoTuners),
            Some(tf) => if tuner_idx <= usize::MAX - tf { Ok(tf + tuner_idx) } else { Err(PanelError::Overflow) },
        }
    }

    /// Moves a tuner: on its own board by the tuner command set, otherwise as the main-board stepper it is.
    pub fn move_tuner(&self, tuner_idx: usize, delta: i32) -> (r: Result<Vec<PanelStep>, PanelError>)
        requires
            self.wf(),
        ensures
            steps_view(r) == tuner_move_request(*self, tuner_idx, delta),
    {
        if self.tuner_port_open {
            return Ok(self.tuner_frame(self.tuner_command_set.rmove_id, tuner_idx, delta, Some(500)));
        }
        let idx = match self.mainboard_index(tuner_idx) { Ok(i) => i, Err(e) => { return Err(e); } };
        self.move_stepper(idx, delta)
    }

    /// Sets a tuner's acceleration: on its own board, or as the main-board stepper it is.
    pub fn set_tuner_accel(&self, tuner_idx: usize, accel: i32) -> (r: Result<Vec<PanelStep>, PanelError>)
        requires
            self.wf(),
        ensures
            steps_view(r) == tuner_request(*self, self.tuner_command_set.set_accel_id, self.command_set.set_accel_id, tuner_idx, accel),
    {
        if self.tuner_port_open {
            return Ok(self.tuner_frame(self.tuner_command_set.set_accel_id, tuner_idx, accel, None));
        }
        let idx = match self.mainboard_index(tuner_idx) { Ok(i) => i, Err(e) => { return Err(e); } };
        self.set_accel(idx, accel)
    }

    /// Sets a tuner's speed: on its own board, or as the main-board stepper it is.
    pub fn set_tuner_speed(&self, tuner_idx: usize, speed: i32) -> (r: Result<Vec<PanelStep>, PanelError>)
        requires
            self.wf(),
        ensures
            steps_view(r) == tuner_request(*self, self.tuner_command_set.set_speed_id, self.command_set.set_speed_id, tuner_idx, speed),
    {
        if self.tuner_port_open {
            return Ok(self.tuner_frame(self.tuner_command_set.set_speed_id, tuner_idx, speed, None));
        }
        let idx = match self.mainboard_index(tuner_idx) { Ok(i) => i, Err(e) => { return Err(e); } };
        self.set_speed(idx, speed)
    }

    /// Sets the tuners' lower limit: on their own board per tuner, on the main board for axis 0.
    pub fn set_tuner_min(&self, tuner_idx: usize, min_val: i32) -> (r: Result<Vec<PanelStep>, PanelError>)
        requires
            self.wf(),
        ensures
            steps_view(r) == tuner_limit_request(*self, self.tuner_command_set.set_min_id, self.command_set.set_min_id, tuner_idx, min_val),
    {
        if self.tuner_port_open {
            return Ok(self.tuner_frame(self.tuner_command_set.set_min_id, tuner_idx, min_val, None));
        }
        if self.tuner_first_index.is_none() {
            return Err(PanelError::NoTuners);
        }
        self.set_min(0, min_val)
    }

    /// Sets the tuners' upper limit: on their own board per tuner, on the main board for axis 0.
    pub fn set_tuner_max(&self, tuner_idx: usize, max_val: i32) -> (r: Result<Vec<PanelStep>, PanelError>)
        requires
            self.wf(),
        ensures
            steps_view(r) == tuner_limit_request(*self, self.tuner_command_set.set_max_id, self.command_set.set_max_id, tuner_idx, max_val),
    {
        if self.tuner_port_open {
            return Ok(self.tuner_frame(self.tuner_command_set.set_max_id, tuner_idx, max_val, None));
        }
        if self.tuner_first_index.is_none() {
            return Err(PanelError::NoTuners);
        }
        self.set_max(0, max_val)
    }

    fn push_frame_if_open(&self, out: &mut Vec<PanelStep>, cmd_id: u8, stepper: usize, value: i32)
        requires
            cmd_id <= 207,
        ensures
            step_views(final(out)@) == step_views(old(out)@) + main_frame_steps(self.main_port_open, cmd_id, stepper, value) + seq![StepView::Wait(10)],
    {
        let ghost before = step_views(out@);
        if self.main_port_open {
            let f = self.main_frame(cmd_id, stepper, value);
            out.push(PanelStep::SendMain(f));
        }
        out.push(PanelStep::Wait(10));
        assert(step_views(out@) =~= before + main_frame_steps(self.main_port_open, cmd_id, stepper, value) + seq![StepView::Wait(10)]);
    }

    /// Applies the Z parameters to every Z stepper within the position list: acceleration
    /// and speed per stepper, then the Z axis' limits (axis 1), each followed by a 10 ms wait.
    pub fn apply_z_params_to_all(&self) -> (r: Vec<PanelStep>)
        requires
            self.wf(),
            self.z_first_index matches Some(zf) ==> zf + 2 * self.string_num <= usize::MAX,
        ensures
            step_views(r@) == match self.z_first_index {
                Some(zf) => z_params_steps(*self, zf, (2 * self.string_num) as nat),
                None => Seq::empty(),
            },
    {
        let mut out: Vec<PanelStep> = Vec::new();
        let zf = match self.z_first_index {
            Some(z) => z,
            None => {
                assert(step_views(out@) =~= Seq::<StepView>::empty());
                return out;
            },
        };
        let n = self.string_num * 2;
        let mut i: usize = 0;
        assert(step_views(out@) =~= Seq::<StepView>::empty());
        while i < n
            invariant
                self.wf(),
                n == 2 * self.string_num,
                zf + n <= usize::MAX,
                i <= n,
                step_views(out@) == z_params_steps(*self, zf, i as nat),
            decreases n - i,
        {
            let idx = zf + i;
            let ghost before = step_views(out@);
            if idx < self.positions.len() {
                self.push_frame_if_open(&mut out, self.command_set.set_accel_id, idx, self.z_accel);
                self.push_frame_if_open(&mut out, self.command_set.set_speed_id, idx, self.z_speed);
                self.push_frame_if_open(&mut out, self.command_set.set_min_id, 1, self.z_min);
                self.push_frame_if_open(&mut out, self.command_set.set_max_id, 1, self.z_max);
                assert(step_views(out@) =~= before + z_param_steps(*self, idx));
            }
            i = i + 1;
            assert(step_views(out@) =~= z_params_steps(*self, zf, i as nat));
        }
        out
    }
}

/// What the panel did with a line from its socket.
#[derive(Debug)]
pub enum Handled {
    /// Nothing to do (an empty line, or a known verb with unusable arguments).
    Nothing,
    /// A move or counter reset: the steps to perform, or why there are none.
    Steps(Result<Vec<PanelStep>, PanelError>),
    /// A model-only position update: the recorded (clamped) value, or why there is none.
    Positioned(Result<i32, PanelError>),
    /// The answer to write back to the client.
    Respond(String),
    /// An unknown verb.
    Unknown,
}

impl StepperPanel {
    /// Handles one line from the panel's socket: `rel_move` moves, `abs_move` records a
    /// position in the model, `reset` sets a counter, `get_positions` answers with the
    /// positions.
    pub fn handle_command(&mut self, cmd: &str) -> (r: Handled)
        requires
            old(self).wf(),
        ensures
            match command_of(cmd@) {
                PanelCommand::Empty | PanelCommand::Ignored => r is Nothing && *final(self) == *old(self),
                PanelCommand::Unknown => r is Unknown && *final(self) == *old(self),
                PanelCommand::Request(PanelRequest::RelMove { stepper, delta }) => *final(self) == *old(self) && match r {
                    Handled::Steps(Err(e)) => !old(self).main_port_open && e == PanelError::NotConnected,
                    Handled::Steps(Ok(v)) => old(self).main_port_open && step_views(v@) == seq![
                        StepView::SendMain(panel_frame(old(self).command_set.rmove_id, stepper, delta)), StepView::Wait(500), StepView::RefreshMain],
                    _ => false,
                },
                PanelCommand::Request(PanelRequest::Reset { stepper, position }) => *final(self) == *old(self) && match r {
                    Handled::Steps(Err(e)) => !old(self).main_port_open && e == PanelError::NotConnected,
                    Handled::Steps(Ok(v)) => old(self).main_port_open && step_views(v@) == seq![
                        StepView::SendMain(panel_frame(old(self).command_set.set_stepper_id, stepper, position)), StepView::Wait(100), StepView::RefreshMain],
                    _ => false,
                },
                PanelCommand::Request(PanelRequest::AbsMove { stepper, position }) => match r {
                    Handled::Positioned(Err(e)) => stepper >= old(self).positions@.len() && e == PanelError::OutOfRange && *final(self) == *old(self),
                    Handled::Positioned(Ok(v)) => stepper < old(self).positions@.len() && v == clamp100(position)
                        && final(self).positions@ == old(self).positions@.update(stepper as int, clamp100(position))
                        && *final(self) == (StepperPanel { positions: final(self).positions, ..*old(self) }),
                    _ => false,
                },
                PanelCommand::Request(PanelRequest::GetPositions) => *final(self) == *old(self)
                    && (r matches Handled::Respond(t) && t@ == positions_text(old(self).positions@)),
            },
    {
        match parse_command(cmd) {
            PanelCommand::Empty | PanelCommand::Ignored => Handled::Nothing,
            PanelCommand::Unknown => Handled::Unknown,
            PanelCommand::Request(PanelRequest::RelMove { stepper, delta }) => Handled::Steps(self.move_stepper(stepper, delta)),
            PanelCommand::Request(PanelRequest::Reset { stepper, position }) => Handled::Steps(self.reset_position(stepper, position)),
            PanelCommand::Request(PanelRequest::AbsMove { stepper, position }) => Handled::Positioned(self.set_position(stepper, position)),
            PanelCommand::Request(PanelRequest::GetPositions) => Handled::Respond(positions_response(self.positions.as_slice())),
        }
    }
}

/// Why the panel cannot be set up for a host.
#[derive(Clone, Copy, Debug, PartialEq, Eq, Structural)]
pub enum LayoutError {
    /// The host has no carriage port.
    NoPort,
    /// The host's stepper count is not given.
    NoSteppers,
}

/// The number of tuners the panel shows: those of the tuner board, else the main-board tuners (if any).
pub open spec fn panel_tuner_count(s: ArduinoSettings) -> Option<usize> {
    if s.ard_t_num_steppers is Some {
        s.ard_t_num_steppers
    } else if tuner_indices_spec(s).len() > 0 {
        Some(tuner_indices_spec(s).len() as usize)
    } else {
        None
    }
}

impl StepperPanel {
    /// The panel of a host: its port and stepper count are required; the tuners shown are
    /// the tuner board's or the main board's; the Z steps come from the operations
    /// settings when they could be read (+2 and −2 otherwise).
    pub fn from_settings(settings: &ArduinoSettings, ops: Option<&OperationsSettings>) -> (r: Result<StepperPanel, LayoutError>)
        ensures
            settings.port is None ==> r == Err::<StepperPanel, LayoutError>(LayoutError::NoPort),
            settings.port is Some && settings.num_steppers is None ==> r == Err::<StepperPanel, LayoutError>(LayoutError::NoSteppers),
            settings.port is Some && settings.num_steppers is Some ==> (r matches Ok(p) && {
                &&& p.wf()
                &&& p.port_path == settings.port->0
                &&& p.positions@.len() == settings.num_steppers->0
                &&& p.string_num == settings.string_num
                &&& p.x_step_index == settings.x_step_index
                &&& p.z_first_index == settings.z_first_index
                &&& p.tuner_first_index == settings.tuner_first_index
                &&& p.tuner_port_path == settings.ard_t_port
                &&& p.tuner_num_steppers == panel_tuner_count(*settings)
                &&& p.firmware == settings.firmware
                &&& p.x_max_pos == settings.x_max_pos
                &&& p.z_up_step == (match ops { Some(o) => o.z_up_step.unwrap_or(2), None => 2 })
                &&& p.z_down_step == (match ops { Some(o) => o.z_down_step.unwrap_or(-2i32), None => -2i32 })
                &&& !p.connected && !p.main_port_open
            }),
    {
        let tuners = mainboard_tuner_indices(settings);
        let tuner_num: Option<usize> = if settings.ard_t_num_steppers.is_some() {
            settings.ard_t_num_steppers
        } else if tuners.len() > 0 {
            Some(tuners.len())
        } else {
            None
        };
        let port = match &settings.port { Some(p) => p.clone(), None => { return Err(LayoutError::NoPort); } };
        let num = match settings.num_steppers { Some(n) => n, None => { return Err(LayoutError::NoSteppers); } };
        let (z_up, z_down): (i32, i32) = match ops {
            Some(o) => (match o.z_up_step { Some(v) => v, None => 2 }, match o.z_down_step { Some(v) => v, None => -2 }),
            None => (2, -2),
        };
        let tport = match &settings.ard_t_port { Some(t) => Some(t.clone()), None => None };
        Ok(StepperPanel::new(
            port,
            num,
            settings.string_num,
            settings.x_step_index,
            settings.z_first_index,
            settings.tuner_first_index,
            tport,
            tuner_num,
            z_up,
            z_down,
            settings.firmware,
            settings.x_max_pos,
        ))
    }
}

/// A one-frame request on the main board.
pub open spec fn main_request(p: StepperPanel, cmd_id: u8, stepper: usize, value: i32) -> Result<Seq<StepView>, PanelError> {
    if p.main_port_open {
        Ok(seq![StepView::SendMain(panel_frame(cmd_id, stepper, value))])
    } else {
        Err(PanelError::NotConnected)
    }
}

/// A relative move on the main board: the frame, a half-second wait, a refresh.
pub open spec fn move_request(p: StepperPanel, stepper: usize, delta: i32) -> Result<Seq<StepView>, PanelError> {
    if p.main_port_open {
        Ok(seq![StepView::SendMain(panel_frame(p.command_set.rmove_id, stepper, delta)), StepView::Wait(500), StepView::RefreshMain])
    } else {
        Err(PanelError::NotConnected)
    }
}

/// A per-tuner parameter request: on the tuner board by the tuner id, otherwise on the
/// main board by the main id, for the tuner's main-board stepper.
pub open spec fn tuner_request(p: StepperPanel, tuner_id: u8, main_id: u8, t: usize, value: i32) -> Result<Seq<StepView>, PanelError> {
    if p.tuner_port_open {
        Ok(seq![StepView::SendTuner(panel_frame(tuner_id, t, value))])
    } else {
        match p.tuner_first_index {
            None => Err(PanelError::NoTuners),
            Some(tf) => if tf + t > usize::MAX { Err(PanelError::Overflow) } else { main_request(p, main_id, (tf + t) as usize, value) },
        }
    }
}

/// A tuner limit: per tuner on the tuner board, on axis 0 of the main board otherwise.
pub open spec fn tuner_limit_request(p: StepperPanel, tuner_id: u8, main_id: u8, t: usize, value: i32) -> Result<Seq<StepView>, PanelError> {
    if p.tuner_port_open {
        Ok(seq![StepView::SendTuner(panel_frame(tuner_id, t, value))])
    } else if p.tuner_first_index is None {
        Err(PanelError::NoTuners)
    } else {
        main_request(p, main_id, 0, value)
    }
}

/// A tuner move: on the tuner board (then a tuner refresh), else as its main-board stepper.
pub open spec fn tuner_move_request(p: StepperPanel, t: usize, delta: i32) -> Result<Seq<StepView>, PanelError> {
    if p.tuner_port_open {
        Ok(seq![StepView::SendTuner(panel_frame(p.tuner_command_set.rmove_id, t, delta)), StepView::Wait(500), StepView::RefreshTuner])
    } else {
        match p.tuner_first_index {
            None => Err(PanelError::NoTuners),
            Some(tf) => if tf + t > usize::MAX { Err(PanelError::Overflow) } else { move_request(p, (tf + t) as usize, delta) },
        }
    }
}

/// A control of the panel: a button pressed, a value entered, a parameter changed.
#[derive(Clone, Copy, Debug, PartialEq, Eq, Structural)]
pub enum PanelControl {
    /// A target position entered for the X stepper.
    XTarget(i32),
    XAccel(i32),
    XSpeed(i32),
    XMin(i32),
    XMax(i32),
    /// The Z parameters, applied to every Z stepper.
    ZAccel(i32),
    ZSpeed(i32),
    ZMin(i32),
    ZMax(i32),
    /// The Z steps of the up and down buttons.
    ZUpStep(i32),
    ZDownStep(i32),
    /// The up button of a Z stepper.
    ZUp(usize),
    /// The down button of a Z stepper.
    ZDown(usize),
    /// A position entered for a Z stepper (recorded in the model only).
    ZTarget { stepper: usize, target: i32 },
    /// The tuner parameters, applied to every tuner.
    TunerAccel(i32),
    TunerSpeed(i32),
    TunerMin(i32),
    TunerMax(i32),
    /// A tuner's up (+10) or down (−10) button.
    TunerStep { tuner: usize, up: bool },
}

/// `v` limited to `[lo, hi]` (checked against `lo` first).
pub open spec fn clamp_to(v: i32, lo: i32, hi: i32) -> i32 {
    if v < lo { lo } else if v > hi { hi } else { v }
}

/// The X stepper, when the panel shows its controls: configured, within the position
/// list, and at a position of at least zero.
pub open spec fn x_control(p: StepperPanel) -> Option<usize> {
    match p.x_step_index {
        Some(x) => if x < p.positions@.len() && p.positions@[x as int] >= 0 { Some(x) } else { None },
        None => None,
    }
}

/// Whether the panel shows the buttons of Z stepper `s`: it is one of the strings' Z
/// steppers and both steppers of its string are within the position list.
pub open spec fn z_control(p: StepperPanel, s: usize) -> bool {
    p.z_first_index matches Some(zf) && zf <= s && s < zf + 2 * p.string_num
        && zf + 2 * ((s - zf) / 2) + 1 < p.positions@.len()
}

/// The number of tuners whose controls the panel shows.
pub open spec fn tuner_controls(p: StepperPanel) -> Option<usize> {
    if p.tuner_first_index is Some { p.tuner_num_steppers } else { None }
}

/// The request one tuner gets for a tuner-parameter control.
pub open spec fn tuner_param_request(p: StepperPanel, c: PanelControl, t: usize) -> Result<Seq<StepView>, PanelError> {
    match c {
        PanelControl::TunerAccel(v) => tuner_request(p, p.tuner_command_set.set_accel_id, p.command_set.set_accel_id, t, v),
        PanelControl::TunerSpeed(v) => tuner_request(p, p.tuner_command_set.set_speed_id, p.command_set.set_speed_id, t, v),
        PanelControl::TunerMin(v) => tuner_limit_request(p, p.tuner_command_set.set_min_id, p.command_set.set_min_id, t, v),
        PanelControl::TunerMax(v) => tuner_limit_request(p, p.tuner_command_set.set_max_id, p.command_set.set_max_id, t, v),
        _ => Err(PanelError::Unavailable),
    }
}

/// The steps of a tuner-parameter control over tuners `0..n`; a tuner whose request
/// fails is skipped.
pub open spec fn all_tuner_steps(p: StepperPanel, c: PanelControl, n: nat) -> Seq<StepView>
    decreases n,
{
    if n == 0 {
        Seq::empty()
    } else {
        all_tuner_steps(p, c, (n - 1) as nat) + ok_steps(tuner_param_request(p, c, (n - 1) as usize))
    }
}

/// The Z parameters applied to every Z stepper of panel `q`.
pub open spec fn z_apply(q: StepperPanel) -> Result<Seq<StepView>, PanelError> {
    match q.z_first_index {
        Some(zf) => if zf + 2 * q.string_num > usize::MAX {
            Err(PanelError::Overflow)
        } else {
            Ok(z_params_steps(q, zf, (2 * q.string_num) as nat))
        },
        None => Ok(Seq::empty()),
    }
}

/// What a control asks of the boards.
pub open spec fn control_result(p: StepperPanel, c: PanelControl) -> Result<Seq<StepView>, PanelError> {
    match c {
        PanelControl::XTarget(t) => match (x_control(p), p.x_max_pos) {
            (Some(x), Some(max)) => {
                let delta = clamp_to(t, -100i32, max) - p.positions@[x as int];
                if delta == 0 {
                    Ok(Seq::empty())
                } else if delta < i32::MIN || delta > i32::MAX {
                    Err(PanelError::Overflow)
                } else {
                    move_request(p, x, delta as i32)
                }
            },
            _ => Err(PanelError::Unavailable),
        },
        PanelControl::XAccel(v) => match x_control(p) {
            Some(x) => main_request(p, p.command_set.set_accel_id, x, v),
            None => Err(PanelError::Unavailable),
        },
        PanelControl::XSpeed(v) => match x_control(p) {
            Some(x) => main_request(p, p.command_set.set_speed_id, x, v),
            None => Err(PanelError::Unavailable),
        },
        PanelControl::XMin(v) => match x_control(p) {
            Some(_) => main_request(p, p.command_set.set_min_id, 0, v),
            None => Err(PanelError::Unavailable),
        },
        PanelControl::XMax(v) => match x_control(p) {
            Some(_) => main_request(p, p.command_set.set_max_id, 0, v),
            None => Err(PanelError::Unavailable),
        },
        PanelControl::ZAccel(v) => z_apply(StepperPanel { z_accel: v, ..p }),
        PanelControl::ZSpeed(v) => z_apply(StepperPanel { z_speed: v, ..p }),
        PanelControl::ZMin(v) => z_apply(StepperPanel { z_min: v, ..p }),
        PanelControl::ZMax(v) => z_apply(StepperPanel { z_max: v, ..p }),
        PanelControl::ZUpStep(_) => Ok(Seq::empty()),
        PanelControl::ZDownStep(_) => Ok(Seq::empty()),
        PanelControl::ZUp(st) => if z_control(p, st) { move_request(p, st, p.z_up_step) } else { Err(PanelError::Unavailable) },
        PanelControl::ZDown(st) => if z_control(p, st) { move_request(p, st, p.z_down_step) } else { Err(PanelError::Unavailable) },
        PanelControl::ZTarget { stepper, target: _ } => if z_control(p, stepper) { Ok(Seq::empty()) } else { Err(PanelError::Unavailable) },
        PanelControl::TunerStep { tuner, up } => match tuner_controls(p) {
            Some(n) => if tuner < n { tuner_move_request(p, tuner, if up { 10i32 } else { -10i32 }) } else { Err(PanelError::Unavailable) },
            None => Err(PanelError::Unavailable),
        },
        _ => match tuner_controls(p) {
            Some(n) => Ok(all_tuner_steps(p, c, n as nat)),
            None => Err(PanelError::Unavailable),
        },
    }
}

/// How a control changes the panel's model.
pub open spec fn control_effect(old: StepperPanel, new: StepperPanel, c: PanelControl) -> bool {
    match c {
        PanelControl::XTarget(_) => if x_control(old) is Some && old.x_max_pos is Some {
            &&& new.pending_positions@ == old.pending_positions@.remove(x_control(old)->0)
            &&& new == StepperPanel { pending_positions: new.pending_positions, ..old }
        } else {
            new == old
        },
        PanelControl::XAccel(v) => new == if x_control(old) is Some { StepperPanel { x_accel: v, ..old } } else { old },
        PanelControl::XSpeed(v) => new == if x_control(old) is Some { StepperPanel { x_speed: v, ..old } } else { old },
        PanelControl::XMin(v) => new == if x_control(old) is Some { StepperPanel { x_min: v, ..old } } else { old },
        PanelControl::XMax(v) => new == if x_control(old) is Some { StepperPanel { x_max: v, ..old } } else { old },
        PanelControl::ZAccel(v) => new == StepperPanel { z_accel: v, ..old },
        PanelControl::ZSpeed(v) => new == StepperPanel { z_speed: v, ..old },
        PanelControl::ZMin(v) => new == StepperPanel { z_min: v, ..old },
        PanelControl::ZMax(v) => new == StepperPanel { z_max: v, ..old },
        PanelControl::ZUpStep(v) => new == StepperPanel { z_up_step: clamp_to(v, 2, 10), ..old },
        PanelControl::ZDownStep(v) => new == StepperPanel { z_down_step: clamp_to(v, -10i32, -2i32), ..old },
        PanelControl::ZTarget { stepper, target } => if z_control(old, stepper) {
            &&& new.positions@ == old.positions@.update(stepper as int, clamp100(target))
            &&& new.pending_positions@ == old.pending_positions@.insert(stepper, clamp100(target))
            &&& new == StepperPanel { positions: new.positions, pending_positions: new.pending_positions, ..old }
        } else {
            new == old
        },
        PanelControl::TunerAccel(v) => new == if tuner_controls(old) is Some { StepperPanel { tuner_accel: v, ..old } } else { old },
        PanelControl::TunerSpeed(v) => new == if tuner_controls(old) is Some { StepperPanel { tuner_speed: v, ..old } } else { old },
        PanelControl::TunerMin(v) => new == if tuner_controls(old) is Some { StepperPanel { tuner_min: v, ..old } } else { old },
        PanelControl::TunerMax(v) => new == if tuner_controls(old) is Some { StepperPanel { tuner_max: v, ..old } } else { old },
        _ => new == old,
    }
}

/// Whether the control is one of the tuner parameters.
pub open spec fn is_tuner_param(c: PanelControl) -> bool {
    c is TunerAccel || c is TunerSpeed || c is TunerMin || c is TunerMax
}

impl StepperPanel {
    fn x_control_exec(&self) -> (r: Option<usize>)
        ensures
            r == x_control(*self),
    {
        match self.x_step_index {
            Some(x) => if x < self.positions.len() && self.positions[x] >= 0 { Some(x) } else { None },
            None => None,
        }
    }

    fn z_control_exec(&self, st: usize) -> (r: bool)
        ensures
            r == z_control(*self, st),
    {
        let zf = match self.z_first_index { Some(zf) => zf, None => { return false; } };
        if st < zf {
            return false;
        }
        let off = st - zf;
        if off / 2 >= self.string_num {
            return false;
        }
        let row_first = zf + 2 * (off / 2);
        let len = self.positions.len();
        len >= 1 && row_first < len - 1
    }

    fn tuner_controls_exec(&self) -> (r: Option<usize>)
        ensures
            r == tuner_controls(*self),
    {
        if self.tuner_first_index.is_some() { self.tuner_num_steppers } else { None }
    }

    /// The steps of a tuner-parameter control over the first `n` tuners.
    fn all_tuners(&self, c: PanelControl, n: usize) -> (r: Vec<PanelStep>)
        requires
            self.wf(),
            is_tuner_param(c),
        ensures
            step_views(r@) == all_tuner_steps(*self, c, n as nat),
    {
        let mut out: Vec<PanelStep> = Vec::new();
        let mut t: usize = 0;
        assert(step_views(out@) =~= all_tuner_steps(*self, c, 0));
        while t < n
            invariant
                t <= n,
                self.wf(),
                is_tuner_param(c),
                step_views(out@) == all_tuner_steps(*self, c, t as nat),
            decreases n - t,
        {
            let one = match c {
                PanelControl::TunerAccel(v) => self.set_tuner_accel(t, v),
                PanelControl::TunerSpeed(v) => self.set_tuner_speed(t, v),
                PanelControl::TunerMin(v) => self.set_tuner_min(t, v),
                PanelControl::TunerMax(v) => self.set_tuner_max(t, v),
                _ => Err(PanelError::Unavailable),
            };
            assert(steps_view(one) == tuner_param_request(*self, c, t));
            let ghost before = out@;
            match one {
                Ok(mut v) => {
                    let ghost added = v@;
                    out.append(&mut v);
                    assert(out@ == before + added);
                    assert(step_views(out@) =~= step_views(before) + step_views(added));
                },
                Err(_) => {},
            }
            t = t + 1;
        }
        out
    }

    /// Performs a control of the panel: the X controls (only while the X stepper is shown;
    /// an X target also needs the maximum X position, moves by the difference to the
    /// target limited to `[-100, max]`, and drops the target being edited), the Z
    /// parameters (applied to every Z stepper), the Z steps (limited to 2..10 and
    /// −10..−2), the buttons and targets of the Z steppers shown, and the tuner
    /// parameters (sent to every tuner; a tuner whose request fails is skipped) and
    /// buttons (±10 steps).
    pub fn apply_control(&mut self, c: PanelControl) -> (r: Result<Vec<PanelStep>, PanelError>)
        requires
            old(self).wf(),
        ensures
            final(self).wf(),
            control_effect(*old(self), *final(self), c),
            steps_view(r) == control_result(*old(self), c),
    {
        match c {
            PanelControl::XTarget(t) => {
                let x = match self.x_control_exec() { Some(x) => x, None => { return Err(PanelError::Unavailable); } };
                let max = match self.x_max_pos { Some(m) => m, None => { return Err(PanelError::Unavailable); } };
                let target: i32 = if t < -100 { -100 } else if t > max { max } else { t };
                let current = self.positions[x];
                let delta: i64 = target as i64 - current as i64;
                self.pending_positions.remove(&x);
                assert(delta == clamp_to(t, -100i32, max) - old(self).positions@[x as int]);
                if delta == 0 {
                    let v: Vec<PanelStep> = Vec::new();
                    assert(step_views(v@) =~= Seq::<StepView>::empty());
                    return Ok(v);
                }
                if delta < i32::MIN as i64 || delta > i32::MAX as i64 {
                    return Err(PanelError::Overflow);
                }
                self.move_stepper(x, delta as i32)
            },
            PanelControl::XAccel(v) => {
                let x = match self.x_control_exec() { Some(x) => x, None => { return Err(PanelError::Unavailable); } };
                self.x_accel = v;
                self.set_accel(x, v)
            },
            PanelControl::XSpeed(v) => {
                let x = match self.x_control_exec() { Some(x) => x, None => { return Err(PanelError::Unavailable); } };
                self.x_speed = v;
                self.set_speed(x, v)
            },
            PanelControl::XMin(v) => {
                if self.x_control_exec().is_none() { return Err(PanelError::Unavailable); }
                self.x_min = v;
                self.set_min(0, v)
            },
            PanelControl::XMax(v) => {
                if self.x_control_exec().is_none() { return Err(PanelError::Unavailable); }
                self.x_max = v;
                self.set_max(0, v)
            },
            PanelControl::ZAccel(v) => { self.z_accel = v; self.apply_z() },
            PanelControl::ZSpeed(v) => { self.z_speed = v; self.apply_z() },
            PanelControl::ZMin(v) => { self.z_min = v; self.apply_z() },
            PanelControl::ZMax(v) => { self.z_max = v; self.apply_z() },
            PanelControl::ZUpStep(v) => {
                self.z_up_step = if v < 2 { 2 } else if v > 10 { 10 } else { v };
                let out: Vec<PanelStep> = Vec::new();
                assert(step_views(out@) =~= Seq::<StepView>::empty());
                Ok(out)
            },
            PanelControl::ZDownStep(v) => {
                self.z_down_step = if v < -10 { -10 } else if v > -2 { -2 } else { v };
                let out: Vec<PanelStep> = Vec::new();
                assert(step_views(out@) =~= Seq::<StepView>::empty());
                Ok(out)
            },
            PanelControl::ZUp(st) => {
                if !self.z_control_exec(st) { return Err(PanelError::Unavailable); }
                self.move_stepper(st, self.z_up_step)
            },
            PanelControl::ZDown(st) => {
                if !self.z_control_exec(st) { return Err(PanelError::Unavailable); }
                self.move_stepper(st, self.z_down_step)
            },
            PanelControl::ZTarget { stepper, target } => {
                if !self.z_control_exec(stepper) { return Err(PanelError::Unavailable); }
                let clamped: i32 = if target < -100 { -100 } else if target > 100 { 100 } else { target };
                self.positions.set(stepper, clamped);
                self.pending_positions.insert(stepper, clamped);
                let out: Vec<PanelStep> = Vec::new();
                assert(step_views(out@) =~= Seq::<StepView>::empty());
                Ok(out)
            },
            PanelControl::TunerStep { tuner, up } => {
                let n = match self.tuner_controls_exec() { Some(n) => n, None => { return Err(PanelError::Unavailable); } };
                if tuner >= n { return Err(PanelError::Unavailable); }
                self.move_tuner(tuner, if up { 10 } else { -10 })
            },
            PanelControl::TunerAccel(v) => {
                let n = match self.tuner_controls_exec() { Some(n) => n, None => { return Err(PanelError::Unavailable); } };
                let out = self.all_tuners(c, n);
                self.tuner_accel = v;
                Ok(out)
            },
            PanelControl::TunerSpeed(v) => {
                let n = match self.tuner_controls_exec() { Some(n) => n, None => { return Err(PanelError::Unavailable); } };
                let out = self.all_tuners(c, n);
                self.tuner_speed = v;
                Ok(out)
            },
            PanelControl::TunerMin(v) => {
                let n = match self.tuner_controls_exec() { Some(n) => n, None => { return Err(PanelError::Unavailable); } };
                let out = self.all_tuners(c, n);
                self.tuner_min = v;
                Ok(out)
            },
            PanelControl::TunerMax(v) => {
                let n = match self.tuner_controls_exec() { Some(n) => n, None => { return Err(PanelError::Unavailable); } };
                let out = self.all_tuners(c, n);
                self.tuner_max = v;
                Ok(out)
            },
        }
    }

    /// The Z parameters applied to every Z stepper, unless the Z indices overflow.
    fn apply_z(&self) -> (r: Result<Vec<PanelStep>, PanelError>)
        requires
            self.wf(),
        ensures
            steps_view(r) == z_apply(*self),
    {
        if let Some(zf) = self.z_first_index {
            if self.string_num > (usize::MAX - zf) / 2 {
                return Err(PanelError::Overflow);
            }
        }
        Ok(self.apply_z_params_to_all())
    }
}

/// How many bytes `c` takes in UTF-8.
pub open spec fn utf8_width(c: char) -> nat {
    if (c as int) < 0x80 { 1 } else if (c as int) < 0x800 { 2 } else if (c as int) < 0x10000 { 3 } else { 4 }
}

/// How many bytes `s` takes in UTF-8.
pub open spec fn utf8_len(s: Seq<char>) -> nat
    decreases s.len(),
{
    if s.len() == 0 { 0 } else { utf8_width(s[0]) + utf8_len(s.drop_first()) }
}

/// `s` without as few leading characters as leave it at most `limit` bytes long: the
/// longest tail of whole characters within the limit.
pub open spec fn keep_tail(s: Seq<char>, limit: nat) -> Seq<char>
    decreases s.len(),
{
    if s.len() == 0 || utf8_len(s) <= limit { s } else { keep_tail(s.drop_first(), limit) }
}

/// The panel's debug log after one more line: the message and a newline are appended,
/// and once the log is longer than 10000 bytes only its last 5000 bytes are kept, cut
/// at the first character boundary within them.
pub open spec fn log_after(text: Seq<char>, message: Seq<char>) -> Seq<char> {
    let t = text + message + seq!['\n'];
    if utf8_len(t) > 10000 { keep_tail(t, 5000) } else { t }
}

proof fn lemma_utf8_len_bound(s: Seq<char>)
    ensures
        utf8_len(s) <= 4 * s.len(),
    decreases s.len(),
{
    if s.len() > 0 {
        lemma_utf8_len_bound(s.drop_first());
    }
}

fn utf8_width_of(c: char) -> (r: u128)
    ensures
        r == utf8_width(c),
{
    let n = c as u32;
    if n < 0x80 { 1 } else if n < 0x800 { 2 } else if n < 0x10000 { 3 } else { 4 }
}

/// The panel's debug log, bounded in size as UTF-8 text.
#[derive(Clone, Debug)]
pub struct DebugLog {
    pub text: Vec<char>,
}

impl DebugLog {
    /// An empty log.
    pub fn new() -> (r: Self)
        ensures
            r.text@.len() == 0,
    {
        DebugLog { text: Vec::new() }
    }

    /// Appends `message` as a line; once the log is longer than 10000 bytes, keeps its
    /// last 5000 bytes, from the first character boundary within them.
    pub fn push_line(&mut self, message: &str)
        ensures
            final(self).text@ == log_after(old(self).text@, message@),
    {
        crate::text::push_str(&mut self.text, message);
        self.text.push('\n');
        let ghost t = self.text@;
        assert(t =~= old(self).text@ + message@ + seq!['\n']);
        let n = self.text.len();
        // The UTF-8 length of the whole log, summed from the back.
        let mut total: u128 = 0;
        let mut i: usize = n;
        assert(t.skip(n as int) =~= Seq::<char>::empty());
        while i > 0
            invariant
                i <= n,
                n == t.len(),
                self.text@ == t,
                total == utf8_len(t.skip(i as int)),
            decreases i,
        {
            proof {
                lemma_utf8_len_bound(t.skip(i as int));
                assert(t.skip(i - 1).drop_first() =~= t.skip(i as int));
            }
            total = total + utf8_width_of(self.text[i - 1]);
            i = i - 1;
        }
        assert(t.skip(0) =~= t);
        if total > 10000 {
            let mut k: usize = 0;
            let mut rest: u128 = total;
            while k < n && rest > 5000
                invariant
                    k <= n,
                    n == t.len(),
                    self.text@ == t,
                    rest == utf8_len(t.skip(k as int)),
                    keep_tail(t, 5000) == keep_tail(t.skip(k as int), 5000),
                decreases n - k,
            {
                proof {
                    assert(t.skip(k as int).drop_first() =~= t.skip(k + 1));
                }
                rest = rest - utf8_width_of(self.text[k]);
                k = k + 1;
            }
            proof {
                if k == n {
                    assert(t.skip(k as int).len() == 0);
                }
                assert(keep_tail(t.skip(k as int), 5000) == t.skip(k as int));
            }
            let mut kept: Vec<char> = Vec::new();
            let mut j: usize = k;
            while j < n
                invariant
                    k <= j <= n,
                    n == t.len(),
                    self.text@ == t,
                    kept@ == t.subrange(k as int, j as int),
                decreases n - j,
            {
                kept.push(self.text[j]);
                j = j + 1;
                assert(kept@ =~= t.subrange(k as int, j as int));
            }
            assert(kept@ =~= t.skip(k as int));
            self.text = kept;
        }
    }

    /// Empties the log.
    pub fn clear(&mut self)
        ensures
            final(self).text@.len() == 0,
    {
        self.text = Vec::new();
    }

    /// The log as text.
    pub fn contents(&self) -> (r: String)
        ensures
            r@ == self.text@,
    {
        crate::text::string_from_chars(self.text.as_slice())
    }
}


} // verus!
