//! The operations context: the adjustable parameters of the Z/X operations,
//! the stepper layout of the host and which steppers take part in operations.

use vstd::prelude::*;
use std::collections::HashMap;
use crate::settings::{ArduinoSettings, OperationsSettings};
use crate::gpio::GpioBoard;
use crate::config::{mainboard_tuner_indices, tuner_indices_spec};
use crate::text::{chars_of, string_from_chars, trim_chars, split_chars, trim, split_on, split_from, views, parse_int, parse_int_spec, nat_text, is_ws, lemma_nat_text_digits, lemma_trim_plain, lemma_parse_nat_text};

verus! {

broadcast use vstd::std_specs::hash::group_hash_axioms;

/// Integer parameters and stepper layout of the operations. Timing values
/// (rests, in seconds) and amplitude sums are kept by the caller.
#[derive(Debug)]
pub struct Operations {
    pub hostname: String,
    pub bump_check_enable: bool,
    pub z_up_step: i32,
    pub z_down_step: i32,
    pub adjustment_level: i32,
    pub retry_threshold: i32,
    pub delta_threshold: i32,
    pub z_variance_threshold: i32,
    pub x_start: i32,
    pub x_finish: i32,
    pub x_step: i32,
    pub z_first_index: usize,
    pub string_num: usize,
    pub x_step_index: Option<usize>,
    pub x_max_pos: Option<i32>,
    pub tuner_indices: Vec<usize>,
    pub stepper_enabled: HashMap<usize, bool>,
    pub gpio: Option<GpioBoard>,
    pub arduino_connected: bool,
    pub voice_count: Vec<usize>,
}

/// Why the operations context could not be built.
#[derive(Clone, Copy, Debug, PartialEq, Eq, Structural)]
pub enum OperationsError {
    /// The host block has no `Z_FIRST_INDEX`.
    MissingZFirstIndex,
}

/// Z stepper indices: two per string, starting at the first Z index.
pub open spec fn z_indices_spec(z_first: usize, string_num: usize) -> Seq<usize> {
    Seq::new((2 * string_num) as nat, |i: int| (z_first + i) as usize)
}

/// The steppers that start out enabled: the Z steppers, the X stepper and the main-board tuners.
pub open spec fn initial_enabled(z_first: usize, string_num: usize, x: Option<usize>, tuners: Seq<usize>) -> Map<usize, bool> {
    Map::new(
        |k: usize|
            (z_first <= k && k < z_first + 2 * string_num) || x == Some(k) || tuners.contains(k),
        |k: usize| true,
    )
}

/// Default end of the X sweep: 100 steps short of the maximum, or 100 when there is no usable maximum.
pub open spec fn default_x_finish(x_max_pos: Option<i32>) -> i32 {
    match x_max_pos {
        Some(m) => if m > 0 { (m - 100) as i32 } else { 100 },
        None => 100,
    }
}

/// Z stepper indices for the given layout.
pub fn z_stepper_indices(z_first: usize, string_num: usize) -> (r: Vec<usize>)
    requires
        z_first + 2 * string_num <= usize::MAX,
    ensures
        r@ == z_indices_spec(z_first, string_num),
{
    let n = string_num * 2;
    let mut indices: Vec<usize> = Vec::new();
    let mut i: usize = 0;
    while i < n
        invariant
            n == 2 * string_num,
            z_first + n <= usize::MAX,
            i <= n,
            indices@ == Seq::new(i as nat, |j: int| (z_first + j) as usize),
        decreases n - i,
    {
        indices.push(z_first + i);
        i = i + 1;
    }
    indices
}

/// `new` is `old` with only the enable flag of `stepper` changed to `enabled`.
pub open spec fn enabled_updated(old: Operations, new: Operations, stepper: usize, enabled: bool) -> bool {
    &&& new.stepper_enabled@ == old.stepper_enabled@.insert(stepper, enabled)
    &&& new == Operations { stepper_enabled: new.stepper_enabled, ..old }
}

/// An enable flag reads back as it was set; every other flag keeps its value.
pub proof fn lemma_enable_flag_read_back(old: Operations, new: Operations, stepper: usize, enabled: bool, other: usize)
    requires
        enabled_updated(old, new, stepper, enabled),
    ensures
        (new.stepper_enabled@.contains_key(stepper) && new.stepper_enabled@[stepper]) == enabled,
        other != stepper ==> (new.stepper_enabled@.contains_key(other) && new.stepper_enabled@[other])
            == (old.stepper_enabled@.contains_key(other) && old.stepper_enabled@[other]),
{
}

impl Operations {
    /// Sets whether a stepper takes part in operations.
    pub fn set_stepper_enabled(&mut self, stepper_idx: usize, enabled: bool)
        ensures
            enabled_updated(*old(self), *final(self), stepper_idx, enabled),
    {
        self.stepper_enabled.insert(stepper_idx, enabled);
    }

    /// Whether a stepper takes part in operations (false when unknown).
    pub fn get_stepper_enabled(&self, stepper_idx: usize) -> (r: bool)
        ensures
            r == (self.stepper_enabled@.contains_key(stepper_idx) && self.stepper_enabled@[stepper_idx]),
    {
        match self.stepper_enabled.get(&stepper_idx) {
            Some(b) => *b,
            None => false,
        }
    }

    /// The layout fits the index type and the voice counters cover every string.
    pub open spec fn wf(&self) -> bool {
        &&& self.z_first_index + 2 * self.string_num <= usize::MAX
    }

    /// Builds the operations context from the host's settings; values missing from the
    /// configuration take their defaults.
    pub fn from_settings(
        hostname: String,
        ops_settings: &OperationsSettings,
        ard_settings: &ArduinoSettings,
        gpio: Option<GpioBoard>,
    ) -> (r: Result<Operations, OperationsError>)
        requires
            ard_settings.z_first_index is Some ==> ard_settings.z_first_index->0 + 2 * ard_settings.string_num <= usize::MAX,
        ensures
            ard_settings.z_first_index is None <==> r == Err::<Operations, OperationsError>(OperationsError::MissingZFirstIndex),
            r matches Ok(o) ==> {
                &&& o.wf()
                &&& o.hostname == hostname
                &&& o.bump_check_enable == ops_settings.bump_check_enable
                &&& o.z_up_step == ops_settings.z_up_step.unwrap_or(2)
                &&& o.z_down_step == ops_settings.z_down_step.unwrap_or(-2i32)
                &&& o.adjustment_level == ops_settings.adjustment_level.unwrap_or(4)
                &&& o.retry_threshold == ops_settings.retry_threshold.unwrap_or(50)
                &&& o.delta_threshold == ops_settings.delta_threshold.unwrap_or(50)
                &&& o.z_variance_threshold == ops_settings.z_variance_threshold.unwrap_or(50)
                &&& o.x_start == ops_settings.x_start.unwrap_or(100)
                &&& o.x_finish == ops_settings.x_finish.unwrap_or(default_x_finish(ard_settings.x_max_pos))
                &&& o.x_step == ops_settings.x_step.unwrap_or(10)
                &&& o.z_first_index == ard_settings.z_first_index->0
                &&& o.string_num == ard_settings.string_num
                &&& o.x_step_index == ard_settings.x_step_index
                &&& o.x_max_pos == ard_settings.x_max_pos
                &&& o.tuner_indices@ == tuner_indices_spec(*ard_settings)
                &&& o.stepper_enabled@ == initial_enabled(o.z_first_index, o.string_num, o.x_step_index, o.tuner_indices@)
                &&& o.gpio == gpio
                &&& o.arduino_connected == (ard_settings.num_steppers matches Some(n) && n > 0)
                &&& o.voice_count@ == Seq::new(o.string_num as nat, |i: int| 0usize)
            },
    {
        let z_first_index = match ard_settings.z_first_index {
            Some(z) => z,
            None => return Err(OperationsError::MissingZFirstIndex),
        };
        let string_num = ard_settings.string_num;
        let x_step_index = ard_settings.x_step_index;
        let x_max_pos = ard_settings.x_max_pos;
        let default_finish: i32 = match x_max_pos {
            Some(m) => if m > 0 { m - 100 } else { 100 },
            None => 100,
        };
        let tuner_indices = mainboard_tuner_indices(ard_settings);
        let mut stepper_enabled: HashMap<usize, bool> = HashMap::new();
        let n = string_num * 2;
        let mut i: usize = 0;
        while i < n
            invariant
                n == 2 * string_num,
                z_first_index + n <= usize::MAX,
                i <= n,
                stepper_enabled@ == Map::new(|k: usize| z_first_index <= k && k < z_first_index + i, |k: usize| true),
            decreases n - i,
        {
            stepper_enabled.insert(z_first_index + i, true);
            i = i + 1;
            assert(stepper_enabled@ =~= Map::new(|k: usize| z_first_index <= k && k < z_first_index + i, |k: usize| true));
        }
        if let Some(x_idx) = x_step_index {
            stepper_enabled.insert(x_idx, true);
        }
        let ghost before_tuners = stepper_enabled@;
        let mut t: usize = 0;
        while t < tuner_indices.len()
            invariant
                t <= tuner_indices@.len(),
                stepper_enabled@ == Map::new(
                    |k: usize| before_tuners.contains_key(k) || tuner_indices@.take(t as int).contains(k),
                    |k: usize| true,
                ),
                forall|k: usize| before_tuners.contains_key(k) ==> before_tuners[k],
            decreases tuner_indices@.len() - t,
        {
            let idx = tuner_indices[t];
            stepper_enabled.insert(idx, true);
            let ghost prev = tuner_indices@.take(t as int);
            assert(tuner_indices@.take(t + 1) =~= prev.push(idx));
            assert forall|k: usize| prev.push(idx).contains(k) <==> (prev.contains(k) || k == idx) by {
                if prev.push(idx).contains(k) && k != idx {
                    let j = choose|j: int| 0 <= j < prev.push(idx).len() && prev.push(idx)[j] == k;
                    assert(prev[j] == k);
                }
                if k == idx {
                    assert(prev.push(idx)[prev.len() as int] == idx);
                }
                if prev.contains(k) {
                    let j = choose|j: int| 0 <= j < prev.len() && prev[j] == k;
                    assert(prev.push(idx)[j] == k);
                }
            }
            t = t + 1;
            assert(stepper_enabled@ =~= Map::new(
                |k: usize| before_tuners.contains_key(k) || tuner_indices@.take(t as int).contains(k),
                |k: usize| true,
            ));
        }
        assert(tuner_indices@.take(tuner_indices@.len() as int) =~= tuner_indices@);
        assert(stepper_enabled@ =~= initial_enabled(z_first_index, string_num, x_step_index, tuner_indices@));
        let arduino_connected = match ard_settings.num_steppers {
            Some(n) => n > 0,
            None => false,
        };
        let mut voice_count: Vec<usize> = Vec::new();
        let mut c: usize = 0;
        while c < string_num
            invariant
                c <= string_num,
                voice_count@ == Seq::new(c as nat, |i: int| 0usize),
            decreases string_num - c,
        {
            voice_count.push(0);
            c = c + 1;
        }
        Ok(Operations {
            hostname,
            bump_check_enable: ops_settings.bump_check_enable,
            z_up_step: match ops_settings.z_up_step { Some(v) => v, None => 2 },
            z_down_step: match ops_settings.z_down_step { Some(v) => v, None => -2 },
            adjustment_level: match ops_settings.adjustment_level { Some(v) => v, None => 4 },
            retry_threshold: match ops_settings.retry_threshold { Some(v) => v, None => 50 },
            delta_threshold: match ops_settings.delta_threshold { Some(v) => v, None => 50 },
            z_variance_threshold: match ops_settings.z_variance_threshold { Some(v) => v, None => 50 },
            x_start: match ops_settings.x_start { Some(v) => v, None => 100 },
            x_finish: match ops_settings.x_finish { Some(v) => v, None => default_finish },
            x_step: match ops_settings.x_step { Some(v) => v, None => 10 },
            z_first_index,
            string_num,
            x_step_index,
            x_max_pos,
            tuner_indices,
            stepper_enabled,
            gpio,
            arduino_connected,
            voice_count,
        })
    }
}

/// The operating system the programs run on, as far as file locations depend on it.
#[derive(Clone, Copy, Debug, PartialEq, Eq, Structural)]
pub enum HostOs {
    Linux,
    MacOs,
    Other,
}

/// The directory of the shared audio files: `/dev/shm` on Linux, `/tmp` elsewhere.
pub open spec fn shm_dir(os: HostOs) -> Seq<char> {
    if os == HostOs::Linux { "/dev/shm"@ } else { "/tmp"@ }
}

fn shm_file(os: HostOs, name: &str) -> (r: String)
    ensures
        r@ == shm_dir(os) + name@,
{
    let mut cs = if os == HostOs::Linux { chars_of("/dev/shm") } else { chars_of("/tmp") };
    let mut n = chars_of(name);
    cs.append(&mut n);
    string_from_chars(cs.as_slice())
}

/// The audio analysis' control file: three lines, the writer's process id, the number
/// of channels and the number of partials per channel.
pub open spec fn control_values(content: Seq<char>) -> Option<(usize, usize)> {
    let lines = split_on(trim(content), '\n');
    if lines.len() >= 3 {
        match (parse_int_spec(lines[1], 0, usize::MAX as int), parse_int_spec(lines[2], 0, usize::MAX as int)) {
            (Ok(c), Ok(p)) => Some((c as usize, p as usize)),
            _ => None,
        }
    } else {
        None
    }
}

/// The control file's text as the audio monitor writes it: its process id, the number of
/// channels and the partials per channel, one per line.
pub open spec fn control_text(pid: nat, channels: nat, partials: nat) -> Seq<char> {
    nat_text(pid) + seq!['\n'] + nat_text(channels) + seq!['\n'] + nat_text(partials)
}

/// Splitting passes over a stretch without separators, collecting it.
proof fn lemma_split_stretch(s: Seq<char>, sep: char, i: int, cur: Seq<char>, k: int)
    requires
        0 <= i,
        0 <= k,
        i + k <= s.len(),
        forall|j: int| i <= j < i + k ==> s[j] != sep,
    ensures
        split_from(s, sep, i, cur) == split_from(s, sep, i + k, cur + s.subrange(i, i + k)),
    decreases k,
{
    if k == 0 {
        assert(cur + s.subrange(i, i) =~= cur);
    } else {
        assert(s[i] != sep);
        lemma_split_stretch(s, sep, i + 1, cur.push(s[i]), k - 1);
        assert(cur.push(s[i]) + s.subrange(i + 1, i + k) =~= cur + s.subrange(i, i + k));
    }
}

/// The control file the audio monitor writes (with or without a final newline) is read
/// back as its channel count and partials per channel.
pub proof fn lemma_control_file_roundtrip(pid: nat, channels: nat, partials: nat, final_newline: bool)
    requires
        channels <= usize::MAX,
        partials <= usize::MAX,
    ensures
        control_values(if final_newline { control_text(pid, channels, partials).push('\n') } else { control_text(pid, channels, partials) })
            == Some((channels as usize, partials as usize)),
{
    let a = nat_text(pid);
    let b = nat_text(channels);
    let c = nat_text(partials);
    lemma_nat_text_digits(pid);
    lemma_nat_text_digits(channels);
    lemma_nat_text_digits(partials);
    let s = control_text(pid, channels, partials);
    assert(s[0] == a[0]);
    assert(s.last() == c[c.len() - 1]);
    lemma_trim_plain(s);
    let nl = '\n';
    assert(is_ws(nl));
    assert forall|j: int| 0 <= j < a.len() implies s[j] != nl by {
        assert(s[j] == a[j]);
    }
    lemma_split_stretch(s, nl, 0, Seq::empty(), a.len() as int);
    assert(Seq::<char>::empty() + s.subrange(0, a.len() as int) =~= a);
    let i1: int = a.len() as int + 1;
    assert(s[a.len() as int] == nl);
    assert forall|j: int| i1 <= j < i1 + b.len() implies s[j] != nl by {
        assert(s[j] == b[j - i1]);
    }
    lemma_split_stretch(s, nl, i1, Seq::empty(), b.len() as int);
    assert(Seq::<char>::empty() + s.subrange(i1, i1 + b.len()) =~= b);
    let i2: int = i1 + b.len() + 1;
    assert(s[i1 + b.len()] == nl);
    assert forall|j: int| i2 <= j < i2 + c.len() implies s[j] != nl by {
        assert(s[j] == c[j - i2]);
    }
    lemma_split_stretch(s, nl, i2, Seq::empty(), c.len() as int);
    assert(Seq::<char>::empty() + s.subrange(i2, i2 + c.len()) =~= c);
    assert(i2 + c.len() == s.len());
    assert(split_on(s, nl) =~= seq![a, b, c]);
    lemma_parse_nat_text(channels, 0, usize::MAX as int);
    lemma_parse_nat_text(partials, 0, usize::MAX as int);
}

/// How many channels of partials to read and how many partials each holds: the written
/// layout (from the control file, else guessed from the data size, else the hint; 12
/// partials when that is zero), limited to the requested channels and to the whole
/// channels the data holds; none when no channel can be read or the channel size overflows.
pub open spec fn partials_layout_spec(control: Option<(usize, usize)>, num_channels: usize, hint: usize, data_len: usize) -> Option<(usize, usize)> {
    let (written, ppc0) = match control {
        Some((c, p)) => (c, p),
        None => if num_channels > 0 && (data_len / 8) / num_channels > 0 {
            (num_channels, ((data_len / 8) / num_channels) as usize)
        } else {
            (num_channels, hint)
        },
    };
    let ppc: usize = if ppc0 == 0 { 12 } else { ppc0 };
    if ppc * 8 > usize::MAX {
        None
    } else {
        let size = (ppc * 8) as usize;
        let to_read = if written < num_channels { written } else { num_channels };
        let fits = data_len / size;
        let n = if to_read < fits { to_read } else { fits };
        if n == 0 { None } else { Some((n, ppc)) }
    }
}

/// A stepper's role in the machine.
#[derive(Clone, Copy, Debug, PartialEq, Eq, Structural)]
pub enum StepperRole {
    ZIn,
    ZOut,
    XAxis,
    Tuner,
    Other,
}

/// The role of one stepper, with the string (or tuner) it belongs to.
#[derive(Clone, Copy, Debug, PartialEq, Eq, Structural)]
pub struct StepperRoleEntry {
    pub stepper_index: usize,
    pub role: StepperRole,
    pub string_index: Option<usize>,
}

/// The first position of `k` among the tuner indices.
pub open spec fn tuner_pos(ts: Seq<usize>, k: usize) -> Option<int>
    decreases ts.len(),
{
    if ts.len() == 0 {
        None
    } else if ts[0] == k {
        Some(0)
    } else {
        match tuner_pos(ts.drop_first(), k) {
            Some(t) => Some(t + 1),
            None => None,
        }
    }
}

/// The role of stepper `k`: a Z stepper of its string (even offsets in, odd out), else
/// the X stepper, else the first tuner it is, else other.
pub open spec fn role_entry(ops: Operations, k: usize) -> StepperRoleEntry {
    if ops.z_first_index <= k && k < ops.z_first_index + 2 * ops.string_num {
        let d = k - ops.z_first_index;
        StepperRoleEntry {
            stepper_index: k,
            role: if d % 2 == 0 { StepperRole::ZIn } else { StepperRole::ZOut },
            string_index: Some((d / 2) as usize),
        }
    } else if ops.x_step_index == Some(k) {
        StepperRoleEntry { stepper_index: k, role: StepperRole::XAxis, string_index: None }
    } else {
        match tuner_pos(ops.tuner_indices@, k) {
            Some(t) => StepperRoleEntry { stepper_index: k, role: StepperRole::Tuner, string_index: Some(t as usize) },
            None => StepperRoleEntry { stepper_index: k, role: StepperRole::Other, string_index: None },
        }
    }
}

fn find_tuner(ts: &Vec<usize>, k: usize) -> (r: Option<usize>)
    ensures
        match r {
            Some(t) => tuner_pos(ts@, k) == Some(t as int),
            None => tuner_pos(ts@, k) is None,
        },
{
    let mut i: usize = 0;
    assert(ts@.skip(0) =~= ts@);
    while i < ts.len()
        invariant
            i <= ts@.len(),
            forall|j: int| 0 <= j < i ==> ts@[j] != k,
            tuner_pos(ts@, k) == match tuner_pos(ts@.skip(i as int), k) { Some(t) => Some(t + i), None => None },
        decreases ts@.len() - i,
    {
        assert(ts@.skip(i as int)[0] == ts@[i as int]);
        assert(ts@.skip(i as int).drop_first() =~= ts@.skip(i + 1));
        if ts[i] == k {
            return Some(i);
        }
        i = i + 1;
    }
    assert(ts@.skip(i as int).len() == 0);
    None
}

/// The role of every stepper `0..total_steppers`, in index order.
pub fn derive_stepper_roles(ops: &Operations, total_steppers: usize) -> (r: Vec<StepperRoleEntry>)
    requires
        ops.wf(),
    ensures
        r@ == Seq::new(total_steppers as nat, |k: int| role_entry(*ops, k as usize)),
{
    let mut out: Vec<StepperRoleEntry> = Vec::new();
    let mut k: usize = 0;
    while k < total_steppers
        invariant
            ops.wf(),
            k <= total_steppers,
            out@ == Seq::new(k as nat, |j: int| role_entry(*ops, j as usize)),
        decreases total_steppers - k,
    {
        let e = if ops.z_first_index <= k && k < ops.z_first_index + 2 * ops.string_num {
            let d = k - ops.z_first_index;
            StepperRoleEntry {
                stepper_index: k,
                role: if d % 2 == 0 { StepperRole::ZIn } else { StepperRole::ZOut },
                string_index: Some(d / 2),
            }
        } else if ops.x_step_index == Some(k) {
            StepperRoleEntry { stepper_index: k, role: StepperRole::XAxis, string_index: None }
        } else {
            match find_tuner(&ops.tuner_indices, k) {
                Some(t) => StepperRoleEntry { stepper_index: k, role: StepperRole::Tuner, string_index: Some(t) },
                None => StepperRoleEntry { stepper_index: k, role: StepperRole::Other, string_index: None },
            }
        };
        out.push(e);
        k = k + 1;
        assert(out@ =~= Seq::new(k as nat, |j: int| role_entry(*ops, j as usize)));
    }
    out
}

impl Operations {
    /// The file the audio analysis writes partials to: `<shm dir>/audio_peaks`.
    pub fn get_shared_memory_path(os: HostOs) -> (r: String)
        ensures
            r@ == shm_dir(os) + "/audio_peaks"@,
    {
        shm_file(os, "/audio_peaks")
    }

    /// The audio analysis' control file: `<shm dir>/audio_control`.
    pub fn get_control_file_path(os: HostOs) -> (r: String)
        ensures
            r@ == shm_dir(os) + "/audio_control"@,
    {
        shm_file(os, "/audio_control")
    }

    /// The channel count and partials per channel of a control file's content.
    pub fn read_control_file(content: &str) -> (r: Option<(usize, usize)>)
        ensures
            r == control_values(content@),
    {
        let cs = chars_of(content);
        let t = trim_chars(cs.as_slice());
        let lines = split_chars(t.as_slice(), '\n');
        if lines.len() >= 3 {
            assert(views(lines@)[1] == lines@[1]@);
            assert(views(lines@)[2] == lines@[2]@);
            let c = parse_int(lines[1].as_slice(), 0, usize::MAX as i128);
            let p = parse_int(lines[2].as_slice(), 0, usize::MAX as i128);
            match (c, p) {
                (Ok(c), Ok(p)) => Some((c as usize, p as usize)),
                _ => None,
            }
        } else {
            None
        }
    }

    /// The layout of the partials to read from the shared data: channels and partials per channel.
    pub fn partials_layout(control: Option<(usize, usize)>, num_channels: usize, hint: usize, data_len: usize) -> (r: Option<(usize, usize)>)
        ensures
            r == partials_layout_spec(control, num_channels, hint, data_len),
    {
        let (written, ppc0) = match control {
            Some((c, p)) => (c, p),
            None => if num_channels > 0 && (data_len / 8) / num_channels > 0 {
                (num_channels, (data_len / 8) / num_channels)
            } else {
                (num_channels, hint)
            },
        };
        let ppc: usize = if ppc0 == 0 { 12 } else { ppc0 };
        if ppc > usize::MAX / 8 {
            return None;
        }
        let size = ppc * 8;
        let to_read = if written < num_channels { written } else { num_channels };
        let fits = data_len / size;
        let n = if to_read < fits { to_read } else { fits };
        if n == 0 { None } else { Some((n, ppc)) }
    }

    /// Records the voice counts of the channels that had data: the list is kept at
    /// (at least) one entry per string, and the first `min(received, string_num)`
    /// entries take the new counts where there is one.
    pub fn update_voice_counts(&mut self, counts: &Vec<usize>, received: usize)
        ensures
            final(self).voice_count@.len() == if old(self).voice_count@.len() < old(self).string_num { old(self).string_num as int } else { old(self).voice_count@.len() as int },
            forall|ch: int| 0 <= ch < final(self).voice_count@.len() ==> #[trigger] final(self).voice_count@[ch] == (
                if ch < received && ch < old(self).string_num && ch < counts@.len() { counts@[ch] }
                else if ch < old(self).voice_count@.len() { old(self).voice_count@[ch] }
                else { 0usize }),
            *final(self) == (Operations { voice_count: final(self).voice_count, ..*old(self) }),
    {
        let n = self.string_num;
        let mut vc: Vec<usize> = Vec::new();
        std::mem::swap(&mut vc, &mut self.voice_count);
        let ghost old_vc = vc@;
        while vc.len() < n
            invariant
                old_vc.len() <= vc@.len(),
                vc@.len() <= (if old_vc.len() < n { n as int } else { old_vc.len() as int }),
                forall|ch: int| 0 <= ch < vc@.len() ==> #[trigger] vc@[ch] == if ch < old_vc.len() { old_vc[ch] } else { 0usize },
            decreases n - vc@.len(),
        {
            vc.push(0);
        }
        let m = if received < n { received } else { n };
        let mut ch: usize = 0;
        while ch < m
            invariant
                m <= n,
                m <= received,
                ch <= m,
                vc@.len() == (if old_vc.len() < n { n as int } else { old_vc.len() as int }),
                forall|c: int| 0 <= c < vc@.len() ==> #[trigger] vc@[c] == (
                    if c < ch && c < counts@.len() { counts@[c] }
                    else if c < old_vc.len() { old_vc[c] }
                    else { 0usize }),
            decreases m - ch,
        {
            if ch < counts.len() && ch < vc.len() {
                vc.set(ch, counts[ch]);
            }
            ch = ch + 1;
        }
        self.voice_count = vc;
    }

    /// Sets whether bump checks run.
    pub fn set_bump_check_enable(&mut self, enabled: bool)
        ensures
            *final(self) == (Operations { bump_check_enable: enabled, ..*old(self) }),
    {
        self.bump_check_enable = enabled;
    }

    /// Whether bump checks run.
    pub fn get_bump_check_enable(&self) -> (r: bool)
        ensures
            r == self.bump_check_enable,
    {
        self.bump_check_enable
    }

    /// Sets the upward Z step.
    pub fn set_z_up_step(&mut self, step: i32)
        ensures
            *final(self) == (Operations { z_up_step: step, ..*old(self) }),
    {
        self.z_up_step = step;
    }

    /// The upward Z step.
    pub fn get_z_up_step(&self) -> (r: i32)
        ensures
            r == self.z_up_step,
    {
        self.z_up_step
    }

    /// Sets the downward Z step.
    pub fn set_z_down_step(&mut self, step: i32)
        ensures
            *final(self) == (Operations { z_down_step: step, ..*old(self) }),
    {
        self.z_down_step = step;
    }

    /// The downward Z step.
    pub fn get_z_down_step(&self) -> (r: i32)
        ensures
            r == self.z_down_step,
    {
        self.z_down_step
    }

    /// Sets the number of consecutive passes required at an X position.
    pub fn set_adjustment_level(&mut self, level: i32)
        ensures
            *final(self) == (Operations { adjustment_level: level, ..*old(self) }),
    {
        self.adjustment_level = level;
    }

    /// The number of consecutive passes required at an X position.
    pub fn get_adjustment_level(&self) -> (r: i32)
        ensures
            r == self.adjustment_level,
    {
        self.adjustment_level
    }

    /// Sets the attempts after which a calibration runs.
    pub fn set_retry_threshold(&mut self, threshold: i32)
        ensures
            *final(self) == (Operations { retry_threshold: threshold, ..*old(self) }),
    {
        self.retry_threshold = threshold;
    }

    /// The attempts after which a calibration runs.
    pub fn get_retry_threshold(&self) -> (r: i32)
        ensures
            r == self.retry_threshold,
    {
        self.retry_threshold
    }

    /// Sets the delta threshold.
    pub fn set_delta_threshold(&mut self, threshold: i32)
        ensures
            *final(self) == (Operations { delta_threshold: threshold, ..*old(self) }),
    {
        self.delta_threshold = threshold;
    }

    /// The delta threshold.
    pub fn get_delta_threshold(&self) -> (r: i32)
        ensures
            r == self.delta_threshold,
    {
        self.delta_threshold
    }

    /// Sets the voice-count variance that triggers a calibration.
    pub fn set_z_variance_threshold(&mut self, threshold: i32)
        ensures
            *final(self) == (Operations { z_variance_threshold: threshold, ..*old(self) }),
    {
        self.z_variance_threshold = threshold;
    }

    /// The voice-count variance that triggers a calibration.
    pub fn get_z_variance_threshold(&self) -> (r: i32)
        ensures
            r == self.z_variance_threshold,
    {
        self.z_variance_threshold
    }

    /// Sets the first X position of a right-left sweep.
    pub fn set_x_start(&mut self, pos: i32)
        ensures
            *final(self) == (Operations { x_start: pos, ..*old(self) }),
    {
        self.x_start = pos;
    }

    /// The first X position of a right-left sweep.
    pub fn get_x_start(&self) -> (r: i32)
        ensures
            r == self.x_start,
    {
        self.x_start
    }

    /// Sets the last X position of a right-left sweep.
    pub fn set_x_finish(&mut self, pos: i32)
        ensures
            *final(self) == (Operations { x_finish: pos, ..*old(self) }),
    {
        self.x_finish = pos;
    }

    /// The last X position of a right-left sweep.
    pub fn get_x_finish(&self) -> (r: i32)
        ensures
            r == self.x_finish,
    {
        self.x_finish
    }

    /// Sets the X step of a sweep.
    pub fn set_x_step(&mut self, step: i32)
        ensures
            *final(self) == (Operations { x_step: step, ..*old(self) }),
    {
        self.x_step = step;
    }

    /// The X step of a sweep.
    pub fn get_x_step(&self) -> (r: i32)
        ensures
            r == self.x_step,
    {
        self.x_step
    }

    /// The X stepper, if there is one.
    pub fn x_step_index(&self) -> (r: Option<usize>)
        ensures
            r == self.x_step_index,
    {
        self.x_step_index
    }

    /// The main-board tuner steppers.
    pub fn tuner_indices(&self) -> (r: &Vec<usize>)
        ensures
            r@ == self.tuner_indices@,
    {
        &self.tuner_indices
    }

    /// The Z steppers, two per string from the first Z index.
    pub fn get_z_stepper_indices(&self) -> (r: Vec<usize>)
        requires
            self.wf(),
        ensures
            r@ == z_indices_spec(self.z_first_index, self.string_num),
    {
        z_stepper_indices(self.z_first_index, self.string_num)
    }

    /// Every stepper's enable flag.
    pub fn get_all_stepper_enabled(&self) -> (r: HashMap<usize, bool>)
        ensures
            r@ == self.stepper_enabled@,
    {
        self.stepper_enabled.clone()
    }

    /// The voice counts of the strings.
    pub fn get_voice_count(&self) -> (r: Vec<usize>)
        ensures
            r@ == self.voice_count@,
    {
        let r = self.voice_count.clone();
        assert(r@ =~= self.voice_count@);
        r
    }
}

} // verus!
