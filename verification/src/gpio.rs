//! Model of the GPIO sensor board: which lines are wired to which sensor,
//! the software encoder counter, and which lines a query has to read.

use vstd::prelude::*;
use crate::settings::{GpioComponents, GpioSettings};
use crate::text::{str_eq, chars_of, string_from_chars};

verus! {

/// The GPIO board. Line handles are held by the caller; this record says what is wired.
#[derive(Clone, Debug)]
pub struct GpioBoard {
    pub exist: bool,
    pub library: Option<String>,
    pub max_steps: Option<u32>,
    pub z_touch_lines: Option<Vec<u32>>,
    pub x_home_line: Option<u32>,
    pub x_away_line: Option<u32>,
    pub x_limit_button: Option<u32>,
    pub encoder_steps: i32,
    pub distance_sensor_enabled: bool,
    pub last_good_distance: u32,
    pub num_touch_pins: usize,
}

/// Why a GPIO board could not be set up.
#[derive(Clone, Debug, PartialEq, Eq)]
pub enum GpioError {
    MissingLibrary,
    MissingMaxSteps,
    MissingComponents,
    UnsupportedLibrary(String),
    NoChip,
}

/// What bringing up the board requires of the hardware layer.
#[derive(Clone, Debug)]
pub enum GpioSetup {
    /// GPIO is not used on this host.
    Disabled(GpioBoard),
    /// Request these lines (in order) as pulled-up inputs, then use the board.
    Request { board: GpioBoard, pins: Vec<u32> },
}

/// Which lines a touch query reads.
#[derive(Clone, Debug)]
pub enum TouchQuery {
    /// No line to read: the answer is known.
    Known(Vec<bool>),
    /// Read these lines, in order; a line reads as touching when it is low.
    Read(Vec<u32>),
}

/// Which line a limit-switch query reads.
#[derive(Clone, Copy, Debug, PartialEq, Eq, Structural)]
pub enum LimitQuery {
    /// No line to read: the answer is known.
    Known(bool),
    /// Read this line; the switch is pressed when it is low.
    Read(u32),
}

impl GpioBoard {
    /// A board with no GPIO hardware.
    pub fn disabled() -> (b: Self)
        ensures
            !b.exist,
            b.library is None,
            b.max_steps is None,
            b.z_touch_lines is None,
            b.x_home_line is None,
            b.x_away_line is None,
            b.x_limit_button is None,
            !b.distance_sensor_enabled,
            b.encoder_steps == 0,
            b.last_good_distance == 0,
            b.num_touch_pins == 0,
    {
        GpioBoard {
            exist: false,
            library: None,
            max_steps: None,
            z_touch_lines: None,
            x_home_line: None,
            x_away_line: None,
            x_limit_button: None,
            encoder_steps: 0,
            distance_sensor_enabled: false,
            last_good_distance: 0,
            num_touch_pins: 0,
        }
    }

    /// The encoder step count (kept in software): the count last set.
    pub fn get_encoder_steps(&self) -> (r: i32)
        ensures
            r == self.encoder_steps,
    {
        self.encoder_steps
    }

    /// Sets the encoder step count; nothing else of the board changes.
    pub fn set_encoder_steps(&mut self, steps: i32)
        ensures
            *final(self) == (GpioBoard { encoder_steps: steps, ..*old(self) }),
    {
        self.encoder_steps = steps;
    }
}

/// The encoder count reads back as it was last set, and setting it changes nothing else.
pub proof fn lemma_encoder_read_back(before: GpioBoard, after: GpioBoard, steps: i32)
    requires
        after == (GpioBoard { encoder_steps: steps, ..before }),
    ensures
        after.encoder_steps == steps,
        after.exist == before.exist && after.z_touch_lines == before.z_touch_lines && after.num_touch_pins == before.num_touch_pins,
{
}

/// `n` times `false`.
pub open spec fn all_false(n: nat) -> Seq<bool> {
    Seq::new(n, |i: int| false)
}

fn falses(n: usize) -> (r: Vec<bool>)
    ensures
        r@ == all_false(n as nat),
{
    let mut v: Vec<bool> = Vec::new();
    let mut i: usize = 0;
    while i < n
        invariant
            i <= n,
            v@ == all_false(i as nat),
        decreases n - i,
    {
        v.push(false);
        i = i + 1;
        assert(v@ =~= all_false(i as nat));
    }
    v
}

/// The lines a touch board has to request, in order: the touch pins, then the home and
/// away pins when not already listed; with only a single limit pin, that pin.
pub open spec fn pin_plan(c: GpioComponents) -> Seq<u32> {
    let z: Seq<u32> = match c.z_touch_pins { Some(p) => p@, None => Seq::empty() };
    let a = match c.x_home_pin { Some(h) => if z.contains(h) { z } else { z.push(h) }, None => z };
    let b = match c.x_away_pin { Some(w) => if a.contains(w) { a } else { a.push(w) }, None => a };
    match c.x_limit_pin {
        Some(l) => if c.x_home_pin is None && c.x_away_pin is None && !b.contains(l) { b.push(l) } else { b },
        None => b,
    }
}

/// The pins a chip must expose: touch, home, away and limit pins (repeats kept).
pub open spec fn required_pins_spec(c: GpioComponents) -> Seq<u32> {
    let z: Seq<u32> = match c.z_touch_pins { Some(p) => p@, None => Seq::empty() };
    let a = match c.x_home_pin { Some(h) => z.push(h), None => z };
    let b = match c.x_away_pin { Some(w) => a.push(w), None => a };
    match c.x_limit_pin { Some(l) => b.push(l), None => b }
}

fn contains_pin(v: &Vec<u32>, p: u32) -> (r: bool)
    ensures
        r == v@.contains(p),
{
    let mut i: usize = 0;
    while i < v.len()
        invariant
            i <= v@.len(),
            forall|j: int| 0 <= j < i ==> v@[j] != p,
        decreases v@.len() - i,
    {
        if v[i] == p {
            return true;
        }
        i = i + 1;
    }
    false
}

fn copy_pins(p: &Option<Vec<u32>>) -> (r: Vec<u32>)
    ensures
        r@ == match *p { Some(v) => v@, None => Seq::<u32>::empty() },
{
    match p {
        Some(v) => {
            let c = v.clone();
            assert(c@ =~= v@);
            c
        },
        None => Vec::new(),
    }
}

/// The pins a chip must expose for these components.
pub fn required_pins(c: &GpioComponents) -> (r: Vec<u32>)
    ensures
        r@ == required_pins_spec(*c),
{
    let mut pins = copy_pins(&c.z_touch_pins);
    if let Some(h) = c.x_home_pin { pins.push(h); }
    if let Some(w) = c.x_away_pin { pins.push(w); }
    if let Some(l) = c.x_limit_pin { pins.push(l); }
    pins
}

/// What a chip probe found: whether it opened, and whether it exposes every required pin.
#[derive(Clone, Copy, Debug, PartialEq, Eq, Structural)]
pub enum ChipProbe {
    Unusable,
    Opened { has_all_pins: bool },
}

/// The chip chosen among probed chips (in path order): the first that opened and has
/// every required pin (any that opened when none is required), else the first chip.
pub open spec fn chosen_chip(probes: Seq<ChipProbe>, none_required: bool) -> Option<int>
    decreases probes.len(),
{
    if probes.len() == 0 {
        None
    } else {
        match first_fit(probes, none_required) {
            Some(k) => Some(k),
            None => Some(0),
        }
    }
}

/// The first probe that opened with every pin (or opened at all when none is required).
pub open spec fn first_fit(probes: Seq<ChipProbe>, none_required: bool) -> Option<int>
    decreases probes.len(),
{
    if probes.len() == 0 {
        None
    } else if (probes[0] matches ChipProbe::Opened { has_all_pins } && (has_all_pins || none_required)) {
        Some(0)
    } else {
        match first_fit(probes.drop_first(), none_required) {
            Some(k) => Some(k + 1),
            None => None,
        }
    }
}

/// Chooses the chip to request lines on, by the index of its probe.
pub fn choose_gpio_chip(probes: &Vec<ChipProbe>, none_required: bool) -> (r: Result<usize, GpioError>)
    ensures
        match chosen_chip(probes@, none_required) {
            Some(k) => r == Ok::<usize, GpioError>(k as usize),
            None => r == Err::<usize, GpioError>(GpioError::NoChip),
        },
{
    if probes.len() == 0 {
        return Err(GpioError::NoChip);
    }
    let mut i: usize = 0;
    assert(probes@.skip(0) =~= probes@);
    while i < probes.len()
        invariant
            i <= probes@.len(),
            probes@.len() > 0,
            first_fit(probes@, none_required) == match first_fit(probes@.skip(i as int), none_required) { Some(k) => Some(k + i), None => None },
        decreases probes@.len() - i,
    {
        assert(probes@.skip(i as int)[0] == probes@[i as int]);
        assert(probes@.skip(i as int).drop_first() =~= probes@.skip(i + 1));
        match probes[i] {
            ChipProbe::Opened { has_all_pins } => {
                if has_all_pins || none_required {
                    return Ok(i);
                }
            },
            ChipProbe::Unusable => {},
        }
        i = i + 1;
    }
    assert(probes@.skip(i as int).len() == 0);
    Ok(0)
}

impl GpioBoard {
    /// Sets the board up from the host's GPIO settings: disabled without settings or when
    /// not enabled; otherwise the library (only `gpiod`), the step limit and the
    /// components are required, and the lines of the components are to be requested.
    pub fn new(settings: Option<GpioSettings>) -> (r: Result<GpioSetup, GpioError>)
        ensures
            match settings {
                None => r matches Ok(GpioSetup::Disabled(b)) && !b.exist,
                Some(s) => if !s.enabled {
                    r matches Ok(GpioSetup::Disabled(b)) && !b.exist
                } else if s.library is None {
                    r == Err::<GpioSetup, GpioError>(GpioError::MissingLibrary)
                } else if s.max_steps is None {
                    r == Err::<GpioSetup, GpioError>(GpioError::MissingMaxSteps)
                } else if s.components is None {
                    r == Err::<GpioSetup, GpioError>(GpioError::MissingComponents)
                } else if s.library->0@ != "gpiod"@ {
                    r matches Err(GpioError::UnsupportedLibrary(l)) && l@ == s.library->0@
                } else {
                    r matches Ok(GpioSetup::Request { board, pins }) && ({
                        let c = s.components->0;
                        let z: Seq<u32> = match c.z_touch_pins { Some(p) => p@, None => Seq::empty() };
                        let single = c.x_limit_pin is Some && c.x_home_pin is None && c.x_away_pin is None;
                        &&& pins@ == pin_plan(c)
                        &&& board.exist
                        &&& board.library matches Some(l) && l@ == "gpiod"@
                        &&& board.max_steps == s.max_steps
                        &&& board.z_touch_lines matches Some(zl) && zl@ == z
                        &&& board.num_touch_pins == z.len()
                        &&& board.x_home_line == (if single { c.x_limit_pin } else { c.x_home_pin })
                        &&& board.x_away_line == (if single { c.x_limit_pin } else { c.x_away_pin })
                        &&& board.x_limit_button == (if single { c.x_limit_pin } else { None })
                        &&& board.distance_sensor_enabled == c.distance_sensor_pins is Some
                        &&& board.encoder_steps == 0
                        &&& board.last_good_distance == 0
                    })
                },
            },
    {
        let s = match settings {
            None => { return Ok(GpioSetup::Disabled(GpioBoard::disabled())); },
            Some(s) => s,
        };
        if !s.enabled {
            return Ok(GpioSetup::Disabled(GpioBoard::disabled()));
        }
        let library = match s.library { Some(l) => l, None => { return Err(GpioError::MissingLibrary); } };
        let max_steps = match s.max_steps { Some(m) => m, None => { return Err(GpioError::MissingMaxSteps); } };
        let c = match s.components { Some(c) => c, None => { return Err(GpioError::MissingComponents); } };
        if !str_eq(library.as_str(), "gpiod") {
            return Err(GpioError::UnsupportedLibrary(library));
        }
        let z = copy_pins(&c.z_touch_pins);
        let mut pins = copy_pins(&c.z_touch_pins);
        if let Some(h) = c.x_home_pin {
            if !contains_pin(&pins, h) { pins.push(h); }
        }
        if let Some(w) = c.x_away_pin {
            if !contains_pin(&pins, w) { pins.push(w); }
        }
        let single = c.x_limit_pin.is_some() && c.x_home_pin.is_none() && c.x_away_pin.is_none();
        let (home, away, limit) = if single {
            let l = match c.x_limit_pin { Some(l) => l, None => 0 };
            if !contains_pin(&pins, l) { pins.push(l); }
            (Some(l), Some(l), Some(l))
        } else {
            (c.x_home_pin, c.x_away_pin, None)
        };
        let num = z.len();
        let gc = chars_of("gpiod");
        let board = GpioBoard {
            exist: true,
            library: Some(string_from_chars(gc.as_slice())),
            max_steps: Some(max_steps),
            z_touch_lines: Some(z),
            x_home_line: home,
            x_away_line: away,
            x_limit_button: limit,
            encoder_steps: 0,
            distance_sensor_enabled: c.distance_sensor_pins.is_some(),
            last_good_distance: 0,
            num_touch_pins: num,
        };
        Ok(GpioSetup::Request { board, pins })
    }

    /// What a touch query reads: one state for a single sensor, every sensor's state
    /// otherwise. With no hardware or no touch lines nothing is read: a single `false`
    /// for one sensor, one `false` per touch pin for all; for one sensor, its line (or
    /// `false` past the last); otherwise every touch line.
    pub fn press_check(&self, button_index: Option<usize>) -> (r: TouchQuery)
        ensures
            (!self.exist || self.z_touch_lines is None) ==> match button_index {
                Some(_) => r matches TouchQuery::Known(v) && v@ == seq![false],
                None => r matches TouchQuery::Known(v) && v@ == all_false(self.num_touch_pins as nat),
            },
            (self.exist && self.z_touch_lines is Some) ==> ({
                let zl = self.z_touch_lines->0;
                match button_index {
                    Some(i) => if i < zl@.len() {
                        r matches TouchQuery::Read(ls) && ls@ == seq![zl@[i as int]]
                    } else {
                        r matches TouchQuery::Known(v) && v@ == seq![false]
                    },
                    None => r matches TouchQuery::Read(ls) && ls@ == zl@,
                }
            }),
    {
        if !self.exist || self.z_touch_lines.is_none() {
            return match button_index {
                Some(_) => {
                    let v = vec![false];
                    assert(v@ =~= seq![false]);
                    TouchQuery::Known(v)
                },
                None => TouchQuery::Known(falses(self.num_touch_pins)),
            };
        }
        match &self.z_touch_lines {
            None => TouchQuery::Known(falses(self.num_touch_pins)),
            Some(zl) => match button_index {
                Some(i) => if i < zl.len() {
                    let v = vec![zl[i]];
                    assert(v@ =~= seq![zl@[i as int]]);
                    TouchQuery::Read(v)
                } else {
                    let v = vec![false];
                    assert(v@ =~= seq![false]);
                    TouchQuery::Known(v)
                },
                None => {
                    let v = zl.clone();
                    assert(v@ =~= zl@);
                    TouchQuery::Read(v)
                },
            },
        }
    }

    /// What a home-switch query reads: nothing without hardware or a home line.
    pub fn x_home_check(&self) -> (r: LimitQuery)
        ensures
            r == if !self.exist { LimitQuery::Known(false) } else {
                match self.x_home_line { Some(p) => LimitQuery::Read(p), None => LimitQuery::Known(false) }
            },
    {
        if !self.exist {
            return LimitQuery::Known(false);
        }
        match self.x_home_line { Some(p) => LimitQuery::Read(p), None => LimitQuery::Known(false) }
    }

    /// What an away-switch query reads: nothing without hardware or an away line.
    pub fn x_away_check(&self) -> (r: LimitQuery)
        ensures
            r == if !self.exist { LimitQuery::Known(false) } else {
                match self.x_away_line { Some(p) => LimitQuery::Read(p), None => LimitQuery::Known(false) }
            },
    {
        if !self.exist {
            return LimitQuery::Known(false);
        }
        match self.x_away_line { Some(p) => LimitQuery::Read(p), None => LimitQuery::Known(false) }
    }

    /// The distance sensor's reading: 0 without hardware or sensor, else the last good value.
    pub fn get_distance(&self) -> (r: u32)
        ensures
            r == if !self.exist || !self.distance_sensor_enabled { 0 } else { self.last_good_distance },
    {
        if !self.exist || !self.distance_sensor_enabled {
            0
        } else {
            self.last_good_distance
        }
    }

    /// Whether there are line requests to release.
    pub fn gpio_quit(&self) -> (release: bool)
        ensures
            release == self.exist,
    {
        self.exist
    }
}

/// A touch sensor's state from a reading: its first value, `false` when there is none or the read failed.
pub fn touch_state(reading: &Result<Vec<bool>, String>) -> (r: bool)
    ensures
        r == match reading { Ok(v) => v@.len() > 0 && v@[0], Err(_) => false },
{
    match reading {
        Ok(v) => v.len() > 0 && v[0],
        Err(_) => false,
    }
}

} // verus!
