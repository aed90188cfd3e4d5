//! Plain-data settings records for one host of the machine configuration.

use vstd::prelude::*;

verus! {

/// Firmware revision flashed on the carriage board.
#[derive(Clone, Copy, Debug, PartialEq, Eq, Structural)]
pub enum ArduinoFirmware {
    StringDriverV1,
    StringDriverV2,
}

/// Carriage (Arduino) settings of one host.
#[derive(Clone, Debug)]
pub struct ArduinoSettings {
    pub port: Option<String>,
    pub num_steppers: Option<usize>,
    pub string_num: usize,
    pub x_step_index: Option<usize>,
    pub x_max_pos: Option<i32>,
    pub z_first_index: Option<usize>,
    pub tuner_first_index: Option<usize>,
    pub ard_t_port: Option<String>,
    pub ard_t_num_steppers: Option<usize>,
    pub firmware: ArduinoFirmware,
}

/// Wiring of the GPIO sensors.
#[derive(Clone, Debug)]
pub struct GpioComponents {
    pub z_touch_pins: Option<Vec<u32>>,
    pub x_home_pin: Option<u32>,
    pub x_away_pin: Option<u32>,
    pub x_limit_pin: Option<u32>,
    pub rotary_encoder_pins: Option<RotaryEncoderPins>,
    pub distance_sensor_pins: Option<DistanceSensorPins>,
}

/// Pins of the rotary encoder.
#[derive(Clone, Copy, Debug)]
pub struct RotaryEncoderPins {
    pub a: u32,
    pub b: u32,
}

/// Pins of the ultrasonic distance sensor.
#[derive(Clone, Copy, Debug)]
pub struct DistanceSensorPins {
    pub trig: u32,
    pub echo: u32,
}

/// GPIO settings of one host.
#[derive(Clone, Debug)]
pub struct GpioSettings {
    pub enabled: bool,
    pub library: Option<String>,
    pub max_steps: Option<u32>,
    pub components: Option<GpioComponents>,
}

} // verus!

verus! {

/// A number as written in the configuration document. Floating-point values
/// are carried by their IEEE-754 bit pattern and interpreted by the caller.
#[derive(Clone, Copy, Debug, PartialEq, Eq, Structural)]
pub enum YamlNumber {
    PosInt(u64),
    NegInt(i64),
    Float(u64),
}

/// Operations settings of one host. Rest durations are numbers of seconds, as written.
#[derive(Clone, Debug)]
pub struct OperationsSettings {
    pub z_up_step: Option<i32>,
    pub z_down_step: Option<i32>,
    pub bump_check_enable: bool,
    pub tune_rest: Option<YamlNumber>,
    pub x_rest: Option<YamlNumber>,
    pub z_rest: Option<YamlNumber>,
    pub lap_rest: Option<YamlNumber>,
    pub adjustment_level: Option<i32>,
    pub retry_threshold: Option<i32>,
    pub delta_threshold: Option<i32>,
    pub z_variance_threshold: Option<i32>,
    pub x_start: Option<i32>,
    pub x_finish: Option<i32>,
    pub x_step: Option<i32>,
}

} // verus!
