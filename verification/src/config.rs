//! Host configuration: the document model of `string_driver.yaml`, the lookup of a
//! host's block, and the extraction of the carriage, operations, GPIO and database settings.

use vstd::prelude::*;
use crate::settings::{ArduinoSettings, ArduinoFirmware, OperationsSettings, GpioSettings, GpioComponents, RotaryEncoderPins, DistanceSensorPins, YamlNumber};
use crate::text::{str_eq, chars_of, string_from_chars, parse_int, parse_int_spec, IntErrorKind, lemma_parse_int_range};
use crate::connection::{stepper_socket_path, panel_socket_path};

verus! {

/// The upper end (exclusive) of the main-board tuner range, if the range is not empty.
pub open spec fn tuner_limit(s: ArduinoSettings) -> Option<usize> {
    if s.ard_t_port is Some {
        None
    } else if s.tuner_first_index is None || s.z_first_index is None {
        None
    } else {
        let tf = s.tuner_first_index->0;
        let zf = s.z_first_index->0;
        let limit = match s.x_step_index {
            Some(x) => if x > tf && x < zf { x } else { zf },
            None => zf,
        };
        if limit <= tf { None } else { Some(limit) }
    }
}

/// Stepper indices of tuners that sit on the main board: from the first tuner up to
/// (not including) the first Z stepper, or the X stepper when it lies in between.
pub open spec fn tuner_indices_spec(s: ArduinoSettings) -> Seq<usize> {
    match tuner_limit(s) {
        None => Seq::empty(),
        Some(limit) => {
            let tf = s.tuner_first_index->0;
            Seq::new((limit - tf) as nat, |i: int| (tf + i) as usize)
        },
    }
}

/// Main-board tuner stepper indices (empty when the tuners have their own board).
pub fn mainboard_tuner_indices(settings: &ArduinoSettings) -> (r: Vec<usize>)
    ensures
        r@ == tuner_indices_spec(*settings),
{
    if settings.ard_t_port.is_some() {
        return Vec::new();
    }
    let tuner_first = match settings.tuner_first_index {
        Some(idx) => idx,
        None => return Vec::new(),
    };
    let z_first = match settings.z_first_index {
        Some(idx) => idx,
        None => return Vec::new(),
    };
    let mut limit = z_first;
    if let Some(x_idx) = settings.x_step_index {
        if x_idx > tuner_first && x_idx < limit {
            limit = x_idx;
        }
    }
    if limit <= tuner_first {
        return Vec::new();
    }
    let mut out: Vec<usize> = Vec::new();
    let mut i = tuner_first;
    while i < limit
        invariant
            tuner_first <= i <= limit,
            out@ == Seq::new((i - tuner_first) as nat, |j: int| (tuner_first + j) as usize),
        decreases limit - i,
    {
        out.push(i);
        i = i + 1;
    }
    out
}

/// Why a host's configuration could not be read.
#[derive(Clone, Debug, PartialEq, Eq)]
pub enum ConfigError {
    /// No OS section holds a block for the host.
    NoHostEntry,
    /// `ARDUINO_FIRMWARE` names no known firmware.
    UnknownFirmware(String),
    /// GPIO is enabled but `GPIO_LIBRARY` is missing.
    GpioLibraryMissing,
    /// GPIO is enabled but `GPIO_MAX_STEPS` is missing.
    GpioMaxStepsMissing,
    /// A database setting is set by neither its `PG_*` nor its `DB_*` variable.
    DbSettingMissing(DbField),
    /// The database port variable does not read as a number from 0 to 65535.
    DbPortInvalid,
}

/// One of the database settings.
#[derive(Clone, Copy, Debug, PartialEq, Eq)]
pub enum DbField {
    /// `PG_HOST` / `DB_HOST`.
    Host,
    /// `PG_PORT` / `DB_PORT`.
    Port,
    /// `PG_USER` / `DB_USER`.
    User,
    /// `PG_PASSWORD` / `DB_PASSWORD`.
    Password,
    /// `PG_DATABASE` / `DB_NAME`.
    Database,
}

impl ArduinoFirmware {
    /// The firmware named by `ARDUINO_FIRMWARE` (`string_driver_v2` when absent).
    pub fn from_value(value: Option<&str>) -> (r: Result<ArduinoFirmware, ConfigError>)
        ensures
            ({
                let name = match value { Some(v) => v@, None => "string_driver_v2"@ };
                &&& name == "string_driver_v1"@ ==> r == Ok::<ArduinoFirmware, ConfigError>(ArduinoFirmware::StringDriverV1)
                &&& name == "string_driver_v2"@ ==> r == Ok::<ArduinoFirmware, ConfigError>(ArduinoFirmware::StringDriverV2)
                &&& (name != "string_driver_v1"@ && name != "string_driver_v2"@) ==>
                    (r matches Err(ConfigError::UnknownFirmware(other)) && other@ == name)
            }),
    {
        proof {
            reveal_strlit("string_driver_v1");
            reveal_strlit("string_driver_v2");
            assert("string_driver_v1"@[15] != "string_driver_v2"@[15]);
        }
        let name: &str = match value { Some(v) => v, None => "string_driver_v2" };
        if str_eq(name, "string_driver_v1") {
            Ok(ArduinoFirmware::StringDriverV1)
        } else if str_eq(name, "string_driver_v2") {
            Ok(ArduinoFirmware::StringDriverV2)
        } else {
            let cs = chars_of(name);
            Err(ConfigError::UnknownFirmware(string_from_chars(cs.as_slice())))
        }
    }
}

/// A node of the configuration document.
pub enum YamlValue {
    Null,
    Bool(bool),
    Number(YamlNumber),
    Str(String),
    Sequence(Vec<YamlValue>),
    Mapping(Vec<(YamlValue, YamlValue)>),
}

/// The key is the string `name`.
pub open spec fn is_key(k: YamlValue, name: Seq<char>) -> bool {
    k matches YamlValue::Str(s) && s@ == name
}

/// The value of the first entry whose key is the string `name`.
pub open spec fn entries_get(es: Seq<(YamlValue, YamlValue)>, name: Seq<char>) -> Option<YamlValue>
    decreases es.len(),
{
    if es.len() == 0 {
        None
    } else if is_key(es[0].0, name) {
        Some(es[0].1)
    } else {
        entries_get(es.drop_first(), name)
    }
}

/// The value under key `name` of a mapping (none for other nodes).
pub open spec fn value_get(v: YamlValue, name: Seq<char>) -> Option<YamlValue> {
    match v {
        YamlValue::Mapping(es) => entries_get(es@, name),
        _ => None,
    }
}

/// The signed integer a node holds, if it is an integer that fits `i64`.
pub open spec fn as_i64(v: YamlValue) -> Option<i64> {
    match v {
        YamlValue::Number(YamlNumber::PosInt(u)) => if u <= i64::MAX { Some(u as i64) } else { None },
        YamlValue::Number(YamlNumber::NegInt(i)) => Some(i),
        _ => None,
    }
}

/// The entries of a mapping node.
pub open spec fn as_mapping(v: YamlValue) -> Option<Seq<(YamlValue, YamlValue)>> {
    match v {
        YamlValue::Mapping(es) => Some(es@),
        _ => None,
    }
}

/// The value of key `name` in the entries, in the executable form.
pub fn entries_lookup<'a>(es: &'a Vec<(YamlValue, YamlValue)>, name: &str) -> (r: Option<&'a YamlValue>)
    ensures
        match r {
            Some(v) => entries_get(es@, name@) == Some(*v),
            None => entries_get(es@, name@) is None,
        },
{
    let mut i: usize = 0;
    assert(es@.skip(0) =~= es@);
    while i < es.len()
        invariant
            i <= es@.len(),
            entries_get(es@, name@) == entries_get(es@.skip(i as int), name@),
        decreases es@.len() - i,
    {
        assert(es@.skip(i as int)[0] == es@[i as int]);
        assert(es@.skip(i as int).drop_first() =~= es@.skip(i + 1));
        let matched = match &es[i].0 {
            YamlValue::Str(s) => str_eq(s.as_str(), name),
            _ => false,
        };
        if matched {
            return Some(&es[i].1);
        }
        i = i + 1;
    }
    assert(es@.skip(i as int).len() == 0);
    None
}

/// The value under key `name` of a node.
pub fn lookup<'a>(v: &'a YamlValue, name: &str) -> (r: Option<&'a YamlValue>)
    ensures
        match r {
            Some(x) => value_get(*v, name@) == Some(*x),
            None => value_get(*v, name@) is None,
        },
{
    match v {
        YamlValue::Mapping(es) => entries_lookup(es, name),
        _ => None,
    }
}

/// The integer held by a node that fits `i64`.
pub fn value_as_i64(v: Option<&YamlValue>) -> (r: Option<i64>)
    ensures
        r == match v { Some(x) => as_i64(*x), None => None },
{
    match v {
        Some(YamlValue::Number(YamlNumber::PosInt(u))) => if *u <= 9223372036854775807u64 { Some(*u as i64) } else { None },
        Some(YamlValue::Number(YamlNumber::NegInt(i))) => Some(*i),
        _ => None,
    }
}

/// The OS sections searched for a host block, in order.
pub open spec fn os_section(k: int) -> Seq<char> {
    if k == 0 { "RaspberryPi"@ } else if k == 1 { "Ubuntu"@ } else { "macOS"@ }
}

/// The host's block in one OS section: the first entry keyed by the host name, if its value is a mapping.
pub open spec fn host_block_in(doc: YamlValue, os: Seq<char>, host: Seq<char>) -> Option<Seq<(YamlValue, YamlValue)>> {
    match value_get(doc, os) {
        Some(YamlValue::Mapping(es)) => match entries_get(es@, host) {
            Some(v) => as_mapping(v),
            None => None,
        },
        _ => None,
    }
}

/// The host's block: the one of the first OS section (RaspberryPi, Ubuntu, macOS) that has one.
pub open spec fn host_block(doc: YamlValue, host: Seq<char>) -> Option<Seq<(YamlValue, YamlValue)>> {
    match host_block_in(doc, os_section(0), host) {
        Some(b) => Some(b),
        None => match host_block_in(doc, os_section(1), host) {
            Some(b) => Some(b),
            None => host_block_in(doc, os_section(2), host),
        },
    }
}

fn block_in<'a>(doc: &'a YamlValue, os: &str, host: &str) -> (r: Option<&'a Vec<(YamlValue, YamlValue)>>)
    ensures
        match r {
            Some(b) => host_block_in(*doc, os@, host@) == Some(b@),
            None => host_block_in(*doc, os@, host@) is None,
        },
{
    match lookup(doc, os) {
        Some(YamlValue::Mapping(es)) => match entries_lookup(es, host) {
            Some(YamlValue::Mapping(b)) => Some(b),
            _ => None,
        },
        _ => None,
    }
}

/// Finds the host's block in the configuration document.
pub fn find_host_block<'a>(doc: &'a YamlValue, host: &str) -> (r: Option<&'a Vec<(YamlValue, YamlValue)>>)
    ensures
        match r {
            Some(b) => host_block(*doc, host@) == Some(b@),
            None => host_block(*doc, host@) is None,
        },
{
    proof {
        reveal_strlit("RaspberryPi");
        reveal_strlit("Ubuntu");
        reveal_strlit("macOS");
    }
    match block_in(doc, "RaspberryPi", host) {
        Some(b) => Some(b),
        None => match block_in(doc, "Ubuntu", host) {
            Some(b) => Some(b),
            None => block_in(doc, "macOS", host),
        },
    }
}

/// The firmware a name designates.
pub open spec fn firmware_named(name: Seq<char>) -> Option<ArduinoFirmware> {
    if name == "string_driver_v1"@ {
        Some(ArduinoFirmware::StringDriverV1)
    } else if name == "string_driver_v2"@ {
        Some(ArduinoFirmware::StringDriverV2)
    } else {
        None
    }
}

/// The integer under `key` in a block, if it fits `i64`.
pub open spec fn block_i64(b: Seq<(YamlValue, YamlValue)>, key: Seq<char>) -> Option<i64> {
    match entries_get(b, key) {
        Some(v) => as_i64(v),
        None => None,
    }
}

/// The string under `key` in a block.
pub open spec fn block_str(b: Seq<(YamlValue, YamlValue)>, key: Seq<char>) -> Option<String> {
    match entries_get(b, key) {
        Some(YamlValue::Str(s)) => Some(s),
        _ => None,
    }
}

/// The boolean under `key` in a block.
pub open spec fn block_bool(b: Seq<(YamlValue, YamlValue)>, key: Seq<char>) -> Option<bool> {
    match entries_get(b, key) {
        Some(YamlValue::Bool(x)) => Some(x),
        _ => None,
    }
}

/// The number (integer or not) under `key` in a block.
pub open spec fn block_number(b: Seq<(YamlValue, YamlValue)>, key: Seq<char>) -> Option<YamlNumber> {
    match entries_get(b, key) {
        Some(YamlValue::Number(n)) => Some(n),
        _ => None,
    }
}

/// `Option::map(|v| v as usize)`.
pub open spec fn opt_usize(o: Option<i64>) -> Option<usize> {
    match o { Some(v) => Some(v as usize), None => None }
}

/// `Option::map(|v| v as i32)`.
pub open spec fn opt_i32(o: Option<i64>) -> Option<i32> {
    match o { Some(v) => Some(v as i32), None => None }
}

/// `Option::map(|v| v as u32)`.
pub open spec fn opt_u32(o: Option<i64>) -> Option<u32> {
    match o { Some(v) => Some(v as u32), None => None }
}

fn get_i64(b: &Vec<(YamlValue, YamlValue)>, key: &str) -> (r: Option<i64>)
    ensures
        r == block_i64(b@, key@),
{
    value_as_i64(entries_lookup(b, key))
}

fn get_str(b: &Vec<(YamlValue, YamlValue)>, key: &str) -> (r: Option<String>)
    ensures
        r == block_str(b@, key@),
{
    match entries_lookup(b, key) {
        Some(YamlValue::Str(s)) => Some(s.clone()),
        _ => None,
    }
}

fn get_bool(b: &Vec<(YamlValue, YamlValue)>, key: &str) -> (r: Option<bool>)
    ensures
        r == block_bool(b@, key@),
{
    match entries_lookup(b, key) {
        Some(YamlValue::Bool(x)) => Some(*x),
        _ => None,
    }
}

fn get_number(b: &Vec<(YamlValue, YamlValue)>, key: &str) -> (r: Option<YamlNumber>)
    ensures
        r == block_number(b@, key@),
{
    match entries_lookup(b, key) {
        Some(YamlValue::Number(n)) => Some(*n),
        _ => None,
    }
}

fn to_usize(o: Option<i64>) -> (r: Option<usize>)
    ensures
        r == opt_usize(o),
{
    match o { Some(v) => Some(v as usize), None => None }
}

fn to_i32(o: Option<i64>) -> (r: Option<i32>)
    ensures
        r == opt_i32(o),
{
    match o { Some(v) => Some(v as i32), None => None }
}

fn to_u32(o: Option<i64>) -> (r: Option<u32>)
    ensures
        r == opt_u32(o),
{
    match o { Some(v) => Some(v as u32), None => None }
}

/// The carriage settings of a host block (the firmware still to be checked).
pub open spec fn arduino_fields_ok(r: ArduinoSettings, b: Seq<(YamlValue, YamlValue)>) -> bool {
    &&& r.port == block_str(b, "ARD_PORT"@)
    &&& r.num_steppers == opt_usize(block_i64(b, "ARD_NUM_STEPPERS"@))
    &&& r.string_num == (match block_i64(b, "STRING_NUM"@) { Some(v) => v, None => 0 }) as usize
    &&& r.x_step_index == opt_usize(block_i64(b, "X_STEP_INDEX"@))
    &&& r.x_max_pos == opt_i32(block_i64(b, "X_MAX_POS"@))
    &&& r.z_first_index == opt_usize(block_i64(b, "Z_FIRST_INDEX"@))
    &&& r.tuner_first_index == opt_usize(block_i64(b, "TUNER_FIRST_INDEX"@))
    &&& r.ard_t_port == block_str(b, "ARD_T_PORT"@)
    &&& r.ard_t_num_steppers == opt_usize(block_i64(b, "ARD_T_NUM_STEPPERS"@))
}

/// Reads the carriage settings of `hostname` from the configuration document.
pub fn load_arduino_settings(doc: &YamlValue, hostname: &str) -> (r: Result<ArduinoSettings, ConfigError>)
    ensures
        host_block(*doc, hostname@) is None ==> r == Err::<ArduinoSettings, ConfigError>(ConfigError::NoHostEntry),
        host_block(*doc, hostname@) matches Some(b) ==> {
            let name = match block_str(b, "ARDUINO_FIRMWARE"@) { Some(s) => s@, None => "string_driver_v2"@ };
            match firmware_named(name) {
                Some(fw) => r matches Ok(s) && arduino_fields_ok(s, b) && s.firmware == fw,
                None => r matches Err(ConfigError::UnknownFirmware(other)) && other@ == name,
            }
        },
{
    let b = match find_host_block(doc, hostname) {
        Some(b) => b,
        None => return Err(ConfigError::NoHostEntry),
    };
    let fw_name = get_str(b, "ARDUINO_FIRMWARE");
    let firmware = match &fw_name {
        Some(s) => ArduinoFirmware::from_value(Some(s.as_str())),
        None => ArduinoFirmware::from_value(None),
    };
    let firmware = match firmware {
        Ok(f) => f,
        Err(e) => return Err(e),
    };
    let string_num: usize = match get_i64(b, "STRING_NUM") { Some(v) => v as usize, None => 0 };
    Ok(ArduinoSettings {
        port: get_str(b, "ARD_PORT"),
        num_steppers: to_usize(get_i64(b, "ARD_NUM_STEPPERS")),
        string_num,
        x_step_index: to_usize(get_i64(b, "X_STEP_INDEX")),
        x_max_pos: to_i32(get_i64(b, "X_MAX_POS")),
        z_first_index: to_usize(get_i64(b, "Z_FIRST_INDEX")),
        tuner_first_index: to_usize(get_i64(b, "TUNER_FIRST_INDEX")),
        ard_t_port: get_str(b, "ARD_T_PORT"),
        ard_t_num_steppers: to_usize(get_i64(b, "ARD_T_NUM_STEPPERS")),
        firmware,
    })
}

/// The operations settings of a host block.
pub open spec fn operations_fields_ok(r: OperationsSettings, b: Seq<(YamlValue, YamlValue)>) -> bool {
    &&& r.z_up_step == opt_i32(block_i64(b, "Z_UP_STEP"@))
    &&& r.z_down_step == opt_i32(block_i64(b, "Z_DOWN_STEP"@))
    &&& r.bump_check_enable == (match block_bool(b, "BUMP_CHECK_ENABLE"@) { Some(x) => x, None => true })
    &&& r.tune_rest == block_number(b, "TUNE_REST"@)
    &&& r.x_rest == block_number(b, "X_REST"@)
    &&& r.z_rest == block_number(b, "Z_REST"@)
    &&& r.lap_rest == block_number(b, "LAP_REST"@)
    &&& r.adjustment_level == opt_i32(block_i64(b, "ADJUSTMENT_LEVEL"@))
    &&& r.retry_threshold == opt_i32(block_i64(b, "RETRY_THRESHOLD"@))
    &&& r.delta_threshold == opt_i32(block_i64(b, "DELTA_THRESHOLD"@))
    &&& r.z_variance_threshold == opt_i32(block_i64(b, "Z_VARIANCE_THRESHOLD"@))
    &&& r.x_start == opt_i32(block_i64(b, "X_START"@))
    &&& r.x_finish == opt_i32(block_i64(b, "X_FINISH"@))
    &&& r.x_step == opt_i32(block_i64(b, "X_STEP"@))
}

/// Reads the operations settings of `hostname` from the configuration document.
pub fn load_operations_settings(doc: &YamlValue, hostname: &str) -> (r: Result<OperationsSettings, ConfigError>)
    ensures
        host_block(*doc, hostname@) is None ==> r == Err::<OperationsSettings, ConfigError>(ConfigError::NoHostEntry),
        host_block(*doc, hostname@) matches Some(b) ==> (r matches Ok(s) && operations_fields_ok(s, b)),
{
    let b = match find_host_block(doc, hostname) {
        Some(b) => b,
        None => return Err(ConfigError::NoHostEntry),
    };
    Ok(OperationsSettings {
        z_up_step: to_i32(get_i64(b, "Z_UP_STEP")),
        z_down_step: to_i32(get_i64(b, "Z_DOWN_STEP")),
        bump_check_enable: match get_bool(b, "BUMP_CHECK_ENABLE") { Some(x) => x, None => true },
        tune_rest: get_number(b, "TUNE_REST"),
        x_rest: get_number(b, "X_REST"),
        z_rest: get_number(b, "Z_REST"),
        lap_rest: get_number(b, "LAP_REST"),
        adjustment_level: to_i32(get_i64(b, "ADJUSTMENT_LEVEL")),
        retry_threshold: to_i32(get_i64(b, "RETRY_THRESHOLD")),
        delta_threshold: to_i32(get_i64(b, "DELTA_THRESHOLD")),
        z_variance_threshold: to_i32(get_i64(b, "Z_VARIANCE_THRESHOLD")),
        x_start: to_i32(get_i64(b, "X_START")),
        x_finish: to_i32(get_i64(b, "X_FINISH")),
        x_step: to_i32(get_i64(b, "X_STEP")),
    })
}

/// The integers of a sequence node that fit `i64`, each cast to `u32`; other items are skipped.
pub open spec fn pins_of(items: Seq<YamlValue>) -> Seq<u32>
    decreases items.len(),
{
    if items.len() == 0 {
        Seq::empty()
    } else {
        let rest = pins_of(items.drop_last());
        match as_i64(items.last()) {
            Some(v) => rest.push(v as u32),
            None => rest,
        }
    }
}

/// The pin under `key` of a components block.
pub open spec fn block_pin(c: Seq<(YamlValue, YamlValue)>, key: Seq<char>) -> Option<u32> {
    opt_u32(block_i64(c, key))
}

/// Two pins of a sub-block, when both are present.
pub open spec fn pin_pair(c: Seq<(YamlValue, YamlValue)>, key: Seq<char>, first: Seq<char>, second: Seq<char>) -> Option<(u32, u32)> {
    match entries_get(c, key) {
        Some(YamlValue::Mapping(m)) => match (block_i64(m@, first), block_i64(m@, second)) {
            (Some(x), Some(y)) => Some((x as u32, y as u32)),
            _ => None,
        },
        _ => None,
    }
}

/// The GPIO components of a components block.
pub open spec fn components_ok(r: GpioComponents, c: Seq<(YamlValue, YamlValue)>) -> bool {
    &&& match entries_get(c, "Z_TOUCH_PINS"@) {
        Some(YamlValue::Sequence(items)) => r.z_touch_pins matches Some(p) && p@ == pins_of(items@),
        _ => r.z_touch_pins is None,
    }
    &&& r.x_home_pin == block_pin(c, "X_HOME_PIN"@)
    &&& r.x_away_pin == block_pin(c, "X_AWAY_PIN"@)
    &&& r.x_limit_pin == block_pin(c, "X_LIMIT_PIN"@)
    &&& match pin_pair(c, "ROTARY_ENCODER_PINS"@, "A"@, "B"@) {
        Some((a, b)) => r.rotary_encoder_pins == Some(RotaryEncoderPins { a, b }),
        None => r.rotary_encoder_pins is None,
    }
    &&& match pin_pair(c, "DISTANCE_SENSOR_PINS"@, "TRIG"@, "ECHO"@) {
        Some((t, e)) => r.distance_sensor_pins == Some(DistanceSensorPins { trig: t, echo: e }),
        None => r.distance_sensor_pins is None,
    }
}

fn pins_from(items: &Vec<YamlValue>) -> (r: Vec<u32>)
    ensures
        r@ == pins_of(items@),
{
    let mut out: Vec<u32> = Vec::new();
    let mut i: usize = 0;
    while i < items.len()
        invariant
            i <= items@.len(),
            out@ == pins_of(items@.take(i as int)),
        decreases items@.len() - i,
    {
        assert(items@.take(i + 1).drop_last() =~= items@.take(i as int));
        assert(items@.take(i + 1).last() == items@[i as int]);
        match value_as_i64(Some(&items[i])) {
            Some(v) => out.push(v as u32),
            None => {},
        }
        i = i + 1;
    }
    assert(items@.take(i as int) =~= items@);
    out
}

fn pair_from(c: &Vec<(YamlValue, YamlValue)>, key: &str, first: &str, second: &str) -> (r: Option<(u32, u32)>)
    ensures
        r == pin_pair(c@, key@, first@, second@),
{
    match entries_lookup(c, key) {
        Some(YamlValue::Mapping(m)) => match (get_i64(m, first), get_i64(m, second)) {
            (Some(x), Some(y)) => Some((x as u32, y as u32)),
            _ => None,
        },
        _ => None,
    }
}

fn components_from(c: &Vec<(YamlValue, YamlValue)>) -> (r: GpioComponents)
    ensures
        components_ok(r, c@),
{
    let z_touch_pins = match entries_lookup(c, "Z_TOUCH_PINS") {
        Some(YamlValue::Sequence(items)) => Some(pins_from(items)),
        _ => None,
    };
    let rotary_encoder_pins = match pair_from(c, "ROTARY_ENCODER_PINS", "A", "B") {
        Some((a, b)) => Some(RotaryEncoderPins { a, b }),
        None => None,
    };
    let distance_sensor_pins = match pair_from(c, "DISTANCE_SENSOR_PINS", "TRIG", "ECHO") {
        Some((t, e)) => Some(DistanceSensorPins { trig: t, echo: e }),
        None => None,
    };
    GpioComponents {
        z_touch_pins,
        x_home_pin: to_u32(get_i64(c, "X_HOME_PIN")),
        x_away_pin: to_u32(get_i64(c, "X_AWAY_PIN")),
        x_limit_pin: to_u32(get_i64(c, "X_LIMIT_PIN")),
        rotary_encoder_pins,
        distance_sensor_pins,
    }
}

/// Reads the GPIO settings of `hostname`: none when `GPIO_ENABLED` is not true; with GPIO
/// enabled, `GPIO_LIBRARY` and `GPIO_MAX_STEPS` are required.
pub fn load_gpio_settings(doc: &YamlValue, hostname: &str) -> (r: Result<Option<GpioSettings>, ConfigError>)
    ensures
        host_block(*doc, hostname@) is None ==> r == Err::<Option<GpioSettings>, ConfigError>(ConfigError::NoHostEntry),
        host_block(*doc, hostname@) matches Some(b) ==> {
            if block_bool(b, "GPIO_ENABLED"@) != Some(true) {
                r == Ok::<Option<GpioSettings>, ConfigError>(None)
            } else if block_str(b, "GPIO_LIBRARY"@) is None {
                r == Err::<Option<GpioSettings>, ConfigError>(ConfigError::GpioLibraryMissing)
            } else if block_i64(b, "GPIO_MAX_STEPS"@) is None {
                r == Err::<Option<GpioSettings>, ConfigError>(ConfigError::GpioMaxStepsMissing)
            } else {
                r matches Ok(Some(g)) && {
                    &&& g.enabled
                    &&& g.library == block_str(b, "GPIO_LIBRARY"@)
                    &&& g.max_steps == opt_u32(block_i64(b, "GPIO_MAX_STEPS"@))
                    &&& match entries_get(b, "GPIO_COMPONENTS"@) {
                        Some(YamlValue::Mapping(c)) => g.components matches Some(gc) && components_ok(gc, c@),
                        _ => g.components is None,
                    }
                }
            }
        },
{
    let b = match find_host_block(doc, hostname) {
        Some(b) => b,
        None => return Err(ConfigError::NoHostEntry),
    };
    let enabled = match get_bool(b, "GPIO_ENABLED") { Some(x) => x, None => false };
    if !enabled {
        return Ok(None);
    }
    let library = get_str(b, "GPIO_LIBRARY");
    let max_steps = to_u32(get_i64(b, "GPIO_MAX_STEPS"));
    let components = match entries_lookup(b, "GPIO_COMPONENTS") {
        Some(YamlValue::Mapping(c)) => Some(components_from(c)),
        _ => None,
    };
    if library.is_none() {
        return Err(ConfigError::GpioLibraryMissing);
    }
    if max_steps.is_none() {
        return Err(ConfigError::GpioMaxStepsMissing);
    }
    Ok(Some(GpioSettings { enabled: true, library, max_steps, components }))
}

/// In one OS section's entries: the first host entry whose block has `key` with a value `f` accepts.
pub open spec fn first_host_value(es: Seq<(YamlValue, YamlValue)>, host: Seq<char>, key: Seq<char>) -> Option<YamlValue>
    decreases es.len(),
{
    if es.len() == 0 {
        None
    } else {
        let found = if is_key(es[0].0, host) {
            match es[0].1 {
                YamlValue::Mapping(hb) => entries_get(hb@, key),
                _ => None,
            }
        } else {
            None
        };
        match found {
            Some(v) => Some(v),
            None => first_host_value(es.drop_first(), host, key),
        }
    }
}

/// `GPIO_ENABLED` as a boolean in the first host entry (over the OS sections in order) that has one.
pub open spec fn gpio_flag_in(es: Seq<(YamlValue, YamlValue)>, host: Seq<char>) -> Option<bool>
    decreases es.len(),
{
    if es.len() == 0 {
        None
    } else {
        let found = if is_key(es[0].0, host) {
            match es[0].1 {
                YamlValue::Mapping(hb) => block_bool(hb@, "GPIO_ENABLED"@),
                _ => None,
            }
        } else {
            None
        };
        match found {
            Some(x) => Some(x),
            None => gpio_flag_in(es.drop_first(), host),
        }
    }
}

/// The entries of an OS section (empty when the section is missing or not a mapping).
pub open spec fn section_entries(doc: YamlValue, os: Seq<char>) -> Seq<(YamlValue, YamlValue)> {
    match value_get(doc, os) {
        Some(YamlValue::Mapping(es)) => es@,
        _ => Seq::empty(),
    }
}

/// Whether GPIO is enabled for the host, as the launcher decides it.
pub open spec fn gpio_enabled_spec(doc: YamlValue, host: Seq<char>) -> bool {
    match gpio_flag_in(section_entries(doc, os_section(0)), host) {
        Some(x) => x,
        None => match gpio_flag_in(section_entries(doc, os_section(1)), host) {
            Some(x) => x,
            None => match gpio_flag_in(section_entries(doc, os_section(2)), host) {
                Some(x) => x,
                None => false,
            },
        },
    }
}

fn section<'a>(doc: &'a YamlValue, os: &str) -> (r: Option<&'a Vec<(YamlValue, YamlValue)>>)
    ensures
        match r {
            Some(es) => section_entries(*doc, os@) == es@,
            None => section_entries(*doc, os@) == Seq::<(YamlValue, YamlValue)>::empty(),
        },
{
    match lookup(doc, os) {
        Some(YamlValue::Mapping(es)) => Some(es),
        _ => None,
    }
}

fn gpio_flag_exec(es: Option<&Vec<(YamlValue, YamlValue)>>, host: &str) -> (r: Option<bool>)
    ensures
        r == gpio_flag_in(match es { Some(v) => v@, None => Seq::empty() }, host@),
{
    let v = match es {
        Some(v) => v,
        None => return None,
    };
    let mut i: usize = 0;
    assert(v@.skip(0) =~= v@);
    while i < v.len()
        invariant
            es == Some(v),
            i <= v@.len(),
            gpio_flag_in(v@, host@) == gpio_flag_in(v@.skip(i as int), host@),
        decreases v@.len() - i,
    {
        assert(v@.skip(i as int)[0] == v@[i as int]);
        assert(v@.skip(i as int).drop_first() =~= v@.skip(i + 1));
        let is_host = match &v[i].0 {
            YamlValue::Str(k) => str_eq(k.as_str(), host),
            _ => false,
        };
        if is_host {
            match &v[i].1 {
                YamlValue::Mapping(hb) => {
                    match get_bool(hb, "GPIO_ENABLED") {
                        Some(x) => {
                            assert(v@.skip(i as int)[0] == v@[i as int]);
                            return Some(x);
                        },
                        None => {},
                    }
                },
                _ => {},
            }
        }
        i = i + 1;
    }
    assert(v@.skip(i as int).len() == 0);
    None
}

/// Whether GPIO is enabled for `hostname`: the first `GPIO_ENABLED` boolean found in a
/// block of the host (OS sections in order), false when there is none.
pub fn check_gpio_enabled(doc: &YamlValue, hostname: &str) -> (r: bool)
    ensures
        r == gpio_enabled_spec(*doc, hostname@),
{
    proof {
        reveal_strlit("RaspberryPi");
        reveal_strlit("Ubuntu");
        reveal_strlit("macOS");
    }
    match gpio_flag_exec(section(doc, "RaspberryPi"), hostname) {
        Some(x) => x,
        None => match gpio_flag_exec(section(doc, "Ubuntu"), hostname) {
            Some(x) => x,
            None => match gpio_flag_exec(section(doc, "macOS"), hostname) {
                Some(x) => x,
                None => false,
            },
        },
    }
}

/// `ARD_PORT` as a string in the first host entry (OS sections in order) that has one.
pub open spec fn ard_port_in(es: Seq<(YamlValue, YamlValue)>, host: Seq<char>) -> Option<String>
    decreases es.len(),
{
    if es.len() == 0 {
        None
    } else {
        let found = if is_key(es[0].0, host) {
            match es[0].1 {
                YamlValue::Mapping(hb) => block_str(hb@, "ARD_PORT"@),
                _ => None,
            }
        } else {
            None
        };
        match found {
            Some(x) => Some(x),
            None => ard_port_in(es.drop_first(), host),
        }
    }
}

/// The host's carriage port, as the launcher finds it.
pub open spec fn launcher_port(doc: YamlValue, host: Seq<char>) -> Option<String> {
    match ard_port_in(section_entries(doc, os_section(0)), host) {
        Some(x) => Some(x),
        None => match ard_port_in(section_entries(doc, os_section(1)), host) {
            Some(x) => Some(x),
            None => ard_port_in(section_entries(doc, os_section(2)), host),
        },
    }
}

fn ard_port_exec(es: Option<&Vec<(YamlValue, YamlValue)>>, host: &str) -> (r: Option<String>)
    ensures
        r == ard_port_in(match es { Some(v) => v@, None => Seq::empty() }, host@),
{
    let v = match es {
        Some(v) => v,
        None => return None,
    };
    let mut i: usize = 0;
    assert(v@.skip(0) =~= v@);
    while i < v.len()
        invariant
            es == Some(v),
            i <= v@.len(),
            ard_port_in(v@, host@) == ard_port_in(v@.skip(i as int), host@),
        decreases v@.len() - i,
    {
        assert(v@.skip(i as int)[0] == v@[i as int]);
        assert(v@.skip(i as int).drop_first() =~= v@.skip(i + 1));
        let is_host = match &v[i].0 {
            YamlValue::Str(k) => str_eq(k.as_str(), host),
            _ => false,
        };
        if is_host {
            match &v[i].1 {
                YamlValue::Mapping(hb) => {
                    match get_str(hb, "ARD_PORT") {
                        Some(x) => {
                            assert(v@.skip(i as int)[0] == v@[i as int]);
                            return Some(x);
                        },
                        None => {},
                    }
                },
                _ => {},
            }
        }
        i = i + 1;
    }
    assert(v@.skip(i as int).len() == 0);
    None
}

/// The stepper panel's socket path for `hostname`, named after its `ARD_PORT`.
pub fn get_stepper_socket_path(doc: &YamlValue, hostname: &str) -> (r: Option<String>)
    ensures
        match launcher_port(*doc, hostname@) {
            Some(p) => r matches Some(path) && path@ == panel_socket_path(p@),
            None => r is None,
        },
{
    proof {
        reveal_strlit("RaspberryPi");
        reveal_strlit("Ubuntu");
        reveal_strlit("macOS");
    }
    let port = match ard_port_exec(section(doc, "RaspberryPi"), hostname) {
        Some(x) => Some(x),
        None => match ard_port_exec(section(doc, "Ubuntu"), hostname) {
            Some(x) => Some(x),
            None => ard_port_exec(section(doc, "macOS"), hostname),
        },
    };
    match port {
        Some(p) => Some(stepper_socket_path(p.as_str())),
        None => None,
    }
}

/// Database connection settings.
#[derive(Clone, Debug)]
pub struct DbSettings {
    pub host: String,
    pub port: u16,
    pub user: String,
    pub password: String,
    pub database: String,
}

/// The environment variables the database settings are read from (`None` when unset).
#[derive(Clone, Debug)]
pub struct DbEnv {
    pub pg_host: Option<String>,
    pub db_host: Option<String>,
    pub pg_port: Option<String>,
    pub db_port: Option<String>,
    pub pg_user: Option<String>,
    pub db_user: Option<String>,
    pub pg_password: Option<String>,
    pub db_password: Option<String>,
    pub pg_database: Option<String>,
    pub db_name: Option<String>,
}

/// The first variable that is set.
pub open spec fn either(a: Option<String>, b: Option<String>) -> Option<String> {
    match a { Some(x) => Some(x), None => b }
}

/// The port text, read as a number from 0 to 65535.
pub open spec fn db_port_value(text: Seq<char>) -> Result<int, IntErrorKind> {
    parse_int_spec(text, 0, 65535)
}

/// Why the environment holds no complete database configuration, checked in the order
/// host, port, user, password, database; `None` when every setting is there.
pub open spec fn db_check(env: DbEnv) -> Option<ConfigError> {
    if either(env.pg_host, env.db_host) is None {
        Some(ConfigError::DbSettingMissing(DbField::Host))
    } else if either(env.pg_port, env.db_port) is None {
        Some(ConfigError::DbSettingMissing(DbField::Port))
    } else if db_port_value(either(env.pg_port, env.db_port)->0@) is Err {
        Some(ConfigError::DbPortInvalid)
    } else if either(env.pg_user, env.db_user) is None {
        Some(ConfigError::DbSettingMissing(DbField::User))
    } else if either(env.pg_password, env.db_password) is None {
        Some(ConfigError::DbSettingMissing(DbField::Password))
    } else if either(env.pg_database, env.db_name) is None {
        Some(ConfigError::DbSettingMissing(DbField::Database))
    } else {
        None
    }
}

/// The first of two variables that is set, or the error that names the missing setting.
fn pick(a: &Option<String>, b: &Option<String>, field: DbField) -> (r: Result<String, ConfigError>)
    ensures
        match either(*a, *b) {
            Some(x) => r matches Ok(s) && s@ == x@,
            None => r == Err::<String, ConfigError>(ConfigError::DbSettingMissing(field)),
        },
{
    match a {
        Some(x) => Ok(x.clone()),
        None => match b {
            Some(x) => Ok(x.clone()),
            None => Err(ConfigError::DbSettingMissing(field)),
        },
    }
}

impl DbSettings {
    /// The database settings from the environment: each `PG_*` variable, else its `DB_*`
    /// counterpart. Nothing has a default: a setting that neither variable holds, or a port
    /// that is not a number from 0 to 65535, is an error.
    pub fn from_env(env: &DbEnv) -> (r: Result<DbSettings, ConfigError>)
        ensures
            match db_check(*env) {
                Some(e) => r == Err::<DbSettings, ConfigError>(e),
                None => r matches Ok(d) && {
                    &&& d.host@ == either(env.pg_host, env.db_host)->0@
                    &&& d.port as int == db_port_value(either(env.pg_port, env.db_port)->0@)->Ok_0
                    &&& d.user@ == either(env.pg_user, env.db_user)->0@
                    &&& d.password@ == either(env.pg_password, env.db_password)->0@
                    &&& d.database@ == either(env.pg_database, env.db_name)->0@
                },
            },
    {
        let host = match pick(&env.pg_host, &env.db_host, DbField::Host) {
            Ok(x) => x,
            Err(e) => { return Err(e); },
        };
        let port_text = match pick(&env.pg_port, &env.db_port, DbField::Port) {
            Ok(x) => x,
            Err(e) => { return Err(e); },
        };
        let cs = chars_of(port_text.as_str());
        proof { lemma_parse_int_range(cs@, 0, 65535); }
        let port: u16 = match parse_int(cs.as_slice(), 0, 65535) {
            Ok(v) => v as u16,
            Err(_) => { return Err(ConfigError::DbPortInvalid); },
        };
        let user = match pick(&env.pg_user, &env.db_user, DbField::User) {
            Ok(x) => x,
            Err(e) => { return Err(e); },
        };
        let password = match pick(&env.pg_password, &env.db_password, DbField::Password) {
            Ok(x) => x,
            Err(e) => { return Err(e); },
        };
        let database = match pick(&env.pg_database, &env.db_name, DbField::Database) {
            Ok(x) => x,
            Err(e) => { return Err(e); },
        };
        Ok(DbSettings { host, port, user, password, database })
    }
}

} // verus!
