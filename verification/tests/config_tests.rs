use stringdriver::config::{
    YamlValue, ConfigError, DbEnv, DbField, DbSettings, load_arduino_settings, load_operations_settings, load_gpio_settings,
    check_gpio_enabled, get_stepper_socket_path, mainboard_tuner_indices, find_host_block,
};
use stringdriver::settings::{ArduinoFirmware, ArduinoSettings, YamlNumber};

fn s(x: &str) -> YamlValue {
    YamlValue::Str(x.to_string())
}

fn num(n: i64) -> YamlValue {
    if n >= 0 { YamlValue::Number(YamlNumber::PosInt(n as u64)) } else { YamlValue::Number(YamlNumber::NegInt(n)) }
}

fn mapping(entries: Vec<(&str, YamlValue)>) -> YamlValue {
    YamlValue::Mapping(entries.into_iter().map(|(k, v)| (s(k), v)).collect())
}

fn host_block() -> YamlValue {
    mapping(vec![
        ("ARD_PORT", s("/dev/ttyACM0")),
        ("ARD_NUM_STEPPERS", num(13)),
        ("STRING_NUM", num(3)),
        ("X_STEP_INDEX", num(0)),
        ("X_MAX_POS", num(2600)),
        ("Z_FIRST_INDEX", num(7)),
        ("TUNER_FIRST_INDEX", num(1)),
        ("ARD_T_PORT", YamlValue::Null),
        ("Z_UP_STEP", num(3)),
        ("Z_DOWN_STEP", num(-4)),
        ("BUMP_CHECK_ENABLE", YamlValue::Bool(false)),
        ("Z_REST", YamlValue::Number(YamlNumber::Float(1.5f64.to_bits()))),
        ("X_STEP", num(20)),
        ("GPIO_ENABLED", YamlValue::Bool(true)),
        ("GPIO_LIBRARY", s("gpiod")),
        ("GPIO_MAX_STEPS", num(400)),
        ("GPIO_COMPONENTS", mapping(vec![
            ("Z_TOUCH_PINS", YamlValue::Sequence(vec![num(5), s("skip"), num(6)])),
            ("X_HOME_PIN", num(17)),
            ("ROTARY_ENCODER_PINS", mapping(vec![("A", num(1)), ("B", num(2))])),
            ("DISTANCE_SENSOR_PINS", mapping(vec![("TRIG", num(3))])),
        ])),
    ])
}

fn document() -> YamlValue {
    mapping(vec![
        ("RaspberryPi", mapping(vec![("other-host", mapping(vec![]))])),
        ("Ubuntu", mapping(vec![("stringdriver-2", host_block()), ("plain", s("not a block"))])),
        ("macOS", mapping(vec![])),
    ])
}

#[test]
fn host_lookup() {
    assert!(find_host_block(&document(), "stringdriver-2").is_some());
    assert!(find_host_block(&document(), "plain").is_none());
    assert!(find_host_block(&document(), "missing").is_none());
}

#[test]
fn arduino_settings_from_document() {
    let a = load_arduino_settings(&document(), "stringdriver-2").unwrap();
    assert_eq!(a.port.as_deref(), Some("/dev/ttyACM0"));
    assert_eq!(a.num_steppers, Some(13));
    assert_eq!(a.string_num, 3);
    assert_eq!(a.x_step_index, Some(0));
    assert_eq!(a.x_max_pos, Some(2600));
    assert_eq!(a.z_first_index, Some(7));
    assert_eq!(a.tuner_first_index, Some(1));
    assert_eq!(a.ard_t_port, None);
    assert_eq!(a.ard_t_num_steppers, None);
    assert_eq!(a.firmware, ArduinoFirmware::StringDriverV2);
    assert_eq!(mainboard_tuner_indices(&a), vec![1, 2, 3, 4, 5, 6]);
    assert_eq!(load_arduino_settings(&document(), "missing").err(), Some(ConfigError::NoHostEntry));
}

#[test]
fn firmware_names() {
    assert_eq!(ArduinoFirmware::from_value(None), Ok(ArduinoFirmware::StringDriverV2));
    assert_eq!(ArduinoFirmware::from_value(Some("string_driver_v1")), Ok(ArduinoFirmware::StringDriverV1));
    assert_eq!(ArduinoFirmware::from_value(Some("string_driver_v3")), Err(ConfigError::UnknownFirmware("string_driver_v3".to_string())));
    let doc = mapping(vec![("macOS", mapping(vec![("h", mapping(vec![("ARDUINO_FIRMWARE", s("nope"))]))]))]);
    assert_eq!(load_arduino_settings(&doc, "h").err(), Some(ConfigError::UnknownFirmware("nope".to_string())));
    let doc = mapping(vec![("macOS", mapping(vec![("h", mapping(vec![("ARDUINO_FIRMWARE", s("string_driver_v1"))]))]))]);
    let a = load_arduino_settings(&doc, "h").unwrap();
    assert_eq!(a.firmware, ArduinoFirmware::StringDriverV1);
    assert_eq!(a.string_num, 0);
    assert_eq!(a.port, None);
}

#[test]
fn operations_settings_from_document() {
    let o = load_operations_settings(&document(), "stringdriver-2").unwrap();
    assert_eq!(o.z_up_step, Some(3));
    assert_eq!(o.z_down_step, Some(-4));
    assert!(!o.bump_check_enable);
    assert_eq!(o.z_rest, Some(YamlNumber::Float(1.5f64.to_bits())));
    assert_eq!(o.tune_rest, None);
    assert_eq!(o.x_step, Some(20));
    assert_eq!(o.adjustment_level, None);
    let empty = mapping(vec![("Ubuntu", mapping(vec![("h", mapping(vec![]))]))]);
    assert!(load_operations_settings(&empty, "h").unwrap().bump_check_enable);
}

#[test]
fn gpio_settings_from_document() {
    let g = load_gpio_settings(&document(), "stringdriver-2").unwrap().unwrap();
    assert!(g.enabled);
    assert_eq!(g.library.as_deref(), Some("gpiod"));
    assert_eq!(g.max_steps, Some(400));
    let c = g.components.unwrap();
    assert_eq!(c.z_touch_pins, Some(vec![5, 6]));
    assert_eq!(c.x_home_pin, Some(17));
    assert_eq!(c.x_away_pin, None);
    assert_eq!(c.rotary_encoder_pins.map(|p| (p.a, p.b)), Some((1, 2)));
    assert!(c.distance_sensor_pins.is_none());
    let off = mapping(vec![("Ubuntu", mapping(vec![("h", mapping(vec![("GPIO_ENABLED", YamlValue::Bool(false))]))]))]);
    assert!(load_gpio_settings(&off, "h").unwrap().is_none());
    let no_lib = mapping(vec![("Ubuntu", mapping(vec![("h", mapping(vec![("GPIO_ENABLED", YamlValue::Bool(true))]))]))]);
    assert_eq!(load_gpio_settings(&no_lib, "h").err(), Some(ConfigError::GpioLibraryMissing));
    let no_steps = mapping(vec![("Ubuntu", mapping(vec![("h", mapping(vec![("GPIO_ENABLED", YamlValue::Bool(true)), ("GPIO_LIBRARY", s("gpiod"))]))]))]);
    assert_eq!(load_gpio_settings(&no_steps, "h").err(), Some(ConfigError::GpioMaxStepsMissing));
}

#[test]
fn launcher_lookups() {
    assert!(check_gpio_enabled(&document(), "stringdriver-2"));
    assert!(!check_gpio_enabled(&document(), "other-host"));
    assert_eq!(get_stepper_socket_path(&document(), "stringdriver-2").as_deref(), Some("/tmp/stepper_gui__dev_ttyACM0.sock"));
    assert_eq!(get_stepper_socket_path(&document(), "other-host"), None);
}

#[test]
fn mainboard_tuners_stop_at_x() {
    let mut a = ArduinoSettings {
        port: None,
        num_steppers: None,
        string_num: 0,
        x_step_index: Some(4),
        x_max_pos: None,
        z_first_index: Some(7),
        tuner_first_index: Some(1),
        ard_t_port: None,
        ard_t_num_steppers: None,
        firmware: ArduinoFirmware::StringDriverV2,
    };
    assert_eq!(mainboard_tuner_indices(&a), vec![1, 2, 3]);
    a.ard_t_port = Some("/dev/ttyUSB1".to_string());
    assert!(mainboard_tuner_indices(&a).is_empty());
    a.ard_t_port = None;
    a.tuner_first_index = Some(7);
    assert!(mainboard_tuner_indices(&a).is_empty());
}

fn env() -> DbEnv {
    DbEnv {
        pg_host: None,
        db_host: None,
        pg_port: None,
        db_port: None,
        pg_user: None,
        db_user: None,
        pg_password: None,
        db_password: None,
        pg_database: None,
        db_name: None,
    }
}

#[test]
fn database_settings() {
    let missing = |f: DbField| Some(ConfigError::DbSettingMissing(f));
    assert_eq!(DbSettings::from_env(&env()).err(), missing(DbField::Host));
    let mut e = env();
    e.db_password = Some("pw".to_string());
    assert_eq!(DbSettings::from_env(&e).err(), missing(DbField::Host));
    e.pg_host = Some("db.local".to_string());
    e.db_host = Some("ignored".to_string());
    assert_eq!(DbSettings::from_env(&e).err(), missing(DbField::Port));
    e.pg_port = Some("6543".to_string());
    assert_eq!(DbSettings::from_env(&e).err(), missing(DbField::User));
    e.db_user = Some("reader".to_string());
    e.db_password = None;
    assert_eq!(DbSettings::from_env(&e).err(), missing(DbField::Password));
    e.db_password = Some("pw".to_string());
    assert_eq!(DbSettings::from_env(&e).err(), missing(DbField::Database));
    e.db_name = Some("sd".to_string());
    let d = DbSettings::from_env(&e).unwrap();
    assert_eq!(d.host, "db.local");
    assert_eq!(d.port, 6543);
    assert_eq!(d.user, "reader");
    assert_eq!(d.password, "pw");
    assert_eq!(d.database, "sd");
    e.pg_port = Some("70000".to_string());
    e.db_port = Some("1234".to_string());
    assert_eq!(DbSettings::from_env(&e).err(), Some(ConfigError::DbPortInvalid));
    e.pg_port = None;
    assert_eq!(DbSettings::from_env(&e).unwrap().port, 1234);
    e.pg_password = Some("first".to_string());
    assert_eq!(DbSettings::from_env(&e).unwrap().password, "first");
}
