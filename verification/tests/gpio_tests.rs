use stringdriver::gpio::{GpioBoard, GpioError, GpioSetup, TouchQuery, LimitQuery, ChipProbe, choose_gpio_chip, required_pins, touch_state};
use stringdriver::settings::{GpioComponents, GpioSettings, RotaryEncoderPins, DistanceSensorPins};

fn components() -> GpioComponents {
    GpioComponents {
        z_touch_pins: Some(vec![5, 6, 13, 19]),
        x_home_pin: Some(6),
        x_away_pin: Some(21),
        x_limit_pin: None,
        rotary_encoder_pins: Some(RotaryEncoderPins { a: 1, b: 2 }),
        distance_sensor_pins: Some(DistanceSensorPins { trig: 3, echo: 4 }),
    }
}

fn enabled(library: &str) -> GpioSettings {
    GpioSettings { enabled: true, library: Some(library.to_string()), max_steps: Some(400), components: Some(components()) }
}

#[test]
fn test_gpio_disabled() {
    let gpio = GpioBoard::disabled();
    assert!(!gpio.exist);
}

#[test]
fn gpio_new_without_settings_is_disabled() {
    match GpioBoard::new(None) {
        Ok(GpioSetup::Disabled(b)) => assert!(!b.exist),
        _ => panic!("expected a disabled board"),
    }
    let mut s = enabled("gpiod");
    s.enabled = false;
    assert!(matches!(GpioBoard::new(Some(s)), Ok(GpioSetup::Disabled(_))));
}

#[test]
fn gpio_new_requires_library_steps_and_components() {
    let mut s = enabled("gpiod");
    s.library = None;
    assert_eq!(GpioBoard::new(Some(s)).err(), Some(GpioError::MissingLibrary));
    let mut s = enabled("gpiod");
    s.max_steps = None;
    assert_eq!(GpioBoard::new(Some(s)).err(), Some(GpioError::MissingMaxSteps));
    let mut s = enabled("gpiod");
    s.components = None;
    assert_eq!(GpioBoard::new(Some(s)).err(), Some(GpioError::MissingComponents));
    assert_eq!(GpioBoard::new(Some(enabled("gpiozero"))).err(), Some(GpioError::UnsupportedLibrary("gpiozero".to_string())));
}

#[test]
fn gpio_new_plans_the_lines() {
    match GpioBoard::new(Some(enabled("gpiod"))) {
        Ok(GpioSetup::Request { board, pins }) => {
            assert_eq!(pins, vec![5, 6, 13, 19, 21]);
            assert!(board.exist);
            assert_eq!(board.library.as_deref(), Some("gpiod"));
            assert_eq!(board.max_steps, Some(400));
            assert_eq!(board.num_touch_pins, 4);
            assert_eq!(board.x_home_line, Some(6));
            assert_eq!(board.x_away_line, Some(21));
            assert_eq!(board.x_limit_button, None);
            assert!(board.distance_sensor_enabled);
        },
        _ => panic!("expected a line plan"),
    }
}

#[test]
fn gpio_single_limit_pin_serves_both_ends() {
    let mut s = enabled("gpiod");
    let mut c = components();
    c.x_home_pin = None;
    c.x_away_pin = None;
    c.x_limit_pin = Some(26);
    c.distance_sensor_pins = None;
    s.components = Some(c);
    match GpioBoard::new(Some(s)) {
        Ok(GpioSetup::Request { board, pins }) => {
            assert_eq!(pins, vec![5, 6, 13, 19, 26]);
            assert_eq!(board.x_home_line, Some(26));
            assert_eq!(board.x_away_line, Some(26));
            assert_eq!(board.x_limit_button, Some(26));
            assert!(!board.distance_sensor_enabled);
        },
        _ => panic!("expected a line plan"),
    }
}

#[test]
fn gpio_queries() {
    let board = match GpioBoard::new(Some(enabled("gpiod"))) {
        Ok(GpioSetup::Request { board, .. }) => board,
        _ => panic!("expected a line plan"),
    };
    match board.press_check(Some(2)) {
        TouchQuery::Read(lines) => assert_eq!(lines, vec![13]),
        _ => panic!("expected a read"),
    }
    match board.press_check(Some(9)) {
        TouchQuery::Known(v) => assert_eq!(v, vec![false]),
        _ => panic!("expected a known answer"),
    }
    match board.press_check(None) {
        TouchQuery::Read(lines) => assert_eq!(lines, vec![5, 6, 13, 19]),
        _ => panic!("expected a read"),
    }
    assert_eq!(board.x_home_check(), LimitQuery::Read(6));
    assert_eq!(board.x_away_check(), LimitQuery::Read(21));
    assert!(board.gpio_quit());
    let mut off = GpioBoard::disabled();
    match off.press_check(None) {
        TouchQuery::Known(v) => assert!(v.is_empty()),
        _ => panic!("expected a known answer"),
    }
    off.num_touch_pins = 4;
    match off.press_check(None) {
        TouchQuery::Known(v) => assert_eq!(v, vec![false; 4]),
        _ => panic!("expected a known answer"),
    }
    match off.press_check(Some(2)) {
        TouchQuery::Known(v) => assert_eq!(v, vec![false]),
        _ => panic!("expected a known answer"),
    }
    assert_eq!(off.x_home_check(), LimitQuery::Known(false));
    assert!(!off.gpio_quit());
}

#[test]
fn gpio_encoder_and_distance() {
    let mut b = GpioBoard::disabled();
    b.set_encoder_steps(-5);
    assert_eq!(b.encoder_steps, -5);
    assert_eq!(b.get_encoder_steps(), -5);
    b.set_encoder_steps(7);
    assert_eq!(b.get_encoder_steps(), 7);
    b.set_encoder_steps(3);
    assert_eq!(b.get_encoder_steps(), 3);
    assert_eq!(b.get_distance(), 0);
    b.exist = true;
    b.distance_sensor_enabled = true;
    b.last_good_distance = 42;
    assert_eq!(b.get_distance(), 42);
}

#[test]
fn gpio_chip_choice() {
    let probes = vec![ChipProbe::Unusable, ChipProbe::Opened { has_all_pins: false }, ChipProbe::Opened { has_all_pins: true }];
    assert_eq!(choose_gpio_chip(&probes, false), Ok(2));
    assert_eq!(choose_gpio_chip(&probes, true), Ok(1));
    let none_fit = vec![ChipProbe::Unusable, ChipProbe::Opened { has_all_pins: false }];
    assert_eq!(choose_gpio_chip(&none_fit, false), Ok(0));
    assert_eq!(choose_gpio_chip(&Vec::new(), false), Err(GpioError::NoChip));
    assert_eq!(required_pins(&components()), vec![5, 6, 13, 19, 6, 21]);
}

#[test]
fn gpio_touch_state() {
    assert!(touch_state(&Ok(vec![true, false])));
    assert!(!touch_state(&Ok(vec![])));
    assert!(!touch_state(&Err("read failed".to_string())));
}
