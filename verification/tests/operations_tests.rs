use std::collections::HashMap;
use stringdriver::settings::{ArduinoFirmware, ArduinoSettings, OperationsSettings};
use stringdriver::gpio::GpioBoard;
use stringdriver::operations::{Operations, OperationsError, HostOs, StepperRole, derive_stepper_roles};
use stringdriver::procedure::{Action, Reply, ChannelReading, OpMessage, OpError, Rest, StepperOperations, perform_stepper_action};
use stringdriver::bump::BumpCheck;
use stringdriver::calibrate::ZCalibration;
use stringdriver::sweep::{XSweep, voice_variance, check_all_pass};
use stringdriver::xaxis::XRun;

fn ard() -> ArduinoSettings {
    ArduinoSettings {
        port: Some("/dev/ttyACM0".to_string()),
        num_steppers: Some(11),
        string_num: 2,
        x_step_index: Some(0),
        x_max_pos: Some(2600),
        z_first_index: Some(5),
        tuner_first_index: Some(1),
        ard_t_port: None,
        ard_t_num_steppers: None,
        firmware: ArduinoFirmware::StringDriverV2,
    }
}

fn ops_settings() -> OperationsSettings {
    OperationsSettings {
        z_up_step: None,
        z_down_step: None,
        bump_check_enable: true,
        tune_rest: None,
        x_rest: None,
        z_rest: None,
        lap_rest: None,
        adjustment_level: None,
        retry_threshold: None,
        delta_threshold: None,
        z_variance_threshold: None,
        x_start: None,
        x_finish: None,
        x_step: None,
    }
}

fn board() -> GpioBoard {
    let mut b = GpioBoard::disabled();
    b.exist = true;
    b
}

fn ops() -> Operations {
    Operations::from_settings("host".to_string(), &ops_settings(), &ard(), Some(board())).unwrap()
}

fn reading(in_range: bool) -> ChannelReading {
    ChannelReading { amp_text: "50.00".to_string(), amp_above_max: false, amp_below_min: !in_range, amp_in_range: in_range }
}

fn answer(a: Action, touch: &mut dyn FnMut(usize) -> bool, audio_ok: bool, strings: usize) -> Reply {
    match a {
        Action::ReadTouch { gpio_index } => Reply::Touch(Ok(vec![touch(gpio_index)])),
        Action::ReadHomeLimit | Action::ReadAwayLimit => Reply::Limit(Ok(false)),
        Action::ReadAudio => Reply::Audio((0..strings).map(|_| reading(audio_ok)).collect()),
        Action::RelMove { .. } | Action::AbsMove { .. } | Action::Reset { .. } | Action::Disable { .. } => Reply::Stepper(Ok(())),
        Action::Continue | Action::Pause(_) | Action::Finished => Reply::Nothing,
    }
}

#[test]
fn operations_defaults_from_settings() {
    let o = ops();
    assert_eq!(o.z_up_step, 2);
    assert_eq!(o.z_down_step, -2);
    assert_eq!(o.adjustment_level, 4);
    assert_eq!(o.retry_threshold, 50);
    assert_eq!(o.delta_threshold, 50);
    assert_eq!(o.z_variance_threshold, 50);
    assert_eq!(o.x_start, 100);
    assert_eq!(o.x_finish, 2500);
    assert_eq!(o.x_step, 10);
    assert_eq!(o.get_z_stepper_indices(), vec![5, 6, 7, 8]);
    assert_eq!(o.tuner_indices(), &vec![1, 2, 3, 4]);
    for idx in 0..9 {
        assert!(o.get_stepper_enabled(idx));
    }
    assert!(!o.get_stepper_enabled(9));
    assert!(o.arduino_connected);
    assert_eq!(o.get_voice_count(), vec![0, 0]);
    let mut a = ard();
    a.z_first_index = None;
    assert_eq!(Operations::from_settings("h".to_string(), &ops_settings(), &a, None).err(), Some(OperationsError::MissingZFirstIndex));
    a.z_first_index = Some(5);
    a.x_max_pos = None;
    assert_eq!(Operations::from_settings("h".to_string(), &ops_settings(), &a, None).unwrap().x_finish, 100);
}

#[test]
fn operations_setters() {
    let mut o = ops();
    o.set_z_up_step(3);
    o.set_adjustment_level(2);
    o.set_x_step(-5);
    o.set_bump_check_enable(false);
    o.set_stepper_enabled(6, false);
    assert_eq!(o.get_z_up_step(), 3);
    assert_eq!(o.get_adjustment_level(), 2);
    assert_eq!(o.get_x_step(), -5);
    assert!(!o.get_bump_check_enable());
    assert!(!o.get_stepper_enabled(6));
    assert_eq!(o.get_all_stepper_enabled().get(&6), Some(&false));
    o.set_stepper_enabled(40, true);
    assert!(o.get_stepper_enabled(40));
    assert!(!o.get_stepper_enabled(6));
}

#[test]
fn stepper_roles() {
    let o = ops();
    let roles = derive_stepper_roles(&o, 11);
    assert_eq!(roles.len(), 11);
    assert_eq!(roles[0].role, StepperRole::XAxis);
    assert_eq!((roles[3].role, roles[3].string_index), (StepperRole::Tuner, Some(2)));
    assert_eq!((roles[5].role, roles[5].string_index), (StepperRole::ZIn, Some(0)));
    assert_eq!((roles[8].role, roles[8].string_index), (StepperRole::ZOut, Some(1)));
    assert_eq!((roles[10].role, roles[10].string_index), (StepperRole::Other, None));
    assert!(roles.iter().enumerate().all(|(i, r)| r.stepper_index == i));
}

#[test]
fn shared_memory_files() {
    assert_eq!(Operations::get_shared_memory_path(HostOs::Linux), "/dev/shm/audio_peaks");
    assert_eq!(Operations::get_shared_memory_path(HostOs::MacOs), "/tmp/audio_peaks");
    assert_eq!(Operations::get_control_file_path(HostOs::Other), "/tmp/audio_control");
    assert_eq!(Operations::read_control_file("1234\n6\n16\n"), Some((6, 16)));
    assert_eq!(Operations::read_control_file("1234\n6"), None);
    assert_eq!(Operations::read_control_file("1234\nsix\n16"), None);
    assert_eq!(Operations::partials_layout(Some((6, 16)), 4, 12, 4096), Some((4, 16)));
    assert_eq!(Operations::partials_layout(Some((2, 0)), 4, 12, 4096), Some((2, 12)));
    assert_eq!(Operations::partials_layout(None, 4, 12, 4 * 10 * 8), Some((4, 10)));
    assert_eq!(Operations::partials_layout(None, 4, 12, 8), None);
    assert_eq!(Operations::partials_layout(Some((6, 16)), 4, 12, 2 * 16 * 8 + 5), Some((2, 16)));
    assert_eq!(Operations::partials_layout(Some((6, usize::MAX)), 4, 12, 4096), None);
}

#[test]
fn voice_count_updates() {
    let mut o = ops();
    o.update_voice_counts(&vec![3, 4, 5], 3);
    assert_eq!(o.voice_count, vec![3, 4]);
    o.update_voice_counts(&vec![9], 2);
    assert_eq!(o.voice_count, vec![9, 4]);
    o.voice_count = vec![];
    o.update_voice_counts(&vec![], 0);
    assert_eq!(o.voice_count, vec![0, 0]);
}

#[test]
fn bump_check_clears_a_touching_stepper() {
    let o = ops();
    let mut check: BumpCheck = o.bump_check(None, vec![0; 11], HashMap::new());
    let mut touches = 0;
    let mut touch = |i: usize| { if i == 0 { touches += 1; touches == 1 } else { false } };
    let mut actions = Vec::new();
    let mut reply = Reply::Nothing;
    loop {
        let a = check.step(&o, false, reply);
        actions.push(a);
        if a == Action::Finished { break; }
        reply = answer(a, &mut touch, true, 2);
    }
    assert!(actions.contains(&Action::RelMove { stepper: 5, delta: 2, rest: None }));
    assert!(actions.contains(&Action::Reset { stepper: 5, position: 2 }));
    assert_eq!(check.result(), Ok(vec![OpMessage::BumpCleared { stepper: 5, z_up_step: 2 }]));
}

#[test]
fn bump_check_refusals() {
    let mut o = ops();
    o.gpio = None;
    let mut c = o.bump_check(None, vec![], HashMap::new());
    assert_eq!(c.step(&o, false, Reply::Nothing), Action::Finished);
    assert_eq!(c.result(), Err(OpError::GpioNotInitialized));
    let mut o = ops();
    o.set_z_up_step(0);
    let mut c = o.bump_check(None, vec![], HashMap::new());
    c.step(&o, false, Reply::Nothing);
    assert_eq!(c.result(), Err(OpError::InvalidZUpStep(0)));
    let mut o = ops();
    o.set_bump_check_enable(false);
    let mut c = o.bump_check(None, vec![], HashMap::new());
    c.step(&o, false, Reply::Nothing);
    assert_eq!(c.result(), Ok(vec![OpMessage::BumpSkipped]));
    let o = ops();
    let mut c = o.bump_check(Some(9), vec![], HashMap::new());
    c.step(&o, false, Reply::Nothing);
    assert_eq!(c.result(), Ok(vec![OpMessage::BumpInvalidIndex { index: 9 }]));
}

#[test]
fn bump_check_disables_at_max() {
    let o = ops();
    let mut max = HashMap::new();
    max.insert(5usize, 0i32);
    let mut check = o.bump_check(Some(1), vec![0; 11], max);
    let mut touch = |_i: usize| true;
    let mut reply = Reply::Nothing;
    let mut actions = Vec::new();
    loop {
        let a = check.step(&o, false, reply);
        actions.push(a);
        if a == Action::Finished { break; }
        reply = answer(a, &mut touch, true, 2);
    }
    assert!(actions.contains(&Action::Disable { stepper: 5 }));
    assert_eq!(check.result(), Ok(vec![OpMessage::BumpDisablingAtMax { stepper: 5, max_pos: 0 }]));
}

#[test]
fn calibration_descends_until_touch() {
    let mut o = ops();
    o.set_bump_check_enable(false);
    let mut max = HashMap::new();
    for i in 5..9usize { max.insert(i, 4i32); }
    let mut cal: ZCalibration = o.z_calibrate(vec![0; 11], max);
    let mut moves: HashMap<usize, i32> = HashMap::new();
    let mut reply = Reply::Nothing;
    let mut actions = Vec::new();
    loop {
        let a = cal.step(&mut o, false, reply);
        actions.push(a);
        if a == Action::Finished { break; }
        reply = match a {
            Action::ReadTouch { gpio_index } => {
                let count = moves.get(&(gpio_index + 5)).copied().unwrap_or(0);
                Reply::Touch(Ok(vec![gpio_index != 3 && count >= 1]))
            },
            Action::RelMove { stepper, .. } => { *moves.entry(stepper).or_insert(0) += 1; Reply::Stepper(Ok(())) },
            other => answer(other, &mut |_| false, true, 2),
        };
    }
    assert!(actions.contains(&Action::Reset { stepper: 5, position: 4 }));
    assert!(actions.contains(&Action::RelMove { stepper: 5, delta: -2, rest: Some(Rest::Z) }));
    assert!(actions.contains(&Action::Reset { stepper: 5, position: 0 }));
    assert!(actions.contains(&Action::Disable { stepper: 8 }));
    assert!(!o.get_stepper_enabled(8));
    assert!(o.get_stepper_enabled(7));
    let ms = cal.result().unwrap();
    assert!(ms.contains(&OpMessage::CalCalibrated { stepper: 5 }));
    assert!(ms.contains(&OpMessage::CalBottomedOut { stepper: 8 }));
    assert!(ms.contains(&OpMessage::CalIncomplete { stepper: 8 }));
}

#[test]
fn x_home_runs_until_the_switch() {
    let mut o = ops();
    o.gpio.as_mut().unwrap().x_home_line = Some(17);
    let mut run: XRun = o.x_home(vec![50; 11]);
    let mut presses = 0;
    let mut reply = Reply::Nothing;
    let mut actions = Vec::new();
    loop {
        let a = run.step(&mut o, false, reply);
        actions.push(a);
        if a == Action::Finished { break; }
        reply = match a {
            Action::ReadHomeLimit => { presses += 1; Reply::Limit(Ok(presses >= 3)) },
            other => answer(other, &mut |_| false, true, 2),
        };
    }
    assert_eq!(actions[0], Action::Reset { stepper: 0, position: 2600 });
    assert_eq!(actions.iter().filter(|a| **a == Action::RelMove { stepper: 0, delta: -10, rest: Some(Rest::X) }).count(), 2);
    assert!(actions.contains(&Action::Reset { stepper: 0, position: 0 }));
    let ms = run.result().unwrap();
    assert_eq!(ms.last(), Some(&OpMessage::XHomeComplete));
}

#[test]
fn sweep_moves_x_after_the_adjustment_level() {
    let mut o = ops();
    o.set_bump_check_enable(false);
    o.set_adjustment_level(1);
    o.set_x_start(100);
    o.set_x_finish(120);
    let mut positions = vec![0; 11];
    positions[0] = 100;
    let mut sweep: XSweep = o.right_left_move(positions, HashMap::new(), vec![], vec![]);
    let mut reply = Reply::Nothing;
    let mut actions = Vec::new();
    let mut moved = false;
    loop {
        let a = sweep.step(&mut o, moved, reply);
        actions.push(a);
        if a == Action::Finished { break; }
        if a == (Action::RelMove { stepper: 0, delta: 10, rest: Some(Rest::X) }) { moved = true; }
        reply = answer(a, &mut |_| false, true, 2);
    }
    assert!(moved);
    let ms = sweep.result().unwrap();
    assert_eq!(ms[0], OpMessage::SweepStart { sweep: stringdriver::procedure::Sweep::RightLeft, from: 100, to: 120, step: 10 });
    assert!(ms.contains(&OpMessage::SweepLevelMet { level: 1, x: 100, attempts: 1, step: 10 }));
    assert_eq!(ms.last(), Some(&OpMessage::SweepCancelled));
}

#[test]
fn sweep_errors_and_completion() {
    let mut o = ops();
    o.x_step_index = None;
    let mut sweep = o.left_right_move(vec![0; 11], HashMap::new(), vec![], vec![]);
    assert_eq!(sweep.step(&mut o, false, Reply::Nothing), Action::Finished);
    assert_eq!(sweep.result(), Err(OpError::XNotConfigured));
    let mut o = ops();
    o.set_x_start(100);
    o.set_x_finish(100);
    let mut positions = vec![0; 11];
    positions[0] = 100;
    let mut sweep = o.left_right_move(positions, HashMap::new(), vec![], vec![]);
    let mut reply = Reply::Nothing;
    loop {
        let a = sweep.step(&mut o, false, reply);
        if a == Action::Finished { break; }
        reply = answer(a, &mut |_| false, true, 2);
    }
    let ms = sweep.result().unwrap();
    assert_eq!(ms.last(), Some(&OpMessage::SweepComplete { sweep: stringdriver::procedure::Sweep::LeftRight }));
    let mut o = ops();
    let mut sweep = o.right_left_move(vec![0; 11], HashMap::new(), vec![], vec![]);
    assert_eq!(sweep.step(&mut o, false, Reply::Nothing), Action::AbsMove { stepper: 0, position: 100 });
}

#[test]
fn sweep_helpers() {
    assert_eq!(voice_variance(&vec![3, 5, 1], &vec![1, 5, 4]), Some(5));
    assert_eq!(voice_variance(&vec![], &vec![]), Some(0));
    assert_eq!(voice_variance(&vec![i32::MAX as usize], &vec![0x8000_0000usize]), None);
    let r = vec![reading(true), reading(true)];
    assert!(check_all_pass(&r, &vec![2, 3], &vec![1, 1], &vec![4], 2));
    assert!(!check_all_pass(&r, &vec![2, 13], &vec![1, 1], &vec![4], 2));
    assert!(!check_all_pass(&r, &vec![2], &vec![], &vec![], 2));
    assert!(!check_all_pass(&vec![reading(false)], &vec![2], &vec![], &vec![], 1));
}

struct Recorder {
    calls: Vec<String>,
    fail_with: Option<String>,
}

impl StepperOperations for Recorder {
    fn rel_move(&mut self, stepper: usize, delta: i32) -> Result<(), String> {
        self.calls.push(format!("rel {} {}", stepper, delta));
        match &self.fail_with { Some(m) => Err(m.clone()), None => Ok(()) }
    }
    fn abs_move(&mut self, stepper: usize, position: i32) -> Result<(), String> {
        self.calls.push(format!("abs {} {}", stepper, position));
        Ok(())
    }
    fn reset(&mut self, stepper: usize, position: i32) -> Result<(), String> {
        self.calls.push(format!("reset {} {}", stepper, position));
        Ok(())
    }
    fn disable(&mut self, stepper: usize) -> Result<(), String> {
        self.calls.push(format!("disable {}", stepper));
        Ok(())
    }
}

#[test]
fn stepper_actions_reach_the_trait() {
    let mut r = Recorder { calls: vec![], fail_with: None };
    assert!(matches!(perform_stepper_action(&mut r, Action::RelMove { stepper: 3, delta: -2, rest: Some(Rest::Z) }), Some(Reply::Stepper(Ok(())))));
    assert!(matches!(perform_stepper_action(&mut r, Action::AbsMove { stepper: 1, position: 40 }), Some(Reply::Stepper(Ok(())))));
    assert!(matches!(perform_stepper_action(&mut r, Action::Reset { stepper: 2, position: 0 }), Some(Reply::Stepper(Ok(())))));
    assert!(matches!(perform_stepper_action(&mut r, Action::Disable { stepper: 5 }), Some(Reply::Stepper(Ok(())))));
    assert!(perform_stepper_action(&mut r, Action::ReadAudio).is_none());
    assert!(perform_stepper_action(&mut r, Action::Pause(Rest::Lap)).is_none());
    assert_eq!(r.calls, vec!["rel 3 -2", "abs 1 40", "reset 2 0", "disable 5"]);
    let mut f = Recorder { calls: vec![], fail_with: Some("port closed".to_string()) };
    match perform_stepper_action(&mut f, Action::RelMove { stepper: 0, delta: 1, rest: None }) {
        Some(Reply::Stepper(Err(m))) => assert_eq!(m, "port closed"),
        other => panic!("unexpected {:?}", other),
    }
}

#[test]
fn bump_status_display() {
    let o = ops();
    let sensors = o.bump_status_sensors();
    assert_eq!(sensors, vec![(5, 0), (6, 1), (7, 2), (8, 3)]);
    let readings = vec![Ok(vec![true]), Ok(vec![]), Err("line busy".to_string())];
    assert_eq!(o.get_bump_status(&readings), vec![(5, true), (6, false), (7, false), (8, false)]);
    let mut no_hw = ops();
    no_hw.gpio = Some(GpioBoard::disabled());
    assert!(no_hw.bump_status_sensors().is_empty());
    no_hw.gpio = None;
    assert!(no_hw.bump_status_sensors().is_empty());
}
