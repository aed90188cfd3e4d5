use std::collections::HashMap;
use stringdriver::settings::{ArduinoFirmware, ArduinoSettings, OperationsSettings};
use stringdriver::panel::{DebugLog, StepperPanel, CommandSet, PanelStep, PanelError, RefreshOutcome, Handled, LayoutError, PanelControl};
use stringdriver::cmdmessenger::build_frame;
use stringdriver::opspanel::{Thresholds, OperationKind, plan_operation, PlanError, run_report, RunReport, execute_decision, ExecuteDecision, should_repeat, repeat_due, snapshot_arrays};
use stringdriver::procedure::{OpMessage, OpError};
use stringdriver::operations::Operations;
use stringdriver::launcher::{LaunchMode, needs_build, master_build_command, separate_build_command, shared_memory_schedule, stepper_socket_schedule, PollAction, status_ready};
use stringdriver::updates::{UpdateLoop, ParamEvent, CycleDecision, PartialsSource, SynthParams};
use stringdriver::pipeline::{build_pipeline, icecast_endpoint, pipeline_args, EndpointError};

fn frames(steps: &[PanelStep]) -> Vec<String> {
    steps.iter().map(|s| match s {
        PanelStep::SendMain(f) => format!("main {:?}", f),
        PanelStep::SendTuner(f) => format!("tuner {:?}", f),
        PanelStep::Wait(ms) => format!("wait {}", ms),
        PanelStep::RefreshMain => "refresh main".to_string(),
        PanelStep::RefreshTuner => "refresh tuner".to_string(),
    }).collect()
}

fn panel() -> StepperPanel {
    StepperPanel::new("/dev/ttyACM0".to_string(), 13, 3, Some(0), Some(7), Some(1), None, Some(6), 2, -2, ArduinoFirmware::StringDriverV1, Some(2600))
}

#[test]
fn command_sets() {
    let v1 = CommandSet::for_firmware(ArduinoFirmware::StringDriverV1);
    assert_eq!((v1.positions_cmd.clone(), v1.rmove_id, v1.set_stepper_id, v1.set_accel_id, v1.set_speed_id, v1.set_min_id, v1.set_max_id), (b"2;".to_vec(), 4, 7, 8, 9, 10, 11));
    let v2 = CommandSet::for_firmware(ArduinoFirmware::StringDriverV2);
    assert_eq!((v2.positions_cmd.clone(), v2.rmove_id, v2.set_stepper_id, v2.set_accel_id, v2.set_speed_id, v2.set_min_id, v2.set_max_id), (b"1;".to_vec(), 3, 6, 7, 8, 9, 10));
    let c = CommandSet::new(b"9;".to_vec(), 1, 2, 3, 4, 5, 6);
    assert_eq!(c.set_max_id, 6);
}

#[test]
fn panel_defaults_and_layout() {
    let d = StepperPanel::default();
    assert_eq!(d.positions, vec![0; 13]);
    assert_eq!((d.x_min, d.x_max, d.z_min, d.z_max, d.tuner_speed), (0, 2600, -100, 100, 250));
    let p = panel();
    assert_eq!(p.positions.len(), 13);
    assert_eq!(p.tuner_positions, vec![0; 6]);
    assert_eq!((p.tuner_min, p.tuner_max), (-25000, 25000));
    assert_eq!(p.command_set.rmove_id, 4);
    assert_eq!(p.tuner_command_set.rmove_id, 4);
    assert_eq!((p.command_set.positions_cmd.clone(), p.command_set.set_stepper_id, p.command_set.set_max_id), (b"2;".to_vec(), 7, 11));
    assert_eq!((p.tuner_command_set.positions_cmd.clone(), p.tuner_command_set.set_accel_id), (b"2;".to_vec(), 8));
    assert_eq!(p.socket_path, "/tmp/stepper_gui__dev_ttyACM0.sock");
    let sep = StepperPanel::new("/dev/a".to_string(), 4, 1, None, Some(0), None, Some("/dev/b".to_string()), Some(2), 2, -2, ArduinoFirmware::StringDriverV1, None);
    assert_eq!(sep.tuner_command_set.rmove_id, 3);
    assert_eq!((sep.tuner_command_set.positions_cmd.clone(), sep.tuner_command_set.set_stepper_id, sep.tuner_command_set.set_max_id), (b"1;".to_vec(), 6, 10));
    assert_eq!((sep.command_set.positions_cmd.clone(), sep.command_set.set_speed_id), (b"2;".to_vec(), 9));
    assert_eq!((sep.tuner_min, sep.tuner_max), (-100000, 100000));
}

#[test]
fn panel_from_settings() {
    let mut a = ArduinoSettings {
        port: Some("/dev/ttyACM0".to_string()),
        num_steppers: Some(13),
        string_num: 3,
        x_step_index: Some(0),
        x_max_pos: Some(2600),
        z_first_index: Some(7),
        tuner_first_index: Some(1),
        ard_t_port: None,
        ard_t_num_steppers: None,
        firmware: ArduinoFirmware::StringDriverV2,
    };
    let o = OperationsSettings {
        z_up_step: Some(3), z_down_step: None, bump_check_enable: true, tune_rest: None, x_rest: None, z_rest: None,
        lap_rest: None, adjustment_level: None, retry_threshold: None, delta_threshold: None, z_variance_threshold: None,
        x_start: None, x_finish: None, x_step: None,
    };
    let p = StepperPanel::from_settings(&a, Some(&o)).unwrap();
    assert_eq!(p.tuner_num_steppers, Some(6));
    assert_eq!((p.z_up_step, p.z_down_step), (3, -2));
    a.num_steppers = None;
    assert_eq!(StepperPanel::from_settings(&a, None).err(), Some(LayoutError::NoSteppers));
    a.port = None;
    assert_eq!(StepperPanel::from_settings(&a, None).err(), Some(LayoutError::NoPort));
}

#[test]
fn panel_requests() {
    let mut p = panel();
    assert_eq!(p.move_stepper(3, 5).err(), Some(PanelError::NotConnected));
    assert_eq!(frames(&p.connect(true)), vec!["refresh main".to_string()]);
    let steps = p.move_stepper(3, 5).unwrap();
    assert_eq!(frames(&steps), vec![format!("main {:?}", build_frame(4, 3, 5, true)), "wait 500".to_string(), "refresh main".to_string()]);
    let steps = p.reset_position(3, 2).unwrap();
    assert_eq!(frames(&steps)[0], format!("main {:?}", build_frame(7, 3, 2, true)));
    assert_eq!(frames(&p.set_accel(3, 1000).unwrap()), vec![format!("main {:?}", build_frame(8, 3, 1000, true))]);
    assert_eq!(frames(&p.move_tuner(2, -40).unwrap())[0], format!("main {:?}", build_frame(4, 3, -40, true)));
    assert_eq!(frames(&p.set_tuner_min(2, -500).unwrap()), vec![format!("main {:?}", build_frame(10, 0, -500, true))]);
    assert_eq!(p.set_position(4, 250), Ok(100));
    assert_eq!(p.positions[4], 100);
    assert_eq!(p.set_position(4, -7), Ok(-7));
    assert_eq!(p.set_position(40, 1), Err(PanelError::OutOfRange));
    let z = p.apply_z_params_to_all();
    assert_eq!(z.len(), 6 * 8);
    let mut d = StepperPanel::default();
    assert_eq!(d.move_tuner(0, 1).err(), Some(PanelError::NoTuners));
    d.z_first_index = Some(0);
    d.string_num = 1;
    assert_eq!(frames(&d.apply_z_params_to_all()), vec!["wait 10"; 8].iter().map(|s| s.to_string()).collect::<Vec<_>>());
}

#[test]
fn panel_refresh() {
    let mut p = panel();
    assert_eq!(p.apply_positions_reply(&[b'2', b',', 5]), RefreshOutcome::NoReply);
    assert_eq!(p.apply_positions_reply(&[b'2', b',', 5, 0, 7, 0, b';']), RefreshOutcome::Short);
    assert_eq!(&p.positions[..3], &[5, 7, 0]);
    assert_eq!(p.positions.len(), 13);
    p.tuner_connected = true;
    p.positions[1] = 11;
    p.positions[6] = 66;
    p.copy_mainboard_tuner_positions();
    assert_eq!(p.tuner_positions, vec![11, 0, 0, 0, 0, 66]);
    assert_eq!(p.apply_tuner_reply(&[b'1', b',', 9, 0, b';']), RefreshOutcome::Short);
    assert_eq!(p.tuner_positions, vec![9, 0, 0, 0, 0, 66]);
}

#[test]
fn panel_socket_commands() {
    let mut p = panel();
    p.connect(true);
    p.positions = vec![5, -3];
    match p.handle_command("get_positions\n") {
        Handled::Respond(t) => assert_eq!(t, "positions 0=5 1=-3\n"),
        _ => panic!("expected an answer"),
    }
    match p.handle_command("abs_move 1 500") {
        Handled::Positioned(r) => assert_eq!(r, Ok(100)),
        _ => panic!("expected a model update"),
    }
    assert_eq!(p.positions, vec![5, 100]);
    assert!(matches!(p.handle_command("rel_move 1 2"), Handled::Steps(Ok(_))));
    assert!(matches!(p.handle_command("rel_move 1"), Handled::Nothing));
    assert!(matches!(p.handle_command("fly"), Handled::Unknown));
}

#[test]
fn operations_panel_thresholds() {
    let mut t = Thresholds::new(2, 12);
    assert_eq!(t.voice_count_min, vec![2, 2]);
    assert_eq!(t.voice_count_max, vec![12, 12]);
    assert_eq!(t.amp_sum_min, vec![20, 20]);
    assert_eq!(t.amp_sum_max, vec![250, 250]);
    t.voice_count_min = vec![5, 1];
    t.sync_voice_threshold_caps(3);
    assert_eq!(t.voice_count_max, vec![3, 3]);
    assert_eq!(t.voice_count_min, vec![3, 1]);
    t.sync_voice_threshold_caps(-4);
    assert_eq!(t.voice_count_max, vec![1, 1]);
    assert_eq!(t.voice_count_min, vec![1, 1]);
    let small = Thresholds::new(1, 0);
    assert_eq!((small.voice_count_min.clone(), small.voice_count_max.clone()), (vec![1], vec![1]));
}

#[test]
fn operations_panel_plans() {
    let t = Thresholds { voice_count_min: vec![-1, 2], voice_count_max: vec![4, 5], amp_sum_min: vec![], amp_sum_max: vec![] };
    let mut known = HashMap::new();
    known.insert(6usize, 17i32);
    assert_eq!(plan_operation("bump_check", &vec![], &known, &t).err(), Some(PlanError::NoZSteppers));
    assert_eq!(plan_operation("dance", &vec![5, 6], &known, &t).err(), Some(PlanError::NothingSelected));
    let p = plan_operation("z_adjust", &vec![5, 6], &known, &t).unwrap();
    assert_eq!(p.kind, OperationKind::ZAdjust);
    assert_eq!(p.positions, vec![0, 0, 0, 0, 0, 0, 17]);
    assert_eq!(p.max_positions.get(&5), Some(&100));
    assert_eq!(p.max_positions.len(), 2);
    assert_eq!(p.min_voices, vec![0, 2]);
    assert_eq!(p.max_voices, vec![4, 5]);
    assert_eq!(OperationKind::from_name("z_calibrate"), Some(OperationKind::ZCalibrate));
    assert_eq!(run_report(OperationKind::BumpCheck, Ok(vec![])), RunReport::NoBumps);
    assert_eq!(run_report(OperationKind::ZAdjust, Ok(vec![])), RunReport::Messages(vec![]));
    assert_eq!(run_report(OperationKind::BumpCheck, Err(OpError::GpioNotInitialized)), RunReport::BumpCheckError(OpError::GpioNotInitialized));
    assert_eq!(run_report(OperationKind::ZCalibrate, Ok(vec![OpMessage::CalComplete])), RunReport::Messages(vec![OpMessage::CalComplete]));
    assert_eq!(run_report(OperationKind::ZCalibrate, Err(OpError::Overflow)), RunReport::Error(OpError::Overflow));
}

#[test]
fn operations_panel_scheduling() {
    assert_eq!(execute_decision(true, false, "z_adjust"), ExecuteDecision::AlreadyRunning);
    assert_eq!(execute_decision(false, true, "z_adjust"), ExecuteDecision::StillCompleting);
    assert_eq!(execute_decision(false, false, "None"), ExecuteDecision::NothingSelected);
    assert_eq!(execute_decision(false, false, "z_adjust"), ExecuteDecision::Start);
    assert!(should_repeat(true, "bump_check", "bump_check"));
    assert!(!should_repeat(true, "bump_check", "z_adjust"));
    assert!(!should_repeat(false, "bump_check", "bump_check"));
    assert!(repeat_due(true, false, false, true));
    assert!(!repeat_due(true, false, false, false));
    assert!(!repeat_due(true, true, false, true));
}

#[test]
fn machine_state_arrays() {
    let ops = Operations {
        hostname: "h".to_string(), bump_check_enable: true, z_up_step: 2, z_down_step: -2, adjustment_level: 4,
        retry_threshold: 50, delta_threshold: 50, z_variance_threshold: 50, x_start: 100, x_finish: 100, x_step: 10,
        z_first_index: 0, string_num: 0, x_step_index: None, x_max_pos: None, tuner_indices: vec![],
        stepper_enabled: [(0usize, true), (2usize, true)].into_iter().collect(), gpio: None, arduino_connected: false,
        voice_count: vec![],
    };
    let mut known = HashMap::new();
    known.insert(1usize, 7i32);
    known.insert(2usize, -3i32);
    known.insert(9usize, 1i32);
    let (p, e) = snapshot_arrays(&known, &ops, 4);
    assert_eq!(p, vec![0, 7, -3, 0]);
    assert_eq!(e, vec![false, false, true, false]);
}

#[test]
fn launcher_decisions() {
    assert_eq!(LaunchMode::from_args(&vec!["launcher".to_string(), "--separate".to_string()]), LaunchMode::Separate);
    assert_eq!(LaunchMode::from_args(&vec!["launcher".to_string()]), LaunchMode::MasterGui);
    assert_eq!(master_build_command(true), vec!["build", "--release", "--bin", "master_gui", "--features", "gpiod"]);
    assert_eq!(separate_build_command(false), vec!["build", "--release", "--bin", "stepper_gui", "--bin", "operations_gui"]);
    assert_eq!(separate_build_command(true), vec!["build", "--release", "--features", "gpiod", "--bin", "stepper_gui", "--bin", "operations_gui"]);
    let s = shared_memory_schedule();
    assert_eq!(s.after_poll(10, false), PollAction::Wait { dot: true });
    assert_eq!(s.after_poll(11, false), PollAction::Wait { dot: false });
    assert_eq!(s.after_poll(60, false), PollAction::GiveUp);
    assert_eq!(s.after_poll(60, true), PollAction::Ready);
    assert_eq!(stepper_socket_schedule().after_poll(5, false), PollAction::Wait { dot: true });
    assert!(status_ready("  ready\n"));
    assert!(!status_ready("starting"));
}

#[test]
fn update_loop_decisions() {
    let mut l = UpdateLoop::new();
    assert_eq!(l.decide(ParamEvent::Timeout, false, false), CycleDecision::Idle);
    assert_eq!(l.decide(ParamEvent::Timeout, false, true), CycleDecision::Defer);
    assert!(l.force_next);
    assert_eq!(l.decide(ParamEvent::Gain { changed: true }, false, false), CycleDecision::Send(PartialsSource::Empty));
    assert!(l.record_send(true));
    assert_eq!(l.decide(ParamEvent::FreqScale { changed: true }, false, false), CycleDecision::Send(PartialsSource::LastSent));
    assert_eq!(l.decide(ParamEvent::UpdateRate { changed: false }, true, false), CycleDecision::Send(PartialsSource::Latest));
    for _ in 0..5 {
        assert!(!l.record_send(false));
    }
    assert!(l.output_available);
    assert!(l.record_send(false));
    assert!(!l.output_available);
    assert_eq!(l.decide(ParamEvent::Gain { changed: true }, true, true), CycleDecision::Idle);
    assert_eq!(l.decide(ParamEvent::Disconnected, true, true), CycleDecision::Stop);
}

fn cfg(pairs: &[(&str, &str)]) -> Vec<(String, String)> {
    pairs.iter().map(|(k, v)| (k.to_string(), v.to_string())).collect()
}

#[test]
fn pipeline_descriptions() {
    let base = [("GSTREAMER_AUDIO_SRC", "jackaudiosrc"), ("GSTREAMER_CONVERT", "audioconvert"), ("GSTREAMER_ENCODER", "lamemp3enc")];
    let (p, extra) = build_pipeline(&cfg(&base), false);
    assert_eq!(p, "jackaudiosrc ! queue max-size-buffers=50 max-size-time=0 max-size-bytes=0 leaky=2 ! audioconvert ! lamemp3enc ! fakesink");
    assert!(extra.is_empty());
    let mut full = base.to_vec();
    full.extend_from_slice(&[
        ("GST_SECOND_QUEUE_ENABLE", "true"), ("GST_SECOND_QUEUE_BUFFERS", "10"), ("GSTREAMER_SINK", "shout2send"),
        ("ICECAST_HOST", "10.0.0.2"), ("ICECAST_PORT", "8000"), ("ICECAST_MOUNT", "stream"), ("SHOUT2SEND_SYNC", "false"),
    ]);
    let (p, _) = build_pipeline(&cfg(&full), true);
    assert_eq!(p, "jackaudiosrc ! queue max-size-buffers=50 max-size-time=0 max-size-bytes=0 leaky=2 ! audioconvert ! queue max-size-buffers=10 max-size-time=0 max-size-bytes=0 leaky=2 ! lamemp3enc ! shout2send ip=10.0.0.2 port=8000 mount=/stream sync=false");
    let args = pipeline_args(&p);
    assert_eq!(args.len(), 23);
    assert_eq!(args[0], "jackaudiosrc".chars().collect::<Vec<char>>());
    assert_eq!(icecast_endpoint(&cfg(&full)), Ok(("10.0.0.2".to_string(), 8000)));
    assert_eq!(icecast_endpoint(&cfg(&base)), Err(EndpointError::Missing));
    assert_eq!(icecast_endpoint(&cfg(&[("ICECAST_HOST", "h"), ("ICECAST_PORT", "80000")])), Err(EndpointError::InvalidPort));
}

#[test]
fn second_queue_only_for_exact_true() {
    let base = [("GSTREAMER_AUDIO_SRC", "jackaudiosrc"), ("GSTREAMER_CONVERT", "audioconvert"), ("GSTREAMER_ENCODER", "lamemp3enc"), ("GSTREAMER_SINK", "shout2send")];
    for icecast in [false, true] {
        let (plain, _) = build_pipeline(&cfg(&base), icecast);
        for v in ["True", "yes", "1", "false"] {
            let mut c = base.to_vec();
            c.extend_from_slice(&[("GST_SECOND_QUEUE_ENABLE", v), ("GST_SECOND_QUEUE_BUFFERS", "7")]);
            assert_eq!(build_pipeline(&cfg(&c), icecast).0, plain);
        }
        let mut c = base.to_vec();
        c.push(("GST_SECOND_QUEUE_ENABLE", "true"));
        let (p, _) = build_pipeline(&cfg(&c), icecast);
        assert_eq!(p.matches("queue").count(), 2);
        assert_eq!(plain.matches("queue").count(), 1);
    }
}

#[test]
fn sink_parts_of_the_description() {
    let c = cfg(&[
        ("GSTREAMER_AUDIO_SRC", "jackaudiosrc"), ("GSTREAMER_CONVERT", "audioconvert"), ("GSTREAMER_ENCODER", "lamemp3enc"),
        ("GSTREAMER_SINK", "shout2send"), ("ICECAST_HOST", "icecast.local"), ("ICECAST_MOUNT", "/live"),
    ]);
    let (on, _) = build_pipeline(&c, true);
    assert!(on.contains(" ! shout2send"));
    assert!(on.contains("ip=icecast.local"));
    assert!(on.contains("mount=/live"));
    assert!(!on.contains("mount=//live"));
    let (off, _) = build_pipeline(&c, false);
    assert!(off.ends_with(" ! fakesink"));
    assert!(!off.contains("shout2send"));
    let first = cfg(&[
        ("GSTREAMER_AUDIO_SRC", "a"), ("GSTREAMER_AUDIO_SRC", "b"), ("GSTREAMER_CONVERT", "c"), ("GSTREAMER_ENCODER", "e"),
    ]);
    assert!(build_pipeline(&first, false).0.starts_with("a ! queue"));
}

#[test]
fn rebuild_decision() {
    assert!(needs_build(None, &vec![]));
    assert!(needs_build(None, &vec![1, 2]));
    assert!(!needs_build(Some(10), &vec![]));
    assert!(!needs_build(Some(10), &vec![3, 10, 9]));
    assert!(needs_build(Some(10), &vec![3, 11, 9]));
}

#[test]
fn panel_controls() {
    let main = |id: u8, stepper: i16, v: i32| format!("main {:?}", build_frame(id, stepper, v, true));
    let mut p = panel();
    assert_eq!(p.apply_control(PanelControl::ZUp(8)).err(), Some(PanelError::NotConnected));
    p.connect(true);
    assert_eq!(frames(&p.apply_control(PanelControl::XTarget(1200)).unwrap()), vec![main(4, 0, 1200), "wait 500".to_string(), "refresh main".to_string()]);
    p.positions[0] = 100;
    assert_eq!(frames(&p.apply_control(PanelControl::XTarget(5000)).unwrap())[0], main(4, 0, 2500));
    assert!(p.apply_control(PanelControl::XTarget(100)).unwrap().is_empty());
    assert_eq!(frames(&p.apply_control(PanelControl::XAccel(900)).unwrap()), vec![main(8, 0, 900)]);
    assert_eq!(p.x_accel, 900);
    assert_eq!(frames(&p.apply_control(PanelControl::XMin(-5)).unwrap()), vec![main(10, 0, -5)]);
    assert_eq!(frames(&p.apply_control(PanelControl::ZUp(8)).unwrap())[0], main(4, 8, 2));
    assert_eq!(frames(&p.apply_control(PanelControl::ZDown(12)).unwrap())[0], main(4, 12, -2));
    assert_eq!(p.apply_control(PanelControl::ZUp(3)).err(), Some(PanelError::Unavailable));
    assert_eq!(p.apply_control(PanelControl::ZUp(13)).err(), Some(PanelError::Unavailable));
    assert!(p.apply_control(PanelControl::ZUpStep(50)).unwrap().is_empty());
    assert!(p.apply_control(PanelControl::ZDownStep(0)).unwrap().is_empty());
    assert_eq!((p.z_up_step, p.z_down_step), (10, -2));
    assert!(p.apply_control(PanelControl::ZTarget { stepper: 9, target: 300 }).unwrap().is_empty());
    assert_eq!(p.positions[9], 100);
    assert_eq!(p.pending_positions.get(&9), Some(&100));
    assert_eq!(p.apply_control(PanelControl::ZAccel(5000)).unwrap().len(), 6 * 8);
    assert_eq!(p.z_accel, 5000);
    let tuners = frames(&p.apply_control(PanelControl::TunerAccel(700)).unwrap());
    assert_eq!(tuners, (1..7).map(|s| main(8, s, 700)).collect::<Vec<_>>());
    assert_eq!(p.tuner_accel, 700);
    assert_eq!(frames(&p.apply_control(PanelControl::TunerStep { tuner: 2, up: false }).unwrap())[0], main(4, 3, -10));
    assert_eq!(p.apply_control(PanelControl::TunerStep { tuner: 6, up: true }).err(), Some(PanelError::Unavailable));
    let mut d = StepperPanel::default();
    assert_eq!(d.apply_control(PanelControl::XAccel(1)).err(), Some(PanelError::Unavailable));
    assert_eq!(d.apply_control(PanelControl::TunerMax(1)).err(), Some(PanelError::Unavailable));
}

#[test]
fn threshold_entries() {
    let mut t = Thresholds::new(2, 12);
    t.set_voice_range(1, 15, -3, 12);
    assert_eq!(t.voice_count_max, vec![12, 0]);
    assert_eq!(t.voice_count_min, vec![2, 0]);
    t.set_voice_range(3, 4, 9, 6);
    assert_eq!(t.voice_count_max, vec![12, 0, 6, 6]);
    assert_eq!(t.voice_count_min, vec![2, 0, 2, 4]);
    t.set_amp_range(0, -5, 400);
    assert_eq!(t.amp_sum_min, vec![0, 20]);
    assert_eq!(t.amp_sum_max, vec![250, 250]);
    t.set_amp_range(2, 30, 90);
    assert_eq!(t.amp_sum_min, vec![0, 20, 30]);
    assert_eq!(t.amp_sum_max, vec![250, 250, 90]);
}

#[test]
fn debug_log_is_bounded() {
    let mut log = DebugLog::new();
    assert_eq!(log.contents(), "");
    log.push_line("abc");
    log.push_line("de");
    assert_eq!(log.contents(), "abc\nde\n");
    let long = "x".repeat(9992);
    log.push_line(&long);
    assert_eq!(log.contents().len(), 10000);
    log.push_line("y");
    assert_eq!(log.contents().len(), 5000);
    let expected = format!("{}\ny\n", "x".repeat(4997));
    assert_eq!(log.contents(), expected);
    log.clear();
    assert_eq!(log.contents(), "");
}

#[test]
fn debug_log_counts_bytes() {
    // 5000 two-byte characters and "a\n": 10002 bytes, trimmed to the last 5000 bytes.
    let mut log = DebugLog::new();
    log.push_line(&format!("{}a", "é".repeat(5000)));
    let expected = format!("{}a\n", "é".repeat(2499));
    assert_eq!(log.contents(), expected);
    assert_eq!(log.contents().len(), 5000);
    // 5000 two-byte characters and "\n": the last 5000 bytes start inside a character,
    // so the log keeps the whole characters within them.
    let mut log = DebugLog::new();
    log.push_line(&"é".repeat(5000));
    assert_eq!(log.contents(), format!("{}\n", "é".repeat(2499)));
    assert_eq!(log.contents().len(), 4999);
    // Under the limit in characters but over it in bytes.
    let mut log = DebugLog::new();
    log.push_line(&"€".repeat(4000));
    assert_eq!(log.contents().len(), 4999);
    assert_eq!(log.contents(), format!("{}\n", "€".repeat(1666)));
}

#[test]
fn update_values_follow_changes() {
    let mut p = SynthParams { gain: 0.5f32, freq_scale: 1.0f32, update_rate: 0.1f32 };
    p.take_value(ParamEvent::Gain { changed: true }, 0.8);
    p.take_value(ParamEvent::Gain { changed: false }, 0.8000001);
    p.take_value(ParamEvent::FreqScale { changed: false }, 2.0);
    p.take_value(ParamEvent::UpdateRate { changed: true }, 0.25);
    p.take_value(ParamEvent::Timeout, 9.0);
    assert_eq!((p.gain, p.freq_scale, p.update_rate), (0.8, 1.0, 0.25));
    let mut l = UpdateLoop::new();
    assert_eq!(l.decide(ParamEvent::Gain { changed: true }, false, false), CycleDecision::Send(PartialsSource::Empty));
}
