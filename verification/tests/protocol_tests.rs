use stringdriver::cmdmessenger::{pack_i16_le, pack_i32_le, escape_bytes, build_frame, decode_reply, positions_from_data, read_positions_reply, PositionsError};
use stringdriver::connection::{get_socket_path, stepper_socket_path, ArduinoConnectionManager, ArduinoConnectionClient, ArduinoCommand, ArduinoResponse, ConnectionError, response_for, has_connection_manager, ConnectionSlot};
use stringdriver::ipc::{parse_command, format_request, positions_response, parse_positions_response, PanelCommand, PanelRequest, PositionsTextError};

#[test]
fn little_endian_packing() {
    assert_eq!(pack_i16_le(-2), vec![0xFE, 0xFF]);
    assert_eq!(pack_i16_le(300), vec![0x2C, 0x01]);
    assert_eq!(pack_i32_le(-1), vec![0xFF, 0xFF, 0xFF, 0xFF]);
    assert_eq!(pack_i32_le(0x01020304), vec![4, 3, 2, 1]);
}

#[test]
fn escape_schemes() {
    assert_eq!(escape_bytes(&[b'/', b',', b';', 0, b'a'], true), vec![b'/', b'/', b'/', b',', b'/', b';', b'/', 0, b'a']);
    assert_eq!(escape_bytes(&[b'1', b',', b';', b'a'], false), vec![0x47, b'1' ^ 0x20, 0x47, b',' ^ 0x20, 0x47, b';' ^ 0x20, b'a']);
}

#[test]
fn frames() {
    // rmove (3) of stepper 5 by -2 on the panel scheme
    assert_eq!(build_frame(3, 5, -2, true), vec![b'3', b',', 5, b'/', 0, b',', 0xFE, 0xFF, 0xFF, 0xFF, b';']);
    // stepper 44 is ',' and needs escaping
    assert_eq!(build_frame(2, 44, 0, true), vec![b'2', b',', b'/', 44, b'/', 0, b',', b'/', 0, b'/', 0, b'/', 0, b'/', 0, b';']);
    // the shared connection escapes digits
    assert_eq!(build_frame(4, 49, 1, false), vec![b'4', b',', 0x47, 49 ^ 0x20, 0, b',', 1, 0, 0, 0, b';']);
}

#[test]
fn reply_decoding() {
    let reply = vec![b'1', b',', 5, 0, b'/', b';', 0xFF, b';'];
    assert_eq!(decode_reply(&reply), vec![5, 0, b';', 0xFF]);
    assert_eq!(positions_from_data(&[5, 0, b';', 0xFF], 3), vec![5, -197, 0]);
    assert_eq!(read_positions_reply(&reply, 2), Ok(vec![5, -197]));
    assert_eq!(read_positions_reply(&reply, 3), Err(PositionsError::TooShort { expected: 6, got: 4 }));
    assert_eq!(read_positions_reply(&[b'1', b',', 5], 1), Err(PositionsError::NoReply));
    assert_eq!(read_positions_reply(&[], 1), Err(PositionsError::NoReply));
}

#[test]
fn positions_reply_roundtrip() {
    let positions: Vec<i16> = vec![0, -3, 44, 47, 59, 256, -32768];
    let mut data = Vec::new();
    for p in &positions {
        data.extend_from_slice(&p.to_le_bytes());
    }
    let mut reply = vec![b'1', b','];
    reply.extend(escape_bytes(&data, true));
    reply.push(b';');
    let expected: Vec<i32> = positions.iter().map(|p| *p as i32).collect();
    assert_eq!(read_positions_reply(&reply, positions.len()), Ok(expected));
}

#[test]
fn socket_paths() {
    assert_eq!(get_socket_path("/dev/ttyUSB0"), "/tmp/arduino_connection__dev_ttyUSB0.sock");
    assert_eq!(stepper_socket_path("/dev/ttyACM0"), "/tmp/stepper_gui__dev_ttyACM0.sock");
    assert_eq!(get_socket_path("COM3\\x"), "/tmp/arduino_connection_COM3_x.sock");
}

#[test]
fn connection_manager_requests() {
    let mut m = ArduinoConnectionManager::new("/dev/ttyUSB0".to_string());
    assert!(!m.is_connected());
    assert_eq!(m.rel_move(1, 5), Err(ConnectionError::NotConnected));
    assert_eq!(m.read_positions(), Err(ConnectionError::NotConnected));
    assert_eq!(m.connect(Err("busy".to_string())), Err(ConnectionError::ConnectionFailed("busy".to_string())));
    assert!(!m.is_connected());
    assert_eq!(m.connect(Ok(())), Ok(()));
    assert!(m.is_connected());
    assert_eq!(m.rel_move(1, 5), Ok(vec![b'3', b',', 1, 0, b',', 5, 0, 0, 0, b';']));
    assert_eq!(m.abs_move(2, 100), Ok(vec![b'2', b',', 2, 0, b',', 100, 0, 0, 0, b';']));
    assert_eq!(m.reset(0, 2), Ok(vec![b'4', b',', 0, 0, b',', 2, 0, 0, 0, b';']));
    assert_eq!(m.read_positions(), Ok(vec![b'1', b';']));
    assert_eq!(m.serve(&ArduinoCommand::RelMove { stepper: 1, delta: 5 }), m.rel_move(1, 5));
    assert_eq!(ArduinoConnectionManager::positions_from_reply(&[b'1', b',', 7, 0, b';'], 1), Ok(vec![7]));
    assert_eq!(ArduinoConnectionManager::positions_from_reply(&[b'1', b',', 7, b';'], 1), Err(ConnectionError::TooShort { expected: 2, got: 1 }));
    assert_eq!(ArduinoConnectionManager::positions_from_reply(&[b'1'], 1), Err(ConnectionError::NoReply));
    let mut slot = ConnectionSlot::new();
    assert!(!has_connection_manager(&slot));
    assert!(slot.get().is_none());
    assert!(slot.install(m));
    assert!(has_connection_manager(&slot));
}

#[test]
fn connection_slot_stays_filled() {
    let mut slot = ConnectionSlot::new();
    assert!(slot.install(ArduinoConnectionManager::new("/dev/first".to_string())));
    assert!(!slot.install(ArduinoConnectionManager::new("/dev/second".to_string())));
    assert!(has_connection_manager(&slot));
    assert_eq!(slot.get().unwrap().port_path, "/dev/first");
    assert!(!slot.install(ArduinoConnectionManager::new("/dev/third".to_string())));
    assert_eq!(slot.get().unwrap().port_path, "/dev/first");
}

#[test]
fn connection_client_requests() {
    let c = ArduinoConnectionClient::new("/dev/ttyUSB0");
    assert_eq!(c.socket_path, "/tmp/arduino_connection__dev_ttyUSB0.sock");
    assert_eq!(c.rel_move(3, -7), ArduinoCommand::RelMove { stepper: 3, delta: -7 });
    assert_eq!(c.abs_move(3, 70), ArduinoCommand::AbsMove { stepper: 3, position: 70 });
    assert_eq!(c.reset(3, 0), ArduinoCommand::Reset { stepper: 3, position: 0 });
    assert_eq!(ArduinoConnectionClient::outcome(Ok(ArduinoResponse::Success)), Ok(()));
    assert_eq!(ArduinoConnectionClient::outcome(Ok(ArduinoResponse::Error("Arduino not connected".to_string()))), Err("Arduino not connected".to_string()));
    assert_eq!(ArduinoConnectionClient::outcome(Err("refused".to_string())), Err("refused".to_string()));
    assert!(matches!(response_for(Ok(())), ArduinoResponse::Success));
    assert!(matches!(response_for(Err("x".to_string())), ArduinoResponse::Error(m) if m == "x"));
}

#[test]
fn panel_commands_parse() {
    assert_eq!(parse_command("  rel_move 3 -5\n"), PanelCommand::Request(PanelRequest::RelMove { stepper: 3, delta: -5 }));
    assert_eq!(parse_command("abs_move 2 +40"), PanelCommand::Request(PanelRequest::AbsMove { stepper: 2, position: 40 }));
    assert_eq!(parse_command("reset\t7   2"), PanelCommand::Request(PanelRequest::Reset { stepper: 7, position: 2 }));
    assert_eq!(parse_command("get_positions extra"), PanelCommand::Request(PanelRequest::GetPositions));
    assert_eq!(parse_command("   "), PanelCommand::Empty);
    assert_eq!(parse_command("rel_move 3"), PanelCommand::Ignored);
    assert_eq!(parse_command("rel_move -3 5"), PanelCommand::Ignored);
    assert_eq!(parse_command("abs_move 1 3000000000"), PanelCommand::Ignored);
    assert_eq!(parse_command("jump 1 2"), PanelCommand::Unknown);
}

#[test]
fn panel_requests_roundtrip() {
    let requests = vec![
        PanelRequest::RelMove { stepper: 0, delta: i32::MIN },
        PanelRequest::AbsMove { stepper: usize::MAX, position: i32::MAX },
        PanelRequest::Reset { stepper: 12, position: 0 },
        PanelRequest::GetPositions,
    ];
    for r in requests {
        assert_eq!(parse_command(&format_request(&r)), PanelCommand::Request(r));
    }
    assert_eq!(format_request(&PanelRequest::RelMove { stepper: 3, delta: -5 }), "rel_move 3 -5");
}

#[test]
fn positions_answer() {
    assert_eq!(positions_response(&[5, -3]), "positions 0=5 1=-3\n");
    assert_eq!(parse_positions_response("positions 0=5 1=-3\n"), Ok(vec![5, -3]));
    assert_eq!(parse_positions_response("positions 2=9 0=1 2=4"), Ok(vec![1, 0, 4]));
    assert_eq!(parse_positions_response("positions"), Ok(vec![0]));
    assert_eq!(parse_positions_response("  "), Err(PositionsTextError::Empty));
    assert_eq!(parse_positions_response("pos 0=1"), Err(PositionsTextError::Unexpected("pos".chars().collect())));
    assert_eq!(parse_positions_response("positions 0=1 7"), Err(PositionsTextError::Malformed("7".chars().collect())));
    assert_eq!(parse_positions_response("positions x=1"), Err(PositionsTextError::InvalidIndex("x".chars().collect())));
    assert_eq!(parse_positions_response("positions 1=y"), Err(PositionsTextError::InvalidValue("y".chars().collect())));
    let p = vec![1, -2, 3, i32::MIN, i32::MAX];
    assert_eq!(parse_positions_response(&positions_response(&p)), Ok(p));
}
