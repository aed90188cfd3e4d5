//! The shared Arduino connection: one process owns the serial port and serves the
//! moves that other processes ask for over a Unix socket named after the port.
//! The model here holds what the decisions read (the port path and whether the
//! port is open); opening the port and moving bytes is left to the caller.

use vstd::prelude::*;
use crate::text::{chars_of, string_from_chars};
use crate::cmdmessenger::{build_frame, command_frame, read_positions_reply, complete_reply, reply_data, positions_in, PositionsError};

verus! {

/// A move request sent over the connection socket.
#[derive(Clone, Debug, PartialEq, Eq, Structural)]
pub enum ArduinoCommand {
    RelMove { stepper: usize, delta: i32 },
    AbsMove { stepper: usize, position: i32 },
    Reset { stepper: usize, position: i32 },
}

/// The answer to a move request.
#[derive(Clone, Debug)]
pub enum ArduinoResponse {
    Success,
    Error(String),
}

/// The port path with '/' and '\' replaced by '_'.
pub open spec fn port_id(p: Seq<char>) -> Seq<char> {
    Seq::new(p.len(), |i: int| if p[i] == '/' || p[i] == '\\' { '_' } else { p[i] })
}

/// The characters of the port identifier.
pub fn port_id_chars(port_path: &str) -> (r: Vec<char>)
    ensures
        r@ == port_id(port_path@),
{
    let cs = chars_of(port_path);
    let mut out: Vec<char> = Vec::new();
    let mut i: usize = 0;
    while i < cs.len()
        invariant
            cs@ == port_path@,
            i <= cs@.len(),
            out@ == port_id(port_path@).take(i as int),
        decreases cs@.len() - i,
    {
        let c = cs[i];
        if c == '/' || c == '\\' {
            out.push('_');
        } else {
            out.push(c);
        }
        i = i + 1;
        assert(out@ =~= port_id(port_path@).take(i as int));
    }
    assert(port_id(port_path@).take(i as int) =~= port_id(port_path@));
    out
}

/// `prefix + port identifier + suffix` as a string.
fn named_after_port(prefix: &str, port_path: &str, suffix: &str) -> (r: String)
    ensures
        r@ == prefix@ + port_id(port_path@) + suffix@,
{
    let mut cs = chars_of(prefix);
    let mut id = port_id_chars(port_path);
    cs.append(&mut id);
    let mut tail = chars_of(suffix);
    cs.append(&mut tail);
    string_from_chars(cs.as_slice())
}

/// Socket path of the shared connection of a port.
pub open spec fn connection_socket_path(p: Seq<char>) -> Seq<char> {
    "/tmp/arduino_connection_"@ + port_id(p) + ".sock"@
}

/// Socket path of the stepper panel that owns a port.
pub open spec fn panel_socket_path(p: Seq<char>) -> Seq<char> {
    "/tmp/stepper_gui_"@ + port_id(p) + ".sock"@
}

/// The Unix socket path of the shared connection of `port_path`:
/// `/tmp/arduino_connection_<port id>.sock`.
pub fn get_socket_path(port_path: &str) -> (r: String)
    ensures
        r@ == connection_socket_path(port_path@),
{
    named_after_port("/tmp/arduino_connection_", port_path, ".sock")
}

/// The Unix socket path of the stepper panel of `port_path`: `/tmp/stepper_gui_<port id>.sock`.
pub fn stepper_socket_path(port_path: &str) -> (r: String)
    ensures
        r@ == panel_socket_path(port_path@),
{
    named_after_port("/tmp/stepper_gui_", port_path, ".sock")
}

/// Why a request to the connection failed.
#[derive(Clone, Debug, PartialEq, Eq)]
pub enum ConnectionError {
    /// The port is not open.
    NotConnected,
    /// Opening the port failed with this message.
    ConnectionFailed(String),
    /// No complete positions reply arrived.
    NoReply,
    /// The positions reply held fewer bytes than two per stepper.
    TooShort { expected: usize, got: usize },
}

/// Command ids of the shared connection's firmware.
pub const ABS_MOVE_ID: u8 = 2;
pub const REL_MOVE_ID: u8 = 3;
pub const SET_STEPPER_ID: u8 = 4;

/// The shared connection of one port.
#[derive(Debug)]
pub struct ArduinoConnectionManager {
    pub port_path: String,
    pub connected: bool,
}

/// The frame of a move command on the shared connection: stepper as a 16-bit value
/// (the index truncated), value as 32 bits, both escaped the shared connection's way.
pub open spec fn connection_frame(cmd_id: u8, stepper: usize, value: i32) -> Seq<u8> {
    command_frame(cmd_id, stepper as i16, value, false)
}

impl ArduinoConnectionManager {
    /// A connection of `port_path` that is not open yet.
    pub fn new(port_path: String) -> (r: Self)
        ensures
            r.port_path == port_path,
            !r.connected,
    {
        ArduinoConnectionManager { port_path, connected: false }
    }

    /// Records the outcome of opening the port: connected on success, otherwise the
    /// opening error and the connection unchanged.
    pub fn connect(&mut self, opened: Result<(), String>) -> (r: Result<(), ConnectionError>)
        ensures
            match opened {
                Ok(()) => r is Ok && final(self).connected && final(self).port_path == old(self).port_path,
                Err(e) => r == Err::<(), ConnectionError>(ConnectionError::ConnectionFailed(e)) && *final(self) == *old(self),
            },
    {
        match opened {
            Ok(()) => {
                self.connected = true;
                Ok(())
            },
            Err(e) => Err(ConnectionError::ConnectionFailed(e)),
        }
    }

    /// Whether the port is open.
    pub fn is_connected(&self) -> (r: bool)
        ensures
            r == self.connected,
    {
        self.connected
    }

    fn frame(&self, cmd_id: u8, stepper: usize, value: i32) -> (r: Result<Vec<u8>, ConnectionError>)
        requires
            cmd_id <= 207,
        ensures
            !self.connected ==> r == Err::<Vec<u8>, ConnectionError>(ConnectionError::NotConnected),
            self.connected ==> (r matches Ok(f) && f@ == connection_frame(cmd_id, stepper, value)),
    {
        if !self.connected {
            return Err(ConnectionError::NotConnected);
        }
        Ok(build_frame(cmd_id, stepper as i16, value, false))
    }

    /// The bytes that move `stepper` by `delta` (command 3), or `NotConnected`.
    pub fn rel_move(&self, stepper: usize, delta: i32) -> (r: Result<Vec<u8>, ConnectionError>)
        ensures
            !self.connected ==> r == Err::<Vec<u8>, ConnectionError>(ConnectionError::NotConnected),
            self.connected ==> (r matches Ok(f) && f@ == connection_frame(REL_MOVE_ID, stepper, delta)),
    {
        self.frame(REL_MOVE_ID, stepper, delta)
    }

    /// The bytes that move `stepper` to `position` (command 2), or `NotConnected`.
    pub fn abs_move(&self, stepper: usize, position: i32) -> (r: Result<Vec<u8>, ConnectionError>)
        ensures
            !self.connected ==> r == Err::<Vec<u8>, ConnectionError>(ConnectionError::NotConnected),
            self.connected ==> (r matches Ok(f) && f@ == connection_frame(ABS_MOVE_ID, stepper, position)),
    {
        self.frame(ABS_MOVE_ID, stepper, position)
    }

    /// The bytes that set `stepper`'s counter to `position` without moving (command 4), or `NotConnected`.
    pub fn reset(&self, stepper: usize, position: i32) -> (r: Result<Vec<u8>, ConnectionError>)
        ensures
            !self.connected ==> r == Err::<Vec<u8>, ConnectionError>(ConnectionError::NotConnected),
            self.connected ==> (r matches Ok(f) && f@ == connection_frame(SET_STEPPER_ID, stepper, position)),
    {
        self.frame(SET_STEPPER_ID, stepper, position)
    }

    /// The bytes of a request served from the socket: the frame of its move.
    pub fn serve(&self, cmd: &ArduinoCommand) -> (r: Result<Vec<u8>, ConnectionError>)
        ensures
            !self.connected ==> r == Err::<Vec<u8>, ConnectionError>(ConnectionError::NotConnected),
            self.connected ==> (r matches Ok(f) && f@ == match *cmd {
                ArduinoCommand::RelMove { stepper, delta } => connection_frame(REL_MOVE_ID, stepper, delta),
                ArduinoCommand::AbsMove { stepper, position } => connection_frame(ABS_MOVE_ID, stepper, position),
                ArduinoCommand::Reset { stepper, position } => connection_frame(SET_STEPPER_ID, stepper, position),
            }),
    {
        match cmd {
            ArduinoCommand::RelMove { stepper, delta } => self.rel_move(*stepper, *delta),
            ArduinoCommand::AbsMove { stepper, position } => self.abs_move(*stepper, *position),
            ArduinoCommand::Reset { stepper, position } => self.reset(*stepper, *position),
        }
    }

    /// The positions request (`1;`), or `NotConnected`.
    pub fn read_positions(&self) -> (r: Result<Vec<u8>, ConnectionError>)
        ensures
            !self.connected ==> r == Err::<Vec<u8>, ConnectionError>(ConnectionError::NotConnected),
            self.connected ==> (r matches Ok(f) && f@ == seq![49u8, 59u8]),
    {
        if !self.connected {
            return Err(ConnectionError::NotConnected);
        }
        let r = vec![49u8, 59u8];
        assert(r@ =~= seq![49u8, 59u8]);
        Ok(r)
    }

    /// The positions of `num_steppers` steppers in the reply to the positions request.
    pub fn positions_from_reply(reply: &[u8], num_steppers: usize) -> (r: Result<Vec<i32>, ConnectionError>)
        requires
            num_steppers <= usize::MAX / 2,
        ensures
            !complete_reply(reply@) ==> r == Err::<Vec<i32>, ConnectionError>(ConnectionError::NoReply),
            complete_reply(reply@) && reply_data(reply@).len() < 2 * num_steppers ==>
                r == Err::<Vec<i32>, ConnectionError>(ConnectionError::TooShort {
                    expected: (2 * num_steppers) as usize,
                    got: reply_data(reply@).len() as usize,
                }),
            complete_reply(reply@) && reply_data(reply@).len() >= 2 * num_steppers ==>
                (r matches Ok(p) && p@ == positions_in(reply_data(reply@), num_steppers as nat)),
    {
        match read_positions_reply(reply, num_steppers) {
            Ok(p) => Ok(p),
            Err(PositionsError::NoReply) => Err(ConnectionError::NoReply),
            Err(PositionsError::TooShort { expected, got }) => Err(ConnectionError::TooShort { expected, got }),
        }
    }
}

/// The answer sent back for a served request: `Ok`, or the failure's message.
pub fn response_for(outcome: Result<(), String>) -> (r: ArduinoResponse)
    ensures
        match outcome {
            Ok(()) => r is Success,
            Err(e) => r matches ArduinoResponse::Error(m) && m == e,
        },
{
    match outcome {
        Ok(()) => ArduinoResponse::Success,
        Err(e) => ArduinoResponse::Error(e),
    }
}

/// The process's slot for its shared connection: empty until a connection has been opened,
/// then holding that connection for the rest of the process. Nothing empties it.
pub struct ConnectionSlot<T> {
    held: Option<T>,
}

impl<T> ConnectionSlot<T> {
    /// The connection the slot holds, if any.
    pub closed spec fn held(&self) -> Option<T> {
        self.held
    }

    /// An empty slot.
    pub fn new() -> (r: Self)
        ensures
            r.held() is None,
    {
        ConnectionSlot { held: None }
    }

    /// Puts a newly opened connection in the slot if it is empty, and says whether it did;
    /// a filled slot keeps the connection it holds. Either way the slot is filled afterwards.
    pub fn install(&mut self, conn: T) -> (r: bool)
        ensures
            r == (old(self).held() is None),
            old(self).held() is None ==> final(self).held() == Some(conn),
            old(self).held() is Some ==> final(self).held() == old(self).held(),
            final(self).held() is Some,
    {
        if self.held.is_none() {
            self.held = Some(conn);
            true
        } else {
            false
        }
    }

    /// The connection the slot holds, if any.
    pub fn get(&self) -> (r: Option<&T>)
        ensures
            match r {
                Some(c) => self.held() == Some(*c),
                None => self.held() is None,
            },
    {
        match &self.held {
            Some(c) => Some(c),
            None => None,
        }
    }
}

/// Whether the process already holds the shared connection.
pub fn has_connection_manager<T>(slot: &ConnectionSlot<T>) -> (r: bool)
    ensures
        r == (slot.held() is Some),
{
    slot.held.is_some()
}

/// A client of the shared connection of one port.
#[derive(Debug)]
pub struct ArduinoConnectionClient {
    pub socket_path: String,
}

impl ArduinoConnectionClient {
    /// A client of the connection of `port_path`.
    pub fn new(port_path: &str) -> (r: Self)
        ensures
            r.socket_path@ == connection_socket_path(port_path@),
    {
        ArduinoConnectionClient { socket_path: get_socket_path(port_path) }
    }

    /// The request that moves `stepper` by `delta`, to be sent to `socket_path`.
    pub fn rel_move(&self, stepper: usize, delta: i32) -> (r: ArduinoCommand)
        ensures
            r == (ArduinoCommand::RelMove { stepper, delta }),
    {
        ArduinoCommand::RelMove { stepper, delta }
    }

    /// The request that moves `stepper` to `position`.
    pub fn abs_move(&self, stepper: usize, position: i32) -> (r: ArduinoCommand)
        ensures
            r == (ArduinoCommand::AbsMove { stepper, position }),
    {
        ArduinoCommand::AbsMove { stepper, position }
    }

    /// The request that sets `stepper`'s counter to `position`.
    pub fn reset(&self, stepper: usize, position: i32) -> (r: ArduinoCommand)
        ensures
            r == (ArduinoCommand::Reset { stepper, position }),
    {
        ArduinoCommand::Reset { stepper, position }
    }

    /// The outcome of a request from what came back: the transport's error, the
    /// server's error message, or success.
    pub fn outcome(reply: Result<ArduinoResponse, String>) -> (r: Result<(), String>)
        ensures
            match reply {
                Ok(ArduinoResponse::Success) => r is Ok,
                Ok(ArduinoResponse::Error(m)) => r == Err::<(), String>(m),
                Err(e) => r == Err::<(), String>(e),
            },
    {
        match reply {
            Ok(ArduinoResponse::Success) => Ok(()),
            Ok(ArduinoResponse::Error(m)) => Err(m),
            Err(e) => Err(e),
        }
    }
}

} // verus!
