//! Verified control logic of the string driver: carriage protocol, configuration,
//! GPIO sensor model and the stepper operations (bump check, calibration, adjustment).

pub mod settings;
pub mod gpio;
pub mod text;
pub mod config;
pub mod operations;
pub mod procedure;
pub mod bump;
pub mod calibrate;
pub mod adjust;
pub mod xaxis;
pub mod sweep;
pub mod cmdmessenger;
pub mod connection;
pub mod ipc;
pub mod panel;
pub mod updates;
pub mod pipeline;
pub mod opspanel;
pub mod launcher;
