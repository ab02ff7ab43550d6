//! Verified core of an EV3 brick controller: telemetry parsing, command
//! queueing, shell command construction and the terminal editor's state.

pub mod text;
pub mod decimal;
pub mod state;
pub mod polling;
pub mod remote;
pub mod status;
pub mod editor;
pub mod display;
pub mod program;
