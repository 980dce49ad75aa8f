//! Verified core of a tool that maps MIDI events to keyboard shortcuts.

pub mod cli;
pub mod cmd;
pub mod config;
pub mod mapper;
pub mod midi;
pub mod output;
pub mod text;
