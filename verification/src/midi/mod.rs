//! MIDI message decoding.

pub mod event;
