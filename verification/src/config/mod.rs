//! Mapping rules and their parts, as loaded from the configuration file.

pub mod action;
pub mod channel;
pub mod device;
pub mod trigger;

use vstd::prelude::*;

pub use action::{Action, KeyCombo};
pub use channel::ChannelSet;
pub use device::DeviceGlobs;
pub use trigger::MidiEvent;

verus! {

/// Root configuration document.
#[derive(Debug)]
pub struct Config {
    /// Ordered mappings evaluated from first to last.
    pub mappings: Vec<Mapping>,
}

/// One mapping rule from MIDI trigger to keyboard action.
#[derive(Debug)]
pub struct Mapping {
    /// Optional human-readable description.
    pub description: Option<String>,
    /// Device name glob filter for matching MIDI ports.
    pub devices: DeviceGlobs,
    /// Optional channel filter; absent means all channels.
    pub channel: Option<ChannelSet>,
    /// MIDI trigger that activates this mapping.
    pub trigger: MidiEvent,
    /// Keyboard action to emit when matched.
    pub action: Action,
}

} // verus!
