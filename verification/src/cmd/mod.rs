//! The logic of the subcommands: listing ports and the live event display.

pub mod display;
pub mod list;
