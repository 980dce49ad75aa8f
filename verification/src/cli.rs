//! Command-line arguments and the decisions they drive: log verbosity and
//! which configuration file to load.

use vstd::prelude::*;

use crate::text::{chars_of, trim, trim_range};

verus! {

/// Top-level command-line arguments.
#[derive(Debug)]
pub struct Cli {
    /// Optional subcommand.
    pub command: Option<Command>,
    /// Path to config file (overrides default search locations).
    pub config: Option<String>,
    /// Log verbosity: the number of `-v` flags.
    pub verbose: u8,
    /// Validate the config file and exit without connecting to MIDI hardware.
    pub check: bool,
}

/// Supported top-level subcommands.
#[derive(Debug)]
pub enum Command {
    /// List available MIDI input ports.
    List(ListArgs),
    /// Print a sample configuration file.
    InitConfig(InitConfigArgs),
    /// Display live MIDI and keyboard events.
    Display(DisplayArgs),
}

/// Arguments for the `list` subcommand.
#[derive(Debug)]
pub struct ListArgs {
    /// Output format.
    pub format: OutputFormat,
}

/// Arguments for the `init-config` subcommand.
#[derive(Debug)]
pub struct InitConfigArgs {
    /// Write output to this file instead of stdout.
    pub output: Option<String>,
}

/// Arguments for the `display` subcommand.
#[derive(Debug)]
pub struct DisplayArgs {}

/// Output format for command responses.
#[derive(Debug, Clone, Copy, PartialEq, Eq, Structural)]
pub enum OutputFormat {
    /// Human-readable text output.
    Human,
    /// JSON output.
    Json,
}

/// The default log level for a verbosity count.
pub open spec fn level_name(verbose: u8) -> Seq<char> {
    if verbose == 0 {
        "warn"@
    } else if verbose == 1 {
        "info"@
    } else if verbose == 2 {
        "debug"@
    } else {
        "trace"@
    }
}

/// The default log level: `warn`, then `info`, `debug` and `trace` for each `-v`.
pub fn default_log_level(verbose: u8) -> (r: &'static str)
    ensures
        r@ == level_name(verbose),
{
    if verbose == 0 {
        "warn"
    } else if verbose == 1 {
        "info"
    } else if verbose == 2 {
        "debug"
    } else {
        "trace"
    }
}

/// Where the configuration file is to be found.
#[derive(Debug, Clone, PartialEq, Eq)]
pub enum ConfigLocation {
    /// This path.
    Path(String),
    /// The default file under the home directory.
    HomeDefault,
}

/// The default configuration file, relative to the home directory.
pub fn home_config_path() -> (r: &'static str)
    ensures
        r@ == ".config/midi-keybindr/config.yaml"@,
{
    ".config/midi-keybindr/config.yaml"
}

/// Chooses the configuration file: the `--config` path if given, else the
/// `MIDI_KEYBINDR_CONFIG` value if it holds more than whitespace, else the
/// default file under the home directory.
pub fn resolve_config_path(cli_config: Option<String>, env_config: Option<String>) -> (r: ConfigLocation)
    ensures
        match cli_config {
            Some(p) => r matches ConfigLocation::Path(q) && q@ == p@,
            None => match env_config {
                Some(e) => if trim(e@).len() > 0 {
                    r matches ConfigLocation::Path(q) && q@ == e@
                } else {
                    r matches ConfigLocation::HomeDefault
                },
                None => r matches ConfigLocation::HomeDefault,
            },
        },
{
    if let Some(path) = cli_config {
        return ConfigLocation::Path(path);
    }
    if let Some(path) = env_config {
        let chars = chars_of(path.as_str());
        let t = trim_range(&chars, 0, chars.len());
        assert(chars@.subrange(0, chars@.len() as int) =~= chars@);
        if t.len() > 0 {
            return ConfigLocation::Path(path);
        }
    }
    ConfigLocation::HomeDefault
}

} // verus!
