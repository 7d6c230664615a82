//! Command-line options. Most settings live in the config file; what is
//! left is session-specific (which MIDI port) or about the config file
//! itself.

use vstd::prelude::*;

verus! {

#[derive(Clone, Debug)]
pub struct Cli {
    /// Path to the TOML config file (`config.toml` in the working
    /// directory when not given).
    pub config: String,
    /// Print available MIDI output ports and exit.
    pub list_ports: bool,
    /// Which MIDI output port to open.
    pub port: usize,
    /// Print available MIDI input ports and exit.
    pub list_input_ports: bool,
    /// Which MIDI input port to open; none runs the chain without input.
    pub input_port: Option<usize>,
    /// Enable the terminal dashboard.
    pub tui: bool,
}

} // verus!
