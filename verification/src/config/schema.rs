//! The configuration file's schema: one struct per TOML section, holding
//! exactly what the file says. `Option` fields are optional in the file;
//! defaults are applied when the schema is turned into a `Config`.
//!
//! A `voice_N` table is kept as its entries in the order the table's map
//! yields them (ascending key order).

use vstd::prelude::*;
use crate::config::FloatBits;

verus! {

/// One `key = value` entry of a voice table.
#[derive(Clone, Debug)]
pub struct VoiceEntry<V> {
    pub key: String,
    pub value: V,
}

/// `[tempo]`.
#[derive(Clone, Copy, Debug)]
pub struct TempoSection {
    pub bpm: FloatBits,
}

/// `[osc]`.
#[derive(Clone, Debug)]
pub struct OscSection {
    pub listen_port: Option<u16>,
    pub send_address: Option<String>,
    pub state_rate_hz: Option<FloatBits>,
    pub state_spins_rate_hz: Option<FloatBits>,
    pub enable_state: Option<bool>,
}

/// `[input]`.
#[derive(Clone, Debug)]
pub struct InputSection {
    pub perturbation: Option<PerturbationSection>,
}

/// `[coupling]`.
#[derive(Clone, Debug)]
pub struct CouplingSection {
    pub shape: String,
    /// When given, sets both strengths; excludes `strength_ab` and
    /// `strength_ba`.
    pub strength: Option<FloatBits>,
    pub strength_ab: Option<FloatBits>,
    pub strength_ba: Option<FloatBits>,
}

/// `[input.perturbation]`.
#[derive(Clone, Debug)]
pub struct PerturbationSection {
    pub base_note: Option<u8>,
    pub velocity_scale: Option<FloatBits>,
    /// One of "flip", "rotate", "field_spike"; "rotate" when absent.
    pub kind: Option<String>,
    /// One of "x", "y", "z"; "x" when absent.
    pub axis: Option<String>,
    /// Rotation angle in radians (rotate) or field magnitude (field_spike).
    pub magnitude: Option<FloatBits>,
}

/// `[physics]` or `[chain_x.physics]`.
#[derive(Clone, Copy, Debug)]
pub struct PhysicsSection {
    pub kt: Option<FloatBits>,
    pub eps: Option<FloatBits>,
    pub j: Option<FloatBits>,
    pub w: Option<FloatBits>,
    pub n_sites: Option<usize>,
    pub ticks_per_period: Option<u32>,
    pub dt: Option<FloatBits>,
    pub kick_angle: Option<FloatBits>,
}

/// `[chain_a]` or `[chain_b]`.
#[derive(Clone, Debug)]
pub struct ChainSection {
    pub seed: Option<u64>,
    pub physics: Option<PhysicsSection>,
    pub gates: GatesSection,
    pub walls: Option<WallsSection>,
    pub clock: ClockSection,
    pub modulation: Option<ModulationSection>,
    pub quantize: Option<QuantizeSection>,
    pub chords: Option<ChordsSection>,
}

/// `[chain_x.chords]`.
#[derive(Clone, Debug)]
pub struct ChordsSection {
    pub enabled: Option<bool>,
    /// "clock" | "wall_death" | "period".
    pub advance_on: Option<String>,
    pub advance_every: Option<u32>,
    /// "sequential" | "magnetization" | "random".
    pub select: Option<String>,
    pub sequence: Option<Vec<Vec<u8>>>,
}

/// A gate voice: a bare channel, or a channel and an optional pitch.
#[derive(Clone, Copy, Debug)]
pub enum GateVoiceEntry {
    ChannelOnly(u8),
    Full { channel: u8, pitch: Option<u8> },
}

/// `[chain_x.gates]`.
#[derive(Clone, Debug)]
pub struct GatesSection {
    pub gate_length_ms: Option<u64>,
    /// The `voice_N` entries.
    pub voices: Vec<VoiceEntry<GateVoiceEntry>>,
}

/// A wall voice: always a bare channel.
#[derive(Clone, Copy, Debug)]
pub enum WallVoiceEntry {
    Channel(u8),
}

/// `[chain_x.walls]`.
#[derive(Clone, Debug)]
pub struct WallsSection {
    pub pitch_low: Option<u8>,
    pub pitch_high: Option<u8>,
    /// 0 disables the motion CC; any other value sets the CC number.
    pub motion_cc: Option<u8>,
    pub repitch_on_move: Option<bool>,
    /// The `voice_N` entries.
    pub voices: Vec<VoiceEntry<WallVoiceEntry>>,
}

/// `[chain_x.clock]`.
#[derive(Clone, Copy, Debug)]
pub struct ClockSection {
    pub channel: u8,
    pub enabled: Option<bool>,
    pub pitch: Option<u8>,
    pub gate_length_ms: Option<u64>,
}

/// `[chain_x.modulation]`.
#[derive(Clone, Copy, Debug)]
pub struct ModulationSection {
    pub enabled: Option<bool>,
    pub channel: Option<u8>,
    pub cc_number: Option<u8>,
}

/// `[chain_x.quantize]`.
#[derive(Clone, Debug)]
pub struct QuantizeSection {
    pub scale: Option<String>,
    pub root_note: Option<u8>,
}

/// The whole file.
#[derive(Clone, Debug)]
pub struct TomlConfig {
    pub tempo: Option<TempoSection>,
    pub osc: Option<OscSection>,
    pub physics: Option<PhysicsSection>,
    pub input: Option<InputSection>,
    pub coupling: Option<CouplingSection>,
    pub chain_a: ChainSection,
    pub chain_b: Option<ChainSection>,
}

/// The keys of a voice table, in order.
pub open spec fn voice_keys<V>(entries: Seq<VoiceEntry<V>>) -> Seq<Seq<char>> {
    entries.map_values(|e: VoiceEntry<V>| e.key@)
}

} // verus!
