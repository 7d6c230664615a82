//! Runtime configuration of one or two spin chains and their MIDI/OSC
//! routing, with the values the loader falls back to.
//!
//! Real-valued settings are carried as `FloatBits`: the IEEE-754 binary64
//! encoding of the value (what `f64::to_bits` yields). The library only
//! stores, compares and forwards them; arithmetic on them is done by the
//! program that runs the simulation.

pub mod chords;
pub mod config_file;
pub mod error;
pub mod laws;
pub mod schema;
pub mod section_laws;
pub mod sections;

use vstd::prelude::*;
use crate::config::chords::{ChordConfig, ChordConfigView};

verus! {

/// IEEE-754 binary64 encoding of a real-valued setting.
pub type FloatBits = u64;

/// Encoding of `0.0`.
pub const BITS_ZERO: FloatBits = 0x0000_0000_0000_0000;
/// Encoding of `0.01`.
pub const BITS_0_01: FloatBits = 0x3f84_7ae1_47ae_147b;
/// Encoding of `0.05`.
pub const BITS_0_05: FloatBits = 0x3fa9_9999_9999_999a;
/// Encoding of `0.1`.
pub const BITS_0_1: FloatBits = 0x3fb9_9999_9999_999a;
/// Encoding of `0.3`.
pub const BITS_0_3: FloatBits = 0x3fd3_3333_3333_3333;
/// Encoding of `0.5`.
pub const BITS_0_5: FloatBits = 0x3fe0_0000_0000_0000;
/// Encoding of `1.0`.
pub const BITS_ONE: FloatBits = 0x3ff0_0000_0000_0000;
/// Encoding of `1.2`.
pub const BITS_1_2: FloatBits = 0x3ff3_3333_3333_3333;
/// Encoding of `2.0`.
pub const BITS_TWO: FloatBits = 0x4000_0000_0000_0000;
/// Encoding of `10.0`.
pub const BITS_TEN: FloatBits = 0x4024_0000_0000_0000;
/// Encoding of `50.0`.
pub const BITS_FIFTY: FloatBits = 0x4049_0000_0000_0000;
/// Encoding of `120.0`.
pub const BITS_120: FloatBits = 0x405e_0000_0000_0000;
/// Encoding of `3.0`.
pub const BITS_THREE: FloatBits = 0x4008_0000_0000_0000;
/// Encoding of `5.0`.
pub const BITS_FIVE: FloatBits = 0x4014_0000_0000_0000;
/// Encoding of positive infinity.
pub const BITS_INFINITY: FloatBits = 0x7ff0_0000_0000_0000;
/// Encoding of negative infinity.
pub const BITS_NEG_INFINITY: FloatBits = 0xfff0_0000_0000_0000;
/// Encoding of pi.
pub const BITS_PI: FloatBits = 0x4009_21fb_5444_2d18;
/// Encoding of `-0.0`.
pub const BITS_NEG_ZERO: FloatBits = 0x8000_0000_0000_0000;

/// Spin axis addressed by an input perturbation.
#[derive(Clone, Copy, Debug, PartialEq, Eq, Structural)]
pub enum Axis {
    X,
    Y,
    Z,
}

/// Pitch quantisation scale.
#[derive(Clone, Copy, Debug, PartialEq, Eq, Structural)]
pub enum Scale {
    Unquantized,
    Major,
    Minor,
    Pentatonic,
    Hirajoshi,
    Iwato,
}

/// The scale that a configuration name denotes, if any.
pub open spec fn scale_named(name: Seq<char>) -> Option<Scale> {
    if name == "unquantized"@ {
        Some(Scale::Unquantized)
    } else if name == "major"@ {
        Some(Scale::Major)
    } else if name == "minor"@ {
        Some(Scale::Minor)
    } else if name == "pentatonic"@ {
        Some(Scale::Pentatonic)
    } else if name == "hirajoshi"@ {
        Some(Scale::Hirajoshi)
    } else if name == "iwato"@ {
        Some(Scale::Iwato)
    } else {
        None
    }
}

impl Scale {
    /// The scale with the given configuration name.
    pub fn from_name(name: &str) -> (r: Option<Scale>)
        ensures
            r == scale_named(name@),
    {
        if crate::text::str_eq(name, "unquantized") {
            Some(Scale::Unquantized)
        } else if crate::text::str_eq(name, "major") {
            Some(Scale::Major)
        } else if crate::text::str_eq(name, "minor") {
            Some(Scale::Minor)
        } else if crate::text::str_eq(name, "pentatonic") {
            Some(Scale::Pentatonic)
        } else if crate::text::str_eq(name, "hirajoshi") {
            Some(Scale::Hirajoshi)
        } else if crate::text::str_eq(name, "iwato") {
            Some(Scale::Iwato)
        } else {
            None
        }
    }
}

/// Shape of the influence between two chains.
#[derive(Clone, Copy, Debug, PartialEq, Eq, Structural)]
pub enum CouplingShape {
    MeanFieldZ,
    SitePaired,
    SharedDrive,
}

/// Simulation parameters of one chain.
#[derive(Clone, Copy, Debug, PartialEq, Eq, Structural)]
pub struct PhysicsConfig {
    pub kt: FloatBits,
    pub eps: FloatBits,
    pub j: FloatBits,
    pub w: FloatBits,
    pub n_sites: usize,
    pub ticks_per_period: u32,
    pub dt: FloatBits,
    pub kick_angle: FloatBits,
}

pub open spec fn default_physics() -> PhysicsConfig {
    PhysicsConfig {
        kt: BITS_0_1,
        eps: BITS_0_01,
        j: BITS_1_2,
        w: BITS_TWO,
        n_sites: 8,
        ticks_per_period: 25,
        dt: BITS_0_05,
        kick_angle: BITS_PI,
    }
}

impl Default for PhysicsConfig {
    fn default() -> (r: Self)
        ensures
            r == default_physics(),
    {
        PhysicsConfig {
            kt: BITS_0_1,
            eps: BITS_0_01,
            j: BITS_1_2,
            w: BITS_TWO,
            n_sites: 8,
            ticks_per_period: 25,
            dt: BITS_0_05,
            kick_angle: BITS_PI,
        }
    }
}

/// Tempo of the periodic drive: one drive period lasts `60 / bpm` seconds.
#[derive(Clone, Copy, Debug, PartialEq, Eq, Structural)]
pub struct TempoConfig {
    pub bpm: FloatBits,
}

pub open spec fn default_tempo() -> TempoConfig {
    TempoConfig { bpm: BITS_120 }
}

impl Default for TempoConfig {
    fn default() -> (r: Self)
        ensures
            r == default_tempo(),
    {
        TempoConfig { bpm: BITS_120 }
    }
}

impl TempoConfig {
    /// The tempo of a drive at `bpm` beats per minute.
    pub fn from_bpm(bpm: FloatBits) -> (r: Self)
        ensures
            r.bpm == bpm,
    {
        TempoConfig { bpm }
    }
}

/// OSC input/output settings.
#[derive(Clone, Debug)]
pub struct OscConfig {
    pub listen_port: Option<u16>,
    pub send_address: Option<String>,
    pub state_rate_hz: FloatBits,
    pub state_spins_rate_hz: FloatBits,
    pub enable_state: bool,
}

pub struct OscConfigView {
    pub listen_port: Option<u16>,
    pub send_address: Option<Seq<char>>,
    pub state_rate_hz: FloatBits,
    pub state_spins_rate_hz: FloatBits,
    pub enable_state: bool,
}

pub open spec fn opt_string_view(s: Option<String>) -> Option<Seq<char>> {
    match s {
        Some(t) => Some(t@),
        None => None,
    }
}

impl View for OscConfig {
    type V = OscConfigView;

    open spec fn view(&self) -> OscConfigView {
        OscConfigView {
            listen_port: self.listen_port,
            send_address: opt_string_view(self.send_address),
            state_rate_hz: self.state_rate_hz,
            state_spins_rate_hz: self.state_spins_rate_hz,
            enable_state: self.enable_state,
        }
    }
}

pub open spec fn default_osc() -> OscConfigView {
    OscConfigView {
        listen_port: None,
        send_address: None,
        state_rate_hz: BITS_FIFTY,
        state_spins_rate_hz: BITS_TEN,
        enable_state: true,
    }
}

impl Default for OscConfig {
    fn default() -> (r: Self)
        ensures
            r@ == default_osc(),
    {
        OscConfig {
            listen_port: None,
            send_address: None,
            state_rate_hz: BITS_FIFTY,
            state_spins_rate_hz: BITS_TEN,
            enable_state: true,
        }
    }
}

/// What a MIDI input note does to the chain.
#[derive(Clone, Copy, Debug, PartialEq, Eq, Structural)]
pub enum PerturbationKindConfig {
    Flip,
    Rotate { axis: Axis, base_angle: FloatBits },
    FieldSpike { axis: Axis, base_magnitude: FloatBits },
}

/// Mapping of MIDI input notes to perturbations.
#[derive(Clone, Copy, Debug, PartialEq, Eq, Structural)]
pub struct PerturbationConfig {
    pub base_note: u8,
    pub kind: PerturbationKindConfig,
    pub velocity_scale: FloatBits,
}

pub open spec fn default_perturbation() -> PerturbationConfig {
    PerturbationConfig {
        base_note: 60,
        kind: PerturbationKindConfig::Rotate { axis: Axis::X, base_angle: BITS_0_3 },
        velocity_scale: BITS_ONE,
    }
}

impl Default for PerturbationConfig {
    fn default() -> (r: Self)
        ensures
            r == default_perturbation(),
    {
        PerturbationConfig {
            base_note: 60,
            kind: PerturbationKindConfig::Rotate { axis: Axis::X, base_angle: BITS_0_3 },
            velocity_scale: BITS_ONE,
        }
    }
}

/// MIDI input settings.
#[derive(Clone, Copy, Debug, PartialEq, Eq, Structural)]
pub struct InputConfig {
    pub perturbation: PerturbationConfig,
}

/// Influence between chain A and chain B.
#[derive(Clone, Copy, Debug, PartialEq, Eq, Structural)]
pub struct CouplingConfig {
    pub shape: CouplingShape,
    pub strength_ab: FloatBits,
    pub strength_ba: FloatBits,
}

/// Which sites are watched for zero crossings.
#[derive(Clone, Debug)]
pub struct EventConfig {
    pub output_sites: Vec<usize>,
    pub crossing_threshold: FloatBits,
    pub debounce_ticks: u32,
}

pub struct EventConfigView {
    pub output_sites: Seq<usize>,
    pub crossing_threshold: FloatBits,
    pub debounce_ticks: u32,
}

impl View for EventConfig {
    type V = EventConfigView;

    open spec fn view(&self) -> EventConfigView {
        EventConfigView {
            output_sites: self.output_sites@,
            crossing_threshold: self.crossing_threshold,
            debounce_ticks: self.debounce_ticks,
        }
    }
}

pub open spec fn default_events() -> EventConfigView {
    EventConfigView {
        output_sites: seq![0usize, 2, 4, 6],
        crossing_threshold: BITS_ZERO,
        debounce_ticks: 2,
    }
}

impl Default for EventConfig {
    fn default() -> (r: Self)
        ensures
            r@ == default_events(),
    {
        let r = EventConfig {
            output_sites: vec![0usize, 2, 4, 6],
            crossing_threshold: BITS_ZERO,
            debounce_ticks: 2,
        };
        assert(r.output_sites@ =~= seq![0usize, 2, 4, 6]);
        r
    }
}

/// Gate voices: one 0-based channel and one pitch per voice.
#[derive(Clone, Debug)]
pub struct MidiConfig {
    pub voice_channels: Vec<u8>,
    pub voice_pitches: Vec<u8>,
    pub gate_length_ms: u64,
}

pub struct MidiConfigView {
    pub voice_channels: Seq<u8>,
    pub voice_pitches: Seq<u8>,
    pub gate_length_ms: u64,
}

impl View for MidiConfig {
    type V = MidiConfigView;

    open spec fn view(&self) -> MidiConfigView {
        MidiConfigView {
            voice_channels: self.voice_channels@,
            voice_pitches: self.voice_pitches@,
            gate_length_ms: self.gate_length_ms,
        }
    }
}

/// The pitch table that gate voices fall back to, indexed by site.
pub open spec fn default_voice_pitches() -> Seq<u8> {
    seq![48u8, 52, 55, 59, 60, 64, 67, 71]
}

pub open spec fn default_midi() -> MidiConfigView {
    MidiConfigView {
        voice_channels: seq![0u8, 1, 2, 3, 4, 5, 6, 7],
        voice_pitches: default_voice_pitches(),
        gate_length_ms: 50,
    }
}

impl Default for MidiConfig {
    fn default() -> (r: Self)
        ensures
            r@ == default_midi(),
    {
        let r = MidiConfig {
            voice_channels: vec![0u8, 1, 2, 3, 4, 5, 6, 7],
            voice_pitches: vec![48u8, 52, 55, 59, 60, 64, 67, 71],
            gate_length_ms: 50,
        };
        assert(r.voice_channels@ =~= seq![0u8, 1, 2, 3, 4, 5, 6, 7]);
        assert(r.voice_pitches@ =~= default_voice_pitches());
        r
    }
}

/// Chain clock: a pulse whenever the mean magnetization crosses zero.
#[derive(Clone, Copy, Debug, PartialEq, Eq, Structural)]
pub struct ClockConfig {
    pub enabled: bool,
    pub channel: u8,
    pub pitch: u8,
    pub crossing_threshold: FloatBits,
    pub debounce_ticks: u32,
    pub gate_length_ms: u64,
}

pub open spec fn default_clock() -> ClockConfig {
    ClockConfig {
        enabled: true,
        channel: 15,
        pitch: 60,
        crossing_threshold: BITS_ZERO,
        debounce_ticks: 2,
        gate_length_ms: 20,
    }
}

impl Default for ClockConfig {
    fn default() -> (r: Self)
        ensures
            r == default_clock(),
    {
        ClockConfig {
            enabled: true,
            channel: 15,
            pitch: 60,
            crossing_threshold: BITS_ZERO,
            debounce_ticks: 2,
            gate_length_ms: 20,
        }
    }
}

/// Domain-wall tracking.
#[derive(Clone, Copy, Debug, PartialEq, Eq, Structural)]
pub struct WallConfig {
    pub enabled: bool,
}

pub open spec fn default_walls() -> WallConfig {
    WallConfig { enabled: true }
}

impl Default for WallConfig {
    fn default() -> (r: Self)
        ensures
            r == default_walls(),
    {
        WallConfig { enabled: true }
    }
}

/// Channels and pitch range of the wall voices.
#[derive(Clone, Debug)]
pub struct WallMidiConfig {
    pub channels: Vec<u8>,
    pub pitch_low: u8,
    pub pitch_high: u8,
    pub motion_cc: Option<u8>,
    pub repitch_on_move: bool,
}

pub struct WallMidiConfigView {
    pub channels: Seq<u8>,
    pub pitch_low: u8,
    pub pitch_high: u8,
    pub motion_cc: Option<u8>,
    pub repitch_on_move: bool,
}

impl View for WallMidiConfig {
    type V = WallMidiConfigView;

    open spec fn view(&self) -> WallMidiConfigView {
        WallMidiConfigView {
            channels: self.channels@,
            pitch_low: self.pitch_low,
            pitch_high: self.pitch_high,
            motion_cc: self.motion_cc,
            repitch_on_move: self.repitch_on_move,
        }
    }
}

pub open spec fn default_wall_midi() -> WallMidiConfigView {
    WallMidiConfigView {
        channels: seq![4u8, 5, 6, 7],
        pitch_low: 36,
        pitch_high: 84,
        motion_cc: Some(1u8),
        repitch_on_move: false,
    }
}

impl Default for WallMidiConfig {
    fn default() -> (r: Self)
        ensures
            r@ == default_wall_midi(),
    {
        let r = WallMidiConfig {
            channels: vec![4u8, 5, 6, 7],
            pitch_low: 36,
            pitch_high: 84,
            motion_cc: Some(1),
            repitch_on_move: false,
        };
        assert(r.channels@ =~= seq![4u8, 5, 6, 7]);
        r
    }
}

/// Summed sigma_z modulation CC stream.
#[derive(Clone, Copy, Debug, PartialEq, Eq, Structural)]
pub struct ModulationConfig {
    pub enabled: bool,
    pub channel: u8,
    pub cc_number: u8,
}

pub open spec fn default_modulation() -> ModulationConfig {
    ModulationConfig { enabled: false, channel: 0, cc_number: 1 }
}

impl Default for ModulationConfig {
    fn default() -> (r: Self)
        ensures
            r == default_modulation(),
    {
        ModulationConfig { enabled: false, channel: 0, cc_number: 1 }
    }
}

/// Pitch quantisation of clock and wall notes.
#[derive(Clone, Copy, Debug, PartialEq, Eq, Structural)]
pub struct QuantizeConfig {
    pub scale: Scale,
    pub root_note: u8,
}

pub open spec fn default_quantize() -> QuantizeConfig {
    QuantizeConfig { scale: Scale::Unquantized, root_note: 60 }
}

impl Default for QuantizeConfig {
    fn default() -> (r: Self)
        ensures
            r == default_quantize(),
    {
        QuantizeConfig { scale: Scale::Unquantized, root_note: 60 }
    }
}

/// Everything one chain needs.
#[derive(Clone, Debug)]
pub struct ChainConfig {
    pub physics: PhysicsConfig,
    pub events: EventConfig,
    pub midi: MidiConfig,
    pub clock: ClockConfig,
    pub walls: WallConfig,
    pub wall_midi: WallMidiConfig,
    pub modulation: ModulationConfig,
    pub quantize: QuantizeConfig,
    pub chords: ChordConfig,
    pub seed: u64,
    /// Emit gate/pulse/modulation/wall events every Nth physics tick;
    /// 1 emits on every tick.
    pub emit_stride: u32,
}

pub struct ChainConfigView {
    pub physics: PhysicsConfig,
    pub events: EventConfigView,
    pub midi: MidiConfigView,
    pub clock: ClockConfig,
    pub walls: WallConfig,
    pub wall_midi: WallMidiConfigView,
    pub modulation: ModulationConfig,
    pub quantize: QuantizeConfig,
    pub chords: ChordConfigView,
    pub seed: u64,
    pub emit_stride: u32,
}

impl View for ChainConfig {
    type V = ChainConfigView;

    open spec fn view(&self) -> ChainConfigView {
        ChainConfigView {
            physics: self.physics,
            events: self.events@,
            midi: self.midi@,
            clock: self.clock,
            walls: self.walls,
            wall_midi: self.wall_midi@,
            modulation: self.modulation,
            quantize: self.quantize,
            chords: self.chords@,
            seed: self.seed,
            emit_stride: self.emit_stride,
        }
    }
}

pub open spec fn default_chain() -> ChainConfigView {
    ChainConfigView {
        physics: default_physics(),
        events: default_events(),
        midi: default_midi(),
        clock: default_clock(),
        walls: default_walls(),
        wall_midi: default_wall_midi(),
        modulation: default_modulation(),
        quantize: default_quantize(),
        chords: crate::config::chords::default_chords(),
        seed: 0,
        emit_stride: 1,
    }
}

impl Default for ChainConfig {
    fn default() -> (r: Self)
        ensures
            r@ == default_chain(),
    {
        ChainConfig {
            physics: PhysicsConfig::default(),
            events: EventConfig::default(),
            midi: MidiConfig::default(),
            clock: ClockConfig::default(),
            walls: WallConfig::default(),
            wall_midi: WallMidiConfig::default(),
            modulation: ModulationConfig::default(),
            quantize: QuantizeConfig::default(),
            chords: ChordConfig::default(),
            seed: 0,
            emit_stride: 1,
        }
    }
}

/// The whole runtime configuration.
#[derive(Clone, Debug)]
pub struct Config {
    pub chain_a: ChainConfig,
    pub chain_b: Option<ChainConfig>,
    pub coupling: Option<CouplingConfig>,
    pub tempo: TempoConfig,
    pub osc: OscConfig,
    pub input: Option<InputConfig>,
}

pub struct ConfigView {
    pub chain_a: ChainConfigView,
    pub chain_b: Option<ChainConfigView>,
    pub coupling: Option<CouplingConfig>,
    pub tempo: TempoConfig,
    pub osc: OscConfigView,
    pub input: Option<InputConfig>,
}

pub open spec fn opt_chain_view(c: Option<ChainConfig>) -> Option<ChainConfigView> {
    match c {
        Some(x) => Some(x@),
        None => None,
    }
}

impl View for Config {
    type V = ConfigView;

    open spec fn view(&self) -> ConfigView {
        ConfigView {
            chain_a: self.chain_a@,
            chain_b: opt_chain_view(self.chain_b),
            coupling: self.coupling,
            tempo: self.tempo,
            osc: self.osc@,
            input: self.input,
        }
    }
}

impl Default for Config {
    fn default() -> (r: Self)
        ensures
            r@ == (ConfigView {
                chain_a: default_chain(),
                chain_b: None,
                coupling: None,
                tempo: default_tempo(),
                osc: default_osc(),
                input: None,
            }),
    {
        Config {
            chain_a: ChainConfig::default(),
            chain_b: None,
            coupling: None,
            tempo: TempoConfig::default(),
            osc: OscConfig::default(),
            input: None,
        }
    }
}

} // verus!
