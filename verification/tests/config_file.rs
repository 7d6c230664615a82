use crystallized_time::config::error::ValidationError;
use crystallized_time::config::schema::{
    ChainSection, ClockSection, CouplingSection, GateVoiceEntry, GatesSection, InputSection,
    PerturbationSection, PhysicsSection, TempoSection, TomlConfig, VoiceEntry, WallVoiceEntry,
    WallsSection,
};
use crystallized_time::config::{Config, CouplingShape, PerturbationKindConfig};

fn entry<V>(key: &str, value: V) -> VoiceEntry<V> {
    VoiceEntry { key: key.to_string(), value }
}

fn gates(voices: Vec<VoiceEntry<GateVoiceEntry>>) -> GatesSection {
    GatesSection { gate_length_ms: None, voices }
}

fn clock(channel: u8) -> ClockSection {
    ClockSection { channel, enabled: None, pitch: None, gate_length_ms: None }
}

fn chain(gates: GatesSection) -> ChainSection {
    ChainSection {
        seed: None,
        physics: None,
        gates,
        walls: None,
        clock: clock(16),
        modulation: None,
        quantize: None,
        chords: None,
    }
}

fn one_voice_chain() -> ChainSection {
    chain(gates(vec![entry("voice_0", GateVoiceEntry::ChannelOnly(1))]))
}

fn file(chain_a: ChainSection) -> TomlConfig {
    TomlConfig {
        tempo: None,
        osc: None,
        physics: None,
        input: None,
        coupling: None,
        chain_a,
        chain_b: None,
    }
}

fn physics() -> PhysicsSection {
    PhysicsSection {
        kt: None,
        eps: None,
        j: None,
        w: None,
        n_sites: None,
        ticks_per_period: None,
        dt: None,
        kick_angle: None,
    }
}

fn walls(voices: Vec<VoiceEntry<WallVoiceEntry>>) -> WallsSection {
    WallsSection { pitch_low: None, pitch_high: None, motion_cc: None, repitch_on_move: None, voices }
}

fn no_perturbation_fields() -> PerturbationSection {
    PerturbationSection { base_note: None, velocity_scale: None, kind: None, axis: None, magnitude: None }
}

fn coupling(shape: &str) -> CouplingSection {
    CouplingSection { shape: shape.to_string(), strength: None, strength_ab: None, strength_ba: None }
}

fn load_str(t: TomlConfig) -> Result<Config, ValidationError> {
    t.into_config()
}

fn bits(v: f64) -> u64 {
    v.to_bits()
}

fn value_of(b: u64) -> f64 {
    f64::from_bits(b)
}

#[test]
fn minimal_config_loads() {
    let mut a = chain(gates(vec![
        entry("voice_0", GateVoiceEntry::ChannelOnly(1)),
        entry("voice_2", GateVoiceEntry::ChannelOnly(2)),
        entry("voice_4", GateVoiceEntry::ChannelOnly(3)),
        entry("voice_6", GateVoiceEntry::ChannelOnly(4)),
    ]));
    a.seed = Some(7);
    let config = load_str(file(a)).expect("should parse");
    assert_eq!(config.chain_a.seed, 7);
    assert_eq!(config.chain_a.midi.voice_channels, vec![0, 1, 2, 3]);
    assert_eq!(config.chain_a.events.output_sites, vec![0, 2, 4, 6]);
    // Clock channel was 16 (1-based) -> 15 (0-based)
    assert_eq!(config.chain_a.clock.channel, 15);
    // No walls section -> walls disabled, empty channel list
    assert!(!config.chain_a.walls.enabled);
    assert!(config.chain_a.wall_midi.channels.is_empty());
}

#[test]
fn gate_voice_full_form_carries_pitch() {
    let a = chain(gates(vec![
        entry("voice_0", GateVoiceEntry::Full { channel: 1, pitch: Some(60) }),
        entry("voice_1", GateVoiceEntry::ChannelOnly(2)),
    ]));
    let config = load_str(file(a)).expect("should parse");
    assert_eq!(config.chain_a.midi.voice_pitches[0], 60);
    // voice_1 fell back to the default-pitch table at index 1 (E3, MIDI 52)
    assert_eq!(config.chain_a.midi.voice_pitches[1], 52);
}

#[test]
fn wall_voices_become_channel_list() {
    let mut a = one_voice_chain();
    a.walls = Some(walls(vec![
        entry("voice_0", WallVoiceEntry::Channel(5)),
        entry("voice_1", WallVoiceEntry::Channel(6)),
        entry("voice_2", WallVoiceEntry::Channel(7)),
        entry("voice_3", WallVoiceEntry::Channel(8)),
    ]));
    let config = load_str(file(a)).expect("should parse");
    assert!(config.chain_a.walls.enabled);
    assert_eq!(config.chain_a.wall_midi.channels, vec![4, 5, 6, 7]);
}

#[test]
fn duplicate_channel_is_rejected_naming_both() {
    let mut a = one_voice_chain();
    a.walls = Some(walls(vec![entry("voice_0", WallVoiceEntry::Channel(1))]));
    let err = load_str(file(a)).expect_err("duplicate channel must fail");
    let msg = err.message();
    assert!(msg.contains("channel 1"));
    assert!(msg.contains("chain_a.gates.voice_0"));
    assert!(msg.contains("chain_a.walls.voice_0"));
}

#[test]
fn out_of_range_channel_is_rejected() {
    let a = chain(gates(vec![entry("voice_0", GateVoiceEntry::ChannelOnly(17))]));
    let err = load_str(file(a)).expect_err("channel 17 must fail");
    let msg = err.message();
    assert!(msg.contains("1..=16"));
    assert!(msg.contains("17"));
}

#[test]
fn unknown_voice_key_is_rejected() {
    let a = chain(gates(vec![entry("voixe_0", GateVoiceEntry::ChannelOnly(1))]));
    let err = load_str(file(a)).expect_err("typo must fail");
    let msg = err.message();
    assert!(msg.contains("voixe_0"));
}

#[test]
fn no_gate_voices_is_rejected() {
    let a = chain(gates(vec![]));
    let err = load_str(file(a)).expect_err("empty gates must fail");
    assert!(err.message().contains("at least one"));
}

#[test]
fn per_chain_physics_overrides_shared() {
    let mut a = one_voice_chain();
    a.physics = Some(PhysicsSection { kt: Some(bits(0.5)), ..physics() });
    let mut t = file(a);
    t.physics = Some(PhysicsSection { kt: Some(bits(0.05)), ..physics() });
    let config = load_str(t).expect("should parse");
    assert!((value_of(config.chain_a.physics.kt) - 0.5).abs() < 1e-9);
}

#[test]
fn shared_physics_is_used_when_per_chain_absent() {
    let mut t = file(one_voice_chain());
    t.physics = Some(PhysicsSection { kt: Some(bits(0.42)), ..physics() });
    let config = load_str(t).expect("should parse");
    assert!((value_of(config.chain_a.physics.kt) - 0.42).abs() < 1e-9);
}

#[test]
fn motion_cc_zero_disables() {
    let mut a = one_voice_chain();
    a.walls = Some(WallsSection {
        motion_cc: Some(0),
        ..walls(vec![entry("voice_0", WallVoiceEntry::Channel(5))])
    });
    let config = load_str(file(a)).expect("should parse");
    assert!(config.chain_a.wall_midi.motion_cc.is_none());
}

#[test]
fn site_index_must_exist() {
    // n_sites = 4 but voice_6 references site 6
    let a = chain(gates(vec![
        entry("voice_0", GateVoiceEntry::ChannelOnly(1)),
        entry("voice_6", GateVoiceEntry::ChannelOnly(2)),
    ]));
    let mut t = file(a);
    t.physics = Some(PhysicsSection { n_sites: Some(4), ..physics() });
    let err = load_str(t).expect_err("nonexistent site must fail");
    assert!(err.message().contains("doesn't exist"));
}

#[test]
fn tempo_bpm_translates_to_drive_period() {
    let mut t = file(one_voice_chain());
    t.tempo = Some(TempoSection { bpm: bits(60.0) });
    let config = load_str(t).expect("should parse");
    // 60 BPM -> 1.0 sec drive period
    assert_eq!(config.tempo.bpm, bits(60.0));
    assert!((60.0 / value_of(config.tempo.bpm) - 1.0).abs() < 1e-9);
}

#[test]
fn input_section_optional() {
    let config = load_str(file(one_voice_chain())).expect("should parse");
    assert!(config.input.is_none());
}

#[test]
fn input_section_loads_with_defaults() {
    let mut t = file(one_voice_chain());
    t.input = Some(InputSection { perturbation: Some(no_perturbation_fields()) });
    let config = load_str(t).expect("should parse");
    let input = config.input.expect("input should be present");
    assert_eq!(input.perturbation.base_note, 60);
    assert!(matches!(input.perturbation.kind, PerturbationKindConfig::Rotate { .. }));
}

#[test]
fn input_kind_flip_parses() {
    let mut t = file(one_voice_chain());
    t.input = Some(InputSection {
        perturbation: Some(PerturbationSection { kind: Some("flip".to_string()), ..no_perturbation_fields() }),
    });
    let config = load_str(t).expect("should parse");
    let input = config.input.expect("input present");
    assert!(matches!(input.perturbation.kind, PerturbationKindConfig::Flip));
}

#[test]
fn input_unknown_kind_rejected() {
    let mut t = file(one_voice_chain());
    t.input = Some(InputSection {
        perturbation: Some(PerturbationSection { kind: Some("wiggle".to_string()), ..no_perturbation_fields() }),
    });
    let err = load_str(t).expect_err("bad kind should fail");
    assert!(err.message().contains("wiggle"));
}

#[test]
fn coupling_section_optional() {
    let config = load_str(file(one_voice_chain())).expect("should parse");
    assert!(config.coupling.is_none());
}

#[test]
fn coupling_strength_shorthand_sets_both_directions() {
    let mut t = file(one_voice_chain());
    t.coupling = Some(CouplingSection { strength: Some(bits(0.15)), ..coupling("mean_field_z") });
    let config = load_str(t).expect("should parse");
    let c = config.coupling.expect("coupling present");
    assert_eq!(c.shape, CouplingShape::MeanFieldZ);
    assert!((value_of(c.strength_ab) - 0.15).abs() < 1e-9);
    assert!((value_of(c.strength_ba) - 0.15).abs() < 1e-9);
}

#[test]
fn coupling_asymmetric_strengths() {
    let mut t = file(one_voice_chain());
    t.coupling = Some(CouplingSection {
        strength_ab: Some(bits(0.2)),
        strength_ba: Some(bits(0.05)),
        ..coupling("mean_field_z")
    });
    let config = load_str(t).expect("should parse");
    let c = config.coupling.expect("coupling present");
    assert!((value_of(c.strength_ab) - 0.2).abs() < 1e-9);
    assert!((value_of(c.strength_ba) - 0.05).abs() < 1e-9);
}

#[test]
fn coupling_strength_and_split_form_are_mutually_exclusive() {
    let mut t = file(one_voice_chain());
    t.coupling = Some(CouplingSection {
        strength: Some(bits(0.1)),
        strength_ab: Some(bits(0.2)),
        ..coupling("mean_field_z")
    });
    let err = load_str(t).expect_err("mixed forms should fail");
    assert!(err.message().contains("mutually exclusive"));
}

#[test]
fn coupling_unknown_shape_rejected() {
    let mut t = file(one_voice_chain());
    t.coupling = Some(coupling("telepathy"));
    let err = load_str(t).expect_err("bad shape should fail");
    assert!(err.message().contains("telepathy"));
}

#[test]
fn coupling_out_of_range_strength_rejected() {
    let mut t = file(one_voice_chain());
    t.coupling = Some(CouplingSection { strength: Some(bits(5.0)), ..coupling("mean_field_z") });
    let err = load_str(t).expect_err("out of range should fail");
    assert!(err.message().contains("0.0..=2.0"));
}

#[test]
fn coupling_site_paired_and_shared_drive_parse() {
    // The two shapes parse cleanly: the config layer's job is typed
    // validation.
    for shape in ["site_paired", "shared_drive"] {
        let mut t = file(one_voice_chain());
        t.coupling = Some(CouplingSection { strength: Some(bits(0.1)), ..coupling(shape) });
        load_str(t).unwrap_or_else(|_| panic!("{} should parse", shape));
    }
}
