use crystallized_time::config::chords::{ChordSelect, ChordTriggerKind};
use crystallized_time::config::error::{StrengthField, ValidationError};
use crystallized_time::config::schema::{
    ChainSection, ChordsSection, ClockSection, CouplingSection, GateVoiceEntry, GatesSection, InputSection,
    ModulationSection, OscSection, PerturbationSection, PhysicsSection, QuantizeSection, TomlConfig,
    VoiceEntry, WallVoiceEntry, WallsSection,
};
use crystallized_time::config::sections::{axis_from_lowercase, clamp_bits, parse_axis};
use crystallized_time::config::{Axis, Config, CouplingShape, PerturbationKindConfig, Scale};
use crystallized_time::runtime::{coupling_plan, input_plan, should_emit, CouplingPlan, InputPlan};
use crystallized_time::text::{parse_unsigned_from, str_eq};

fn entry<V>(key: &str, value: V) -> VoiceEntry<V> {
    VoiceEntry { key: key.to_string(), value }
}

fn gate(key: &str, channel: u8) -> VoiceEntry<GateVoiceEntry> {
    entry(key, GateVoiceEntry::ChannelOnly(channel))
}

fn chain(voices: Vec<VoiceEntry<GateVoiceEntry>>, clock_channel: u8) -> ChainSection {
    ChainSection {
        seed: None,
        physics: None,
        gates: GatesSection { gate_length_ms: None, voices },
        walls: None,
        clock: ClockSection { channel: clock_channel, enabled: None, pitch: None, gate_length_ms: None },
        modulation: None,
        quantize: None,
        chords: None,
    }
}

fn file(chain_a: ChainSection) -> TomlConfig {
    TomlConfig { tempo: None, osc: None, physics: None, input: None, coupling: None, chain_a, chain_b: None }
}

fn physics() -> PhysicsSection {
    PhysicsSection {
        kt: None,
        eps: None,
        j: None,
        w: None,
        n_sites: None,
        ticks_per_period: None,
        dt: None,
        kick_angle: None,
    }
}

fn chords(sequence: Vec<Vec<u8>>) -> ChordsSection {
    ChordsSection { enabled: Some(true), advance_on: None, advance_every: None, select: None, sequence: Some(sequence) }
}

fn walls(voices: Vec<VoiceEntry<WallVoiceEntry>>) -> WallsSection {
    WallsSection { pitch_low: None, pitch_high: None, motion_cc: None, repitch_on_move: None, voices }
}

fn load(t: TomlConfig) -> Result<Config, ValidationError> {
    t.into_config()
}

fn message(t: TomlConfig) -> String {
    load(t).expect_err("must fail").message()
}

fn basic() -> ChainSection {
    chain(vec![gate("voice_0", 1)], 16)
}

#[test]
fn duplicate_gate_and_clock_message_names_both() {
    let t = file(chain(
        vec![gate("voice_0", 1), gate("voice_1", 2), gate("voice_2", 3), gate("voice_3", 16)],
        16,
    ));
    assert_eq!(message(t), "channel 16 is assigned to both chain_a.gates.voice_3 and chain_a.clock");
}

#[test]
fn duplicate_across_chains_is_rejected() {
    let mut t = file(basic());
    t.chain_b = Some(chain(vec![gate("voice_0", 1)], 15));
    assert_eq!(message(t), "channel 1 is assigned to both chain_a.gates.voice_0 and chain_b.gates.voice_0");
}

#[test]
fn two_chains_with_distinct_channels_load() {
    let mut t = file(basic());
    t.chain_b = Some(chain(vec![gate("voice_0", 2)], 15));
    let config = load(t).expect("should parse");
    let b = config.chain_b.expect("chain_b");
    assert_eq!(b.midi.voice_channels, vec![1]);
    assert_eq!(b.clock.channel, 14);
}

#[test]
fn chain_b_ticks_must_match() {
    let mut b = chain(vec![gate("voice_0", 2)], 15);
    b.physics = Some(PhysicsSection { ticks_per_period: Some(30), ..physics() });
    let mut t = file(basic());
    t.chain_b = Some(b);
    assert_eq!(
        message(t),
        "chain_b.physics.ticks_per_period must match chain_a.physics.ticks_per_period"
    );
}

#[test]
fn out_of_range_channel_message() {
    let t = file(chain(vec![gate("voice_0", 0)], 16));
    assert_eq!(message(t), "chain_a.gates.voice_0: channel must be in 1..=16 (got 0)");
    let t = file(chain(vec![gate("voice_0", 1)], 17));
    assert_eq!(message(t), "chain_a.clock.channel: channel must be in 1..=16 (got 17)");
}

#[test]
fn voice_keys_are_validated_in_key_order() {
    let t = file(chain(vec![gate("voice_x", 1), gate("zzz", 2)], 16));
    assert_eq!(message(t), "chain_a.gates: voice key 'voice_x' has non-numeric suffix");
    let t = file(chain(vec![gate("voice_", 1)], 16));
    assert_eq!(message(t), "chain_a.gates: voice key 'voice_' has non-numeric suffix");
    let t = file(chain(vec![gate("voixe_0", 1)], 16));
    assert_eq!(message(t), "chain_a.gates: unrecognized key 'voixe_0' (expected 'voice_N')");
}

#[test]
fn voice_suffix_reads_like_an_unsigned_number() {
    let t = file(chain(vec![gate("voice_+3", 1), gate("voice_01", 2)], 16));
    let config = load(t).expect("should parse");
    assert_eq!(config.chain_a.events.output_sites, vec![1, 3]);
    assert_eq!(config.chain_a.midi.voice_channels, vec![1, 0]);
    assert_eq!(parse_unsigned_from("voice_18446744073709551616", 6), None);
    assert_eq!(parse_unsigned_from("voice_+", 6), None);
    assert_eq!(parse_unsigned_from("voice_-1", 6), None);
    assert_eq!(parse_unsigned_from("voice_007", 6), Some(7));
}

#[test]
fn equal_indices_keep_table_order() {
    let t = file(chain(vec![gate("voice_01", 1), gate("voice_1", 2)], 16));
    let config = load(t).expect("should parse");
    assert_eq!(config.chain_a.events.output_sites, vec![1, 1]);
    assert_eq!(config.chain_a.midi.voice_channels, vec![0, 1]);
}

#[test]
fn voices_are_sorted_by_site() {
    let t = file(chain(vec![gate("voice_10", 3), gate("voice_2", 1), gate("voice_7", 2)], 16));
    let mut t = t;
    t.physics = Some(PhysicsSection { n_sites: Some(12), ..physics() });
    let config = load(t).expect("should parse");
    assert_eq!(config.chain_a.events.output_sites, vec![2, 7, 10]);
    assert_eq!(config.chain_a.midi.voice_channels, vec![0, 1, 2]);
    // Sites beyond the default pitch table fall back to 48.
    assert_eq!(config.chain_a.midi.voice_pitches, vec![55, 71, 48]);
}

#[test]
fn site_message_names_voice_and_size() {
    let mut t = file(chain(vec![gate("voice_0", 1), gate("voice_6", 2)], 16));
    t.physics = Some(PhysicsSection { n_sites: Some(4), ..physics() });
    assert_eq!(
        message(t),
        "chain_a.gates: voice_6 refers to a site index that doesn't exist (n_sites = 4)"
    );
}

#[test]
fn wall_pitch_range_is_checked() {
    let mut a = basic();
    a.walls = Some(WallsSection { pitch_low: Some(90), pitch_high: Some(80), ..walls(vec![]) });
    assert_eq!(message(file(a)), "chain_a.walls pitch_low must be <= pitch_high (got 90 > 80)");
    let mut a = basic();
    a.walls = Some(WallsSection { pitch_high: Some(200), ..walls(vec![]) });
    assert_eq!(message(file(a)), "chain_a.walls pitch range must be in 0..=127 (got 36..200)");
    let mut a = basic();
    a.walls = Some(WallsSection { motion_cc: Some(128), ..walls(vec![]) });
    assert_eq!(message(file(a)), "chain_a.walls.motion_cc must be in 0..=127 (got 128)");
}

#[test]
fn empty_walls_section_disables_walls() {
    let mut a = basic();
    a.walls = Some(WallsSection { motion_cc: Some(7), ..walls(vec![]) });
    let config = load(file(a)).expect("should parse");
    assert!(!config.chain_a.walls.enabled);
    assert_eq!(config.chain_a.wall_midi.motion_cc, Some(7));
    assert_eq!(config.chain_a.wall_midi.pitch_low, 36);
    assert_eq!(config.chain_a.wall_midi.pitch_high, 84);
}

#[test]
fn modulation_defaults_to_first_gate_channel() {
    let mut a = chain(vec![gate("voice_0", 3), gate("voice_1", 4)], 16);
    a.modulation = Some(ModulationSection { enabled: Some(true), channel: None, cc_number: None });
    // The modulation stream then claims the first gate voice's channel.
    assert_eq!(
        message(file(a)),
        "channel 3 is assigned to both chain_a.gates.voice_0 and chain_a.modulation"
    );
    let mut a = basic();
    a.modulation = Some(ModulationSection { enabled: Some(true), channel: Some(9), cc_number: Some(74) });
    let config = load(file(a)).expect("should parse");
    assert!(config.chain_a.modulation.enabled);
    assert_eq!(config.chain_a.modulation.channel, 8);
    assert_eq!(config.chain_a.modulation.cc_number, 74);
    let mut a = basic();
    a.modulation = Some(ModulationSection { enabled: Some(true), channel: Some(9), cc_number: Some(130) });
    assert_eq!(message(file(a)), "chain_a.modulation.cc_number must be in 0..=127 (got 130)");
    let mut a = basic();
    a.modulation = Some(ModulationSection { enabled: Some(false), channel: Some(1), cc_number: Some(200) });
    let config = load(file(a)).expect("disabled modulation is not checked");
    assert!(!config.chain_a.modulation.enabled);
}

#[test]
fn quantize_section_is_checked() {
    let mut a = basic();
    a.quantize = Some(QuantizeSection { scale: Some("hirajoshi".to_string()), root_note: Some(50) });
    let config = load(file(a)).expect("should parse");
    assert_eq!(config.chain_a.quantize.scale, Scale::Hirajoshi);
    assert_eq!(config.chain_a.quantize.root_note, 50);
    let mut a = basic();
    a.quantize = Some(QuantizeSection { scale: Some("lydian".to_string()), root_note: None });
    assert_eq!(
        message(file(a)),
        "chain_a.quantize.scale: unknown scale 'lydian' (valid: unquantized, major, minor, pentatonic, hirajoshi, iwato)"
    );
    let mut a = basic();
    a.quantize = Some(QuantizeSection { scale: None, root_note: Some(128) });
    assert_eq!(message(file(a)), "chain_a.quantize.root_note must be in 0..=127 (got 128)");
}

#[test]
fn chords_are_validated() {
    let mut a = chain(vec![gate("voice_0", 1), gate("voice_1", 2)], 16);
    a.chords = Some(ChordsSection { advance_every: Some(0), ..chords(vec![vec![48, 52], vec![45, 48]]) });
    let config = load(file(a)).expect("should parse");
    let c = config.chain_a.chords;
    assert!(c.enabled);
    assert_eq!(c.advance_on, ChordTriggerKind::WallDeath);
    assert_eq!(c.select, ChordSelect::Sequential);
    assert_eq!(c.advance_every, 1);
    assert_eq!(c.sequence, vec![vec![48, 52], vec![45, 48]]);

    let mut a = chain(vec![gate("voice_0", 1), gate("voice_1", 2)], 16);
    a.chords = Some(chords(vec![vec![48, 52], vec![45]]));
    assert_eq!(message(file(a)), "chain_a.chords.sequence[1]: expected 2 pitches, got 1");

    let mut a = chain(vec![gate("voice_0", 1), gate("voice_1", 2)], 16);
    a.chords = Some(chords(vec![vec![48, 200]]));
    assert_eq!(message(file(a)), "chain_a.chords.sequence[0]: pitch 200 out of range (0..=127)");

    let mut a = basic();
    a.chords = Some(chords(vec![]));
    assert_eq!(message(file(a)), "chain_a.chords.sequence must be non-empty when enabled = true");

    let mut a = basic();
    a.chords = Some(ChordsSection { advance_on: Some("beat".to_string()), ..chords(vec![vec![48]]) });
    assert_eq!(message(file(a)), "chain_a.chords.advance_on: unknown 'beat' (clock|wall_death|period)");

    let mut a = basic();
    a.chords = Some(ChordsSection { select: Some("Random".to_string()), ..chords(vec![vec![48]]) });
    assert_eq!(
        message(file(a)),
        "chain_a.chords.select: unknown 'Random' (sequential|magnetization|random)"
    );

    let mut a = basic();
    a.chords = Some(ChordsSection { enabled: Some(false), ..chords(vec![vec![1, 2, 3]]) });
    let config = load(file(a)).expect("disabled chords are not checked");
    assert!(!config.chain_a.chords.enabled);
    assert!(config.chain_a.chords.sequence.is_empty());
}

#[test]
fn input_kinds_and_axes() {
    let mut t = file(basic());
    t.input = Some(InputSection {
        perturbation: Some(PerturbationSection {
            base_note: Some(36),
            velocity_scale: None,
            kind: Some("Field_Spike".to_string()),
            axis: Some("Z".to_string()),
            magnitude: None,
        }),
    });
    let input = load(t).expect("should parse").input.expect("input");
    assert_eq!(input.perturbation.base_note, 36);
    assert_eq!(
        input.perturbation.kind,
        PerturbationKindConfig::FieldSpike { axis: Axis::Z, base_magnitude: 0.5f64.to_bits() }
    );
    assert_eq!(input.perturbation.velocity_scale, 1.0f64.to_bits());

    let mut t = file(basic());
    t.input = Some(InputSection { perturbation: None });
    let input = load(t).expect("should parse").input.expect("input");
    assert_eq!(
        input.perturbation.kind,
        PerturbationKindConfig::Rotate { axis: Axis::X, base_angle: 0.3f64.to_bits() }
    );

    let mut t = file(basic());
    t.input = Some(InputSection {
        perturbation: Some(PerturbationSection {
            base_note: None,
            velocity_scale: None,
            kind: None,
            axis: Some("w".to_string()),
            magnitude: None,
        }),
    });
    assert_eq!(message(t), "axis must be 'x', 'y', or 'z' (got 'w')");

    let mut t = file(basic());
    t.input = Some(InputSection {
        perturbation: Some(PerturbationSection {
            base_note: None,
            velocity_scale: None,
            kind: Some("WIGGLE".to_string()),
            axis: None,
            magnitude: None,
        }),
    });
    assert_eq!(
        message(t),
        "input.perturbation.kind must be 'flip', 'rotate', or 'field_spike' (got 'wiggle')"
    );
}

#[test]
fn case_folding_reaches_the_matchers() {
    assert!(matches!(parse_axis("Y"), Ok(Axis::Y)));
    assert!(matches!(axis_from_lowercase("Y"), Err(ValidationError::UnknownAxis { .. })));
    assert!(str_eq("abc", "abc"));
    assert!(!str_eq("abc", "abd"));
    assert!(!str_eq("abc", "ab"));
    let mut t = file(basic());
    t.coupling = Some(CouplingSection {
        shape: "Shared_Drive".to_string(),
        strength: None,
        strength_ab: None,
        strength_ba: None,
    });
    let c = load(t).expect("should parse").coupling.expect("coupling");
    assert_eq!(c.shape, CouplingShape::SharedDrive);
    assert_eq!(c.strength_ab, 0);
    assert_eq!(c.strength_ba, 0);
}

#[test]
fn coupling_strength_bounds() {
    for (v, ok) in [
        (0.0f64, true),
        (-0.0, true),
        (2.0, true),
        (1.999, true),
        (2.0000001, false),
        (-0.5, false),
        (f64::NAN, false),
        (f64::INFINITY, false),
    ] {
        let mut t = file(basic());
        t.coupling = Some(CouplingSection {
            shape: "mean_field_z".to_string(),
            strength: None,
            strength_ab: Some(0.5f64.to_bits()),
            strength_ba: Some(v.to_bits()),
        });
        match load(t) {
            Ok(c) => {
                assert!(ok, "{} accepted", v);
                assert_eq!(c.coupling.unwrap().strength_ba, v.to_bits());
            },
            Err(e) => {
                assert!(!ok, "{} rejected", v);
                assert!(matches!(e, ValidationError::CouplingStrengthOutOfRange { field: StrengthField::Ba, .. }));
                assert_eq!(e.message(), "coupling.strength_ba must be in 0.0..=2.0");
            },
        }
    }
}

#[test]
fn osc_section_defaults() {
    let mut t = file(basic());
    t.osc = Some(OscSection {
        listen_port: Some(9000),
        send_address: Some("127.0.0.1:9001".to_string()),
        state_rate_hz: None,
        state_spins_rate_hz: None,
        enable_state: Some(false),
    });
    let config = load(t).expect("should parse");
    assert_eq!(config.osc.listen_port, Some(9000));
    assert_eq!(config.osc.send_address.as_deref(), Some("127.0.0.1:9001"));
    assert_eq!(config.osc.state_rate_hz, 50.0f64.to_bits());
    assert!(!config.osc.enable_state);
}

#[test]
fn chain_defaults() {
    let config = load(file(basic())).expect("should parse");
    assert_eq!(config.chain_a.seed, 47);
    assert_eq!(config.chain_a.emit_stride, 1);
    assert_eq!(config.chain_a.physics.n_sites, 8);
    assert_eq!(config.chain_a.midi.gate_length_ms, 50);
    assert_eq!(config.chain_a.midi.voice_pitches, vec![48]);
    assert!(!config.chain_a.modulation.enabled);
    assert!(!config.chain_a.chords.enabled);
    assert_eq!(config.tempo.bpm, 120.0f64.to_bits());
}

#[test]
fn emission_stride() {
    assert!(should_emit(0, 7));
    assert!(should_emit(1, 7));
    assert!(should_emit(3, 9));
    assert!(!should_emit(3, 10));
    assert!(should_emit(4, 0));
}

#[test]
fn runtime_plans() {
    let mut t = file(basic());
    t.coupling = Some(CouplingSection {
        shape: "mean_field_z".to_string(),
        strength: Some(0.1f64.to_bits()),
        strength_ab: None,
        strength_ba: None,
    });
    let config = load(t).expect("should parse");
    assert_eq!(coupling_plan(&config), CouplingPlan::IgnoredWithoutChainB);
    assert_eq!(input_plan(&config, Some(2)), InputPlan::PortWithoutSection);
    assert_eq!(input_plan(&config, None), InputPlan::Off);

    let mut t = file(basic());
    t.chain_b = Some(chain(vec![gate("voice_0", 2)], 15));
    t.coupling = Some(CouplingSection {
        shape: "mean_field_z".to_string(),
        strength: Some(0.1f64.to_bits()),
        strength_ab: None,
        strength_ba: None,
    });
    t.input = Some(InputSection { perturbation: None });
    let config = load(t).expect("should parse");
    assert!(matches!(coupling_plan(&config), CouplingPlan::Run(_)));
    assert!(matches!(input_plan(&config, Some(2)), InputPlan::Open { port: 2, .. }));
    assert_eq!(input_plan(&config, None), InputPlan::Off);
}

#[test]
fn physics_targets_are_clamped_like_f64_clamp() {
    let values = [
        0.0f64, -0.0, 0.3, 1.99, 2.0, 2.5, 7.0, -1.0, -1e-300, 1e300,
        f64::INFINITY, f64::NEG_INFINITY, f64::NAN, -f64::NAN, f64::MIN_POSITIVE,
    ];
    for hi in [2.0f64, 0.5, 3.0, 5.0] {
        for v in values {
            let got = clamp_bits(v.to_bits(), hi.to_bits());
            assert_eq!(got, v.clamp(0.0, hi).to_bits(), "clamp of {} into 0..={}", v, hi);
        }
    }
}

#[test]
fn physics_section_is_clamped_into_ranges() {
    let mut t = file(basic());
    t.physics = Some(PhysicsSection {
        kt: Some(9.0f64.to_bits()),
        eps: Some((-0.2f64).to_bits()),
        j: Some(1.5f64.to_bits()),
        w: Some(6.0f64.to_bits()),
        ..physics()
    });
    let p = load(t).expect("should parse").chain_a.physics;
    assert_eq!(p.kt, 2.0f64.to_bits());
    assert_eq!(p.eps, 0.0f64.to_bits());
    assert_eq!(p.j, 1.5f64.to_bits());
    assert_eq!(p.w, 5.0f64.to_bits());
}

fn gate_full(key: &str, channel: u8, pitch: u8) -> VoiceEntry<GateVoiceEntry> {
    entry(key, GateVoiceEntry::Full { channel, pitch: Some(pitch) })
}

#[test]
fn gate_voices_may_share_a_channel() {
    let t = file(chain(vec![gate_full("voice_0", 1, 48), gate_full("voice_2", 1, 52)], 16));
    let config = load(t).expect("gate voices on one channel play mono");
    assert_eq!(config.chain_a.midi.voice_channels, vec![0, 0]);
    assert_eq!(config.chain_a.midi.voice_pitches, vec![48, 52]);
    let t = file(chain(
        vec![gate("voice_0", 1), gate("voice_1", 1), gate("voice_2", 1), gate("voice_3", 1)],
        16,
    ));
    let config = load(t).expect("four gate voices on channel 1");
    assert_eq!(config.chain_a.midi.voice_channels, vec![0, 0, 0, 0]);
}

#[test]
fn shared_gate_channel_still_conflicts_with_others() {
    let t = file(chain(vec![gate("voice_0", 1), gate("voice_1", 1)], 1));
    assert_eq!(message(t), "channel 1 is assigned to both chain_a.gates.voice_0 and chain_a.clock");
    let mut a = chain(vec![gate("voice_0", 2), gate("voice_1", 3), gate("voice_2", 3)], 16);
    a.walls = Some(walls(vec![entry("voice_0", WallVoiceEntry::Channel(3))]));
    assert_eq!(message(file(a)), "channel 3 is assigned to both chain_a.gates.voice_1 and chain_a.walls.voice_0");
    let mut t = file(chain(vec![gate("voice_0", 1), gate("voice_1", 1)], 16));
    t.chain_b = Some(chain(vec![gate("voice_0", 1)], 15));
    assert_eq!(message(t), "channel 1 is assigned to both chain_a.gates.voice_0 and chain_b.gates.voice_0");
}

#[test]
fn gate_pitch_range_is_checked() {
    let t = file(chain(vec![gate_full("voice_0", 1, 200)], 16));
    assert_eq!(message(t), "chain_a.gates.voice_0: pitch must be in 0..=127 (got 200)");
    let t = file(chain(vec![gate_full("voice_0", 1, 60), gate_full("voice_1", 2, 128)], 16));
    assert_eq!(message(t), "chain_a.gates.voice_1: pitch must be in 0..=127 (got 128)");
    let t = file(chain(vec![gate_full("voice_0", 1, 127)], 16));
    let config = load(t).expect("127 is a pitch");
    assert_eq!(config.chain_a.midi.voice_pitches, vec![127]);
}

#[test]
fn clock_pitch_range_is_checked() {
    let mut a = basic();
    a.clock.pitch = Some(200);
    assert_eq!(message(file(a)), "chain_a.clock.pitch must be in 0..=127 (got 200)");
    let mut a = basic();
    a.clock.pitch = Some(127);
    let config = load(file(a)).expect("127 is a pitch");
    assert_eq!(config.chain_a.clock.pitch, 127);
}

#[test]
fn spellings_differing_in_case_read_alike() {
    for (a, b) in [("x", "X"), ("y", "Y"), ("z", "Z")] {
        assert_eq!(parse_axis(a).expect("axis"), parse_axis(b).expect("axis"));
    }
    assert_eq!(parse_axis("W").expect_err("no axis").message(), parse_axis("w").expect_err("no axis").message());
    let shape_of = |name: &str| {
        let mut t = file(basic());
        t.coupling = Some(CouplingSection {
            shape: name.to_string(),
            strength: Some(1.5f64.to_bits()),
            strength_ab: None,
            strength_ba: None,
        });
        load(t).expect("should parse").coupling.expect("coupling")
    };
    let lower = shape_of("mean_field_z");
    let upper = shape_of("MEAN_FIELD_Z");
    assert_eq!(lower.shape, CouplingShape::MeanFieldZ);
    assert_eq!(lower.shape, upper.shape);
    assert_eq!(lower.strength_ab, upper.strength_ab);
    assert_eq!(lower.strength_ba, upper.strength_ba);
}
