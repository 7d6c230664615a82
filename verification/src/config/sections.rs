//! Builders for the individual sections of the file: each applies the
//! section's defaults and checks the section's own ranges.

use vstd::prelude::*;
use vstd::string::*;
use crate::config::chords::{copy_voicings, default_chords, voicings, ChordConfig, ChordConfigView, ChordSelect, ChordTriggerKind};
use crate::config::config_file::{
    claims_view, parse_voice_indices, result_view, spec_channel, spec_voice_slots, validate_channel_1based,
    ChannelClaim, ChannelClaimView, VoiceSlot,
};
use crate::config::error::{StrengthField, ValidationError, ValidationErrorView};
use crate::config::schema::{
    voice_keys, ChordsSection, ClockSection, CouplingSection, GateVoiceEntry, GatesSection, InputSection,
    ModulationSection, OscSection, PhysicsSection, QuantizeSection, VoiceEntry, WallVoiceEntry, WallsSection,
};
use crate::config::{
    default_clock, default_events, default_midi, default_modulation, default_osc, default_perturbation,
    default_physics, default_quantize, default_voice_pitches, default_wall_midi, scale_named, Axis, ClockConfig,
    CouplingConfig, CouplingShape, EventConfig, EventConfigView, FloatBits, InputConfig, MidiConfig,
    MidiConfigView, ModulationConfig, OscConfig, OscConfigView, PerturbationConfig, PerturbationKindConfig,
    PhysicsConfig, QuantizeConfig, Scale, WallConfig, WallMidiConfig, WallMidiConfigView, BITS_0_3, BITS_0_5,
    BITS_FIVE, BITS_INFINITY, BITS_NEG_INFINITY, BITS_NEG_ZERO, BITS_THREE, BITS_TWO, BITS_ZERO,
};
use crate::text::{case_folded, concat2, concat3, str_eq, to_lowercase};

verus! {

// --- OSC ---------------------------------------------------------------------

pub open spec fn spec_build_osc(section: Option<OscSection>) -> OscConfigView {
    let d = default_osc();
    match section {
        Some(s) => OscConfigView {
            listen_port: s.listen_port,
            send_address: crate::config::opt_string_view(s.send_address),
            state_rate_hz: s.state_rate_hz.unwrap_or(d.state_rate_hz),
            state_spins_rate_hz: s.state_spins_rate_hz.unwrap_or(d.state_spins_rate_hz),
            enable_state: s.enable_state.unwrap_or(d.enable_state),
        },
        None => d,
    }
}

fn copy_opt_string(s: &Option<String>) -> (r: Option<String>)
    ensures
        crate::config::opt_string_view(r) == crate::config::opt_string_view(*s),
{
    match s {
        Some(t) => Some(String::from_str(t.as_str())),
        None => None,
    }
}

/// The OSC settings: the section's values, defaults where absent.
pub fn build_osc(section: &Option<OscSection>) -> (r: OscConfig)
    ensures
        r@ == spec_build_osc(*section),
{
    let defaults = OscConfig::default();
    match section {
        Some(s) => OscConfig {
            listen_port: s.listen_port,
            send_address: copy_opt_string(&s.send_address),
            state_rate_hz: match s.state_rate_hz {
                Some(v) => v,
                None => defaults.state_rate_hz,
            },
            state_spins_rate_hz: match s.state_spins_rate_hz {
                Some(v) => v,
                None => defaults.state_spins_rate_hz,
            },
            enable_state: match s.enable_state {
                Some(v) => v,
                None => defaults.enable_state,
            },
        },
        None => defaults,
    }
}

// --- Physics -----------------------------------------------------------------

/// The encoding of `x.clamp(0.0, hi)` for the real `x` encoded by `bits`,
/// where `hi` encodes a positive finite real. Encodings order like the
/// reals they encode within each sign: a negative value (sign bit set,
/// up to the encoding of negative infinity) becomes 0.0; a non-negative
/// value above `hi` (up to infinity) becomes `hi`; negative zero and NaN
/// encodings are left as they are, as `f64::clamp` leaves them.
pub open spec fn clamp_to_bits(bits: FloatBits, hi: FloatBits) -> FloatBits {
    if bits == BITS_NEG_ZERO || bits > BITS_NEG_INFINITY || (BITS_INFINITY < bits && bits < BITS_NEG_ZERO) {
        bits
    } else if bits > BITS_NEG_ZERO {
        BITS_ZERO
    } else if bits > hi {
        hi
    } else {
        bits
    }
}

/// Clamps the real encoded by `bits` into `0.0..=hi` (see `clamp_to_bits`).
pub fn clamp_bits(bits: FloatBits, hi: FloatBits) -> (r: FloatBits)
    ensures
        r == clamp_to_bits(bits, hi),
{
    if bits == BITS_NEG_ZERO || bits > BITS_NEG_INFINITY || (BITS_INFINITY < bits && bits < BITS_NEG_ZERO) {
        bits
    } else if bits > BITS_NEG_ZERO {
        BITS_ZERO
    } else if bits > hi {
        hi
    } else {
        bits
    }
}

pub open spec fn spec_build_physics(section: Option<PhysicsSection>) -> PhysicsConfig {
    let d = default_physics();
    match section {
        None => d,
        Some(s) => PhysicsConfig {
            kt: clamp_to_bits(s.kt.unwrap_or(d.kt), BITS_TWO),
            eps: clamp_to_bits(s.eps.unwrap_or(d.eps), BITS_0_5),
            j: clamp_to_bits(s.j.unwrap_or(d.j), BITS_THREE),
            w: clamp_to_bits(s.w.unwrap_or(d.w), BITS_FIVE),
            n_sites: s.n_sites.unwrap_or(d.n_sites),
            ticks_per_period: s.ticks_per_period.unwrap_or(d.ticks_per_period),
            dt: s.dt.unwrap_or(d.dt),
            kick_angle: s.kick_angle.unwrap_or(d.kick_angle),
        },
    }
}

/// The simulation parameters: the section's values, defaults where absent,
/// with the targets kt, eps, j and w clamped into their operating ranges
/// 0.0..=2.0, 0.0..=0.5, 0.0..=3.0 and 0.0..=5.0.
pub fn build_physics(section: Option<PhysicsSection>) -> (r: PhysicsConfig)
    ensures
        r == spec_build_physics(section),
{
    let d = PhysicsConfig::default();
    match section {
        None => d,
        Some(s) => PhysicsConfig {
            kt: clamp_bits(match s.kt { Some(v) => v, None => d.kt }, BITS_TWO),
            eps: clamp_bits(match s.eps { Some(v) => v, None => d.eps }, BITS_0_5),
            j: clamp_bits(match s.j { Some(v) => v, None => d.j }, BITS_THREE),
            w: clamp_bits(match s.w { Some(v) => v, None => d.w }, BITS_FIVE),
            n_sites: match s.n_sites { Some(v) => v, None => d.n_sites },
            ticks_per_period: match s.ticks_per_period { Some(v) => v, None => d.ticks_per_period },
            dt: match s.dt { Some(v) => v, None => d.dt },
            kick_angle: match s.kick_angle { Some(v) => v, None => d.kick_angle },
        },
    }
}

// --- Input -------------------------------------------------------------------

/// The axis named by an already case-folded text.
pub open spec fn spec_axis_from_lowercase(lowered: Seq<char>) -> Result<Axis, ValidationErrorView> {
    if lowered == "x"@ {
        Ok(Axis::X)
    } else if lowered == "y"@ {
        Ok(Axis::Y)
    } else if lowered == "z"@ {
        Ok(Axis::Z)
    } else {
        Err(ValidationErrorView::UnknownAxis { got: lowered })
    }
}

/// The axis named by `s`, in any letter case.
pub open spec fn spec_parse_axis(s: Seq<char>) -> Result<Axis, ValidationErrorView> {
    spec_axis_from_lowercase(case_folded(s))
}

/// The axis that an already case-folded name denotes.
pub fn axis_from_lowercase(lowered: &str) -> (r: Result<Axis, ValidationError>)
    ensures
        result_view(r) == spec_axis_from_lowercase(lowered@),
{
    if str_eq(lowered, "x") {
        Ok(Axis::X)
    } else if str_eq(lowered, "y") {
        Ok(Axis::Y)
    } else if str_eq(lowered, "z") {
        Ok(Axis::Z)
    } else {
        Err(ValidationError::UnknownAxis { got: String::from_str(lowered) })
    }
}

/// The axis that `s` names, in any letter case: x, y or z.
pub fn parse_axis(s: &str) -> (r: Result<Axis, ValidationError>)
    ensures
        result_view(r) == spec_parse_axis(s@),
{
    let lowered = to_lowercase(s);
    axis_from_lowercase(lowered.as_str())
}

/// The perturbation that an already case-folded kind denotes, with the
/// axis text and magnitude that rotate and field_spike use.
pub open spec fn spec_perturbation_kind(lowered: Seq<char>, axis: Seq<char>, magnitude: Option<FloatBits>) -> Result<
    PerturbationKindConfig,
    ValidationErrorView,
> {
    if lowered == "flip"@ {
        Ok(PerturbationKindConfig::Flip)
    } else if lowered == "rotate"@ {
        match spec_parse_axis(axis) {
            Ok(a) => Ok(PerturbationKindConfig::Rotate { axis: a, base_angle: magnitude.unwrap_or(BITS_0_3) }),
            Err(e) => Err(e),
        }
    } else if lowered == "field_spike"@ {
        match spec_parse_axis(axis) {
            Ok(a) => Ok(PerturbationKindConfig::FieldSpike { axis: a, base_magnitude: magnitude.unwrap_or(BITS_0_5) }),
            Err(e) => Err(e),
        }
    } else {
        Err(ValidationErrorView::UnknownPerturbationKind { got: lowered })
    }
}

/// The perturbation that an already case-folded kind name denotes.
pub fn perturbation_kind_from_lowercase(lowered: &str, axis: &str, magnitude: Option<FloatBits>) -> (r: Result<
    PerturbationKindConfig,
    ValidationError,
>)
    ensures
        result_view(r) == spec_perturbation_kind(lowered@, axis@, magnitude),
{
    if str_eq(lowered, "flip") {
        Ok(PerturbationKindConfig::Flip)
    } else if str_eq(lowered, "rotate") {
        let a = parse_axis(axis)?;
        Ok(PerturbationKindConfig::Rotate { axis: a, base_angle: match magnitude { Some(m) => m, None => BITS_0_3 } })
    } else if str_eq(lowered, "field_spike") {
        let a = parse_axis(axis)?;
        Ok(PerturbationKindConfig::FieldSpike { axis: a, base_magnitude: match magnitude { Some(m) => m, None => BITS_0_5 } })
    } else {
        Err(ValidationError::UnknownPerturbationKind { got: String::from_str(lowered) })
    }
}

pub open spec fn opt_text(s: Option<String>, absent: Seq<char>) -> Seq<char> {
    match s {
        Some(t) => t@,
        None => absent,
    }
}

pub open spec fn spec_build_input(section: Option<InputSection>) -> Result<Option<InputConfig>, ValidationErrorView> {
    match section {
        None => Ok(None),
        Some(s) => {
            let d = default_perturbation();
            let (base_note, velocity_scale, kind, axis, magnitude) = match s.perturbation {
                Some(p) => (p.base_note, p.velocity_scale, p.kind, p.axis, p.magnitude),
                None => (None, None, None, None, None),
            };
            match spec_perturbation_kind(case_folded(opt_text(kind, "rotate"@)), opt_text(axis, "x"@), magnitude) {
                Err(e) => Err(e),
                Ok(k) => Ok(
                    Some(
                        InputConfig {
                            perturbation: PerturbationConfig {
                                base_note: base_note.unwrap_or(d.base_note),
                                kind: k,
                                velocity_scale: velocity_scale.unwrap_or(d.velocity_scale),
                            },
                        },
                    ),
                ),
            }
        },
    }
}

/// The MIDI input settings: absent without an `[input]` section; otherwise
/// the perturbation it describes ("rotate" about "x" when unspecified).
pub fn build_input(section: &Option<InputSection>) -> (r: Result<Option<InputConfig>, ValidationError>)
    ensures
        result_view(r) == spec_build_input(*section),
{
    let s = match section {
        None => return Ok(None),
        Some(s) => s,
    };
    let d = PerturbationConfig::default();
    let (base_note, velocity_scale, magnitude) = match &s.perturbation {
        Some(p) => (p.base_note, p.velocity_scale, p.magnitude),
        None => (None, None, None),
    };
    let kind_text: &str = match &s.perturbation {
        Some(p) => match &p.kind {
            Some(k) => k.as_str(),
            None => "rotate",
        },
        None => "rotate",
    };
    let axis_text: &str = match &s.perturbation {
        Some(p) => match &p.axis {
            Some(a) => a.as_str(),
            None => "x",
        },
        None => "x",
    };
    let lowered = to_lowercase(kind_text);
    let kind = perturbation_kind_from_lowercase(lowered.as_str(), axis_text, magnitude)?;
    Ok(
        Some(
            InputConfig {
                perturbation: PerturbationConfig {
                    base_note: match base_note { Some(b) => b, None => d.base_note },
                    kind,
                    velocity_scale: match velocity_scale { Some(v) => v, None => d.velocity_scale },
                },
            },
        ),
    )
}

// --- Coupling ----------------------------------------------------------------

/// Whether the real number encoded by `bits` lies in `0.0..=2.0`: the
/// encodings of the non-negative reals up to 2.0 are the integers up to
/// that of 2.0, and negative zero compares equal to 0.0; NaN encodings lie
/// above that of infinity and never qualify.
pub open spec fn within_zero_to_two(bits: FloatBits) -> bool {
    bits <= BITS_TWO || bits == BITS_NEG_ZERO
}

/// The coupling shape that an already case-folded name denotes.
pub open spec fn spec_shape_from_lowercase(lowered: Seq<char>) -> Result<CouplingShape, ValidationErrorView> {
    if lowered == "mean_field_z"@ {
        Ok(CouplingShape::MeanFieldZ)
    } else if lowered == "site_paired"@ {
        Ok(CouplingShape::SitePaired)
    } else if lowered == "shared_drive"@ {
        Ok(CouplingShape::SharedDrive)
    } else {
        Err(ValidationErrorView::UnknownCouplingShape { got: lowered })
    }
}

/// The coupling shape an already case-folded name denotes.
pub fn coupling_shape_from_lowercase(lowered: &str) -> (r: Result<CouplingShape, ValidationError>)
    ensures
        result_view(r) == spec_shape_from_lowercase(lowered@),
{
    if str_eq(lowered, "mean_field_z") {
        Ok(CouplingShape::MeanFieldZ)
    } else if str_eq(lowered, "site_paired") {
        Ok(CouplingShape::SitePaired)
    } else if str_eq(lowered, "shared_drive") {
        Ok(CouplingShape::SharedDrive)
    } else {
        Err(ValidationError::UnknownCouplingShape { got: String::from_str(lowered) })
    }
}

/// Whether a name, once case-folded, denotes a coupling shape.
pub open spec fn lowercase_is_shape(name: Seq<char>) -> bool {
    spec_shape_from_lowercase(case_folded(name)) is Ok
}

/// The two strengths once shape and exclusivity are settled:
/// `strength` sets both, otherwise each directional one, 0.0 when absent.
pub open spec fn resolved_strengths(s: CouplingSection) -> (FloatBits, FloatBits) {
    match s.strength {
        Some(g) => (g, g),
        None => (s.strength_ab.unwrap_or(BITS_ZERO), s.strength_ba.unwrap_or(BITS_ZERO)),
    }
}

pub open spec fn spec_build_coupling(section: Option<CouplingSection>) -> Result<Option<CouplingConfig>, ValidationErrorView> {
    match section {
        None => Ok(None),
        Some(s) => match spec_shape_from_lowercase(case_folded(s.shape@)) {
            Err(e) => Err(e),
            Ok(shape) => if s.strength is Some && (s.strength_ab is Some || s.strength_ba is Some) {
                Err(ValidationErrorView::CouplingStrengthConflict)
            } else {
                let (ab, ba) = resolved_strengths(s);
                if !within_zero_to_two(ab) {
                    Err(ValidationErrorView::CouplingStrengthOutOfRange { field: StrengthField::Ab, value: ab })
                } else if !within_zero_to_two(ba) {
                    Err(ValidationErrorView::CouplingStrengthOutOfRange { field: StrengthField::Ba, value: ba })
                } else {
                    Ok(Some(CouplingConfig { shape, strength_ab: ab, strength_ba: ba }))
                }
            },
        },
    }
}

/// The inter-chain coupling: absent without a `[coupling]` section;
/// otherwise its shape (any letter case) and strengths, each in 0.0..=2.0.
pub fn build_coupling(section: &Option<CouplingSection>) -> (r: Result<Option<CouplingConfig>, ValidationError>)
    ensures
        result_view(r) == spec_build_coupling(*section),
{
    let s = match section {
        None => return Ok(None),
        Some(s) => s,
    };
    let lowered = to_lowercase(s.shape.as_str());
    let shape = coupling_shape_from_lowercase(lowered.as_str())?;
    let has_combined = s.strength.is_some();
    let has_split = s.strength_ab.is_some() || s.strength_ba.is_some();
    if has_combined && has_split {
        return Err(ValidationError::CouplingStrengthConflict);
    }
    let (strength_ab, strength_ba) = match s.strength {
        Some(g) => (g, g),
        None => (
            match s.strength_ab { Some(v) => v, None => BITS_ZERO },
            match s.strength_ba { Some(v) => v, None => BITS_ZERO },
        ),
    };
    if !(strength_ab <= BITS_TWO || strength_ab == BITS_NEG_ZERO) {
        return Err(ValidationError::CouplingStrengthOutOfRange { field: StrengthField::Ab, value: strength_ab });
    }
    if !(strength_ba <= BITS_TWO || strength_ba == BITS_NEG_ZERO) {
        return Err(ValidationError::CouplingStrengthOutOfRange { field: StrengthField::Ba, value: strength_ba });
    }
    Ok(Some(CouplingConfig { shape, strength_ab, strength_ba }))
}


// --- Gate voices -------------------------------------------------------------

/// Channel and optional pitch of a gate voice entry.
pub open spec fn gate_entry_parts(e: GateVoiceEntry) -> (u8, Option<u8>) {
    match e {
        GateVoiceEntry::ChannelOnly(c) => (c, None),
        GateVoiceEntry::Full { channel, pitch } => (channel, pitch),
    }
}

/// Pitch of a gate voice at site `idx`: as written, else the default
/// table's entry for that site, else 48.
pub open spec fn gate_pitch(idx: usize, pitch: Option<u8>) -> u8 {
    match pitch {
        Some(p) => p,
        None => if idx < default_voice_pitches().len() {
            default_voice_pitches()[idx as int]
        } else {
            48
        },
    }
}

/// Name of a gate voice: `<chain>.gates.<key>`.
pub open spec fn gate_label(chain: Seq<char>, key: Seq<char>) -> Seq<char> {
    chain + ".gates."@ + key
}

/// A resolved gate voice: 0-based channel, pitch, and name.
pub struct GateVoice {
    pub channel: u8,
    pub pitch: u8,
    pub label: Seq<char>,
}

/// Resolved gate voices in slot order, or the error of the first voice
/// with a bad channel or a pitch above 127.
pub open spec fn spec_gate_voices(
    entries: Seq<VoiceEntry<GateVoiceEntry>>,
    chain: Seq<char>,
    slots: Seq<VoiceSlot>,
) -> Result<Seq<GateVoice>, ValidationErrorView>
    decreases slots.len(),
{
    if slots.len() == 0 {
        Ok(Seq::empty())
    } else {
        match spec_gate_voices(entries, chain, slots.drop_last()) {
            Err(e) => Err(e),
            Ok(v) => {
                let slot = slots.last();
                let e = entries[slot.position as int];
                let (c, p) = gate_entry_parts(e.value);
                let label = gate_label(chain, e.key@);
                match spec_channel(c, label) {
                    Err(x) => Err(x),
                    Ok(c0) => {
                        let pitch = gate_pitch(slot.index, p);
                        if pitch > 127 {
                            Err(ValidationErrorView::GatePitchOutOfRange { label, got: pitch })
                        } else {
                            Ok(v.push(GateVoice { channel: c0, pitch, label }))
                        }
                    },
                }
            },
        }
    }
}

proof fn lemma_gate_voices_err_extends(
    entries: Seq<VoiceEntry<GateVoiceEntry>>,
    chain: Seq<char>,
    slots: Seq<VoiceSlot>,
    i: int,
)
    requires
        0 <= i <= slots.len(),
        spec_gate_voices(entries, chain, slots.take(i)) is Err,
    ensures
        spec_gate_voices(entries, chain, slots) == spec_gate_voices(entries, chain, slots.take(i)),
    decreases slots.len() - i,
{
    if i == slots.len() {
        assert(slots.take(i) =~= slots);
    } else {
        assert(slots.take(i + 1).drop_last() =~= slots.take(i));
        lemma_gate_voices_err_extends(entries, chain, slots, i + 1);
    }
}

/// Resolved gate channels are 0-based channels, below 16, and their
/// pitches lie in 0..=127.
pub proof fn lemma_gate_voices_channels(
    entries: Seq<VoiceEntry<GateVoiceEntry>>,
    chain: Seq<char>,
    slots: Seq<VoiceSlot>,
)
    ensures
        spec_gate_voices(entries, chain, slots) matches Ok(v) ==> (forall|i: int| 0 <= i < v.len() ==> (#[trigger] v[i]).channel < 16 && v[i].pitch <= 127),
    decreases slots.len(),
{
    if slots.len() > 0 {
        lemma_gate_voices_channels(entries, chain, slots.drop_last());
    }
}

/// Whether a voice before position `k` of `v` uses channel `c`.
pub open spec fn channel_used_before(v: Seq<GateVoice>, k: int, c: u8) -> bool {
    exists|i: int| 0 <= i < k && (#[trigger] v[i]).channel == c
}

/// The channel claims of a chain's gate voices: voices that share a
/// channel play it monophonically, so each channel is claimed once, in the
/// name of the first voice (in site order) that uses it.
pub open spec fn gate_claims(v: Seq<GateVoice>) -> Seq<ChannelClaimView>
    decreases v.len(),
{
    if v.len() == 0 {
        Seq::empty()
    } else {
        let p = gate_claims(v.drop_last());
        if channel_used_before(v, v.len() - 1, v.last().channel) {
            p
        } else {
            p.push(ChannelClaimView { channel: v.last().channel, label: v.last().label })
        }
    }
}

pub open spec fn spec_build_midi(g: GatesSection, chain: Seq<char>) -> Result<
    (MidiConfigView, Seq<ChannelClaimView>),
    ValidationErrorView,
> {
    match spec_voice_slots(voice_keys(g.voices@), chain + ".gates"@) {
        Err(e) => Err(e),
        Ok(slots) => if slots.len() == 0 {
            Err(ValidationErrorView::NoGateVoices { chain })
        } else {
            match spec_gate_voices(g.voices@, chain, slots) {
                Err(e) => Err(e),
                Ok(v) => Ok(
                    (
                        MidiConfigView {
                            voice_channels: v.map_values(|x: GateVoice| x.channel),
                            voice_pitches: v.map_values(|x: GateVoice| x.pitch),
                            gate_length_ms: g.gate_length_ms.unwrap_or(default_midi().gate_length_ms),
                        },
                        gate_claims(v),
                    ),
                ),
            }
        },
    }
}

/// Gate voices of a chain, sorted by site, each with a pitch in 0..=127,
/// and the channels they claim: one claim per channel, named
/// `<chain>.gates.<key>` after the first voice on it.
pub fn build_midi(section: &GatesSection, chain_label: &str) -> (r: Result<(MidiConfig, Vec<ChannelClaim>), ValidationError>)
    ensures
        match r {
            Ok((m, c)) => spec_build_midi(*section, chain_label@) == Ok::<(MidiConfigView, Seq<ChannelClaimView>), ValidationErrorView>((m@, claims_view(c@))),
            Err(e) => spec_build_midi(*section, chain_label@) == Err::<(MidiConfigView, Seq<ChannelClaimView>), ValidationErrorView>(e@),
        },
{
    let defaults = MidiConfig::default();
    let section_label = concat2(chain_label, ".gates");
    let sorted = parse_voice_indices(&section.voices, section_label.as_str())?;
    if sorted.len() == 0 {
        return Err(ValidationError::NoGateVoices { chain: String::from_str(chain_label) });
    }
    let ghost entries = section.voices@;
    let ghost chain = chain_label@;
    let n = sorted.len();
    let mut voice_channels: Vec<u8> = Vec::with_capacity(n);
    let mut voice_pitches: Vec<u8> = Vec::with_capacity(n);
    let mut claims: Vec<ChannelClaim> = Vec::with_capacity(n);
    let ghost mut v: Seq<GateVoice> = Seq::empty();
    let mut k: usize = 0;
    while k < n
        invariant
            k <= n,
            n == sorted@.len(),
            entries == section.voices@,
            chain == chain_label@,
            defaults@ == default_midi(),
            spec_voice_slots(voice_keys(entries), chain + ".gates"@) == Ok::<Seq<VoiceSlot>, ValidationErrorView>(sorted@),
            forall|i: int| 0 <= i < n ==> (#[trigger] sorted@[i]).position < entries.len(),
            spec_gate_voices(entries, chain, sorted@.take(k as int)) == Ok::<Seq<GateVoice>, ValidationErrorView>(v),
            v.len() == k,
            voice_channels@ == v.map_values(|x: GateVoice| x.channel),
            voice_pitches@ == v.map_values(|x: GateVoice| x.pitch),
            claims_view(claims@) == gate_claims(v),
        decreases n - k,
    {
        let slot = sorted[k];
        let entry = &section.voices[slot.position];
        let (channel_1b, pitch) = match entry.value {
            GateVoiceEntry::ChannelOnly(c) => (c, None),
            GateVoiceEntry::Full { channel, pitch } => (channel, pitch),
        };
        let label = concat3(chain_label, ".gates.", entry.key.as_str());
        proof {
            assert(sorted@.take(k + 1).drop_last() =~= sorted@.take(k as int));
            assert(sorted@.take(k + 1).last() == slot);
        }
        let channel_0b = match validate_channel_1based(channel_1b, label.as_str()) {
            Ok(c) => c,
            Err(e) => {
                proof {
                    lemma_gate_voices_err_extends(entries, chain, sorted@, k + 1);
                }
                return Err(e);
            },
        };
        let pitch = match pitch {
            Some(p) => p,
            None => if slot.index < defaults.voice_pitches.len() {
                defaults.voice_pitches[slot.index]
            } else {
                48
            },
        };
        if pitch > 127 {
            proof {
                lemma_gate_voices_err_extends(entries, chain, sorted@, k + 1);
            }
            return Err(ValidationError::GatePitchOutOfRange { label, got: pitch });
        }
        let mut used = false;
        let mut j: usize = 0;
        while j < k
            invariant
                j <= k,
                k == v.len(),
                voice_channels@ == v.map_values(|x: GateVoice| x.channel),
                used == channel_used_before(v, j as int, channel_0b),
            decreases k - j,
        {
            if voice_channels[j] == channel_0b {
                used = true;
            }
            proof {
                if voice_channels@[j as int] == channel_0b {
                    assert(v[j as int].channel == channel_0b);
                }
                if channel_used_before(v, j + 1, channel_0b) && !channel_used_before(v, j as int, channel_0b) {
                    let i = choose|i: int| 0 <= i < j + 1 && (#[trigger] v[i]).channel == channel_0b;
                    assert(i == j);
                }
            }
            j += 1;
        }
        let ghost gv = GateVoice { channel: channel_0b, pitch, label: label@ };
        let ghost old_claims = claims@;
        let ghost old_v = v;
        voice_channels.push(channel_0b);
        voice_pitches.push(pitch);
        if !used {
            claims.push(ChannelClaim { channel: channel_0b, label });
        }
        proof {
            v = v.push(gv);
            assert(v.drop_last() =~= old_v);
            assert(channel_used_before(v, k as int, channel_0b) == channel_used_before(old_v, k as int, channel_0b)) by {
                if channel_used_before(v, k as int, channel_0b) {
                    let i = choose|i: int| 0 <= i < k && (#[trigger] v[i]).channel == channel_0b;
                    assert(old_v[i] == v[i]);
                }
                if channel_used_before(old_v, k as int, channel_0b) {
                    let i = choose|i: int| 0 <= i < k && (#[trigger] old_v[i]).channel == channel_0b;
                    assert(old_v[i] == v[i]);
                }
            }
            assert(voice_channels@ =~= v.map_values(|x: GateVoice| x.channel));
            assert(voice_pitches@ =~= v.map_values(|x: GateVoice| x.pitch));
            if !used {
                let cm = gate_claims(v);
                assert(cm == gate_claims(old_v).push(ChannelClaimView { channel: channel_0b, label: label@ }));
                assert forall|i: int| 0 <= i < claims@.len() implies claims_view(claims@)[i] == cm[i] by {
                    if i < old_claims.len() {
                        assert(claims@[i] == old_claims[i]);
                        assert(claims_view(old_claims)[i] == old_claims[i]@);
                    }
                }
                assert(claims_view(claims@) =~= cm);
            }
        }
        k += 1;
    }
    assert(sorted@.take(n as int) =~= sorted@);
    let midi = MidiConfig {
        voice_channels,
        voice_pitches,
        gate_length_ms: match section.gate_length_ms {
            Some(g) => g,
            None => defaults.gate_length_ms,
        },
    };
    Ok((midi, claims))
}


// --- Walls -------------------------------------------------------------------

/// Name of a wall voice: `<chain>.walls.<key>`.
pub open spec fn wall_label(chain: Seq<char>, key: Seq<char>) -> Seq<char> {
    chain + ".walls."@ + key
}

/// The wall channel claims in slot order, or the error of the first bad
/// channel.
pub open spec fn spec_wall_claims(
    entries: Seq<VoiceEntry<WallVoiceEntry>>,
    chain: Seq<char>,
    slots: Seq<VoiceSlot>,
) -> Result<Seq<ChannelClaimView>, ValidationErrorView>
    decreases slots.len(),
{
    if slots.len() == 0 {
        Ok(Seq::empty())
    } else {
        match spec_wall_claims(entries, chain, slots.drop_last()) {
            Err(e) => Err(e),
            Ok(v) => {
                let e = entries[slots.last().position as int];
                let c = match e.value {
                    WallVoiceEntry::Channel(c) => c,
                };
                let label = wall_label(chain, e.key@);
                match spec_channel(c, label) {
                    Err(x) => Err(x),
                    Ok(c0) => Ok(v.push(ChannelClaimView { channel: c0, label })),
                }
            },
        }
    }
}

proof fn lemma_wall_claims_err_extends(
    entries: Seq<VoiceEntry<WallVoiceEntry>>,
    chain: Seq<char>,
    slots: Seq<VoiceSlot>,
    i: int,
)
    requires
        0 <= i <= slots.len(),
        spec_wall_claims(entries, chain, slots.take(i)) is Err,
    ensures
        spec_wall_claims(entries, chain, slots) == spec_wall_claims(entries, chain, slots.take(i)),
    decreases slots.len() - i,
{
    if i == slots.len() {
        assert(slots.take(i) =~= slots);
    } else {
        assert(slots.take(i + 1).drop_last() =~= slots.take(i));
        lemma_wall_claims_err_extends(entries, chain, slots, i + 1);
    }
}

/// The motion CC: 0 disables it, 1..=127 selects it, absent keeps the default.
pub open spec fn spec_motion_cc(chain: Seq<char>, motion_cc: Option<u8>) -> Result<Option<u8>, ValidationErrorView> {
    match motion_cc {
        Some(n) => if n == 0 {
            Ok(None)
        } else if n <= 127 {
            Ok(Some(n))
        } else {
            Err(ValidationErrorView::MotionCcOutOfRange { chain, got: n })
        },
        None => Ok(default_wall_midi().motion_cc),
    }
}

pub open spec fn spec_build_walls(section: Option<WallsSection>, chain: Seq<char>) -> Result<
    (WallConfig, WallMidiConfigView, Seq<ChannelClaimView>),
    ValidationErrorView,
> {
    let d = default_wall_midi();
    match section {
        None => Ok(
            (WallConfig { enabled: false }, WallMidiConfigView { channels: Seq::empty(), ..d }, Seq::empty()),
        ),
        Some(s) => match spec_voice_slots(voice_keys(s.voices@), chain + ".walls"@) {
            Err(e) => Err(e),
            Ok(slots) => match spec_wall_claims(s.voices@, chain, slots) {
                Err(e) => Err(e),
                Ok(claims) => match spec_motion_cc(chain, s.motion_cc) {
                    Err(e) => Err(e),
                    Ok(motion_cc) => {
                        let low = s.pitch_low.unwrap_or(d.pitch_low);
                        let high = s.pitch_high.unwrap_or(d.pitch_high);
                        if low > 127 || high > 127 {
                            Err(ValidationErrorView::WallPitchOutOfRange { chain, low, high })
                        } else if low > high {
                            Err(ValidationErrorView::WallPitchOrder { chain, low, high })
                        } else {
                            Ok(
                                (
                                    WallConfig { enabled: claims.len() > 0 },
                                    WallMidiConfigView {
                                        channels: claims.map_values(|c: ChannelClaimView| c.channel),
                                        pitch_low: low,
                                        pitch_high: high,
                                        motion_cc,
                                        repitch_on_move: s.repitch_on_move.unwrap_or(d.repitch_on_move),
                                    },
                                    claims,
                                ),
                            )
                        }
                    },
                },
            },
        },
    }
}

/// The wall voices of a chain: disabled without a walls section; otherwise
/// one channel per `voice_N` entry in index order (each claimed as
/// `<chain>.walls.<key>`), the pitch range and the motion CC.
pub fn build_walls(section: &Option<WallsSection>, chain_label: &str) -> (r: Result<
    (WallConfig, WallMidiConfig, Vec<ChannelClaim>),
    ValidationError,
>)
    ensures
        match r {
            Ok((w, m, c)) => spec_build_walls(*section, chain_label@) == Ok::<(WallConfig, WallMidiConfigView, Seq<ChannelClaimView>), ValidationErrorView>((w, m@, claims_view(c@))),
            Err(e) => spec_build_walls(*section, chain_label@) == Err::<(WallConfig, WallMidiConfigView, Seq<ChannelClaimView>), ValidationErrorView>(e@),
        },
{
    let wall_defaults = WallConfig::default();
    let midi_defaults = WallMidiConfig::default();
    let s = match section {
        None => {
            let claims: Vec<ChannelClaim> = Vec::new();
            let r = (
                WallConfig { enabled: false },
                WallMidiConfig {
                    channels: Vec::new(),
                    pitch_low: midi_defaults.pitch_low,
                    pitch_high: midi_defaults.pitch_high,
                    motion_cc: midi_defaults.motion_cc,
                    repitch_on_move: midi_defaults.repitch_on_move,
                },
                claims,
            );
            assert(claims_view(r.2@) =~= Seq::<ChannelClaimView>::empty());
            assert(r.1@ =~= (WallMidiConfigView { channels: Seq::empty(), ..default_wall_midi() }));
            return Ok(r);
        },
        Some(s) => s,
    };
    let section_label = concat2(chain_label, ".walls");
    let sorted = parse_voice_indices(&s.voices, section_label.as_str())?;
    let ghost entries = s.voices@;
    let ghost chain = chain_label@;
    let n = sorted.len();
    let mut channels: Vec<u8> = Vec::with_capacity(n);
    let mut claims: Vec<ChannelClaim> = Vec::with_capacity(n);
    let ghost mut v: Seq<ChannelClaimView> = Seq::empty();
    let mut k: usize = 0;
    while k < n
        invariant
            k <= n,
            n == sorted@.len(),
            entries == s.voices@,
            chain == chain_label@,
            *section == Some(*s),
            spec_voice_slots(voice_keys(entries), chain + ".walls"@) == Ok::<Seq<VoiceSlot>, ValidationErrorView>(sorted@),
            forall|i: int| 0 <= i < n ==> (#[trigger] sorted@[i]).position < entries.len(),
            spec_wall_claims(entries, chain, sorted@.take(k as int)) == Ok::<Seq<ChannelClaimView>, ValidationErrorView>(v),
            v.len() == k,
            claims@.len() == k,
            channels@ == v.map_values(|c: ChannelClaimView| c.channel),
            claims_view(claims@) == v,
        decreases n - k,
    {
        let slot = sorted[k];
        let entry = &s.voices[slot.position];
        let c = match entry.value {
            WallVoiceEntry::Channel(c) => c,
        };
        let label = concat3(chain_label, ".walls.", entry.key.as_str());
        proof {
            assert(sorted@.take(k + 1).drop_last() =~= sorted@.take(k as int));
            assert(sorted@.take(k + 1).last() == slot);
        }
        let channel_0b = match validate_channel_1based(c, label.as_str()) {
            Ok(c) => c,
            Err(e) => {
                proof {
                    lemma_wall_claims_err_extends(entries, chain, sorted@, k + 1);
                }
                return Err(e);
            },
        };
        let ghost cv = ChannelClaimView { channel: channel_0b, label: label@ };
        let ghost old_claims = claims@;
        channels.push(channel_0b);
        claims.push(ChannelClaim { channel: channel_0b, label });
        proof {
            v = v.push(cv);
            assert(channels@ =~= v.map_values(|c: ChannelClaimView| c.channel));
            assert forall|i: int| 0 <= i < claims@.len() implies claims_view(claims@)[i] == v[i] by {
                if i < k {
                    assert(claims@[i] == old_claims[i]);
                    assert(claims_view(old_claims)[i] == old_claims[i]@);
                }
            }
            assert(claims_view(claims@) =~= v);
        }
        k += 1;
    }
    assert(sorted@.take(n as int) =~= sorted@);
    let motion_cc = match s.motion_cc {
        Some(m) => if m == 0 {
            None
        } else if m <= 127 {
            Some(m)
        } else {
            return Err(ValidationError::MotionCcOutOfRange { chain: String::from_str(chain_label), got: m });
        },
        None => midi_defaults.motion_cc,
    };
    let pitch_low = match s.pitch_low {
        Some(p) => p,
        None => midi_defaults.pitch_low,
    };
    let pitch_high = match s.pitch_high {
        Some(p) => p,
        None => midi_defaults.pitch_high,
    };
    if pitch_low > 127 || pitch_high > 127 {
        return Err(ValidationError::WallPitchOutOfRange { chain: String::from_str(chain_label), low: pitch_low, high: pitch_high });
    }
    if pitch_low > pitch_high {
        return Err(ValidationError::WallPitchOrder { chain: String::from_str(chain_label), low: pitch_low, high: pitch_high });
    }
    let enabled = channels.len() > 0;
    let wall_midi = WallMidiConfig {
        channels,
        pitch_low,
        pitch_high,
        motion_cc,
        repitch_on_move: match s.repitch_on_move {
            Some(b) => b,
            None => midi_defaults.repitch_on_move,
        },
    };
    let walls = WallConfig { enabled, ..wall_defaults };
    Ok((walls, wall_midi, claims))
}

// --- Clock -------------------------------------------------------------------

pub open spec fn spec_build_clock(section: ClockSection, chain: Seq<char>) -> Result<ClockConfig, ValidationErrorView> {
    let d = default_clock();
    match spec_channel(section.channel, chain + ".clock.channel"@) {
        Err(e) => Err(e),
        Ok(c) => if section.pitch.unwrap_or(d.pitch) > 127 {
            Err(ValidationErrorView::ClockPitchOutOfRange { chain, got: section.pitch.unwrap_or(d.pitch) })
        } else {
            Ok(
                ClockConfig {
                    enabled: section.enabled.unwrap_or(d.enabled),
                    channel: c,
                    pitch: section.pitch.unwrap_or(d.pitch),
                    crossing_threshold: d.crossing_threshold,
                    debounce_ticks: d.debounce_ticks,
                    gate_length_ms: section.gate_length_ms.unwrap_or(d.gate_length_ms),
                },
            )
        },
    }
}

/// The chain clock: its channel (1..=16 in the file), its pitch
/// (0..=127) and defaults.
pub fn build_clock(section: &ClockSection, chain_label: &str) -> (r: Result<ClockConfig, ValidationError>)
    ensures
        result_view(r) == spec_build_clock(*section, chain_label@),
{
    let defaults = ClockConfig::default();
    let label = concat2(chain_label, ".clock.channel");
    let channel_0b = validate_channel_1based(section.channel, label.as_str())?;
    let pitch = match section.pitch { Some(p) => p, None => defaults.pitch };
    if pitch > 127 {
        return Err(ValidationError::ClockPitchOutOfRange { chain: String::from_str(chain_label), got: pitch });
    }
    Ok(ClockConfig {
        enabled: match section.enabled { Some(b) => b, None => defaults.enabled },
        channel: channel_0b,
        pitch,
        crossing_threshold: defaults.crossing_threshold,
        debounce_ticks: defaults.debounce_ticks,
        gate_length_ms: match section.gate_length_ms { Some(g) => g, None => defaults.gate_length_ms },
    })
}

// --- Modulation --------------------------------------------------------------

pub open spec fn spec_build_modulation(section: Option<ModulationSection>, chain: Seq<char>, fallback_channel: Option<u8>) -> Result<
    ModulationConfig,
    ValidationErrorView,
> {
    let d = default_modulation();
    match section {
        None => Ok(d),
        Some(s) => if !s.enabled.unwrap_or(d.enabled) {
            Ok(ModulationConfig { enabled: false, ..d })
        } else {
            let channel_1b: u8 = match s.channel {
                Some(c) => c,
                None => match fallback_channel {
                    Some(c) => (c + 1) as u8,
                    None => 1,
                },
            };
            match spec_channel(channel_1b, chain + ".modulation.channel"@) {
                Err(e) => Err(e),
                Ok(c) => match s.cc_number {
                    Some(n) => if n <= 127 {
                        Ok(ModulationConfig { enabled: true, channel: c, cc_number: n })
                    } else {
                        Err(ValidationErrorView::ModulationCcOutOfRange { chain, got: n })
                    },
                    None => Ok(ModulationConfig { enabled: true, channel: c, cc_number: d.cc_number }),
                },
            }
        },
    }
}

/// The modulation CC stream: disabled unless the section enables it; its
/// channel defaults to the first gate voice's channel, else channel 1.
pub fn build_modulation(section: &Option<ModulationSection>, chain_label: &str, fallback_channel: Option<u8>) -> (r: Result<
    ModulationConfig,
    ValidationError,
>)
    requires
        !(section matches Some(s) && s.enabled.unwrap_or(default_modulation().enabled) && s.channel is None
            && fallback_channel == Some(255u8)),
    ensures
        result_view(r) == spec_build_modulation(*section, chain_label@, fallback_channel),
{
    let defaults = ModulationConfig::default();
    let s = match section {
        None => return Ok(defaults),
        Some(s) => s,
    };
    let enabled = match s.enabled { Some(b) => b, None => defaults.enabled };
    if !enabled {
        return Ok(ModulationConfig { enabled: false, ..defaults });
    }
    let channel_1b: u8 = match s.channel {
        Some(c) => c,
        None => match fallback_channel {
            Some(c) => c + 1,
            None => 1,
        },
    };
    let label = concat2(chain_label, ".modulation.channel");
    let channel_0b = validate_channel_1based(channel_1b, label.as_str())?;
    let cc_number = match s.cc_number {
        Some(n) => if n <= 127 {
            n
        } else {
            return Err(ValidationError::ModulationCcOutOfRange { chain: String::from_str(chain_label), got: n });
        },
        None => defaults.cc_number,
    };
    Ok(ModulationConfig { enabled: true, channel: channel_0b, cc_number })
}

// --- Quantize ----------------------------------------------------------------

pub open spec fn spec_build_quantize(section: Option<QuantizeSection>, chain: Seq<char>) -> Result<QuantizeConfig, ValidationErrorView> {
    let d = default_quantize();
    match section {
        None => Ok(d),
        Some(s) => {
            let scale: Result<Scale, ValidationErrorView> = match s.scale {
                Some(name) => match scale_named(name@) {
                    Some(sc) => Ok(sc),
                    None => Err(ValidationErrorView::UnknownScale { chain, name: name@ }),
                },
                None => Ok(d.scale),
            };
            match scale {
                Err(e) => Err(e),
                Ok(sc) => match s.root_note {
                    Some(n) => if n <= 127 {
                        Ok(QuantizeConfig { scale: sc, root_note: n })
                    } else {
                        Err(ValidationErrorView::RootNoteOutOfRange { chain, got: n })
                    },
                    None => Ok(QuantizeConfig { scale: sc, root_note: d.root_note }),
                },
            }
        },
    }
}

/// The pitch quantisation: a named scale and a root note in 0..=127.
pub fn build_quantize(section: &Option<QuantizeSection>, chain_label: &str) -> (r: Result<QuantizeConfig, ValidationError>)
    ensures
        result_view(r) == spec_build_quantize(*section, chain_label@),
{
    let defaults = QuantizeConfig::default();
    let s = match section {
        None => return Ok(defaults),
        Some(s) => s,
    };
    let scale = match &s.scale {
        Some(name) => match Scale::from_name(name.as_str()) {
            Some(sc) => sc,
            None => {
                return Err(ValidationError::UnknownScale {
                    chain: String::from_str(chain_label),
                    name: String::from_str(name.as_str()),
                });
            },
        },
        None => defaults.scale,
    };
    let root_note = match s.root_note {
        Some(n) => if n <= 127 {
            n
        } else {
            return Err(ValidationError::RootNoteOutOfRange { chain: String::from_str(chain_label), got: n });
        },
        None => defaults.root_note,
    };
    Ok(QuantizeConfig { scale, root_note })
}

// --- Events ------------------------------------------------------------------

pub open spec fn spec_build_events(g: GatesSection, chain: Seq<char>) -> Result<EventConfigView, ValidationErrorView> {
    let d = default_events();
    match spec_voice_slots(voice_keys(g.voices@), chain + ".gates"@) {
        Err(e) => Err(e),
        Ok(slots) => Ok(
            EventConfigView {
                output_sites: slots.map_values(|s: VoiceSlot| s.index),
                crossing_threshold: d.crossing_threshold,
                debounce_ticks: d.debounce_ticks,
            },
        ),
    }
}

/// The watched sites of a chain: its gate voice indices in ascending order.
pub fn build_events(section: &GatesSection, chain_label: &str) -> (r: Result<EventConfig, ValidationError>)
    ensures
        match r {
            Ok(c) => spec_build_events(*section, chain_label@) == Ok::<EventConfigView, ValidationErrorView>(c@),
            Err(e) => spec_build_events(*section, chain_label@) == Err::<EventConfigView, ValidationErrorView>(e@),
        },
{
    let defaults = EventConfig::default();
    let section_label = concat2(chain_label, ".gates");
    let sorted = parse_voice_indices(&section.voices, section_label.as_str())?;
    let mut output_sites: Vec<usize> = Vec::with_capacity(sorted.len());
    let mut k: usize = 0;
    while k < sorted.len()
        invariant
            k <= sorted@.len(),
            output_sites@ == sorted@.take(k as int).map_values(|s: VoiceSlot| s.index),
        decreases sorted@.len() - k,
    {
        output_sites.push(sorted[k].index);
        assert(sorted@.take(k + 1).map_values(|s: VoiceSlot| s.index)
            =~= sorted@.take(k as int).map_values(|s: VoiceSlot| s.index).push(sorted@[k as int].index));
        k += 1;
    }
    assert(sorted@.take(sorted@.len() as int) =~= sorted@);
    Ok(EventConfig {
        output_sites,
        crossing_threshold: defaults.crossing_threshold,
        debounce_ticks: defaults.debounce_ticks,
    })
}


// --- Chords ------------------------------------------------------------------

/// The trigger that a configuration name denotes.
pub open spec fn trigger_named(name: Seq<char>) -> Option<ChordTriggerKind> {
    if name == "clock"@ {
        Some(ChordTriggerKind::Clock)
    } else if name == "wall_death"@ {
        Some(ChordTriggerKind::WallDeath)
    } else if name == "period"@ {
        Some(ChordTriggerKind::Period)
    } else {
        None
    }
}

/// The selection mode that a configuration name denotes.
pub open spec fn select_named(name: Seq<char>) -> Option<ChordSelect> {
    if name == "sequential"@ {
        Some(ChordSelect::Sequential)
    } else if name == "magnetization"@ {
        Some(ChordSelect::Magnetization)
    } else if name == "random"@ {
        Some(ChordSelect::Random)
    } else {
        None
    }
}

/// The first pitch above 127 in a voicing, in order.
pub open spec fn first_high_pitch(c: Seq<u8>) -> Option<u8>
    decreases c.len(),
{
    if c.len() == 0 {
        None
    } else {
        match first_high_pitch(c.drop_last()) {
            Some(p) => Some(p),
            None => if c.last() > 127 {
                Some(c.last())
            } else {
                None
            },
        }
    }
}

/// Checks each voicing in order: it must list `n_voices` pitches, all in
/// 0..=127; the first violation is reported.
pub open spec fn spec_check_voicings(seq: Seq<Seq<u8>>, n_voices: usize, chain: Seq<char>) -> Result<(), ValidationErrorView>
    decreases seq.len(),
{
    if seq.len() == 0 {
        Ok(())
    } else {
        match spec_check_voicings(seq.drop_last(), n_voices, chain) {
            Err(e) => Err(e),
            Ok(_) => {
                let i = (seq.len() - 1) as usize;
                let c = seq.last();
                if c.len() != n_voices {
                    Err(ValidationErrorView::ChordLength { chain, index: i, expected: n_voices, got: c.len() as usize })
                } else {
                    match first_high_pitch(c) {
                        Some(p) => Err(ValidationErrorView::ChordPitchOutOfRange { chain, index: i, pitch: p }),
                        None => Ok(()),
                    }
                }
            },
        }
    }
}

proof fn lemma_check_voicings_err_extends(seq: Seq<Seq<u8>>, n_voices: usize, chain: Seq<char>, i: int)
    requires
        0 <= i <= seq.len(),
        spec_check_voicings(seq.take(i), n_voices, chain) is Err,
    ensures
        spec_check_voicings(seq, n_voices, chain) == spec_check_voicings(seq.take(i), n_voices, chain),
    decreases seq.len() - i,
{
    if i == seq.len() {
        assert(seq.take(i) =~= seq);
    } else {
        assert(seq.take(i + 1).drop_last() =~= seq.take(i));
        lemma_check_voicings_err_extends(seq, n_voices, chain, i + 1);
    }
}

proof fn lemma_high_pitch_extends(c: Seq<u8>, i: int)
    requires
        0 <= i <= c.len(),
        first_high_pitch(c.take(i)) is Some,
    ensures
        first_high_pitch(c) == first_high_pitch(c.take(i)),
    decreases c.len() - i,
{
    if i == c.len() {
        assert(c.take(i) =~= c);
    } else {
        assert(c.take(i + 1).drop_last() =~= c.take(i));
        lemma_high_pitch_extends(c, i + 1);
    }
}

pub open spec fn spec_build_chords(section: Option<ChordsSection>, n_voices: usize, chain: Seq<char>) -> Result<
    ChordConfigView,
    ValidationErrorView,
> {
    match section {
        None => Ok(default_chords()),
        Some(s) => if !s.enabled.unwrap_or(false) {
            Ok(default_chords())
        } else {
            let on_name = opt_text(s.advance_on, "wall_death"@);
            let sel_name = opt_text(s.select, "sequential"@);
            let seq = match s.sequence {
                Some(v) => voicings(v@),
                None => Seq::empty(),
            };
            match trigger_named(on_name) {
                None => Err(ValidationErrorView::UnknownChordTrigger { chain, got: on_name }),
                Some(advance_on) => match select_named(sel_name) {
                    None => Err(ValidationErrorView::UnknownChordSelect { chain, got: sel_name }),
                    Some(select) => if seq.len() == 0 {
                        Err(ValidationErrorView::EmptyChordSequence { chain })
                    } else {
                        match spec_check_voicings(seq, n_voices, chain) {
                            Err(e) => Err(e),
                            Ok(_) => {
                                let every = s.advance_every.unwrap_or(1);
                                Ok(
                                    ChordConfigView {
                                        enabled: true,
                                        advance_on,
                                        advance_every: if every >= 1 { every } else { 1 },
                                        select,
                                        sequence: seq,
                                    },
                                )
                            },
                        }
                    },
                },
            }
        },
    }
}

/// Checks every voicing: `n_voices` pitches, each in 0..=127.
fn check_voicings(seq: &Vec<Vec<u8>>, n_voices: usize, chain_label: &str) -> (r: Result<(), ValidationError>)
    ensures
        result_view(r) == spec_check_voicings(voicings(seq@), n_voices, chain_label@),
{
    let ghost vs = voicings(seq@);
    let mut i: usize = 0;
    while i < seq.len()
        invariant
            i <= seq@.len(),
            vs == voicings(seq@),
            spec_check_voicings(vs.take(i as int), n_voices, chain_label@) == Ok::<(), ValidationErrorView>(()),
        decreases seq@.len() - i,
    {
        let chord = &seq[i];
        proof {
            assert(vs.take(i + 1).drop_last() =~= vs.take(i as int));
            assert(vs.take(i + 1).last() == chord@);
        }
        if chord.len() != n_voices {
            proof {
                lemma_check_voicings_err_extends(vs, n_voices, chain_label@, i + 1);
            }
            return Err(ValidationError::ChordLength {
                chain: String::from_str(chain_label),
                index: i,
                expected: n_voices,
                got: chord.len(),
            });
        }
        let mut j: usize = 0;
        while j < chord.len()
            invariant
                j <= chord@.len(),
                i < seq@.len(),
                vs == voicings(seq@),
                chord@.len() == n_voices,
                spec_check_voicings(vs.take(i as int), n_voices, chain_label@) == Ok::<(), ValidationErrorView>(()),
                vs.take(i + 1).drop_last() == vs.take(i as int),
                vs.take(i + 1).last() == chord@,
                first_high_pitch(chord@.take(j as int)) is None,
            decreases chord@.len() - j,
        {
            assert(chord@.take(j + 1).drop_last() =~= chord@.take(j as int));
            if chord[j] > 127 {
                proof {
                    lemma_high_pitch_extends(chord@, j + 1);
                    lemma_check_voicings_err_extends(vs, n_voices, chain_label@, i + 1);
                }
                return Err(ValidationError::ChordPitchOutOfRange {
                    chain: String::from_str(chain_label),
                    index: i,
                    pitch: chord[j],
                });
            }
            j += 1;
        }
        assert(chord@.take(j as int) =~= chord@);
        i += 1;
    }
    assert(vs.take(seq@.len() as int) =~= vs);
    Ok(())
}

/// The chord progression of a chain: the default (disabled) unless the
/// section enables it; then its trigger ("wall_death" when absent), its
/// selection ("sequential" when absent), a non-empty sequence of voicings
/// each listing `n_voices` pitches in 0..=127, and an advance period of at
/// least 1.
pub fn build_chords(section: &Option<ChordsSection>, n_voices: usize, chain_label: &str) -> (r: Result<
    ChordConfig,
    ValidationError,
>)
    ensures
        match r {
            Ok(c) => spec_build_chords(*section, n_voices, chain_label@) == Ok::<ChordConfigView, ValidationErrorView>(c@),
            Err(e) => spec_build_chords(*section, n_voices, chain_label@) == Err::<ChordConfigView, ValidationErrorView>(e@),
        },
{
    let s = match section {
        None => return Ok(ChordConfig::default()),
        Some(s) => s,
    };
    let enabled = match s.enabled { Some(b) => b, None => false };
    if !enabled {
        return Ok(ChordConfig::default());
    }
    let on_name: &str = match &s.advance_on {
        Some(t) => t.as_str(),
        None => "wall_death",
    };
    let advance_on = if str_eq(on_name, "clock") {
        ChordTriggerKind::Clock
    } else if str_eq(on_name, "wall_death") {
        ChordTriggerKind::WallDeath
    } else if str_eq(on_name, "period") {
        ChordTriggerKind::Period
    } else {
        return Err(ValidationError::UnknownChordTrigger {
            chain: String::from_str(chain_label),
            got: String::from_str(on_name),
        });
    };
    let sel_name: &str = match &s.select {
        Some(t) => t.as_str(),
        None => "sequential",
    };
    let select = if str_eq(sel_name, "sequential") {
        ChordSelect::Sequential
    } else if str_eq(sel_name, "magnetization") {
        ChordSelect::Magnetization
    } else if str_eq(sel_name, "random") {
        ChordSelect::Random
    } else {
        return Err(ValidationError::UnknownChordSelect {
            chain: String::from_str(chain_label),
            got: String::from_str(sel_name),
        });
    };
    let sequence: Vec<Vec<u8>> = match &s.sequence {
        Some(v) => copy_voicings(v),
        None => Vec::new(),
    };
    proof {
        if s.sequence is None {
            assert(voicings(sequence@) =~= Seq::<Seq<u8>>::empty());
        }
    }
    if sequence.len() == 0 {
        return Err(ValidationError::EmptyChordSequence { chain: String::from_str(chain_label) });
    }
    check_voicings(&sequence, n_voices, chain_label)?;
    let every = match s.advance_every { Some(e) => e, None => 1 };
    Ok(ChordConfig {
        enabled: true,
        advance_on,
        advance_every: if every >= 1 { every } else { 1 },
        select,
        sequence,
    })
}

} // verus!
