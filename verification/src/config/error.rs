//! Validation failures of a configuration, each naming the offending entry.

use vstd::prelude::*;
use vstd::string::*;
use crate::config::FloatBits;
use crate::text::{decimal, push_decimal};

verus! {

/// Which directional coupling strength is meant.
#[derive(Clone, Copy, Debug, PartialEq, Eq, Structural)]
pub enum StrengthField {
    Ab,
    Ba,
}

/// Why a configuration was rejected. Labels (`chain`, `label`, `section`)
/// are dotted paths such as `chain_a.gates.voice_0`; channels given by
/// the file are reported as written (1-based).
#[derive(Clone, Debug)]
pub enum ValidationError {
    /// chain_b runs at another `ticks_per_period` than chain_a.
    TicksPerPeriodMismatch,
    /// `input.perturbation.kind` (case-folded) names no perturbation.
    UnknownPerturbationKind { got: String },
    /// An axis name (case-folded) is none of x, y, z.
    UnknownAxis { got: String },
    /// `coupling.shape` (case-folded) names no coupling shape.
    UnknownCouplingShape { got: String },
    /// `coupling.strength` is given together with a directional strength.
    CouplingStrengthConflict,
    /// A coupling strength lies outside `0.0..=2.0`.
    CouplingStrengthOutOfRange { field: StrengthField, value: FloatBits },
    /// A chain's gates define no voice.
    NoGateVoices { chain: String },
    /// A channel outside `1..=16`.
    ChannelOutOfRange { label: String, got: u8 },
    /// A gate voice's pitch above 127.
    GatePitchOutOfRange { label: String, got: u8 },
    /// `clock.pitch` above 127.
    ClockPitchOutOfRange { chain: String, got: u8 },
    /// `walls.motion_cc` above 127.
    MotionCcOutOfRange { chain: String, got: u8 },
    /// A wall pitch bound above 127.
    WallPitchOutOfRange { chain: String, low: u8, high: u8 },
    /// `walls.pitch_low` above `walls.pitch_high`.
    WallPitchOrder { chain: String, low: u8, high: u8 },
    /// `modulation.cc_number` above 127.
    ModulationCcOutOfRange { chain: String, got: u8 },
    /// `quantize.scale` names no scale.
    UnknownScale { chain: String, name: String },
    /// `quantize.root_note` above 127.
    RootNoteOutOfRange { chain: String, got: u8 },
    /// `chords.advance_on` names no trigger.
    UnknownChordTrigger { chain: String, got: String },
    /// `chords.select` names no selection mode.
    UnknownChordSelect { chain: String, got: String },
    /// Chords are enabled with an empty sequence.
    EmptyChordSequence { chain: String },
    /// A voicing does not list one pitch per gate voice.
    ChordLength { chain: String, index: usize, expected: usize, got: usize },
    /// A voicing holds a pitch above 127.
    ChordPitchOutOfRange { chain: String, index: usize, pitch: u8 },
    /// A gate voice refers to a site the chain does not have.
    SiteOutOfRange { chain: String, site: usize, n_sites: usize },
    /// A voice table holds a key that is not `voice_N`.
    UnrecognizedVoiceKey { section: String, key: String },
    /// A `voice_` key whose suffix is not a number.
    NonNumericVoiceKey { section: String, key: String },
    /// Two signals claim one MIDI channel (0-based here).
    DuplicateChannel { channel: u8, first: String, second: String },
}

pub enum ValidationErrorView {
    TicksPerPeriodMismatch,
    UnknownPerturbationKind { got: Seq<char> },
    UnknownAxis { got: Seq<char> },
    UnknownCouplingShape { got: Seq<char> },
    CouplingStrengthConflict,
    CouplingStrengthOutOfRange { field: StrengthField, value: FloatBits },
    NoGateVoices { chain: Seq<char> },
    ChannelOutOfRange { label: Seq<char>, got: u8 },
    GatePitchOutOfRange { label: Seq<char>, got: u8 },
    ClockPitchOutOfRange { chain: Seq<char>, got: u8 },
    MotionCcOutOfRange { chain: Seq<char>, got: u8 },
    WallPitchOutOfRange { chain: Seq<char>, low: u8, high: u8 },
    WallPitchOrder { chain: Seq<char>, low: u8, high: u8 },
    ModulationCcOutOfRange { chain: Seq<char>, got: u8 },
    UnknownScale { chain: Seq<char>, name: Seq<char> },
    RootNoteOutOfRange { chain: Seq<char>, got: u8 },
    UnknownChordTrigger { chain: Seq<char>, got: Seq<char> },
    UnknownChordSelect { chain: Seq<char>, got: Seq<char> },
    EmptyChordSequence { chain: Seq<char> },
    ChordLength { chain: Seq<char>, index: usize, expected: usize, got: usize },
    ChordPitchOutOfRange { chain: Seq<char>, index: usize, pitch: u8 },
    SiteOutOfRange { chain: Seq<char>, site: usize, n_sites: usize },
    UnrecognizedVoiceKey { section: Seq<char>, key: Seq<char> },
    NonNumericVoiceKey { section: Seq<char>, key: Seq<char> },
    DuplicateChannel { channel: u8, first: Seq<char>, second: Seq<char> },
}

impl View for ValidationError {
    type V = ValidationErrorView;

    open spec fn view(&self) -> ValidationErrorView {
        match self {
            ValidationError::TicksPerPeriodMismatch => ValidationErrorView::TicksPerPeriodMismatch,
            ValidationError::UnknownPerturbationKind { got } =>
                ValidationErrorView::UnknownPerturbationKind { got: got@ },
            ValidationError::UnknownAxis { got } => ValidationErrorView::UnknownAxis { got: got@ },
            ValidationError::UnknownCouplingShape { got } =>
                ValidationErrorView::UnknownCouplingShape { got: got@ },
            ValidationError::CouplingStrengthConflict => ValidationErrorView::CouplingStrengthConflict,
            ValidationError::CouplingStrengthOutOfRange { field, value } =>
                ValidationErrorView::CouplingStrengthOutOfRange { field: *field, value: *value },
            ValidationError::NoGateVoices { chain } => ValidationErrorView::NoGateVoices { chain: chain@ },
            ValidationError::ChannelOutOfRange { label, got } =>
                ValidationErrorView::ChannelOutOfRange { label: label@, got: *got },
            ValidationError::GatePitchOutOfRange { label, got } =>
                ValidationErrorView::GatePitchOutOfRange { label: label@, got: *got },
            ValidationError::ClockPitchOutOfRange { chain, got } =>
                ValidationErrorView::ClockPitchOutOfRange { chain: chain@, got: *got },
            ValidationError::MotionCcOutOfRange { chain, got } =>
                ValidationErrorView::MotionCcOutOfRange { chain: chain@, got: *got },
            ValidationError::WallPitchOutOfRange { chain, low, high } =>
                ValidationErrorView::WallPitchOutOfRange { chain: chain@, low: *low, high: *high },
            ValidationError::WallPitchOrder { chain, low, high } =>
                ValidationErrorView::WallPitchOrder { chain: chain@, low: *low, high: *high },
            ValidationError::ModulationCcOutOfRange { chain, got } =>
                ValidationErrorView::ModulationCcOutOfRange { chain: chain@, got: *got },
            ValidationError::UnknownScale { chain, name } =>
                ValidationErrorView::UnknownScale { chain: chain@, name: name@ },
            ValidationError::RootNoteOutOfRange { chain, got } =>
                ValidationErrorView::RootNoteOutOfRange { chain: chain@, got: *got },
            ValidationError::UnknownChordTrigger { chain, got } =>
                ValidationErrorView::UnknownChordTrigger { chain: chain@, got: got@ },
            ValidationError::UnknownChordSelect { chain, got } =>
                ValidationErrorView::UnknownChordSelect { chain: chain@, got: got@ },
            ValidationError::EmptyChordSequence { chain } =>
                ValidationErrorView::EmptyChordSequence { chain: chain@ },
            ValidationError::ChordLength { chain, index, expected, got } =>
                ValidationErrorView::ChordLength {
                    chain: chain@,
                    index: *index,
                    expected: *expected,
                    got: *got,
                },
            ValidationError::ChordPitchOutOfRange { chain, index, pitch } =>
                ValidationErrorView::ChordPitchOutOfRange { chain: chain@, index: *index, pitch: *pitch },
            ValidationError::SiteOutOfRange { chain, site, n_sites } =>
                ValidationErrorView::SiteOutOfRange { chain: chain@, site: *site, n_sites: *n_sites },
            ValidationError::UnrecognizedVoiceKey { section, key } =>
                ValidationErrorView::UnrecognizedVoiceKey { section: section@, key: key@ },
            ValidationError::NonNumericVoiceKey { section, key } =>
                ValidationErrorView::NonNumericVoiceKey { section: section@, key: key@ },
            ValidationError::DuplicateChannel { channel, first, second } =>
                ValidationErrorView::DuplicateChannel { channel: *channel, first: first@, second: second@ },
        }
    }
}

/// Name of a directional coupling strength as the file spells it.
pub open spec fn strength_field_name(f: StrengthField) -> Seq<char> {
    match f {
        StrengthField::Ab => "strength_ab"@,
        StrengthField::Ba => "strength_ba"@,
    }
}

impl ValidationErrorView {
    /// The human-readable explanation of the failure. For an out-of-range
    /// coupling strength the offending real value is not part of it.
    pub open spec fn message(self) -> Seq<char> {
        match self {
            ValidationErrorView::TicksPerPeriodMismatch =>
                "chain_b.physics.ticks_per_period must match chain_a.physics.ticks_per_period"@,
            ValidationErrorView::UnknownPerturbationKind { got } =>
                "input.perturbation.kind must be 'flip', 'rotate', or 'field_spike' (got '"@ + got + "')"@,
            ValidationErrorView::UnknownAxis { got } =>
                "axis must be 'x', 'y', or 'z' (got '"@ + got + "')"@,
            ValidationErrorView::UnknownCouplingShape { got } =>
                "coupling.shape must be 'mean_field_z', 'site_paired', or 'shared_drive' (got '"@ + got + "')"@,
            ValidationErrorView::CouplingStrengthConflict =>
                "coupling.strength is mutually exclusive with strength_ab / strength_ba"@,
            ValidationErrorView::CouplingStrengthOutOfRange { field, value } =>
                "coupling."@ + strength_field_name(field) + " must be in 0.0..=2.0"@,
            ValidationErrorView::NoGateVoices { chain } =>
                chain + ".gates must define at least one voice_N"@,
            ValidationErrorView::ChannelOutOfRange { label, got } =>
                label + ": channel must be in 1..=16 (got "@ + decimal(got as nat) + ")"@,
            ValidationErrorView::GatePitchOutOfRange { label, got } =>
                label + ": pitch must be in 0..=127 (got "@ + decimal(got as nat) + ")"@,
            ValidationErrorView::ClockPitchOutOfRange { chain, got } =>
                chain + ".clock.pitch must be in 0..=127 (got "@ + decimal(got as nat) + ")"@,
            ValidationErrorView::MotionCcOutOfRange { chain, got } =>
                chain + ".walls.motion_cc must be in 0..=127 (got "@ + decimal(got as nat) + ")"@,
            ValidationErrorView::WallPitchOutOfRange { chain, low, high } =>
                chain + ".walls pitch range must be in 0..=127 (got "@ + decimal(low as nat) + ".."@
                    + decimal(high as nat) + ")"@,
            ValidationErrorView::WallPitchOrder { chain, low, high } =>
                chain + ".walls pitch_low must be <= pitch_high (got "@ + decimal(low as nat) + " > "@
                    + decimal(high as nat) + ")"@,
            ValidationErrorView::ModulationCcOutOfRange { chain, got } =>
                chain + ".modulation.cc_number must be in 0..=127 (got "@ + decimal(got as nat) + ")"@,
            ValidationErrorView::UnknownScale { chain, name } =>
                chain + ".quantize.scale: unknown scale '"@ + name
                    + "' (valid: unquantized, major, minor, pentatonic, hirajoshi, iwato)"@,
            ValidationErrorView::RootNoteOutOfRange { chain, got } =>
                chain + ".quantize.root_note must be in 0..=127 (got "@ + decimal(got as nat) + ")"@,
            ValidationErrorView::UnknownChordTrigger { chain, got } =>
                chain + ".chords.advance_on: unknown '"@ + got + "' (clock|wall_death|period)"@,
            ValidationErrorView::UnknownChordSelect { chain, got } =>
                chain + ".chords.select: unknown '"@ + got + "' (sequential|magnetization|random)"@,
            ValidationErrorView::EmptyChordSequence { chain } =>
                chain + ".chords.sequence must be non-empty when enabled = true"@,
            ValidationErrorView::ChordLength { chain, index, expected, got } =>
                chain + ".chords.sequence["@ + decimal(index as nat) + "]: expected "@
                    + decimal(expected as nat) + " pitches, got "@ + decimal(got as nat),
            ValidationErrorView::ChordPitchOutOfRange { chain, index, pitch } =>
                chain + ".chords.sequence["@ + decimal(index as nat) + "]: pitch "@
                    + decimal(pitch as nat) + " out of range (0..=127)"@,
            ValidationErrorView::SiteOutOfRange { chain, site, n_sites } =>
                chain + ".gates: voice_"@ + decimal(site as nat)
                    + " refers to a site index that doesn't exist (n_sites = "@
                    + decimal(n_sites as nat) + ")"@,
            ValidationErrorView::UnrecognizedVoiceKey { section, key } =>
                section + ": unrecognized key '"@ + key + "' (expected 'voice_N')"@,
            ValidationErrorView::NonNumericVoiceKey { section, key } =>
                section + ": voice key '"@ + key + "' has non-numeric suffix"@,
            ValidationErrorView::DuplicateChannel { channel, first, second } =>
                "channel "@ + decimal(channel as nat + 1) + " is assigned to both "@ + first
                    + " and "@ + second,
        }
    }
}

impl ValidationError {
    /// The human-readable explanation of the failure.
    pub fn message(&self) -> (r: String)
        ensures
            r@ == self@.message(),
    {
        let mut s = String::new();
        match self {
            ValidationError::TicksPerPeriodMismatch => {
                s.append("chain_b.physics.ticks_per_period must match chain_a.physics.ticks_per_period");
            },
            ValidationError::UnknownPerturbationKind { got } => {
                s.append("input.perturbation.kind must be 'flip', 'rotate', or 'field_spike' (got '");
                s.append(got.as_str());
                s.append("')");
            },
            ValidationError::UnknownAxis { got } => {
                s.append("axis must be 'x', 'y', or 'z' (got '");
                s.append(got.as_str());
                s.append("')");
            },
            ValidationError::UnknownCouplingShape { got } => {
                s.append("coupling.shape must be 'mean_field_z', 'site_paired', or 'shared_drive' (got '");
                s.append(got.as_str());
                s.append("')");
            },
            ValidationError::CouplingStrengthConflict => {
                s.append("coupling.strength is mutually exclusive with strength_ab / strength_ba");
            },
            ValidationError::CouplingStrengthOutOfRange { field, value } => {
                s.append("coupling.");
                match field {
                    StrengthField::Ab => s.append("strength_ab"),
                    StrengthField::Ba => s.append("strength_ba"),
                }
                s.append(" must be in 0.0..=2.0");
            },
            ValidationError::NoGateVoices { chain } => {
                s.append(chain.as_str());
                s.append(".gates must define at least one voice_N");
            },
            ValidationError::ChannelOutOfRange { label, got } => {
                s.append(label.as_str());
                s.append(": channel must be in 1..=16 (got ");
                push_decimal(&mut s, *got as u64);
                s.append(")");
            },
            ValidationError::GatePitchOutOfRange { label, got } => {
                s.append(label.as_str());
                s.append(": pitch must be in 0..=127 (got ");
                push_decimal(&mut s, *got as u64);
                s.append(")");
            },
            ValidationError::ClockPitchOutOfRange { chain, got } => {
                s.append(chain.as_str());
                s.append(".clock.pitch must be in 0..=127 (got ");
                push_decimal(&mut s, *got as u64);
                s.append(")");
            },
            ValidationError::MotionCcOutOfRange { chain, got } => {
                s.append(chain.as_str());
                s.append(".walls.motion_cc must be in 0..=127 (got ");
                push_decimal(&mut s, *got as u64);
                s.append(")");
            },
            ValidationError::WallPitchOutOfRange { chain, low, high } => {
                s.append(chain.as_str());
                s.append(".walls pitch range must be in 0..=127 (got ");
                push_decimal(&mut s, *low as u64);
                s.append("..");
                push_decimal(&mut s, *high as u64);
                s.append(")");
            },
            ValidationError::WallPitchOrder { chain, low, high } => {
                s.append(chain.as_str());
                s.append(".walls pitch_low must be <= pitch_high (got ");
                push_decimal(&mut s, *low as u64);
                s.append(" > ");
                push_decimal(&mut s, *high as u64);
                s.append(")");
            },
            ValidationError::ModulationCcOutOfRange { chain, got } => {
                s.append(chain.as_str());
                s.append(".modulation.cc_number must be in 0..=127 (got ");
                push_decimal(&mut s, *got as u64);
                s.append(")");
            },
            ValidationError::UnknownScale { chain, name } => {
                s.append(chain.as_str());
                s.append(".quantize.scale: unknown scale '");
                s.append(name.as_str());
                s.append("' (valid: unquantized, major, minor, pentatonic, hirajoshi, iwato)");
            },
            ValidationError::RootNoteOutOfRange { chain, got } => {
                s.append(chain.as_str());
                s.append(".quantize.root_note must be in 0..=127 (got ");
                push_decimal(&mut s, *got as u64);
                s.append(")");
            },
            ValidationError::UnknownChordTrigger { chain, got } => {
                s.append(chain.as_str());
                s.append(".chords.advance_on: unknown '");
                s.append(got.as_str());
                s.append("' (clock|wall_death|period)");
            },
            ValidationError::UnknownChordSelect { chain, got } => {
                s.append(chain.as_str());
                s.append(".chords.select: unknown '");
                s.append(got.as_str());
                s.append("' (sequential|magnetization|random)");
            },
            ValidationError::EmptyChordSequence { chain } => {
                s.append(chain.as_str());
                s.append(".chords.sequence must be non-empty when enabled = true");
            },
            ValidationError::ChordLength { chain, index, expected, got } => {
                s.append(chain.as_str());
                s.append(".chords.sequence[");
                push_decimal(&mut s, *index as u64);
                s.append("]: expected ");
                push_decimal(&mut s, *expected as u64);
                s.append(" pitches, got ");
                push_decimal(&mut s, *got as u64);
            },
            ValidationError::ChordPitchOutOfRange { chain, index, pitch } => {
                s.append(chain.as_str());
                s.append(".chords.sequence[");
                push_decimal(&mut s, *index as u64);
                s.append("]: pitch ");
                push_decimal(&mut s, *pitch as u64);
                s.append(" out of range (0..=127)");
            },
            ValidationError::SiteOutOfRange { chain, site, n_sites } => {
                s.append(chain.as_str());
                s.append(".gates: voice_");
                push_decimal(&mut s, *site as u64);
                s.append(" refers to a site index that doesn't exist (n_sites = ");
                push_decimal(&mut s, *n_sites as u64);
                s.append(")");
            },
            ValidationError::UnrecognizedVoiceKey { section, key } => {
                s.append(section.as_str());
                s.append(": unrecognized key '");
                s.append(key.as_str());
                s.append("' (expected 'voice_N')");
            },
            ValidationError::NonNumericVoiceKey { section, key } => {
                s.append(section.as_str());
                s.append(": voice key '");
                s.append(key.as_str());
                s.append("' has non-numeric suffix");
            },
            ValidationError::DuplicateChannel { channel, first, second } => {
                s.append("channel ");
                push_decimal(&mut s, *channel as u64 + 1);
                s.append(" is assigned to both ");
                s.append(first.as_str());
                s.append(" and ");
                s.append(second.as_str());
            },
        }
        proof {
            assert(s@ =~= self@.message());
        }
        s
    }
}

} // verus!
