//! How each section's settings reach the configuration: every documented
//! name denotes its own value, and every given value is kept.

use vstd::prelude::*;
use crate::config::chords::{voicings, ChordSelect, ChordTriggerKind};
use crate::config::error::{StrengthField, ValidationErrorView};
use crate::config::schema::{ChordsSection, CouplingSection, InputSection, WallsSection};
use crate::config::sections::{
    first_high_pitch, lowercase_is_shape, spec_build_chords, spec_build_coupling, spec_build_input, spec_build_walls,
    spec_check_voicings, spec_parse_axis, spec_perturbation_kind, within_zero_to_two,
};
use crate::config::{Axis, CouplingConfig, FloatBits, PerturbationKindConfig, WallMidiConfigView, BITS_0_3, BITS_0_5, BITS_ZERO};
use crate::text::{ascii_lowercase, is_ascii_text};

verus! {

// --- Chords ------------------------------------------------------------------

/// A voicing has no pitch above 127 exactly when none of its pitches is.
proof fn lemma_no_high_pitch(c: Seq<u8>)
    ensures
        first_high_pitch(c) is None <==> forall|j: int| 0 <= j < c.len() ==> c[j] <= 127,
    decreases c.len(),
{
    if c.len() > 0 {
        lemma_no_high_pitch(c.drop_last());
        if first_high_pitch(c) is None {
            assert forall|j: int| 0 <= j < c.len() implies c[j] <= 127 by {
                if j < c.len() - 1 {
                    assert(c.drop_last()[j] == c[j]);
                }
            }
        } else if forall|j: int| 0 <= j < c.len() ==> c[j] <= 127 {
            assert forall|j: int| 0 <= j < c.drop_last().len() implies c.drop_last()[j] <= 127 by {
                assert(c.drop_last()[j] == c[j]);
            }
            assert(c[c.len() - 1] <= 127);
        }
    }
}

/// Whether every voicing lists one pitch per voice, each in 0..=127.
pub open spec fn voicings_fit(seq: Seq<Seq<u8>>, n_voices: usize) -> bool {
    forall|i: int| 0 <= i < seq.len() ==> (#[trigger] seq[i]).len() == n_voices
        && forall|j: int| 0 <= j < seq[i].len() ==> seq[i][j] <= 127
}

/// The voicings pass their check exactly when they all fit.
pub proof fn lemma_check_voicings_ok(seq: Seq<Seq<u8>>, n_voices: usize, chain: Seq<char>)
    ensures
        spec_check_voicings(seq, n_voices, chain) is Ok <==> voicings_fit(seq, n_voices),
    decreases seq.len(),
{
    if seq.len() > 0 {
        let pre = seq.drop_last();
        lemma_check_voicings_ok(pre, n_voices, chain);
        lemma_no_high_pitch(seq.last());
        if voicings_fit(seq, n_voices) {
            assert forall|i: int| 0 <= i < pre.len() implies (#[trigger] pre[i]).len() == n_voices
                && forall|j: int| 0 <= j < pre[i].len() ==> pre[i][j] <= 127 by {
                assert(pre[i] == seq[i]);
            }
            assert(seq[seq.len() - 1] == seq.last());
        }
        if spec_check_voicings(seq, n_voices, chain) is Ok {
            assert forall|i: int| 0 <= i < seq.len() implies (#[trigger] seq[i]).len() == n_voices
                && forall|j: int| 0 <= j < seq[i].len() ==> seq[i][j] <= 127 by {
                if i < seq.len() - 1 {
                    assert(pre[i] == seq[i]);
                } else {
                    assert(seq[i] == seq.last());
                }
            }
        }
    }
}

/// Whether an optional setting is given as `name`.
pub open spec fn is_named(o: Option<String>, name: Seq<char>) -> bool {
    o matches Some(x) && x@ == name
}

/// Whether an optional setting is absent or one of three names.
pub open spec fn absent_or_one_of(o: Option<String>, a: Seq<char>, b: Seq<char>, c: Seq<char>) -> bool {
    match o {
        None => true,
        Some(x) => x@ == a || x@ == b || x@ == c,
    }
}

/// An enabled chords section is read as written. It is accepted exactly
/// when `advance_on` and `select` are absent or documented names and the
/// sequence is a non-empty list of voicings that each give every gate voice
/// a pitch in 0..=127. The accepted progression keeps the voicings; it
/// advances on clock pulses for "clock", wall deaths for "wall_death" and
/// drive-period boundaries for "period" (wall deaths when absent); it
/// selects sequentially for "sequential", by magnetization for
/// "magnetization" and at random for "random" (sequentially when absent);
/// it advances after `advance_every` matching events, after each one when
/// that is absent or 0. An unknown trigger name is refused as such.
pub proof fn lemma_chords_read_as_written(s: ChordsSection, n_voices: usize, chain: Seq<char>)
    requires
        s.enabled == Some(true),
    ensures
        ({
            let r = spec_build_chords(Some(s), n_voices, chain);
            &&& (absent_or_one_of(s.advance_on, "clock"@, "wall_death"@, "period"@)
                && absent_or_one_of(s.select, "sequential"@, "magnetization"@, "random"@)
                && (s.sequence matches Some(v) && v@.len() > 0 && voicings_fit(voicings(v@), n_voices))) <==> r is Ok
            &&& r matches Ok(c) ==> {
                &&& c.enabled
                &&& c.sequence == voicings(s.sequence.unwrap()@)
                &&& s.advance_on is None ==> c.advance_on == ChordTriggerKind::WallDeath
                &&& is_named(s.advance_on, "clock"@) ==> c.advance_on == ChordTriggerKind::Clock
                &&& is_named(s.advance_on, "wall_death"@) ==> c.advance_on == ChordTriggerKind::WallDeath
                &&& is_named(s.advance_on, "period"@) ==> c.advance_on == ChordTriggerKind::Period
                &&& s.select is None ==> c.select == ChordSelect::Sequential
                &&& is_named(s.select, "sequential"@) ==> c.select == ChordSelect::Sequential
                &&& is_named(s.select, "magnetization"@) ==> c.select == ChordSelect::Magnetization
                &&& is_named(s.select, "random"@) ==> c.select == ChordSelect::Random
                &&& c.advance_every == match s.advance_every {
                    Some(k) => if k >= 1 { k } else { 1 },
                    None => 1,
                }
            }
            &&& !absent_or_one_of(s.advance_on, "clock"@, "wall_death"@, "period"@) ==> r
                == Err::<crate::config::chords::ChordConfigView, ValidationErrorView>(
                ValidationErrorView::UnknownChordTrigger { chain, got: s.advance_on.unwrap()@ },
            )
        }),
{
    reveal_strlit("clock");
    reveal_strlit("wall_death");
    reveal_strlit("period");
    reveal_strlit("sequential");
    reveal_strlit("magnetization");
    reveal_strlit("random");
    assert("clock"@ != "wall_death"@ && "clock"@ != "period"@ && "wall_death"@ != "period"@) by {
        assert("clock"@.len() != "wall_death"@.len() && "clock"@.len() != "period"@.len());
        assert("wall_death"@.len() != "period"@.len());
    }
    assert("sequential"@ != "magnetization"@ && "sequential"@ != "random"@ && "magnetization"@ != "random"@) by {
        assert("sequential"@.len() != "magnetization"@.len() && "sequential"@.len() != "random"@.len());
        assert("magnetization"@.len() != "random"@.len());
    }
    match s.sequence {
        Some(v) => lemma_check_voicings_ok(voicings(v@), n_voices, chain),
        None => {},
    }
}

// --- Coupling ----------------------------------------------------------------

/// Without the `strength` shorthand each direction is read from its own
/// field alone: `strength_ab` (0.0 when absent) for A to B and
/// `strength_ba` (0.0 when absent) for B to A. The section is accepted
/// exactly when both lie in 0.0..=2.0; otherwise the first direction out of
/// range is refused with its value.
pub proof fn lemma_coupling_directions_independent(s: CouplingSection)
    requires
        lowercase_is_shape(s.shape@),
        s.strength is None,
    ensures
        ({
            let ab = match s.strength_ab { Some(v) => v, None => BITS_ZERO };
            let ba = match s.strength_ba { Some(v) => v, None => BITS_ZERO };
            let r = spec_build_coupling(Some(s));
            &&& within_zero_to_two(ab) && within_zero_to_two(ba) ==> (r matches Ok(Some(c))
                && c.strength_ab == ab && c.strength_ba == ba)
            &&& !within_zero_to_two(ab) ==> r == Err::<Option<CouplingConfig>, ValidationErrorView>(
                ValidationErrorView::CouplingStrengthOutOfRange { field: StrengthField::Ab, value: ab },
            )
            &&& within_zero_to_two(ab) && !within_zero_to_two(ba) ==> r == Err::<Option<CouplingConfig>, ValidationErrorView>(
                ValidationErrorView::CouplingStrengthOutOfRange { field: StrengthField::Ba, value: ba },
            )
        }),
{
}

// --- Walls -------------------------------------------------------------------

/// `repitch_on_move` is read as written: a walls section that gives it has
/// it in its wall MIDI settings, one that leaves it out has `false`, and
/// without a walls section it is `false`. It decides nothing else: two
/// sections that differ only in it are accepted or refused alike and give
/// the same walls otherwise.
pub proof fn lemma_walls_repitch_as_written(s: WallsSection, x: Option<bool>, chain: Seq<char>)
    ensures
        spec_build_walls(Some(s), chain) matches Ok((_, m, _)) ==> m.repitch_on_move == match s.repitch_on_move {
            Some(b) => b,
            None => false,
        },
        spec_build_walls(None, chain) matches Ok((_, m, _)) && !m.repitch_on_move,
        ({
            let t = WallsSection { repitch_on_move: x, ..s };
            match (spec_build_walls(Some(s), chain), spec_build_walls(Some(t), chain)) {
                (Ok((w1, m1, c1)), Ok((w2, m2, c2))) => w1 == w2 && c1 == c2
                    && m1 == (WallMidiConfigView { repitch_on_move: m1.repitch_on_move, ..m2 }),
                (Err(e1), Err(e2)) => e1 == e2,
                _ => false,
            }
        }),
{
}

// --- Input -------------------------------------------------------------------

/// A perturbation kind is read with its axis and magnitude: "flip" is a
/// flip; "rotate" rotates about the named axis by the given magnitude
/// (0.3 when absent); "field_spike" spikes the field along the named axis
/// with the given magnitude (0.5 when absent).
pub proof fn lemma_perturbation_magnitude_kept(lowered: Seq<char>, axis: Seq<char>, magnitude: Option<FloatBits>, a: Axis)
    requires
        spec_parse_axis(axis) == Ok::<Axis, ValidationErrorView>(a),
    ensures
        lowered == "flip"@ ==> spec_perturbation_kind(lowered, axis, magnitude) == Ok::<
            PerturbationKindConfig,
            ValidationErrorView,
        >(PerturbationKindConfig::Flip),
        lowered == "rotate"@ ==> spec_perturbation_kind(lowered, axis, magnitude) == Ok::<
            PerturbationKindConfig,
            ValidationErrorView,
        >(PerturbationKindConfig::Rotate { axis: a, base_angle: match magnitude { Some(m) => m, None => BITS_0_3 } }),
        lowered == "field_spike"@ ==> spec_perturbation_kind(lowered, axis, magnitude) == Ok::<
            PerturbationKindConfig,
            ValidationErrorView,
        >(PerturbationKindConfig::FieldSpike { axis: a, base_magnitude: match magnitude { Some(m) => m, None => BITS_0_5 } }),
{
    reveal_strlit("flip");
    reveal_strlit("rotate");
    reveal_strlit("field_spike");
    assert("rotate"@ != "flip"@) by { assert("rotate"@.len() != "flip"@.len()); }
    assert("field_spike"@ != "flip"@) by { assert("field_spike"@.len() != "flip"@.len()); }
    assert("field_spike"@ != "rotate"@) by { assert("field_spike"@.len() != "rotate"@.len()); }
}

/// An input section whose kind is "rotate" or "field_spike" in any ASCII
/// letter case, with a known axis, yields that perturbation with the given
/// magnitude, or the kind's default when the magnitude is absent.
pub proof fn lemma_input_magnitude_kept(s: InputSection, a: Axis)
    requires
        s.perturbation matches Some(p) && p.kind matches Some(k) && is_ascii_text(k@)
            && (ascii_lowercase(k@) == "rotate"@ || ascii_lowercase(k@) == "field_spike"@),
        s.perturbation matches Some(p) && p.axis matches Some(x) && spec_parse_axis(x@) == Ok::<Axis, ValidationErrorView>(a),
    ensures
        ({
            let p = s.perturbation.unwrap();
            let k = p.kind.unwrap();
            &&& spec_build_input(Some(s)) matches Ok(Some(i))
            &&& ascii_lowercase(k@) == "rotate"@ ==> i.perturbation.kind == PerturbationKindConfig::Rotate {
                axis: a,
                base_angle: match p.magnitude { Some(m) => m, None => BITS_0_3 },
            }
            &&& ascii_lowercase(k@) == "field_spike"@ ==> i.perturbation.kind == PerturbationKindConfig::FieldSpike {
                axis: a,
                base_magnitude: match p.magnitude { Some(m) => m, None => BITS_0_5 },
            }
        }),
{
    let p = s.perturbation.unwrap();
    lemma_perturbation_magnitude_kept(ascii_lowercase(p.kind.unwrap()@), p.axis.unwrap()@, p.magnitude, a);
}

} // verus!
