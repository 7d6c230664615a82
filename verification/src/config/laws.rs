//! What every configuration that passes validation satisfies.

use vstd::prelude::*;
use crate::config::config_file::{
    lemma_no_duplicate_iff_distinct, lemma_stable_order, slot_lt, spec_build_chain, spec_into_config, spec_key_indices,
    spec_validate_no_duplicates, spec_voice_slots, ChannelClaimView, VoiceSlot, first_missing_site,
};
use crate::config::schema::{voice_keys, ChainSection, GateVoiceEntry, PhysicsSection, TomlConfig, VoiceEntry, WallVoiceEntry};
use crate::config::sections::{
    first_high_pitch, lemma_gate_voices_channels, spec_build_chords, spec_build_clock, spec_build_events,
    spec_build_midi, spec_build_modulation, spec_build_walls, spec_check_voicings, spec_gate_voices, spec_wall_claims, gate_claims, channel_used_before, GateVoice,
    within_zero_to_two,
};
use crate::config::{ChainConfigView, ConfigView, CouplingConfig};
use crate::config::error::ValidationErrorView;
use crate::config::schema::CouplingSection;
use crate::config::sections::{lowercase_is_shape, spec_build_coupling, spec_parse_axis};
use crate::text::{ascii_lowercase, is_ascii_text};

verus! {

/// The distinct values of `s`, each where it first occurs.
pub open spec fn first_uses(s: Seq<u8>) -> Seq<u8>
    decreases s.len(),
{
    if s.len() == 0 {
        Seq::empty()
    } else if exists|i: int| 0 <= i < s.len() - 1 && s[i] == s.last() {
        first_uses(s.drop_last())
    } else {
        first_uses(s.drop_last()).push(s.last())
    }
}

/// The MIDI channels a chain occupies: the channels of its gate voices
/// (voices may share one), its wall voices, its clock, and its modulation
/// stream when enabled.
pub open spec fn chain_channels(c: ChainConfigView) -> Seq<u8> {
    first_uses(c.midi.voice_channels) + c.wall_midi.channels + seq![c.clock.channel] + if c.modulation.enabled {
        seq![c.modulation.channel]
    } else {
        Seq::<u8>::empty()
    }
}

/// The MIDI channels the whole configuration occupies.
pub open spec fn all_channels(c: ConfigView) -> Seq<u8> {
    chain_channels(c.chain_a) + match c.chain_b {
        Some(b) => chain_channels(b),
        None => Seq::<u8>::empty(),
    }
}

/// No channel occurs twice.
pub open spec fn no_repeats(s: Seq<u8>) -> bool {
    forall|i: int, j: int| 0 <= i < j < s.len() ==> s[i] != s[j]
}

/// What a validated chain satisfies.
pub open spec fn chain_valid(c: ChainConfigView) -> bool {
    let n_voices = c.midi.voice_channels.len();
    let sites = c.events.output_sites;
    &&& n_voices >= 1
    &&& c.midi.voice_pitches.len() == n_voices
    &&& sites.len() == n_voices
    &&& forall|i: int, j: int| 0 <= i < j < sites.len() ==> sites[i] <= sites[j]
    &&& forall|i: int| 0 <= i < sites.len() ==> sites[i] < c.physics.n_sites
    &&& forall|i: int| 0 <= i < n_voices ==> c.midi.voice_channels[i] < 16 && c.midi.voice_pitches[i] <= 127
    &&& forall|i: int| 0 <= i < chain_channels(c).len() ==> chain_channels(c)[i] < 16
    &&& c.clock.pitch <= 127
    &&& c.wall_midi.pitch_low <= c.wall_midi.pitch_high <= 127
    &&& c.wall_midi.motion_cc matches Some(n) ==> 1 <= n <= 127
    &&& c.walls.enabled == (c.wall_midi.channels.len() > 0)
    &&& c.modulation.cc_number <= 127
    &&& c.quantize.root_note <= 127
    &&& c.chords.enabled ==> {
        &&& c.chords.sequence.len() > 0
        &&& c.chords.advance_every >= 1
        &&& forall|k: int| 0 <= k < c.chords.sequence.len() ==> (#[trigger] c.chords.sequence[k]).len() == n_voices
        &&& forall|k: int, p: int| 0 <= k < c.chords.sequence.len() && 0 <= p < c.chords.sequence[k].len()
            ==> #[trigger] c.chords.sequence[k][p] <= 127
    }
}

/// What a validated configuration satisfies.
pub open spec fn config_valid(c: ConfigView) -> bool {
    &&& chain_valid(c.chain_a)
    &&& c.chain_b matches Some(b) ==> chain_valid(b) && b.physics.ticks_per_period == c.chain_a.physics.ticks_per_period
    &&& c.coupling matches Some(k) ==> within_zero_to_two(k.strength_ab) && within_zero_to_two(k.strength_ba)
    &&& no_repeats(all_channels(c))
}

pub open spec fn claim_channels(claims: Seq<ChannelClaimView>) -> Seq<u8> {
    claims.map_values(|c: ChannelClaimView| c.channel)
}

proof fn lemma_key_indices_len(keys: Seq<Seq<char>>, section: Seq<char>)
    ensures
        spec_key_indices(keys, section) matches Ok(idx) ==> idx.len() == keys.len(),
    decreases keys.len(),
{
    if keys.len() > 0 {
        lemma_key_indices_len(keys.drop_last(), section);
    }
}

proof fn lemma_voice_slots<V>(entries: Seq<VoiceEntry<V>>, section: Seq<char>)
    requires
        entries.len() <= usize::MAX,
    ensures
        spec_voice_slots(voice_keys(entries), section) matches Ok(slots) ==> {
            &&& slots.len() == entries.len()
            &&& forall|i: int, j: int| 0 <= i < j < slots.len() ==> slot_lt(#[trigger] slots[i], #[trigger] slots[j])
            &&& forall|i: int| 0 <= i < slots.len() ==> (#[trigger] slots[i]).position < entries.len()
        },
{
    let keys = voice_keys(entries);
    lemma_key_indices_len(keys, section);
    if let Ok(idx) = spec_key_indices(keys, section) {
        lemma_stable_order(idx);
    }
}

proof fn lemma_gate_voices_len(entries: Seq<VoiceEntry<GateVoiceEntry>>, chain: Seq<char>, slots: Seq<VoiceSlot>)
    ensures
        spec_gate_voices(entries, chain, slots) matches Ok(v) ==> v.len() == slots.len(),
    decreases slots.len(),
{
    if slots.len() > 0 {
        lemma_gate_voices_len(entries, chain, slots.drop_last());
    }
}

proof fn lemma_wall_claims(entries: Seq<VoiceEntry<WallVoiceEntry>>, chain: Seq<char>, slots: Seq<VoiceSlot>)
    ensures
        spec_wall_claims(entries, chain, slots) matches Ok(v) ==> forall|i: int| 0 <= i < v.len() ==> (#[trigger] v[i]).channel < 16,
    decreases slots.len(),
{
    if slots.len() > 0 {
        lemma_wall_claims(entries, chain, slots.drop_last());
    }
}

proof fn lemma_high_pitch_none(c: Seq<u8>)
    ensures
        first_high_pitch(c) is None ==> forall|p: int| 0 <= p < c.len() ==> c[p] <= 127,
    decreases c.len(),
{
    if c.len() > 0 {
        lemma_high_pitch_none(c.drop_last());
        if first_high_pitch(c) is None {
            assert forall|p: int| 0 <= p < c.len() implies c[p] <= 127 by {
                if p < c.len() - 1 {
                    assert(c.drop_last()[p] == c[p]);
                }
            }
        }
    }
}

proof fn lemma_check_voicings_ok(seq: Seq<Seq<u8>>, n_voices: usize, chain: Seq<char>)
    ensures
        spec_check_voicings(seq, n_voices, chain) is Ok ==> {
            &&& forall|k: int| 0 <= k < seq.len() ==> (#[trigger] seq[k]).len() == n_voices
            &&& forall|k: int, p: int| 0 <= k < seq.len() && 0 <= p < seq[k].len() ==> #[trigger] seq[k][p] <= 127
        },
    decreases seq.len(),
{
    if seq.len() > 0 {
        lemma_check_voicings_ok(seq.drop_last(), n_voices, chain);
        lemma_high_pitch_none(seq.last());
        if spec_check_voicings(seq, n_voices, chain) is Ok {
            assert forall|k: int| 0 <= k < seq.len() implies (#[trigger] seq[k]).len() == n_voices by {
                if k < seq.len() - 1 {
                    assert(seq.drop_last()[k] == seq[k]);
                }
            }
            assert forall|k: int, p: int| 0 <= k < seq.len() && 0 <= p < seq[k].len() implies #[trigger] seq[k][p] <= 127 by {
                if k < seq.len() - 1 {
                    assert(seq.drop_last()[k] == seq[k]);
                }
            }
        }
    }
}

proof fn lemma_missing_site_none(sites: Seq<usize>, n_sites: usize)
    ensures
        first_missing_site(sites, n_sites) is None ==> forall|i: int| 0 <= i < sites.len() ==> sites[i] < n_sites,
    decreases sites.len(),
{
    if sites.len() > 0 {
        lemma_missing_site_none(sites.drop_last(), n_sites);
        if first_missing_site(sites, n_sites) is None {
            assert forall|i: int| 0 <= i < sites.len() implies sites[i] < n_sites by {
                if i < sites.len() - 1 {
                    assert(sites.drop_last()[i] == sites[i]);
                }
            }
        }
    }
}

proof fn lemma_first_uses_within(s: Seq<u8>)
    ensures
        forall|x: u8| first_uses(s).contains(x) ==> s.contains(x),
    decreases s.len(),
{
    if s.len() > 0 {
        lemma_first_uses_within(s.drop_last());
        let p = first_uses(s.drop_last());
        assert forall|x: u8| first_uses(s).contains(x) implies s.contains(x) by {
            if p.contains(x) {
                assert(s.drop_last().contains(x));
                let k = choose|k: int| 0 <= k < s.drop_last().len() && s.drop_last()[k] == x;
                assert(s[k] == x);
            } else {
                let f = first_uses(s);
                let k = choose|k: int| 0 <= k < f.len() && f[k] == x;
                if k < p.len() {
                    assert(f[k] == p[k]);
                    assert(p.contains(x));
                }
                assert(x == s.last());
                assert(s[s.len() - 1] == x);
            }
        }
    }
}

/// Channels named by gate claims: those of the voices, repeats dropped,
/// earliest first.
proof fn lemma_gate_claims(v: Seq<GateVoice>)
    ensures
        claim_channels(gate_claims(v)) == first_uses(v.map_values(|x: GateVoice| x.channel)),
    decreases v.len(),
{
    let m = v.map_values(|x: GateVoice| x.channel);
    if v.len() > 0 {
        lemma_gate_claims(v.drop_last());
        assert(m.drop_last() =~= v.drop_last().map_values(|x: GateVoice| x.channel));
        assert(channel_used_before(v, v.len() - 1, v.last().channel) == exists|i: int| 0 <= i < m.len() - 1 && m[i] == m.last()) by {
            if channel_used_before(v, v.len() - 1, v.last().channel) {
                let i = choose|i: int| 0 <= i < v.len() - 1 && (#[trigger] v[i]).channel == v.last().channel;
                assert(m[i] == m.last());
            }
            if exists|i: int| 0 <= i < m.len() - 1 && m[i] == m.last() {
                let i = choose|i: int| 0 <= i < m.len() - 1 && m[i] == m.last();
                assert(v[i].channel == v.last().channel);
            }
        }
        assert(claim_channels(gate_claims(v)) =~= first_uses(m));
    } else {
        assert(claim_channels(gate_claims(v)) =~= first_uses(m));
    }
}

/// A chain that validates is consistent, and the channels it claims are
/// exactly the channels it occupies.
pub proof fn lemma_chain_valid(section: ChainSection, label: Seq<char>, shared: Option<PhysicsSection>)
    requires
        section.gates.voices@.len() <= usize::MAX,
        section.walls matches Some(w) ==> w.voices@.len() <= usize::MAX,
        spec_build_chain(section, label, shared) is Ok,
    ensures
        chain_valid(spec_build_chain(section, label, shared)->Ok_0.0),
        claim_channels(spec_build_chain(section, label, shared)->Ok_0.1) == chain_channels(
            spec_build_chain(section, label, shared)->Ok_0.0,
        ),
{
    let (c, claims) = spec_build_chain(section, label, shared)->Ok_0;
    let g = section.gates;
    lemma_voice_slots(g.voices@, label + ".gates"@);
    let slots = spec_voice_slots(voice_keys(g.voices@), label + ".gates"@)->Ok_0;
    lemma_gate_voices_len(g.voices@, label, slots);
    lemma_gate_voices_channels(g.voices@, label, slots);
    let v = spec_gate_voices(g.voices@, label, slots)->Ok_0;
    let (midi, gclaims) = spec_build_midi(g, label)->Ok_0;
    lemma_first_uses_within(midi.voice_channels);
    let (walls, wall_midi, wall_claims) = spec_build_walls(section.walls, label)->Ok_0;
    if let Some(w) = section.walls {
        lemma_voice_slots(w.voices@, label + ".walls"@);
        let wslots = spec_voice_slots(voice_keys(w.voices@), label + ".walls"@)->Ok_0;
        lemma_wall_claims(w.voices@, label, wslots);
        assert(wall_midi.channels =~= claim_channels(wall_claims));
    } else {
        assert(wall_midi.channels =~= claim_channels(wall_claims));
    }
    let events = spec_build_events(g, label)->Ok_0;
    let chords = spec_build_chords(section.chords, midi.voice_channels.len() as usize, label)->Ok_0;
    if let Some(s) = section.chords {
        if s.enabled.unwrap_or(false) {
            let seq = chords.sequence;
            lemma_check_voicings_ok(seq, midi.voice_channels.len() as usize, label);
        }
    }
    lemma_missing_site_none(events.output_sites, c.physics.n_sites);
    lemma_gate_claims(v);
    assert(v.map_values(|x: GateVoice| x.channel) == midi.voice_channels);
    assert forall|i: int, j: int| 0 <= i < j < events.output_sites.len() implies events.output_sites[i]
        <= events.output_sites[j] by {
        assert(slot_lt(slots[i], slots[j]));
    }
    let clock = spec_build_clock(section.clock, label)->Ok_0;
    let modulation = spec_build_modulation(
        section.modulation,
        label,
        if midi.voice_channels.len() > 0 { Some(midi.voice_channels[0]) } else { None },
    )->Ok_0;
    assert(claim_channels(claims) =~= chain_channels(c));
    assert forall|i: int| 0 <= i < chain_channels(c).len() implies chain_channels(c)[i] < 16 by {
        let cc = chain_channels(c);
            let nw = wall_midi.channels.len() as int;
        let fu = first_uses(midi.voice_channels);
        if i < fu.len() {
            assert(cc[i] == fu[i]);
            assert(fu.contains(fu[i]));
            assert(midi.voice_channels.contains(fu[i]));
            let k = choose|k: int| 0 <= k < midi.voice_channels.len() && midi.voice_channels[k] == fu[i];
            assert(midi.voice_channels[k] == v[k].channel);
        } else if i < fu.len() + nw {
            assert(cc[i] == wall_claims[i - fu.len()].channel);
        }
    }
}

/// A configuration file that validates yields a consistent configuration:
/// every gate voice names an existing site and the voices are ordered by
/// site; every channel is a 0-based channel below 16 and no channel is
/// occupied twice across gates, walls, clocks and modulation of both
/// chains; wall pitches form a range within 0..=127; CC numbers and root
/// notes lie within 0..=127; an enabled chord progression is non-empty,
/// advances at least every event and lists one pitch (0..=127) per gate
/// voice in every voicing; chain_b runs at chain_a's ticks per period;
/// coupling strengths lie within 0.0..=2.0.
pub proof fn lemma_loaded_config_is_valid(t: TomlConfig)
    requires
        t.chain_a.gates.voices@.len() <= usize::MAX,
        t.chain_a.walls matches Some(w) ==> w.voices@.len() <= usize::MAX,
        t.chain_b matches Some(b) ==> b.gates.voices@.len() <= usize::MAX && (b.walls matches Some(w)
            ==> w.voices@.len() <= usize::MAX),
        spec_into_config(t) is Ok,
    ensures
        config_valid(spec_into_config(t)->Ok_0),
{
    let c = spec_into_config(t)->Ok_0;
    lemma_chain_valid(t.chain_a, "chain_a"@, t.physics);
    let (a, ca) = spec_build_chain(t.chain_a, "chain_a"@, t.physics)->Ok_0;
    let cb: Seq<ChannelClaimView> = match t.chain_b {
        Some(sb) => {
            lemma_chain_valid(sb, "chain_b"@, t.physics);
            spec_build_chain(sb, "chain_b"@, t.physics)->Ok_0.1
        },
        None => Seq::empty(),
    };
    assert(spec_validate_no_duplicates(ca + cb) is Ok);
    lemma_no_duplicate_iff_distinct(ca + cb);
    assert(claim_channels(ca + cb) =~= all_channels(c));
    assert forall|i: int, j: int| 0 <= i < j < all_channels(c).len() implies all_channels(c)[i] != all_channels(c)[j] by {
        assert((ca + cb)[i].channel == all_channels(c)[i]);
        assert((ca + cb)[j].channel == all_channels(c)[j]);
    }
}

/// A chain's own physics block wins over the shared one: with its own
/// block, the shared block does not affect the chain at all.
pub proof fn lemma_own_physics_wins(section: ChainSection, label: Seq<char>, shared1: Option<PhysicsSection>, shared2: Option<PhysicsSection>)
    requires
        section.physics is Some,
    ensures
        spec_build_chain(section, label, shared1) == spec_build_chain(section, label, shared2),
{
}

/// `coupling.strength` sets both directions to the same value, and it
/// cannot be combined with a directional strength.
pub proof fn lemma_coupling_shorthand(s: CouplingSection)
    requires
        lowercase_is_shape(s.shape@),
    ensures
        s.strength matches Some(g) ==> (s.strength_ab is None && s.strength_ba is None && within_zero_to_two(g)
            ==> (spec_build_coupling(Some(s)) matches Ok(Some(c)) && c.strength_ab == g && c.strength_ba == g)),
        s.strength is Some && (s.strength_ab is Some || s.strength_ba is Some)
            ==> spec_build_coupling(Some(s)) == Err::<Option<CouplingConfig>, ValidationErrorView>(ValidationErrorView::CouplingStrengthConflict),
{
}

/// Coupling shapes are read in any letter case: two sections whose shape
/// names are ASCII and differ only in the case of their letters, with the
/// same strengths, give the same coupling or the same error.
pub proof fn lemma_shape_letter_case(s: CouplingSection, t: CouplingSection)
    requires
        is_ascii_text(s.shape@),
        is_ascii_text(t.shape@),
        ascii_lowercase(s.shape@) == ascii_lowercase(t.shape@),
        s.strength == t.strength,
        s.strength_ab == t.strength_ab,
        s.strength_ba == t.strength_ba,
    ensures
        spec_build_coupling(Some(s)) == spec_build_coupling(Some(t)),
{
}

/// Axes are read in any letter case: two ASCII names that differ only in
/// the case of their letters name the same axis, or are refused alike.
pub proof fn lemma_axis_letter_case(a: Seq<char>, b: Seq<char>)
    requires
        is_ascii_text(a),
        is_ascii_text(b),
        ascii_lowercase(a) == ascii_lowercase(b),
    ensures
        spec_parse_axis(a) == spec_parse_axis(b),
{
}

} // verus!
