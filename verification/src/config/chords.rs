//! Chord-change configuration: which event advances the progression, how
//! often, how the next voicing is chosen, and the voicings themselves.

use vstd::prelude::*;

verus! {

/// Which physics event advances the chord pointer.
#[derive(Clone, Copy, Debug, PartialEq, Eq, Structural)]
pub enum ChordTriggerKind {
    /// A chain clock pulse.
    Clock,
    /// A domain wall is destroyed.
    WallDeath,
    /// A drive-period boundary.
    Period,
}

/// How the next chord index is chosen.
#[derive(Clone, Copy, Debug, PartialEq, Eq, Structural)]
pub enum ChordSelect {
    /// Round-robin through the sequence.
    Sequential,
    /// Index follows the chain's normalised magnetization.
    Magnetization,
    /// A tick-seeded pseudo-random index, reproducible for a given run.
    Random,
}

#[derive(Clone, Debug)]
pub struct ChordConfig {
    pub enabled: bool,
    /// Which physics event advances the chord pointer.
    pub advance_on: ChordTriggerKind,
    /// How many of those events must fire before advancing.
    pub advance_every: u32,
    /// How the next chord index is chosen.
    pub select: ChordSelect,
    /// The voicings; each one lists a pitch per gate voice.
    pub sequence: Vec<Vec<u8>>,
}

pub struct ChordConfigView {
    pub enabled: bool,
    pub advance_on: ChordTriggerKind,
    pub advance_every: u32,
    pub select: ChordSelect,
    pub sequence: Seq<Seq<u8>>,
}

/// The voicings of a chord sequence, each as a sequence of pitches.
pub open spec fn voicings(v: Seq<Vec<u8>>) -> Seq<Seq<u8>> {
    v.map_values(|c: Vec<u8>| c@)
}

impl View for ChordConfig {
    type V = ChordConfigView;

    open spec fn view(&self) -> ChordConfigView {
        ChordConfigView {
            enabled: self.enabled,
            advance_on: self.advance_on,
            advance_every: self.advance_every,
            select: self.select,
            sequence: voicings(self.sequence@),
        }
    }
}

pub open spec fn default_chords() -> ChordConfigView {
    ChordConfigView {
        enabled: false,
        advance_on: ChordTriggerKind::WallDeath,
        advance_every: 1,
        select: ChordSelect::Sequential,
        sequence: Seq::empty(),
    }
}

impl Default for ChordConfig {
    fn default() -> (r: Self)
        ensures
            r@ == default_chords(),
    {
        let r = ChordConfig {
            enabled: false,
            advance_on: ChordTriggerKind::WallDeath,
            advance_every: 1,
            select: ChordSelect::Sequential,
            sequence: Vec::new(),
        };
        assert(voicings(r.sequence@) =~= Seq::<Seq<u8>>::empty());
        r
    }
}

/// A copy of a list of voicings.
pub fn copy_voicings(v: &Vec<Vec<u8>>) -> (r: Vec<Vec<u8>>)
    ensures
        voicings(r@) == voicings(v@),
{
    let mut r: Vec<Vec<u8>> = Vec::new();
    let mut i: usize = 0;
    while i < v.len()
        invariant
            i <= v.len(),
            r@.len() == i,
            forall|k: int| 0 <= k < i ==> (#[trigger] r@[k])@ == v@[k]@,
        decreases v.len() - i,
    {
        let mut c: Vec<u8> = Vec::new();
        let mut j: usize = 0;
        while j < v[i].len()
            invariant
                i < v.len(),
                j <= v@[i as int].len(),
                c@ == v@[i as int]@.take(j as int),
            decreases v@[i as int].len() - j,
        {
            c.push(v[i][j]);
            assert(v@[i as int]@.take(j + 1) =~= v@[i as int]@.take(j as int).push(v@[i as int]@[j as int]));
            j += 1;
        }
        assert(v@[i as int]@.take(j as int) =~= v@[i as int]@);
        r.push(c);
        i += 1;
    }
    assert(voicings(r@) =~= voicings(v@));
    r
}

} // verus!
