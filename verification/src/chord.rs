//! Chord-change engine.
//!
//! Rewrites a chain's gate voice pitches as the simulation runs. Each chain
//! owns its own engine. It advances on a chosen physics event (clock
//! pulse, wall destruction, or drive period boundary), once every
//! `advance_every` such events, and the next chord is picked sequentially,
//! by chain magnetization, or by a tick-seeded generator.
//!
//! The pitches live in a buffer that others read and edit too; each call
//! that may change the chord is handed that buffer.

use vstd::prelude::*;
use vstd::arithmetic::div_mod::{lemma_add_mod_noop_right, lemma_fundamental_div_mod, lemma_fundamental_div_mod_converse, lemma_mod_bound};
use crate::config::chords::{ChordConfig, ChordConfigView, ChordSelect, ChordTriggerKind};

verus! {

/// A physics event that may advance the progression.
#[derive(Clone, Copy, Debug, PartialEq, Eq, Structural)]
pub enum ChordTrigger {
    Clock,
    WallDeath,
    Period,
}

/// Whether `trigger` is the event kind the progression advances on.
pub open spec fn trigger_matches(trigger: ChordTrigger, kind: ChordTriggerKind) -> bool {
    match (trigger, kind) {
        (ChordTrigger::Clock, ChordTriggerKind::Clock) => true,
        (ChordTrigger::WallDeath, ChordTriggerKind::WallDeath) => true,
        (ChordTrigger::Period, ChordTriggerKind::Period) => true,
        _ => false,
    }
}

/// One step of the linear congruential generator seeded by the tick
/// (arithmetic modulo 2^64).
pub open spec fn lcg(tick: u64) -> u64 {
    ((tick * 6364136223846793005u64 + 1442695040888963407u64) % 0x1_0000_0000_0000_0000) as u64
}

/// The index the selection mode picks among `n` voicings. For
/// `Magnetization`, `magnetization_slot` is `floor(((m + 1) / 2) * n)` of
/// the chain's mean magnetization `m`, with the normalised value clamped
/// to `[0, 1]`; the pick is that slot, capped at the last voicing.
pub open spec fn next_index(select: ChordSelect, current: nat, n: nat, magnetization_slot: nat, tick: u64) -> nat {
    match select {
        ChordSelect::Sequential => (current + 1) % n,
        ChordSelect::Magnetization => if magnetization_slot < n - 1 {
            magnetization_slot
        } else {
            (n - 1) as nat
        },
        ChordSelect::Random => ((lcg(tick) >> 33u64) as nat) % n,
    }
}

/// `pitches` with its first voices set to `chord`; voices beyond the
/// chord's length keep their pitch and pitches beyond the voices are not
/// used.
pub open spec fn overwrite_prefix(pitches: Seq<u8>, chord: Seq<u8>) -> Seq<u8> {
    Seq::new(pitches.len(), |i: int| if i < chord.len() { chord[i] } else { pitches[i] })
}

/// The state of an engine: its configuration, the index of the voicing in
/// force, and the matching events counted since the last advance.
pub struct ChordEngineView {
    pub config: ChordConfigView,
    pub current: nat,
    pub counter: nat,
}

/// One event that reaches the engine.
pub struct ChordEvent {
    pub trigger: ChordTrigger,
    pub magnetization_slot: nat,
    pub tick: u64,
}

/// Whether an event makes the engine pick a voicing: it matches the
/// configured trigger and completes a run of `advance_every` matches.
pub open spec fn picks(e: ChordEngineView, ev: ChordEvent) -> bool {
    trigger_matches(ev.trigger, e.config.advance_on) && e.counter + 1 >= e.config.advance_every
}

/// The engine after one event.
pub open spec fn step(e: ChordEngineView, ev: ChordEvent) -> ChordEngineView {
    if !trigger_matches(ev.trigger, e.config.advance_on) {
        e
    } else if e.counter + 1 < e.config.advance_every {
        ChordEngineView { counter: e.counter + 1, ..e }
    } else {
        ChordEngineView {
            current: next_index(e.config.select, e.current, e.config.sequence.len(), ev.magnetization_slot, ev.tick),
            counter: 0,
            ..e
        }
    }
}

/// Whether an event changes the voicing in force.
pub open spec fn changes_chord(e: ChordEngineView, ev: ChordEvent) -> bool {
    step(e, ev).current != e.current
}

/// The engine after a series of events.
pub open spec fn run(e: ChordEngineView, evs: Seq<ChordEvent>) -> ChordEngineView
    decreases evs.len(),
{
    if evs.len() == 0 {
        e
    } else {
        step(run(e, evs.drop_last()), evs.last())
    }
}

/// The pitch buffer after a series of events: each event that changes the
/// voicing writes the new one.
pub open spec fn run_pitches(e: ChordEngineView, evs: Seq<ChordEvent>, pitches: Seq<u8>) -> Seq<u8>
    decreases evs.len(),
{
    if evs.len() == 0 {
        pitches
    } else {
        let before = run(e, evs.drop_last());
        let p = run_pitches(e, evs.drop_last(), pitches);
        if changes_chord(before, evs.last()) {
            overwrite_prefix(p, step(before, evs.last()).config.sequence[step(before, evs.last()).current as int])
        } else {
            p
        }
    }
}

/// An engine state that can occur: enabled, non-empty sequence, a valid
/// index, and a counter below the advance period.
pub open spec fn engine_state_valid(e: ChordEngineView) -> bool {
    &&& e.config.enabled
    &&& e.config.sequence.len() > 0
    &&& e.current < e.config.sequence.len()
    &&& (e.counter == 0 || e.counter < e.config.advance_every)
}

/// The index the selection mode picks (see `next_index`).
fn pick_index(select: ChordSelect, current: usize, n: usize, magnetization_slot: usize, tick: u64) -> (r: usize)
    requires
        0 < n,
        current < n,
    ensures
        r == next_index(select, current as nat, n as nat, magnetization_slot as nat, tick),
        r < n,
{
    match select {
        ChordSelect::Sequential => {
            let r = (current + 1) % n;
            assert(r < n) by (nonlinear_arith)
                requires
                    r as int == (current as int + 1) % (n as int),
                    n > 0,
            ;
            r
        },
        ChordSelect::Magnetization => if magnetization_slot < n - 1 {
            magnetization_slot
        } else {
            n - 1
        },
        ChordSelect::Random => {
            let x = tick.wrapping_mul(6364136223846793005).wrapping_add(1442695040888963407);
            assert(x == lcg(tick));
            let y = x >> 33;
            assert(y < 0x1_0000_0000) by (bit_vector)
                requires
                    y == x >> 33,
            ;
            let r = (y as usize) % n;
            assert(r < n) by (nonlinear_arith)
                requires
                    r as int == (y as int) % (n as int),
                    n > 0,
            ;
            r
        },
    }
}

pub struct ChordEngine {
    config: ChordConfig,
    current_idx: usize,
    counter: u32,
}

impl View for ChordEngine {
    type V = ChordEngineView;

    closed spec fn view(&self) -> ChordEngineView {
        ChordEngineView { config: self.config@, current: self.current_idx as nat, counter: self.counter as nat }
    }
}

impl ChordEngine {
    #[verifier::type_invariant]
    closed spec fn inv(self) -> bool {
        &&& self.config.enabled
        &&& self.config.sequence@.len() > 0
        &&& self.current_idx < self.config.sequence@.len()
        &&& (self.counter == 0 || self.counter < self.config.advance_every)
    }

    /// An engine for `config`, or `None` when chords are disabled or the
    /// sequence is empty. A new engine starts at the first voicing with a
    /// zero count and writes that voicing into `voice_pitches`.
    pub fn new(config: ChordConfig, voice_pitches: &mut Vec<u8>) -> (r: Option<Self>)
        ensures
            r is None <==> (!config.enabled || config.sequence@.len() == 0),
            r matches Some(e) ==> e@ == (ChordEngineView { config: config@, current: 0, counter: 0 }),
            r matches Some(e) ==> engine_state_valid(e@),
            r matches Some(_) ==> final(voice_pitches)@ == overwrite_prefix(old(voice_pitches)@, config@.sequence[0]),
            r is None ==> final(voice_pitches)@ == old(voice_pitches)@,
    {
        if !config.enabled || config.sequence.len() == 0 {
            return None;
        }
        let engine = ChordEngine { config, current_idx: 0, counter: 0 };
        engine.apply_chord(voice_pitches);
        Some(engine)
    }

    /// Number of voicings in the sequence.
    pub fn chord_count(&self) -> (n: usize)
        ensures
            n == self@.config.sequence.len(),
            n > 0,
    {
        proof {
            use_type_invariant(self);
        }
        self.config.sequence.len()
    }

    /// Index of the voicing in force.
    pub fn current_index(&self) -> (i: usize)
        ensures
            i == self@.current,
            i < self@.config.sequence.len(),
    {
        proof {
            use_type_invariant(self);
        }
        self.current_idx
    }

    /// Call once per relevant event. `magnetization_slot` is only read when
    /// the selection mode is `Magnetization` (see `next_index`). When the
    /// event changes the voicing in force, the new voicing is written into
    /// `voice_pitches`; otherwise the pitches are left alone.
    pub fn on_event(&mut self, trigger: ChordTrigger, magnetization_slot: usize, tick: u64, voice_pitches: &mut Vec<u8>)
        ensures
            final(self)@ == step(old(self)@, ChordEvent { trigger, magnetization_slot: magnetization_slot as nat, tick }),
            engine_state_valid(old(self)@),
            engine_state_valid(final(self)@),
            final(voice_pitches)@ == if changes_chord(old(self)@, ChordEvent { trigger, magnetization_slot: magnetization_slot as nat, tick }) {
                overwrite_prefix(old(voice_pitches)@, final(self)@.config.sequence[final(self)@.current as int])
            } else {
                old(voice_pitches)@
            },
    {
        proof {
            use_type_invariant(&*self);
        }
        let matches = match (trigger, self.config.advance_on) {
            (ChordTrigger::Clock, ChordTriggerKind::Clock) => true,
            (ChordTrigger::WallDeath, ChordTriggerKind::WallDeath) => true,
            (ChordTrigger::Period, ChordTriggerKind::Period) => true,
            _ => false,
        };
        if !matches {
            return;
        }
        let counter = self.counter + 1;
        if counter < self.config.advance_every {
            self.counter = counter;
            return;
        }
        self.counter = 0;
        let n = self.config.sequence.len();
        let next = pick_index(self.config.select, self.current_idx, n, magnetization_slot, tick);
        if next == self.current_idx {
            return;
        }
        self.current_idx = next;
        self.apply_chord(voice_pitches);
    }

    /// Writes the voicing in force into the first voices of `voice_pitches`.
    pub fn apply_chord(&self, voice_pitches: &mut Vec<u8>)
        ensures
            final(voice_pitches)@ == overwrite_prefix(old(voice_pitches)@, self@.config.sequence[self@.current as int]),
    {
        proof {
            use_type_invariant(self);
        }
        let chord = &self.config.sequence[self.current_idx];
        let ghost c = chord@;
        assert(c == self@.config.sequence[self@.current as int]);
        let mut i: usize = 0;
        while i < chord.len()
            invariant
                i <= chord@.len(),
                c == chord@,
                voice_pitches@.len() == old(voice_pitches)@.len(),
                forall|k: int| 0 <= k < voice_pitches@.len() ==> #[trigger] voice_pitches@[k] == (if k < i && k < c.len() {
                    c[k]
                } else {
                    old(voice_pitches)@[k]
                }),
            decreases chord@.len() - i,
        {
            if i < voice_pitches.len() {
                voice_pitches.set(i, chord[i]);
            }
            i += 1;
        }
        assert(voice_pitches@ =~= overwrite_prefix(old(voice_pitches)@, c));
    }
}

// --- Laws --------------------------------------------------------------------

/// An event of another kind than the configured trigger changes nothing.
pub proof fn lemma_other_trigger_changes_nothing(e: ChordEngineView, ev: ChordEvent)
    requires
        !trigger_matches(ev.trigger, e.config.advance_on),
    ensures
        step(e, ev) == e,
        !changes_chord(e, ev),
{
}

/// Every event keeps an engine in a state that can occur; in particular
/// the voicing in force always exists.
pub proof fn lemma_step_keeps_valid(e: ChordEngineView, ev: ChordEvent)
    requires
        engine_state_valid(e),
    ensures
        engine_state_valid(step(e, ev)),
{
    let n = e.config.sequence.len();
    if trigger_matches(ev.trigger, e.config.advance_on) && e.counter + 1 >= e.config.advance_every {
        let m = ev.magnetization_slot;
        match e.config.select {
            ChordSelect::Sequential => {
                assert((e.current + 1) % n < n);
            },
            ChordSelect::Magnetization => {},
            ChordSelect::Random => {
                assert(((lcg(ev.tick) >> 33u64) as nat) % n < n);
            },
        }
    }
}

/// The progression advances once per `advance_every` matching events: from
/// a zero count, `advance_every - 1` matching events leave the voicing in
/// force and count up, and the next matching event resets the count.
pub proof fn lemma_advances_every_nth(e: ChordEngineView, evs: Seq<ChordEvent>, last: ChordEvent)
    requires
        e.counter == 0,
        e.config.advance_every >= 1,
        evs.len() == e.config.advance_every - 1,
        forall|i: int| 0 <= i < evs.len() ==> trigger_matches((#[trigger] evs[i]).trigger, e.config.advance_on),
        trigger_matches(last.trigger, e.config.advance_on),
    ensures
        run(e, evs).current == e.current,
        run(e, evs).counter == evs.len(),
        run(e, evs).config == e.config,
        picks(run(e, evs), last),
        step(run(e, evs), last).counter == 0,
    decreases evs.len(),
{
    lemma_counts_up(e, evs);
}

proof fn lemma_counts_up(e: ChordEngineView, evs: Seq<ChordEvent>)
    requires
        e.counter == 0,
        evs.len() < e.config.advance_every,
        forall|i: int| 0 <= i < evs.len() ==> trigger_matches((#[trigger] evs[i]).trigger, e.config.advance_on),
    ensures
        run(e, evs).current == e.current,
        run(e, evs).counter == evs.len(),
        run(e, evs).config == e.config,
    decreases evs.len(),
{
    if evs.len() > 0 {
        let pre = evs.drop_last();
        assert forall|i: int| 0 <= i < pre.len() implies trigger_matches((#[trigger] pre[i]).trigger, e.config.advance_on) by {
            assert(pre[i] == evs[i]);
        }
        lemma_counts_up(e, pre);
        assert(trigger_matches(evs[evs.len() - 1].trigger, e.config.advance_on));
    }
}

/// In sequential mode a pick moves to the next voicing, wrapping around.
pub proof fn lemma_sequential_round_robin(e: ChordEngineView, ev: ChordEvent)
    requires
        engine_state_valid(e),
        e.config.select == ChordSelect::Sequential,
        picks(e, ev),
    ensures
        step(e, ev).current == if e.current + 1 == e.config.sequence.len() { 0 } else { e.current + 1 },
{
    let n = e.config.sequence.len();
    if e.current + 1 == n {
        assert(n % n == 0) by (nonlinear_arith)
            requires
                n > 0,
        ;
    } else {
        assert((e.current + 1) % n == e.current + 1) by (nonlinear_arith)
            requires
                e.current + 1 < n,
        ;
    }
}

/// In random mode the pick depends on the tick alone: two engines with the
/// same sequence length pick the same voicing on the same tick, whatever
/// their current voicing or the chain's magnetization.
pub proof fn lemma_random_reproducible(e1: ChordEngineView, ev1: ChordEvent, e2: ChordEngineView, ev2: ChordEvent)
    requires
        e1.config.select == ChordSelect::Random,
        e2.config.select == ChordSelect::Random,
        e1.config.sequence.len() == e2.config.sequence.len(),
        picks(e1, ev1),
        picks(e2, ev2),
        ev1.tick == ev2.tick,
    ensures
        step(e1, ev1).current == step(e2, ev2).current,
{
}

/// Applying a voicing sets exactly the voices it covers.
pub proof fn lemma_overwrite_prefix(pitches: Seq<u8>, chord: Seq<u8>)
    ensures
        overwrite_prefix(pitches, chord).len() == pitches.len(),
        forall|i: int| 0 <= i < pitches.len() && i < chord.len() ==> #[trigger] overwrite_prefix(pitches, chord)[i] == chord[i],
        forall|i: int| chord.len() <= i < pitches.len() ==> #[trigger] overwrite_prefix(pitches, chord)[i] == pitches[i],
        chord.len() == pitches.len() ==> overwrite_prefix(pitches, chord) == chord,
{
    if chord.len() == pitches.len() {
        assert(overwrite_prefix(pitches, chord) =~= chord);
    }
}

/// The number of events in `evs` of the kind the progression advances on.
pub open spec fn matching_count(evs: Seq<ChordEvent>, kind: ChordTriggerKind) -> nat
    decreases evs.len(),
{
    if evs.len() == 0 {
        0
    } else {
        matching_count(evs.drop_last(), kind) + if trigger_matches(evs.last().trigger, kind) { 1nat } else { 0nat }
    }
}

/// The number of matching events per advance: `advance_every`, at least 1.
pub open spec fn advance_period(c: ChordConfigView) -> nat {
    if c.advance_every >= 1 { c.advance_every as nat } else { 1 }
}

/// Sequential progression over any series of events: from a zero count,
/// after `m` matching events (others change nothing) the engine has moved
/// `m / p` steps round-robin through the sequence, `p` the advance period,
/// and has counted `m % p` events towards the next step.
pub proof fn lemma_sequential_after_events(e: ChordEngineView, evs: Seq<ChordEvent>)
    requires
        engine_state_valid(e),
        e.config.select == ChordSelect::Sequential,
        e.counter == 0,
    ensures
        run(e, evs).config == e.config,
        run(e, evs).current == (e.current + matching_count(evs, e.config.advance_on) / advance_period(e.config))
            % e.config.sequence.len(),
        run(e, evs).counter == matching_count(evs, e.config.advance_on) % advance_period(e.config),
        engine_state_valid(run(e, evs)),
    decreases evs.len(),
{
    let k = advance_period(e.config) as int;
    let n = e.config.sequence.len() as int;
    let c0 = e.current as int;
    if evs.len() == 0 {
        assert(0int / k == 0 && 0int % k == 0) by {
            lemma_fundamental_div_mod_converse(0, k, 0, 0);
        }
        assert(c0 % n == c0) by {
            lemma_fundamental_div_mod_converse(c0, n, 0, c0);
        }
    } else {
        let pre = evs.drop_last();
        let ev = evs.last();
        lemma_sequential_after_events(e, pre);
        let b = run(e, pre);
        lemma_step_keeps_valid(b, ev);
        let m = matching_count(pre, e.config.advance_on) as int;
        let q = m / k;
        let r = m % k;
        lemma_fundamental_div_mod(m, k);
        lemma_mod_bound(m, k);
        if trigger_matches(ev.trigger, e.config.advance_on) {
            assert(m + 1 == q * k + r + 1) by (nonlinear_arith)
                requires
                    m == k * q + r,
            ;
            if b.counter + 1 < b.config.advance_every {
                lemma_fundamental_div_mod_converse(m + 1, k, q, r + 1);
            } else {
                assert(r + 1 == k);
                assert(m + 1 == (q + 1) * k + 0) by (nonlinear_arith)
                    requires
                        m + 1 == q * k + r + 1,
                        r + 1 == k,
                ;
                lemma_fundamental_div_mod_converse(m + 1, k, q + 1, 0);
                lemma_add_mod_noop_right(1, c0 + q, n);
                assert(b.current == (c0 + q) % n);
                assert((b.current as int + 1) % n == (c0 + q + 1) % n);
            }
        }
    }
}

/// Applying a voicing twice is applying it once.
pub proof fn lemma_overwrite_idempotent(pitches: Seq<u8>, chord: Seq<u8>)
    ensures
        overwrite_prefix(overwrite_prefix(pitches, chord), chord) == overwrite_prefix(pitches, chord),
{
    assert(overwrite_prefix(overwrite_prefix(pitches, chord), chord) =~= overwrite_prefix(pitches, chord));
}

/// A buffer that holds the voicing in force keeps holding the voicing in
/// force, whatever events arrive (as long as nothing else writes to it).
pub proof fn lemma_buffer_follows_progression(e: ChordEngineView, evs: Seq<ChordEvent>, pitches: Seq<u8>)
    requires
        engine_state_valid(e),
        overwrite_prefix(pitches, e.config.sequence[e.current as int]) == pitches,
    ensures
        overwrite_prefix(run_pitches(e, evs, pitches), run(e, evs).config.sequence[run(e, evs).current as int])
            == run_pitches(e, evs, pitches),
        run_pitches(e, evs, pitches).len() == pitches.len(),
        engine_state_valid(run(e, evs)),
        run(e, evs).config == e.config,
    decreases evs.len(),
{
    if evs.len() > 0 {
        let pre = evs.drop_last();
        lemma_buffer_follows_progression(e, pre, pitches);
        let b = run(e, pre);
        lemma_step_keeps_valid(b, evs.last());
        let p = run_pitches(e, pre, pitches);
        let a = step(b, evs.last());
        if changes_chord(b, evs.last()) {
            lemma_overwrite_idempotent(p, a.config.sequence[a.current as int]);
        }
    }
}

/// A fresh sequential engine and its buffer after any series of events:
/// with `m` matching events among them and advance period `p`, the voices
/// covered by the voicing hold voicing `(m / p) % n` of the sequence.
pub proof fn lemma_sequential_buffer(config: ChordConfigView, evs: Seq<ChordEvent>, pitches: Seq<u8>)
    requires
        config.enabled,
        config.sequence.len() > 0,
        config.select == ChordSelect::Sequential,
    ensures
        ({
            let e = ChordEngineView { config, current: 0, counter: 0 };
            let start = overwrite_prefix(pitches, config.sequence[0]);
            let i = (matching_count(evs, config.advance_on) / advance_period(config)) % config.sequence.len();
            let out = run_pitches(e, evs, start);
            &&& run(e, evs).current == i
            &&& out.len() == pitches.len()
            &&& forall|v: int| 0 <= v < out.len() && v < config.sequence[i as int].len() ==> out[v] == config.sequence[i as int][v]
        }),
{
    let e = ChordEngineView { config, current: 0, counter: 0 };
    let start = overwrite_prefix(pitches, config.sequence[0]);
    lemma_overwrite_idempotent(pitches, config.sequence[0]);
    lemma_sequential_after_events(e, evs);
    lemma_buffer_follows_progression(e, evs, start);
    let i = run(e, evs).current;
    let out = run_pitches(e, evs, start);
    assert forall|v: int| 0 <= v < out.len() && v < config.sequence[i as int].len() implies out[v] == config.sequence[i as int][v] by {
        assert(overwrite_prefix(out, config.sequence[i as int])[v] == config.sequence[i as int][v]);
    }
}

} // verus!
