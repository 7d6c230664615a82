//! Per-tick decisions of the chain runtime: when a chain emits, how the
//! physics events of a tick reach the chord engine, which optional parts
//! (coupling, MIDI input) run.

use vstd::prelude::*;
use crate::chord::{run, run_pitches, step, ChordEngine, ChordEngineView, ChordEvent, ChordTrigger};
use crate::config::chords::{ChordSelect, ChordTriggerKind};
use crate::config::{Config, CouplingConfig, PerturbationConfig};

verus! {

/// Whether a chain with this emission stride emits on `tick`: every tick
/// for a stride of 0 or 1, otherwise on multiples of the stride.
pub open spec fn spec_should_emit(emit_stride: u32, tick: u64) -> bool {
    emit_stride <= 1 || tick % (emit_stride as u64) == 0
}

/// Whether the chain emits gate, pulse, modulation and wall events on
/// `tick`.
pub fn should_emit(emit_stride: u32, tick: u64) -> (r: bool)
    ensures
        r == spec_should_emit(emit_stride, tick),
{
    emit_stride <= 1 || tick % (emit_stride as u64) == 0
}

/// An event of the given kind at `tick`.
pub open spec fn chord_event(magnetization_slot: nat, tick: u64, trigger: ChordTrigger) -> ChordEvent {
    ChordEvent { trigger, magnetization_slot, tick }
}

/// The events one tick hands to a chord engine, in order: a clock pulse
/// if the clock fired, one wall death per destroyed wall, a period event at
/// a drive-period boundary. All carry the tick's magnetization slot.
pub open spec fn tick_events(
    clock_pulsed: bool,
    walls_destroyed: nat,
    is_period_boundary: bool,
    magnetization_slot: nat,
    tick: u64,
) -> Seq<ChordEvent> {
    (if clock_pulsed { seq![chord_event(magnetization_slot, tick, ChordTrigger::Clock)] } else { Seq::empty() })
        + Seq::new(walls_destroyed, |i: int| chord_event(magnetization_slot, tick, ChordTrigger::WallDeath))
        + (if is_period_boundary { seq![chord_event(magnetization_slot, tick, ChordTrigger::Period)] } else { Seq::empty() })
}

/// Feeds one tick's physics events to a chain's chord engine (if it has
/// one), rewriting `voice_pitches` as the progression advances.
pub fn tick_chords(
    engine: &mut Option<ChordEngine>,
    clock_pulsed: bool,
    walls_destroyed: usize,
    is_period_boundary: bool,
    magnetization_slot: usize,
    tick: u64,
    voice_pitches: &mut Vec<u8>,
)
    ensures
        *old(engine) is None ==> *final(engine) is None && final(voice_pitches)@ == old(voice_pitches)@,
        *old(engine) matches Some(e0) ==> {
            let evs = tick_events(clock_pulsed, walls_destroyed as nat, is_period_boundary, magnetization_slot as nat, tick);
            &&& *final(engine) matches Some(e1)
            &&& e1@ == run(e0@, evs)
            &&& final(voice_pitches)@ == run_pitches(e0@, evs, old(voice_pitches)@)
        },
{
    let e = match engine {
        Some(e) => e,
        None => return,
    };
    let ghost e0 = e@;
    let ghost p0 = voice_pitches@;
    let ghost evs = tick_events(clock_pulsed, walls_destroyed as nat, is_period_boundary, magnetization_slot as nat, tick);
    let ghost mut done: Seq<ChordEvent> = Seq::empty();
    if clock_pulsed {
        e.on_event(ChordTrigger::Clock, magnetization_slot, tick, voice_pitches);
        proof {
            done = seq![chord_event(magnetization_slot as nat, tick, ChordTrigger::Clock)];
            assert(done.drop_last() =~= Seq::<ChordEvent>::empty());
        }
    }
    proof {
        if clock_pulsed {
            assert(run(e0, done.drop_last()) == e0);
            assert(done.last() == chord_event(magnetization_slot as nat, tick, ChordTrigger::Clock));
            assert(e@ == step(e0, chord_event(magnetization_slot as nat, tick, ChordTrigger::Clock)));
            assert(run_pitches(e0, done.drop_last(), p0) == p0);
        }
        assert(e@ == run(e0, done));
        assert(voice_pitches@ == run_pitches(e0, done, p0));
    }
    let mut i: usize = 0;
    while i < walls_destroyed
        invariant
            i <= walls_destroyed,
            done == (if clock_pulsed { seq![chord_event(magnetization_slot as nat, tick, ChordTrigger::Clock)] } else { Seq::<ChordEvent>::empty() })
                + Seq::new(i as nat, |k: int| chord_event(magnetization_slot as nat, tick, ChordTrigger::WallDeath)),
            e@ == run(e0, done),
            voice_pitches@ == run_pitches(e0, done, p0),
        decreases walls_destroyed - i,
    {
        let ghost before = done;
        e.on_event(ChordTrigger::WallDeath, magnetization_slot, tick, voice_pitches);
        proof {
            done = done.push(chord_event(magnetization_slot as nat, tick, ChordTrigger::WallDeath));
            assert(done.drop_last() =~= before);
            assert(done.last() == chord_event(magnetization_slot as nat, tick, ChordTrigger::WallDeath));
            assert(e@ == run(e0, done));
            assert(voice_pitches@ == run_pitches(e0, done, p0));
            assert(done =~= (if clock_pulsed { seq![chord_event(magnetization_slot as nat, tick, ChordTrigger::Clock)] } else { Seq::<ChordEvent>::empty() })
                + Seq::new((i + 1) as nat, |k: int| chord_event(magnetization_slot as nat, tick, ChordTrigger::WallDeath)));
        }
        i += 1;
    }
    if is_period_boundary {
        let ghost before = done;
        e.on_event(ChordTrigger::Period, magnetization_slot, tick, voice_pitches);
        proof {
            done = done.push(chord_event(magnetization_slot as nat, tick, ChordTrigger::Period));
            assert(done.drop_last() =~= before);
            assert(done.last() == chord_event(magnetization_slot as nat, tick, ChordTrigger::Period));
            assert(e@ == run(e0, done));
            assert(voice_pitches@ == run_pitches(e0, done, p0));
        }
    }
    assert(done =~= evs);
}

/// Whether inter-chain coupling runs.
#[derive(Clone, Copy, Debug, PartialEq, Eq, Structural)]
pub enum CouplingPlan {
    /// Both chains and a coupling section: coupling runs with this setting.
    Run(CouplingConfig),
    /// A coupling section without chain_b: coupling does not run, and the
    /// user is told so.
    IgnoredWithoutChainB,
    /// No coupling section.
    Off,
}

pub open spec fn spec_coupling_plan(coupling: Option<CouplingConfig>, has_chain_b: bool) -> CouplingPlan {
    match coupling {
        Some(c) => if has_chain_b { CouplingPlan::Run(c) } else { CouplingPlan::IgnoredWithoutChainB },
        None => CouplingPlan::Off,
    }
}

/// Decides whether coupling runs for a configuration.
pub fn coupling_plan(config: &Config) -> (r: CouplingPlan)
    ensures
        r == spec_coupling_plan(config.coupling, config.chain_b is Some),
{
    match config.coupling {
        Some(c) => if config.chain_b.is_some() { CouplingPlan::Run(c) } else { CouplingPlan::IgnoredWithoutChainB },
        None => CouplingPlan::Off,
    }
}

/// Whether MIDI input is opened.
#[derive(Clone, Copy, Debug, PartialEq, Eq, Structural)]
pub enum InputPlan {
    /// An `[input]` section and a port: open the port and route its notes.
    Open { port: usize, perturbation: PerturbationConfig },
    /// A port without an `[input]` section: input stays closed, and the
    /// user is told so.
    PortWithoutSection,
    /// Input stays closed.
    Off,
}

pub open spec fn spec_input_plan(config: &Config, input_port: Option<usize>) -> InputPlan {
    match config.input {
        None => if input_port is Some { InputPlan::PortWithoutSection } else { InputPlan::Off },
        Some(i) => match input_port {
            Some(p) => InputPlan::Open { port: p, perturbation: i.perturbation },
            None => InputPlan::Off,
        },
    }
}

/// Decides whether MIDI input is opened, from the configuration and the
/// port chosen on the command line.
pub fn input_plan(config: &Config, input_port: Option<usize>) -> (r: InputPlan)
    ensures
        r == spec_input_plan(config, input_port),
{
    match config.input {
        None => if input_port.is_some() { InputPlan::PortWithoutSection } else { InputPlan::Off },
        Some(i) => match input_port {
            Some(p) => InputPlan::Open { port: p, perturbation: i.perturbation },
            None => InputPlan::Off,
        },
    }
}

/// How many of `evs` are of kind `t`.
pub open spec fn count_of(evs: Seq<ChordEvent>, t: ChordTrigger) -> nat
    decreases evs.len(),
{
    if evs.len() == 0 {
        0
    } else {
        count_of(evs.drop_last(), t) + if evs.last().trigger == t { 1nat } else { 0nat }
    }
}

proof fn lemma_count_of_concat(a: Seq<ChordEvent>, b: Seq<ChordEvent>, t: ChordTrigger)
    ensures
        count_of(a + b, t) == count_of(a, t) + count_of(b, t),
    decreases b.len(),
{
    if b.len() > 0 {
        lemma_count_of_concat(a, b.drop_last(), t);
        assert((a + b).drop_last() =~= a + b.drop_last());
    } else {
        assert(a + b =~= a);
    }
}

proof fn lemma_count_of_repeated(n: nat, ev: ChordEvent, t: ChordTrigger)
    ensures
        count_of(Seq::new(n, |i: int| ev), t) == if ev.trigger == t { n } else { 0 },
    decreases n,
{
    if n > 0 {
        lemma_count_of_repeated((n - 1) as nat, ev, t);
        assert(Seq::new(n, |i: int| ev).drop_last() =~= Seq::new((n - 1) as nat, |i: int| ev));
    }
}

/// What a tick hands the chord engine: exactly one clock event when the
/// clock pulsed and none otherwise, one wall-death event per destroyed
/// wall, exactly one period event at a drive-period boundary and none
/// otherwise, nothing else; every event carries the tick and its
/// magnetization slot.
pub proof fn lemma_tick_events_counts(
    clock_pulsed: bool,
    walls_destroyed: nat,
    is_period_boundary: bool,
    magnetization_slot: nat,
    tick: u64,
)
    ensures
        ({
            let evs = tick_events(clock_pulsed, walls_destroyed, is_period_boundary, magnetization_slot, tick);
            &&& count_of(evs, ChordTrigger::Clock) == if clock_pulsed { 1nat } else { 0nat }
            &&& count_of(evs, ChordTrigger::WallDeath) == walls_destroyed
            &&& count_of(evs, ChordTrigger::Period) == if is_period_boundary { 1nat } else { 0nat }
            &&& evs.len() == count_of(evs, ChordTrigger::Clock) + count_of(evs, ChordTrigger::WallDeath)
                + count_of(evs, ChordTrigger::Period)
            &&& forall|i: int| 0 <= i < evs.len() ==> (#[trigger] evs[i]).tick == tick
                && evs[i].magnetization_slot == magnetization_slot
        }),
{
    let c = if clock_pulsed { seq![chord_event(magnetization_slot, tick, ChordTrigger::Clock)] } else { Seq::empty() };
    let w = Seq::new(walls_destroyed, |i: int| chord_event(magnetization_slot, tick, ChordTrigger::WallDeath));
    let p = if is_period_boundary { seq![chord_event(magnetization_slot, tick, ChordTrigger::Period)] } else { Seq::empty() };
    let evs = tick_events(clock_pulsed, walls_destroyed, is_period_boundary, magnetization_slot, tick);
    assert(evs == c + w + p);
    let ts = seq![ChordTrigger::Clock, ChordTrigger::WallDeath, ChordTrigger::Period];
    assert forall|k: int| 0 <= k < 3 implies count_of(evs, #[trigger] ts[k]) == count_of(c, ts[k]) + count_of(w, ts[k]) + count_of(p, ts[k]) by {
        lemma_count_of_concat(c + w, p, ts[k]);
        lemma_count_of_concat(c, w, ts[k]);
    }
    assert forall|k: int| 0 <= k < 3 implies count_of(w, #[trigger] ts[k]) == if ts[k] == ChordTrigger::WallDeath { walls_destroyed } else { 0 } by {
        lemma_count_of_repeated(walls_destroyed, chord_event(magnetization_slot, tick, ChordTrigger::WallDeath), ts[k]);
    }
    assert forall|k: int| 0 <= k < 3 implies count_of(c, #[trigger] ts[k]) == if clock_pulsed && ts[k] == ChordTrigger::Clock { 1nat } else { 0nat } by {
        if clock_pulsed {
            assert(c.drop_last() =~= Seq::<ChordEvent>::empty());
            assert(count_of(c.drop_last(), ts[k]) == 0);
            assert(c.last().trigger == ChordTrigger::Clock);
        } else {
            assert(c.len() == 0);
        }
    }
    assert forall|k: int| 0 <= k < 3 implies count_of(p, #[trigger] ts[k]) == if is_period_boundary && ts[k] == ChordTrigger::Period { 1nat } else { 0nat } by {
        if is_period_boundary {
            assert(p.drop_last() =~= Seq::<ChordEvent>::empty());
            assert(count_of(p.drop_last(), ts[k]) == 0);
            assert(p.last().trigger == ChordTrigger::Period);
        } else {
            assert(p.len() == 0);
        }
    }
    assert(ts[0] == ChordTrigger::Clock);
    assert(ts[1] == ChordTrigger::WallDeath);
    assert(ts[2] == ChordTrigger::Period);
}

/// A sequential engine that advances on every period boundary moves to the
/// next voicing, round-robin, on a tick that is only a period boundary.
pub proof fn lemma_period_tick_advances(e: ChordEngineView, magnetization_slot: nat, tick: u64)
    requires
        e.config.advance_on == ChordTriggerKind::Period,
        e.config.advance_every <= 1,
        e.config.select == ChordSelect::Sequential,
        e.config.sequence.len() > 0,
    ensures
        run(e, tick_events(false, 0, true, magnetization_slot, tick)).current == (e.current + 1) % e.config.sequence.len(),
{
    let evs = tick_events(false, 0, true, magnetization_slot, tick);
    assert(evs =~= seq![chord_event(magnetization_slot, tick, ChordTrigger::Period)]);
    assert(evs.drop_last() =~= Seq::<ChordEvent>::empty());
    assert(run(e, evs.drop_last()) == e);
}

} // verus!
