use crystallized_time::chord::{ChordEngine, ChordTrigger};
use crystallized_time::config::chords::{ChordConfig, ChordSelect, ChordTriggerKind};
use crystallized_time::runtime::tick_chords;

fn config(advance_on: ChordTriggerKind, every: u32, select: ChordSelect) -> ChordConfig {
    ChordConfig {
        enabled: true,
        advance_on,
        advance_every: every,
        select,
        sequence: vec![vec![48, 52, 55, 59], vec![45, 48, 52, 55], vec![43, 47, 50, 53]],
    }
}

#[test]
fn disabled_or_empty_config_gives_no_engine() {
    let mut pitches = vec![1, 2, 3, 4];
    let mut c = config(ChordTriggerKind::Clock, 1, ChordSelect::Sequential);
    c.enabled = false;
    assert!(ChordEngine::new(c, &mut pitches).is_none());
    let mut c = config(ChordTriggerKind::Clock, 1, ChordSelect::Sequential);
    c.sequence = Vec::new();
    assert!(ChordEngine::new(c, &mut pitches).is_none());
    assert_eq!(pitches, vec![1, 2, 3, 4]);
}

#[test]
fn new_engine_applies_first_voicing() {
    let mut pitches = vec![0, 0, 0, 0, 99];
    let e = ChordEngine::new(config(ChordTriggerKind::Clock, 1, ChordSelect::Sequential), &mut pitches)
        .expect("engine");
    assert_eq!(e.current_index(), 0);
    assert_eq!(e.chord_count(), 3);
    // Voices beyond the voicing keep their pitch.
    assert_eq!(pitches, vec![48, 52, 55, 59, 99]);
}

#[test]
fn shorter_buffer_takes_the_covered_voices() {
    let mut pitches = vec![0, 0];
    let _e = ChordEngine::new(config(ChordTriggerKind::Clock, 1, ChordSelect::Sequential), &mut pitches)
        .expect("engine");
    assert_eq!(pitches, vec![48, 52]);
}

#[test]
fn other_triggers_change_nothing() {
    let mut pitches = vec![0; 4];
    let mut e = ChordEngine::new(config(ChordTriggerKind::Clock, 1, ChordSelect::Sequential), &mut pitches)
        .expect("engine");
    e.on_event(ChordTrigger::WallDeath, 0, 10, &mut pitches);
    e.on_event(ChordTrigger::Period, 0, 11, &mut pitches);
    assert_eq!(e.current_index(), 0);
    assert_eq!(pitches, vec![48, 52, 55, 59]);
}

#[test]
fn sequential_advances_every_nth_event_and_wraps() {
    let mut pitches = vec![0; 4];
    let mut e = ChordEngine::new(config(ChordTriggerKind::WallDeath, 2, ChordSelect::Sequential), &mut pitches)
        .expect("engine");
    e.on_event(ChordTrigger::WallDeath, 0, 1, &mut pitches);
    assert_eq!(e.current_index(), 0);
    e.on_event(ChordTrigger::WallDeath, 0, 2, &mut pitches);
    assert_eq!(e.current_index(), 1);
    assert_eq!(pitches, vec![45, 48, 52, 55]);
    for t in 3..5 {
        e.on_event(ChordTrigger::WallDeath, 0, t, &mut pitches);
    }
    assert_eq!(e.current_index(), 2);
    for t in 5..7 {
        e.on_event(ChordTrigger::WallDeath, 0, t, &mut pitches);
    }
    assert_eq!(e.current_index(), 0);
    assert_eq!(pitches, vec![48, 52, 55, 59]);
}

#[test]
fn zero_advance_period_advances_on_every_event() {
    let mut pitches = vec![0; 4];
    let mut e = ChordEngine::new(config(ChordTriggerKind::Period, 0, ChordSelect::Sequential), &mut pitches)
        .expect("engine");
    e.on_event(ChordTrigger::Period, 0, 1, &mut pitches);
    assert_eq!(e.current_index(), 1);
}

#[test]
fn magnetization_slot_is_capped_at_last_voicing() {
    let mut pitches = vec![0; 4];
    let mut e = ChordEngine::new(config(ChordTriggerKind::Clock, 1, ChordSelect::Magnetization), &mut pitches)
        .expect("engine");
    e.on_event(ChordTrigger::Clock, 1, 0, &mut pitches);
    assert_eq!(e.current_index(), 1);
    e.on_event(ChordTrigger::Clock, 3, 0, &mut pitches);
    assert_eq!(e.current_index(), 2);
    assert_eq!(pitches, vec![43, 47, 50, 53]);
    e.on_event(ChordTrigger::Clock, 0, 0, &mut pitches);
    assert_eq!(e.current_index(), 0);
}

#[test]
fn random_pick_follows_the_tick() {
    // ((tick * 6364136223846793005 + 1442695040888963407) mod 2^64) >> 33, mod 3:
    // tick 5 -> 1, tick 1000 -> 0, tick 0 -> 2.
    let mut pitches = vec![0; 4];
    let mut e = ChordEngine::new(config(ChordTriggerKind::Clock, 1, ChordSelect::Random), &mut pitches)
        .expect("engine");
    e.on_event(ChordTrigger::Clock, 0, 5, &mut pitches);
    assert_eq!(e.current_index(), 1);
    e.on_event(ChordTrigger::Clock, 0, 1000, &mut pitches);
    assert_eq!(e.current_index(), 0);
    e.on_event(ChordTrigger::Clock, 0, 0, &mut pitches);
    assert_eq!(e.current_index(), 2);
    assert_eq!(pitches, vec![43, 47, 50, 53]);
}

#[test]
fn random_pick_is_reproducible() {
    let mut p1 = vec![0; 4];
    let mut p2 = vec![0; 4];
    let mut e1 = ChordEngine::new(config(ChordTriggerKind::Clock, 1, ChordSelect::Random), &mut p1).unwrap();
    let mut e2 = ChordEngine::new(config(ChordTriggerKind::Clock, 1, ChordSelect::Random), &mut p2).unwrap();
    for t in [3u64, 17, 99, 12345, 7] {
        e1.on_event(ChordTrigger::Clock, 0, t, &mut p1);
        e2.on_event(ChordTrigger::Clock, 2, t, &mut p2);
        assert_eq!(e1.current_index(), e2.current_index());
    }
    assert_eq!(p1, p2);
}

#[test]
fn tick_chords_delivers_each_event_of_the_tick() {
    let mut pitches = vec![0; 4];
    let mut engine =
        ChordEngine::new(config(ChordTriggerKind::WallDeath, 1, ChordSelect::Sequential), &mut pitches);
    tick_chords(&mut engine, true, 2, true, 0, 40, &mut pitches);
    assert_eq!(engine.as_ref().unwrap().current_index(), 2);
    assert_eq!(pitches, vec![43, 47, 50, 53]);
    let mut none: Option<ChordEngine> = None;
    let mut untouched = vec![9; 4];
    tick_chords(&mut none, true, 3, true, 0, 41, &mut untouched);
    assert_eq!(untouched, vec![9; 4]);
}

#[test]
fn apply_chord_rewrites_an_edited_buffer() {
    let mut pitches = vec![0; 4];
    let e = ChordEngine::new(config(ChordTriggerKind::Clock, 1, ChordSelect::Sequential), &mut pitches)
        .expect("engine");
    pitches[2] = 100;
    e.apply_chord(&mut pitches);
    assert_eq!(pitches, vec![48, 52, 55, 59]);
}

#[test]
fn after_n_matching_events_the_buffer_holds_voicing_n_over_e() {
    let c = config(ChordTriggerKind::Clock, 2, ChordSelect::Sequential);
    let sequence = c.sequence.clone();
    let mut pitches = vec![0; 4];
    let mut e = ChordEngine::new(c, &mut pitches).expect("engine");
    for n in 1..=20usize {
        // Events of other kinds interleave without effect.
        e.on_event(ChordTrigger::Period, 0, n as u64, &mut pitches);
        e.on_event(ChordTrigger::Clock, 3, n as u64, &mut pitches);
        e.on_event(ChordTrigger::WallDeath, 1, n as u64, &mut pitches);
        let expected = (n / 2) % 3;
        assert_eq!(e.current_index(), expected);
        assert_eq!(pitches, sequence[expected]);
    }
}
