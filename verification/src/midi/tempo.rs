//! Tick positions, the tempo map, and conversion of tick spans to robot
//! song durations (1/64 s).

use vstd::prelude::*;
use crate::midi::file::{EventKind, MidiEvent};

verus! {

/// Tempo assumed before any Set Tempo event: 500 000 µs per beat (120 BPM).
pub const DEFAULT_TEMPO: u32 = 500_000;

/// Microseconds in one robot song unit (1/64 s).
pub const MICROS_PER_UNIT: u128 = 15_625;

/// `a + b`, or `u64::MAX` where that sum does not fit.
pub open spec fn sat_add(a: u64, b: u64) -> u64 {
    if a + b > u64::MAX { u64::MAX } else { (a + b) as u64 }
}

/// Tick position reached after the events of `events`: the sum of their
/// delta times (saturating at `u64::MAX`).
pub open spec fn end_tick(events: Seq<MidiEvent>) -> u64
    decreases events.len(),
{
    if events.len() == 0 {
        0
    } else {
        sat_add(end_tick(events.drop_last()), events.last().delta as u64)
    }
}

/// Absolute tick of the `i`-th event of a track.
pub open spec fn tick_of(events: Seq<MidiEvent>, i: int) -> u64 {
    end_tick(events.take(i + 1))
}

/// The per-track views of a list of tracks.
pub open spec fn track_views(tracks: Seq<Vec<MidiEvent>>) -> Seq<Seq<MidiEvent>> {
    tracks.map_values(|t: Vec<MidiEvent>| t@)
}

/// A tempo change: the tempo becomes `micros_per_beat` at `abs_tick`.
#[derive(Debug, Clone, Copy, PartialEq, Eq, Structural)]
pub struct TempoChange {
    /// Tick at which the tempo takes effect.
    pub abs_tick: u64,
    /// Tempo from that tick on, in µs per beat.
    pub micros_per_beat: u32,
}

/// Index of the first change of `map` at or after `tick` (`map.len()` if none).
pub open spec fn first_at_or_after(map: Seq<TempoChange>, tick: u64) -> nat
    decreases map.len(),
{
    if map.len() == 0 {
        0
    } else if map[0].abs_tick >= tick {
        0
    } else {
        1 + first_at_or_after(map.skip(1), tick)
    }
}

/// `map` with the change `c` recorded: it replaces a change at the same
/// tick, and is otherwise inserted before the first later change.
pub open spec fn tempo_insert(map: Seq<TempoChange>, c: TempoChange) -> Seq<TempoChange> {
    let p = first_at_or_after(map, c.abs_tick) as int;
    if p < map.len() && map[p].abs_tick == c.abs_tick {
        map.update(p, c)
    } else {
        map.insert(p, c)
    }
}

/// `map` after the Set Tempo events of one track are recorded in order.
pub open spec fn track_tempo_map(map: Seq<TempoChange>, events: Seq<MidiEvent>) -> Seq<TempoChange>
    decreases events.len(),
{
    if events.len() == 0 {
        map
    } else {
        let before = track_tempo_map(map, events.drop_last());
        match events.last().kind {
            EventKind::Tempo(t) => tempo_insert(before, TempoChange { abs_tick: end_tick(events), micros_per_beat: t }),
            _ => before,
        }
    }
}

/// The tempo map of a file: the Set Tempo events of all tracks, tracks in
/// order; at any one tick the last event read wins; sorted by tick.
pub open spec fn spec_tempo_map(tracks: Seq<Seq<MidiEvent>>) -> Seq<TempoChange>
    decreases tracks.len(),
{
    if tracks.len() == 0 {
        Seq::empty()
    } else {
        track_tempo_map(spec_tempo_map(tracks.drop_last()), tracks.last())
    }
}

/// The map's changes come in strictly increasing tick order.
pub open spec fn tempo_sorted(map: Seq<TempoChange>) -> bool {
    forall|i: int, j: int| 0 <= i < j < map.len() ==> map[i].abs_tick < map[j].abs_tick
}

proof fn lemma_first_at_or_after(map: Seq<TempoChange>, tick: u64)
    ensures
        first_at_or_after(map, tick) <= map.len(),
        forall|i: int| 0 <= i < first_at_or_after(map, tick) ==> map[i].abs_tick < tick,
        first_at_or_after(map, tick) < map.len() ==> map[first_at_or_after(map, tick) as int].abs_tick >= tick,
    decreases map.len(),
{
    if map.len() > 0 && map[0].abs_tick < tick {
        lemma_first_at_or_after(map.skip(1), tick);
        assert forall|i: int| 0 <= i < first_at_or_after(map, tick) implies map[i].abs_tick < tick by {
            if i > 0 {
                assert(map[i] == map.skip(1)[i - 1]);
            }
        }
    }
}

proof fn lemma_tempo_insert_sorted(map: Seq<TempoChange>, c: TempoChange)
    requires
        tempo_sorted(map),
    ensures
        tempo_sorted(tempo_insert(map, c)),
{
    lemma_first_at_or_after(map, c.abs_tick);
}

/// Record one change, keeping the map sorted and free of repeated ticks.
fn insert_change(map: &mut Vec<TempoChange>, c: TempoChange)
    requires
        tempo_sorted(old(map)@),
    ensures
        final(map)@ == tempo_insert(old(map)@, c),
        tempo_sorted(final(map)@),
{
    let mut p: usize = 0;
    assert(map@.skip(0) =~= map@);
    while p < map.len() && map[p].abs_tick < c.abs_tick
        invariant
            p <= map@.len(),
            forall|i: int| 0 <= i < p ==> map@[i].abs_tick < c.abs_tick,
            first_at_or_after(map@, c.abs_tick) == p + first_at_or_after(map@.skip(p as int), c.abs_tick),
        decreases map@.len() - p,
    {
        assert(map@.skip(p as int).skip(1) =~= map@.skip(p as int + 1));
        p += 1;
    }
    proof {
        lemma_tempo_insert_sorted(map@, c);
        if p < map@.len() {
            assert(map@.skip(p as int)[0] == map@[p as int]);
        } else {
            assert(map@.skip(p as int).len() == 0);
        }
    }
    if p < map.len() && map[p].abs_tick == c.abs_tick {
        map.set(p, c);
    } else {
        map.insert(p, c);
    }
}

/// Collect all tempo changes from every track of a file.
///
/// Changes at the same tick are de-duplicated: only the last one (in source
/// order) is kept, matching the "last writer wins" semantics of MIDI.
pub fn build_tempo_map(tracks: &[Vec<MidiEvent>]) -> (map: Vec<TempoChange>)
    ensures
        map@ == spec_tempo_map(track_views(tracks@)),
        tempo_sorted(map@),
{
    let mut map: Vec<TempoChange> = Vec::new();
    let mut t: usize = 0;
    while t < tracks.len()
        invariant
            t <= tracks@.len(),
            map@ == spec_tempo_map(track_views(tracks@).take(t as int)),
            tempo_sorted(map@),
        decreases tracks@.len() - t,
    {
        assert(track_views(tracks@).take(t as int + 1).drop_last() =~= track_views(tracks@).take(t as int));
        let track = &tracks[t];
        let ghost before = map@;
        let mut abs_tick: u64 = 0;
        let mut e: usize = 0;
        while e < track.len()
            invariant
                e <= track@.len(),
                abs_tick == end_tick(track@.take(e as int)),
                map@ == track_tempo_map(before, track@.take(e as int)),
                tempo_sorted(map@),
            decreases track@.len() - e,
        {
            assert(track@.take(e as int + 1).drop_last() =~= track@.take(e as int));
            let ev = track[e];
            abs_tick = abs_tick.saturating_add(ev.delta as u64);
            match ev.kind {
                EventKind::Tempo(tempo) => {
                    insert_change(&mut map, TempoChange { abs_tick, micros_per_beat: tempo });
                },
                _ => {},
            }
            e += 1;
        }
        assert(track@.take(track@.len() as int) =~= track@);
        assert(track_views(tracks@)[t as int] == track@);
        t += 1;
    }
    assert(track_views(tracks@).take(tracks@.len() as int) =~= track_views(tracks@));
    map
}

/// The tempo in effect at `tick`: that of the last change at or before it,
/// or the default tempo if there is none.
pub open spec fn spec_tempo_at(map: Seq<TempoChange>, tick: u64) -> u32
    decreases map.len(),
{
    if map.len() == 0 {
        DEFAULT_TEMPO
    } else if map.last().abs_tick <= tick {
        map.last().micros_per_beat
    } else {
        spec_tempo_at(map.drop_last(), tick)
    }
}

/// Return the tempo (µs/beat) that is in effect at `abs_tick`.
pub fn tempo_at(map: &[TempoChange], abs_tick: u64) -> (t: u32)
    ensures
        t == spec_tempo_at(map@, abs_tick),
{
    let mut i: usize = map.len();
    assert(map@.take(map@.len() as int) =~= map@);
    while i > 0
        invariant
            i <= map@.len(),
            spec_tempo_at(map@, abs_tick) == spec_tempo_at(map@.take(i as int), abs_tick),
        decreases i,
    {
        assert(map@.take(i as int).drop_last() =~= map@.take(i as int - 1));
        if map[i - 1].abs_tick <= abs_tick {
            return map[i - 1].micros_per_beat;
        }
        i -= 1;
    }
    DEFAULT_TEMPO
}

/// The tempo-map walk of a span ending at `end`: `(total µs so far, cursor tick, done)`.
pub type Walk = (u128, u64, bool);

/// One change of the map in the walk: a change after the cursor and before
/// `end` closes the segment since the cursor at the tempo then in effect.
pub open spec fn walk_step(map: Seq<TempoChange>, w: Walk, c: TempoChange, end: u64, tpb: u32) -> Walk {
    let (total, cursor, done) = w;
    if done || c.abs_tick <= cursor {
        w
    } else if c.abs_tick >= end {
        (total, cursor, true)
    } else {
        let seg = (c.abs_tick - cursor) as u128;
        let tempo = spec_tempo_at(map, cursor) as u128;
        (sat_add_u128(total, (seg * tempo / (tpb as int)) as u128), c.abs_tick, false)
    }
}

/// `a + b`, or `u128::MAX` where that sum does not fit.
pub open spec fn sat_add_u128(a: u128, b: u128) -> u128 {
    if a + b > u128::MAX { u128::MAX } else { (a + b) as u128 }
}

/// The walk over the first changes `cs` of `map`.
pub open spec fn walk(map: Seq<TempoChange>, cs: Seq<TempoChange>, start: u64, end: u64, tpb: u32) -> Walk
    decreases cs.len(),
{
    if cs.len() == 0 {
        (0, start, false)
    } else {
        walk_step(map, walk(map, cs.drop_last(), start, end, tpb), cs.last(), end, tpb)
    }
}

/// Robot song units (1/64 s, clamped to 1..=255) for the span of `dur`
/// ticks from `start`, integrating the tempo piecewise across tempo changes.
pub open spec fn spec_ticks_to_units(start: u64, dur: u64, map: Seq<TempoChange>, tpb: u32) -> u8 {
    if dur == 0 {
        1
    } else {
        let end = (start + dur) as u64;
        let (total, cursor, _) = walk(map, map, start, end, tpb);
        let rest = (end - cursor) as u128;
        let tempo = spec_tempo_at(map, cursor) as u128;
        let all = sat_add_u128(total, (rest * tempo / (tpb as int)) as u128);
        let units = all / MICROS_PER_UNIT;
        if units < 1 { 1 } else if units > 255 { 255 } else { units as u8 }
    }
}

proof fn lemma_walk_cursor(map: Seq<TempoChange>, cs: Seq<TempoChange>, start: u64, end: u64, tpb: u32)
    requires
        start <= end,
    ensures
        start <= walk(map, cs, start, end, tpb).1 <= end,
    decreases cs.len(),
{
    if cs.len() > 0 {
        lemma_walk_cursor(map, cs.drop_last(), start, end, tpb);
    }
}

/// Convert a note's span `[start_tick, start_tick + dur_ticks)` to robot song
/// duration units (1/64 s = 15 625 µs), clamped to `1..=255`.
///
/// Integrates piecewise across tempo changes, so mid-note tempo changes are
/// handled; totals that would exceed `u128` saturate.
pub fn ticks_to_robot_units(start_tick: u64, dur_ticks: u64, tempo_map: &[TempoChange], ticks_per_beat: u32) -> (u: u8)
    requires
        ticks_per_beat > 0,
        start_tick + dur_ticks <= u64::MAX,
    ensures
        u == spec_ticks_to_units(start_tick, dur_ticks, tempo_map@, ticks_per_beat),
        1 <= u <= 255,
{
    if dur_ticks == 0 {
        return 1;
    }
    let tpb = ticks_per_beat as u128;
    let end_tick = start_tick + dur_ticks;
    let mut total: u128 = 0;
    let mut cursor = start_tick;
    let mut done = false;
    let mut i: usize = 0;
    while i < tempo_map.len()
        invariant
            tpb == ticks_per_beat as u128,
            tpb > 0,
            end_tick == start_tick + dur_ticks,
            start_tick <= cursor <= end_tick,
            i <= tempo_map@.len(),
            (total, cursor, done) == walk(tempo_map@, tempo_map@.take(i as int), start_tick, end_tick, ticks_per_beat),
        decreases tempo_map@.len() - i,
    {
        assert(tempo_map@.take(i as int + 1).drop_last() =~= tempo_map@.take(i as int));
        let change = tempo_map[i];
        if !done && change.abs_tick > cursor {
            if change.abs_tick >= end_tick {
                done = true;
            } else {
                let seg = (change.abs_tick - cursor) as u128;
                let tempo = tempo_at(tempo_map, cursor) as u128;
                assert(seg * tempo <= 0xFFFF_FFFF_FFFF_FFFF * 0xFFFF_FFFF) by (nonlinear_arith)
                    requires seg <= 0xFFFF_FFFF_FFFF_FFFF, tempo <= 0xFFFF_FFFF;
                total = total.saturating_add(seg * tempo / tpb);
                cursor = change.abs_tick;
            }
        }
        i += 1;
    }
    assert(tempo_map@.take(tempo_map@.len() as int) =~= tempo_map@);
    let rest = (end_tick - cursor) as u128;
    let tempo = tempo_at(tempo_map, cursor) as u128;
    assert(rest * tempo <= 0xFFFF_FFFF_FFFF_FFFF * 0xFFFF_FFFF) by (nonlinear_arith)
        requires rest <= 0xFFFF_FFFF_FFFF_FFFF, tempo <= 0xFFFF_FFFF;
    total = total.saturating_add(rest * tempo / tpb);
    let units = total / MICROS_PER_UNIT;
    if units < 1 {
        1
    } else if units > 255 {
        255
    } else {
        units as u8
    }
}

} // verus!
