//! Song notes and rests built from tick spans.

use vstd::prelude::*;
use crate::midi::tempo::{spec_ticks_to_units, ticks_to_robot_units, TempoChange};
use crate::types::SongNote;

verus! {

/// The robot plays MIDI pitches 31..=127.
pub open spec fn playable(pitch: u8) -> bool {
    31 <= pitch <= 127
}

/// The note (as `(pitch, duration)`) for `pitch` over `dur` ticks from
/// `start`, or `None` for a pitch the robot cannot play.
pub open spec fn spec_make_note(pitch: u8, start: u64, dur: u64, map: Seq<TempoChange>, tpb: u32) -> Option<(u8, u8)> {
    if playable(pitch) {
        Some((pitch, spec_ticks_to_units(start, dur, map, tpb)))
    } else {
        None
    }
}

/// The rest (pitch 0) over `dur` ticks from `start`, or `None` for an empty span.
pub open spec fn spec_make_rest(start: u64, dur: u64, map: Seq<TempoChange>, tpb: u32) -> Option<(u8, u8)> {
    if dur == 0 {
        None
    } else {
        Some((0u8, spec_ticks_to_units(start, dur, map, tpb)))
    }
}

/// Build a note for `pitch` over a span; `None` if the pitch is outside 31–127.
pub fn make_note(pitch: u8, start_tick: u64, dur_ticks: u64, tempo_map: &[TempoChange], ticks_per_beat: u32) -> (r: Option<SongNote>)
    requires
        ticks_per_beat > 0,
        start_tick + dur_ticks <= u64::MAX,
    ensures
        match spec_make_note(pitch, start_tick, dur_ticks, tempo_map@, ticks_per_beat) {
            Some(v) => r matches Some(n) && n@ == v,
            None => r is None,
        },
{
    let duration = ticks_to_robot_units(start_tick, dur_ticks, tempo_map, ticks_per_beat);
    match SongNote::new(pitch, duration) {
        Ok(n) => Some(n),
        Err(_) => None,
    }
}

/// Build a rest over a span; `None` if the span is empty.
pub fn make_rest(start_tick: u64, dur_ticks: u64, tempo_map: &[TempoChange], ticks_per_beat: u32) -> (r: Option<SongNote>)
    requires
        ticks_per_beat > 0,
        start_tick + dur_ticks <= u64::MAX,
    ensures
        match spec_make_rest(start_tick, dur_ticks, tempo_map@, ticks_per_beat) {
            Some(v) => r matches Some(n) && n@ == v,
            None => r is None,
        },
{
    if dur_ticks == 0 {
        return None;
    }
    let duration = ticks_to_robot_units(start_tick, dur_ticks, tempo_map, ticks_per_beat);
    Some(SongNote::rest(duration))
}

/// The `(pitch, duration)` views of a list of notes.
pub open spec fn note_views(notes: Seq<SongNote>) -> Seq<(u8, u8)> {
    notes.map_values(|n: SongNote| n@)
}

/// `spec` appended to `notes` when present.
pub open spec fn push_opt(notes: Seq<(u8, u8)>, n: Option<(u8, u8)>) -> Seq<(u8, u8)> {
    match n {
        Some(v) => notes.push(v),
        None => notes,
    }
}

/// Append `n` to `notes` when present.
pub fn push_note(notes: &mut Vec<SongNote>, n: Option<SongNote>)
    ensures
        note_views(final(notes)@) == push_opt(note_views(old(notes)@), match n { Some(x) => Some(x@), None => None }),
{
    if let Some(x) = n {
        notes.push(x);
        assert(note_views(notes@) =~= note_views(old(notes)@).push(x@));
    }
}

/// A note the robot can play: a rest (pitch 0) or a pitch in 31..=127,
/// lasting 1 to 255 units of 1/64 s.
pub open spec fn valid_song_note(v: (u8, u8)) -> bool {
    &&& (v.0 == 0 || playable(v.0))
    &&& 1 <= v.1 <= 255
}

/// Every note of `notes` is valid.
pub open spec fn all_valid(notes: Seq<(u8, u8)>) -> bool {
    forall|i: int| 0 <= i < notes.len() ==> valid_song_note(#[trigger] notes[i])
}

/// Notes and rests built from spans are valid, and appending one keeps a list valid.
pub proof fn lemma_made_notes_valid(pitch: u8, start: u64, dur: u64, map: Seq<TempoChange>, tpb: u32, notes: Seq<(u8, u8)>)
    requires
        all_valid(notes),
    ensures
        all_valid(push_opt(notes, spec_make_note(pitch, start, dur, map, tpb))),
        all_valid(push_opt(notes, spec_make_rest(start, dur, map, tpb))),
{
    let a = push_opt(notes, spec_make_note(pitch, start, dur, map, tpb));
    let b = push_opt(notes, spec_make_rest(start, dur, map, tpb));
    assert forall|i: int| 0 <= i < a.len() implies valid_song_note(#[trigger] a[i]) by {
        if i < notes.len() {
            assert(a[i] == notes[i]);
        }
    }
    assert forall|i: int| 0 <= i < b.len() implies valid_song_note(#[trigger] b[i]) by {
        if i < notes.len() {
            assert(b[i] == notes[i]);
        }
    }
}

} // verus!
