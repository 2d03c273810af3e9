//! Notes of a single track, "latest Note On wins".
//!
//! A new Note On cuts the sounding note; a Note Off (or a Note On of
//! velocity 0) for the sounding pitch ends it. Pitches the robot cannot
//! play sound as silence. With rests enabled, silences become rest notes.

use vstd::prelude::*;
use crate::midi::file::{EventKind, MidiEvent};
use crate::midi::notes::{
    all_valid, lemma_made_notes_valid, make_note, make_rest, note_views, playable, push_note, push_opt,
    spec_make_note, spec_make_rest,
};
use crate::midi::tempo::{sat_add, TempoChange};
use crate::types::SongNote;

verus! {

/// `a - b`, or 0 where `b > a`.
pub open spec fn sat_sub(a: u64, b: u64) -> u64 {
    if a >= b { (a - b) as u64 } else { 0 }
}

/// An event on a channel other than the one selected is ignored.
pub open spec fn filtered_out(channel_filter: Option<u8>, channel: u8) -> bool {
    channel_filter matches Some(c) && c != channel
}

/// What the scan of one track needs besides the events.
pub struct ScanParams {
    /// Only events on this channel count, if set.
    pub channel: Option<u8>,
    /// Whether silences become rest notes.
    pub include_rests: bool,
    /// Whether the silence before the first playable note is dropped.
    pub trim_start: bool,
    /// The tempo map durations are measured with.
    pub map: Seq<TempoChange>,
    /// Ticks per beat.
    pub tpb: u32,
}

/// State of the scan of one track.
pub struct TrackScan {
    /// Notes and rests produced so far, as `(pitch, duration)`.
    pub notes: Seq<(u8, u8)>,
    /// Current tick.
    pub abs_tick: u64,
    /// The sounding note: pitch and start tick.
    pub active: Option<(u8, u64)>,
    /// Start of the current silence, while rests are tracked.
    pub gap_start: Option<u64>,
    /// Whether a playable note has started.
    pub first_audible: bool,
    /// Tick of the last End of Track event.
    pub track_end: u64,
}

/// The state before the first event.
pub open spec fn scan_init(include_rests: bool) -> TrackScan {
    TrackScan {
        notes: Seq::empty(),
        abs_tick: 0,
        active: None,
        gap_start: if include_rests { Some(0) } else { None },
        first_audible: false,
        track_end: 0,
    }
}

/// The sounding note stops at the current tick because `key` was released.
pub open spec fn release(s: TrackScan, key: u8, p: ScanParams) -> TrackScan {
    match s.active {
        Some((pitch, start)) => if pitch == key {
            let n = spec_make_note(pitch, start, sat_sub(s.abs_tick, start), p.map, p.tpb);
            TrackScan {
                notes: push_opt(s.notes, n),
                active: None,
                gap_start: if n is Some && p.include_rests { Some(s.abs_tick) } else { s.gap_start },
                ..s
            }
        } else {
            s
        },
        None => s,
    }
}

/// A Note On with nonzero velocity for `key` at the current tick.
pub open spec fn press(s: TrackScan, key: u8, p: ScanParams) -> TrackScan {
    let tick = s.abs_tick;
    let cut = match s.active {
        Some((pitch, start)) => TrackScan {
            notes: push_opt(s.notes, spec_make_note(pitch, start, sat_sub(tick, start), p.map, p.tpb)),
            active: None,
            ..s
        },
        None => s,
    };
    let rested = if playable(key) {
        let r = if p.include_rests && cut.gap_start is Some {
            let gs = cut.gap_start.unwrap();
            TrackScan {
                notes: if !(p.trim_start && !cut.first_audible) {
                    push_opt(cut.notes, spec_make_rest(gs, sat_sub(tick, gs), p.map, p.tpb))
                } else {
                    cut.notes
                },
                gap_start: None,
                ..cut
            }
        } else {
            cut
        };
        TrackScan { first_audible: true, ..r }
    } else {
        cut
    };
    TrackScan { active: Some((key, tick)), ..rested }
}

/// One event of the selected track.
pub open spec fn scan_step(s0: TrackScan, e: MidiEvent, p: ScanParams) -> TrackScan {
    let s = TrackScan { abs_tick: sat_add(s0.abs_tick, e.delta as u64), ..s0 };
    match e.kind {
        EventKind::EndOfTrack => TrackScan { track_end: s.abs_tick, ..s },
        EventKind::NoteOn { channel, key, vel } => if filtered_out(p.channel, channel) {
            s
        } else if vel > 0 {
            press(s, key, p)
        } else {
            release(s, key, p)
        },
        EventKind::NoteOff { channel, key } => if filtered_out(p.channel, channel) {
            s
        } else {
            release(s, key, p)
        },
        _ => s,
    }
}

/// The scan over the events `es`.
pub open spec fn scan(es: Seq<MidiEvent>, p: ScanParams) -> TrackScan
    decreases es.len(),
{
    if es.len() == 0 {
        scan_init(p.include_rests)
    } else {
        scan_step(scan(es.drop_last(), p), es.last(), p)
    }
}

/// The notes of a whole track: the scan, then the note still sounding at
/// the end, then (rests enabled, end not trimmed) the trailing silence up
/// to the later of the End of Track tick and the last event.
pub open spec fn spec_track_notes(es: Seq<MidiEvent>, p: ScanParams, trim_end: bool) -> Seq<(u8, u8)> {
    let s = scan(es, p);
    let (notes, gap) = match s.active {
        Some((pitch, start)) => {
            let n = spec_make_note(pitch, start, sat_sub(s.abs_tick, start), p.map, p.tpb);
            (push_opt(s.notes, n), if n is Some && p.include_rests { Some(s.abs_tick) } else { s.gap_start })
        },
        None => (s.notes, s.gap_start),
    };
    if p.include_rests && !trim_end {
        let end = if s.track_end >= s.abs_tick { s.track_end } else { s.abs_tick };
        match gap {
            Some(gs) => push_opt(notes, spec_make_rest(gs, sat_sub(end, gs), p.map, p.tpb)),
            None => notes,
        }
    } else {
        notes
    }
}

/// The scan state held in executable values.
struct Scanner {
    notes: Vec<SongNote>,
    abs_tick: u64,
    active: Option<(u8, u64)>,
    gap_start: Option<u64>,
    first_audible: bool,
    track_end: u64,
}

impl Scanner {
    spec fn view(&self) -> TrackScan {
        TrackScan {
            notes: note_views(self.notes@),
            abs_tick: self.abs_tick,
            active: self.active,
            gap_start: self.gap_start,
            first_audible: self.first_audible,
            track_end: self.track_end,
        }
    }

    fn release(&mut self, key: u8, include_rests: bool, tempo_map: &[TempoChange], tpb: u32, Ghost(p): Ghost<ScanParams>)
        requires
            tpb > 0,
            p.include_rests == include_rests,
            p.map == tempo_map@,
            p.tpb == tpb,
        ensures
            final(self).view() == release(old(self).view(), key, p),
    {
        if let Some((pitch, start)) = self.active {
            if pitch == key {
                let n = make_note(pitch, start, self.abs_tick.saturating_sub(start), tempo_map, tpb);
                let made = n.is_some();
                push_note(&mut self.notes, n);
                self.active = None;
                if made && include_rests {
                    self.gap_start = Some(self.abs_tick);
                }
            }
        }
    }

    fn press(&mut self, key: u8, include_rests: bool, trim_start: bool, tempo_map: &[TempoChange], tpb: u32, Ghost(p): Ghost<ScanParams>)
        requires
            tpb > 0,
            p.include_rests == include_rests,
            p.trim_start == trim_start,
            p.map == tempo_map@,
            p.tpb == tpb,
        ensures
            final(self).view() == press(old(self).view(), key, p),
    {
        let tick = self.abs_tick;
        if let Some((pitch, start)) = self.active {
            let n = make_note(pitch, start, tick.saturating_sub(start), tempo_map, tpb);
            push_note(&mut self.notes, n);
            self.active = None;
        }
        if 31 <= key && key <= 127 {
            if include_rests {
                if let Some(gs) = self.gap_start {
                    if !(trim_start && !self.first_audible) {
                        let r = make_rest(gs, tick.saturating_sub(gs), tempo_map, tpb);
                        push_note(&mut self.notes, r);
                    }
                    self.gap_start = None;
                }
            }
            self.first_audible = true;
        }
        self.active = Some((key, tick));
    }

    fn step(&mut self, e: MidiEvent, include_rests: bool, trim_start: bool, channel: Option<u8>, tempo_map: &[TempoChange], tpb: u32, Ghost(p): Ghost<ScanParams>)
        requires
            tpb > 0,
            p.include_rests == include_rests,
            p.trim_start == trim_start,
            p.channel == channel,
            p.map == tempo_map@,
            p.tpb == tpb,
        ensures
            final(self).view() == scan_step(old(self).view(), e, p),
    {
        self.abs_tick = self.abs_tick.saturating_add(e.delta as u64);
        match e.kind {
            EventKind::EndOfTrack => {
                self.track_end = self.abs_tick;
            },
            EventKind::NoteOn { channel: ch, key, vel } => {
                let skip = match channel {
                    Some(c) => c != ch,
                    None => false,
                };
                if !skip {
                    if vel > 0 {
                        self.press(key, include_rests, trim_start, tempo_map, tpb, Ghost(p));
                    } else {
                        self.release(key, include_rests, tempo_map, tpb, Ghost(p));
                    }
                }
            },
            EventKind::NoteOff { channel: ch, key } => {
                let skip = match channel {
                    Some(c) => c != ch,
                    None => false,
                };
                if !skip {
                    self.release(key, include_rests, tempo_map, tpb, Ghost(p));
                }
            },
            _ => {},
        }
    }
}

/// Extract the notes of one track with "latest Note On wins" monophony.
pub fn track_notes(
    events: &[MidiEvent],
    channel: Option<u8>,
    tempo_map: &[TempoChange],
    ticks_per_beat: u32,
    include_rests: bool,
    trim_start: bool,
    trim_end: bool,
) -> (notes: Vec<SongNote>)
    requires
        ticks_per_beat > 0,
    ensures
        note_views(notes@) == spec_track_notes(events@, ScanParams {
            channel, include_rests, trim_start, map: tempo_map@, tpb: ticks_per_beat }, trim_end),
{
    let ghost p = ScanParams { channel, include_rests, trim_start, map: tempo_map@, tpb: ticks_per_beat };
    let mut s = Scanner {
        notes: Vec::new(),
        abs_tick: 0,
        active: None,
        gap_start: if include_rests { Some(0) } else { None },
        first_audible: false,
        track_end: 0,
    };
    assert(note_views(s.notes@) =~= Seq::<(u8, u8)>::empty());
    let mut i: usize = 0;
    while i < events.len()
        invariant
            ticks_per_beat > 0,
            p == (ScanParams { channel, include_rests, trim_start, map: tempo_map@, tpb: ticks_per_beat }),
            i <= events@.len(),
            s.view() == scan(events@.take(i as int), p),
        decreases events@.len() - i,
    {
        assert(events@.take(i as int + 1).drop_last() =~= events@.take(i as int));
        s.step(events[i], include_rests, trim_start, channel, tempo_map, ticks_per_beat, Ghost(p));
        i += 1;
    }
    assert(events@.take(events@.len() as int) =~= events@);
    if let Some((pitch, start)) = s.active {
        let n = make_note(pitch, start, s.abs_tick.saturating_sub(start), tempo_map, ticks_per_beat);
        let made = n.is_some();
        push_note(&mut s.notes, n);
        if made && include_rests {
            s.gap_start = Some(s.abs_tick);
        }
    }
    if include_rests && !trim_end {
        let end = if s.track_end >= s.abs_tick { s.track_end } else { s.abs_tick };
        if let Some(gs) = s.gap_start {
            let r = make_rest(gs, end.saturating_sub(gs), tempo_map, ticks_per_beat);
            push_note(&mut s.notes, r);
        }
    }
    s.notes
}

proof fn lemma_scan_valid(es: Seq<MidiEvent>, p: ScanParams)
    ensures
        all_valid(scan(es, p).notes),
    decreases es.len(),
{
    if es.len() > 0 {
        lemma_scan_valid(es.drop_last(), p);
        let s0 = scan(es.drop_last(), p);
        let e = es.last();
        let s = TrackScan { abs_tick: sat_add(s0.abs_tick, e.delta as u64), ..s0 };
        let tick = s.abs_tick;
        if let Some((pitch, start)) = s.active {
            lemma_made_notes_valid(pitch, start, sat_sub(tick, start), p.map, p.tpb, s.notes);
            let cut = push_opt(s.notes, spec_make_note(pitch, start, sat_sub(tick, start), p.map, p.tpb));
            if let Some(gs) = s.gap_start {
                lemma_made_notes_valid(pitch, gs, sat_sub(tick, gs), p.map, p.tpb, cut);
            }
        }
        if let Some(gs) = s.gap_start {
            lemma_made_notes_valid(0, gs, sat_sub(tick, gs), p.map, p.tpb, s.notes);
        }
    }
}

/// Law: every note of a track scan is a rest or a playable pitch, lasting 1 to 255 units.
pub proof fn lemma_track_notes_valid(es: Seq<MidiEvent>, p: ScanParams, trim_end: bool)
    ensures
        all_valid(spec_track_notes(es, p, trim_end)),
{
    lemma_scan_valid(es, p);
    let s = scan(es, p);
    let end = if s.track_end >= s.abs_tick { s.track_end } else { s.abs_tick };
    match s.active {
        Some((pitch, start)) => {
            lemma_made_notes_valid(pitch, start, sat_sub(s.abs_tick, start), p.map, p.tpb, s.notes);
            let notes = push_opt(s.notes, spec_make_note(pitch, start, sat_sub(s.abs_tick, start), p.map, p.tpb));
            lemma_made_notes_valid(0, s.abs_tick, sat_sub(end, s.abs_tick), p.map, p.tpb, notes);
            if let Some(gs) = s.gap_start {
                lemma_made_notes_valid(0, gs, sat_sub(end, gs), p.map, p.tpb, notes);
            }
        },
        None => {
            if let Some(gs) = s.gap_start {
                lemma_made_notes_valid(0, gs, sat_sub(end, gs), p.map, p.tpb, s.notes);
            }
        },
    }
}

/// Whether `e` releases `key` on `channel`: a Note Off, or a Note On of velocity 0.
pub open spec fn releases_key(e: MidiEvent, channel: u8, key: u8) -> bool {
    ||| e.kind == EventKind::NoteOff { channel, key }
    ||| e.kind == EventKind::NoteOn { channel, key, vel: 0 }
}

/// Law: in single-track mode, releasing a key that is not the sounding
/// note's — or releasing anything while nothing sounds — changes nothing
/// but the current tick: the sounding note keeps sounding. Releasing the
/// sounding note's key (on an accepted channel) ends it: nothing sounds
/// afterwards and at most that one note is added.
pub proof fn lemma_release_only_ends_sounding_key(s: TrackScan, e: MidiEvent, p: ScanParams, channel: u8, key: u8)
    requires
        releases_key(e, channel, key),
        !filtered_out(p.channel, channel),
    ensures
        !(s.active matches Some(a) && a.0 == key) ==>
            scan_step(s, e, p) == (TrackScan { abs_tick: sat_add(s.abs_tick, e.delta as u64), ..s }),
        s.active matches Some(a) && a.0 == key ==> {
            let t = scan_step(s, e, p);
            &&& t.active is None
            &&& t.abs_tick == sat_add(s.abs_tick, e.delta as u64)
            &&& (t.notes == s.notes || (t.notes.len() == s.notes.len() + 1 && t.notes.drop_last() == s.notes
                    && t.notes.last().0 == key))
        },
{
    if let Some((pitch, start)) = s.active {
        if pitch == key {
            let s1 = TrackScan { abs_tick: sat_add(s.abs_tick, e.delta as u64), ..s };
            let n = spec_make_note(key, start, sat_sub(s1.abs_tick, start), p.map, p.tpb);
            if let Some(v) = n {
                assert(push_opt(s.notes, n) == s.notes.push(v));
                assert(s.notes.push(v).drop_last() =~= s.notes);
            } else {
                assert(push_opt(s.notes, n) == s.notes);
            }
        }
    }
}

} // verus!
