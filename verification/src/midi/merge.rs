//! Notes of all tracks merged into one voice (sweep line).
//!
//! Note events of every track are put on one timeline, sorted by tick with
//! releases before presses at the same tick, and swept: at each event the
//! sounding pitch is the highest (or lowest) pitch held down; whenever it
//! changes, the previous segment becomes a note.

use vstd::prelude::*;
use crate::midi::file::{EventKind, MidiEvent};
use crate::midi::notes::{
    all_valid, lemma_made_notes_valid, make_note, make_rest, note_views, playable, push_note, push_opt,
    spec_make_note, spec_make_rest,
};
use crate::midi::single::sat_sub;
use crate::midi::tempo::{end_tick, sat_add, track_views, TempoChange};
use crate::midi::voices::{held_insert, held_remove, hold, loudest, loudest_voice, release, Voice};
use crate::types::SongNote;

verus! {

/// A note event on the merged timeline.
#[derive(Debug, Clone, Copy, PartialEq, Eq, Structural)]
pub struct NoteEvent {
    /// Absolute tick.
    pub abs_tick: u64,
    /// `false` for a release (sorts first at the same tick), `true` for a press.
    pub is_on: bool,
    /// MIDI pitch.
    pub pitch: u8,
    /// MIDI channel.
    pub channel: u8,
    /// Velocity of a press; 0 for a release. Not part of the timeline order.
    pub velocity: u8,
}

/// Policy for selecting the sounding note when several are held down.
#[derive(Debug, Clone, Copy, PartialEq, Eq, Structural)]
pub enum VoiceSelection {
    /// The highest held pitch sounds (soprano voice).
    HighestPitch,
    /// The lowest held pitch sounds (bass voice).
    LowestPitch,
    /// The held pitch nearest to the previous sounding pitch sounds, the
    /// higher one on a tie (contour tracking); the highest pitch while there
    /// is no previous one.
    NearestPitch,
    /// The pitch of the loudest held note sounds, the higher pitch on a tie.
    HighestVelocity,
}

impl Default for VoiceSelection {
    /// The highest pitch wins.
    fn default() -> (v: Self)
        ensures
            v == VoiceSelection::HighestPitch,
    {
        VoiceSelection::HighestPitch
    }
}

/// Strict order of the timeline: by tick, then releases before presses,
/// then by pitch, then by channel.
pub open spec fn ev_lt(a: NoteEvent, b: NoteEvent) -> bool {
    ||| a.abs_tick < b.abs_tick
    ||| (a.abs_tick == b.abs_tick && !a.is_on && b.is_on)
    ||| (a.abs_tick == b.abs_tick && a.is_on == b.is_on && a.pitch < b.pitch)
    ||| (a.abs_tick == b.abs_tick && a.is_on == b.is_on && a.pitch == b.pitch && a.channel < b.channel)
}

fn lt(a: NoteEvent, b: NoteEvent) -> (r: bool)
    ensures
        r == ev_lt(a, b),
{
    if a.abs_tick != b.abs_tick {
        a.abs_tick < b.abs_tick
    } else if a.is_on != b.is_on {
        !a.is_on
    } else if a.pitch != b.pitch {
        a.pitch < b.pitch
    } else {
        a.channel < b.channel
    }
}

/// Whether an event on `channel` is left out: anything but the selected
/// channel if one is selected, else channel 10 (index 9, percussion) when
/// percussion is filtered.
pub open spec fn excluded(channel: u8, filter_percussion: bool, channel_filter: Option<u8>) -> bool {
    match channel_filter {
        Some(c) => channel != c,
        None => filter_percussion && channel == 9,
    }
}

/// The note events of one track, in track order.
pub open spec fn track_note_events(es: Seq<MidiEvent>, filter_percussion: bool, channel_filter: Option<u8>) -> Seq<NoteEvent>
    decreases es.len(),
{
    if es.len() == 0 {
        Seq::empty()
    } else {
        let prev = track_note_events(es.drop_last(), filter_percussion, channel_filter);
        let tick = end_tick(es);
        match es.last().kind {
            EventKind::NoteOn { channel, key, vel } => if excluded(channel, filter_percussion, channel_filter) {
                prev
            } else {
                prev.push(NoteEvent { abs_tick: tick, is_on: vel > 0, pitch: key, channel, velocity: vel })
            },
            EventKind::NoteOff { channel, key } => if excluded(channel, filter_percussion, channel_filter) {
                prev
            } else {
                prev.push(NoteEvent { abs_tick: tick, is_on: false, pitch: key, channel, velocity: 0 })
            },
            _ => prev,
        }
    }
}

/// The note events of all tracks, tracks in order.
pub open spec fn all_note_events(tracks: Seq<Seq<MidiEvent>>, filter_percussion: bool, channel_filter: Option<u8>) -> Seq<NoteEvent>
    decreases tracks.len(),
{
    if tracks.len() == 0 {
        Seq::empty()
    } else {
        all_note_events(tracks.drop_last(), filter_percussion, channel_filter)
            + track_note_events(tracks.last(), filter_percussion, channel_filter)
    }
}

/// Collect all Note On / Note Off events from every track, optionally
/// skipping percussion (channel index 9) or keeping a single channel.
pub fn collect_note_events(tracks: &[Vec<MidiEvent>], filter_percussion: bool, channel_filter: Option<u8>) -> (events: Vec<NoteEvent>)
    ensures
        events@ == all_note_events(track_views(tracks@), filter_percussion, channel_filter),
{
    let mut events: Vec<NoteEvent> = Vec::new();
    let mut t: usize = 0;
    while t < tracks.len()
        invariant
            t <= tracks@.len(),
            events@ == all_note_events(track_views(tracks@).take(t as int), filter_percussion, channel_filter),
        decreases tracks@.len() - t,
    {
        assert(track_views(tracks@).take(t as int + 1).drop_last() =~= track_views(tracks@).take(t as int));
        let track = &tracks[t];
        let ghost before = events@;
        let mut abs_tick: u64 = 0;
        let mut e: usize = 0;
        while e < track.len()
            invariant
                e <= track@.len(),
                abs_tick == end_tick(track@.take(e as int)),
                events@ == before + track_note_events(track@.take(e as int), filter_percussion, channel_filter),
            decreases track@.len() - e,
        {
            assert(track@.take(e as int + 1).drop_last() =~= track@.take(e as int));
            let ev = track[e];
            abs_tick = abs_tick.saturating_add(ev.delta as u64);
            let keep = |ch: u8| -> (k: bool)
                ensures
                    k == !excluded(ch, filter_percussion, channel_filter),
            {
                match channel_filter {
                    Some(c) => ch == c,
                    None => !(filter_percussion && ch == 9),
                }
            };
            match ev.kind {
                EventKind::NoteOn { channel, key, vel } => {
                    if keep(channel) {
                        events.push(NoteEvent { abs_tick, is_on: vel > 0, pitch: key, channel, velocity: vel });
                    }
                },
                EventKind::NoteOff { channel, key } => {
                    if keep(channel) {
                        events.push(NoteEvent { abs_tick, is_on: false, pitch: key, channel, velocity: 0 });
                    }
                },
                _ => {},
            }
            e += 1;
        }
        assert(track@.take(track@.len() as int) =~= track@);
        assert(track_views(tracks@)[t as int] == track@);
        t += 1;
    }
    assert(track_views(tracks@).take(tracks@.len() as int) =~= track_views(tracks@));
    events
}

/// Index of the first event of `s` after `e` in timeline order (`s.len()` if none).
pub open spec fn first_after(s: Seq<NoteEvent>, e: NoteEvent) -> nat
    decreases s.len(),
{
    if s.len() == 0 {
        0
    } else if ev_lt(e, s[0]) {
        0
    } else {
        1 + first_after(s.skip(1), e)
    }
}

/// `s` with `e` inserted before the first later event.
pub open spec fn sorted_insert(s: Seq<NoteEvent>, e: NoteEvent) -> Seq<NoteEvent> {
    s.insert(first_after(s, e) as int, e)
}

/// The events of `s` put in timeline order, inserting them one by one.
pub open spec fn sort_events(s: Seq<NoteEvent>) -> Seq<NoteEvent>
    decreases s.len(),
{
    if s.len() == 0 {
        Seq::empty()
    } else {
        sorted_insert(sort_events(s.drop_last()), s.last())
    }
}

proof fn lemma_first_after_bound(s: Seq<NoteEvent>, e: NoteEvent)
    ensures
        first_after(s, e) <= s.len(),
    decreases s.len(),
{
    if s.len() > 0 && !ev_lt(e, s[0]) {
        lemma_first_after_bound(s.skip(1), e);
    }
}

/// Put `events` in timeline order.
pub fn sort_note_events(events: &[NoteEvent]) -> (sorted: Vec<NoteEvent>)
    ensures
        sorted@ == sort_events(events@),
{
    let mut sorted: Vec<NoteEvent> = Vec::new();
    let mut i: usize = 0;
    while i < events.len()
        invariant
            i <= events@.len(),
            sorted@ == sort_events(events@.take(i as int)),
        decreases events@.len() - i,
    {
        assert(events@.take(i as int + 1).drop_last() =~= events@.take(i as int));
        let e = events[i];
        let mut p: usize = 0;
        assert(sorted@.skip(0) =~= sorted@);
        while p < sorted.len() && !lt(e, sorted[p])
            invariant
                p <= sorted@.len(),
                first_after(sorted@, e) == p + first_after(sorted@.skip(p as int), e),
            decreases sorted@.len() - p,
        {
            assert(sorted@.skip(p as int).skip(1) =~= sorted@.skip(p as int + 1));
            p += 1;
        }
        proof {
            if p < sorted@.len() {
                assert(sorted@.skip(p as int)[0] == sorted@[p as int]);
            }
        }
        sorted.insert(p, e);
        i += 1;
    }
    assert(events@.take(events@.len() as int) =~= events@);
    sorted
}

/// The highest pitch below `n` that is held down.
pub open spec fn highest_below(counts: Seq<u32>, n: nat) -> Option<u8>
    decreases n,
{
    if n == 0 {
        None
    } else if counts[n - 1] > 0 {
        Some((n - 1) as u8)
    } else {
        highest_below(counts, (n - 1) as nat)
    }
}

/// The lowest pitch from `i` on that is held down.
pub open spec fn lowest_from(counts: Seq<u32>, i: nat) -> Option<u8>
    decreases 256 - i,
{
    if i >= 256 {
        None
    } else if counts[i as int] > 0 {
        Some(i as u8)
    } else {
        lowest_from(counts, i + 1)
    }
}

/// Distance between two pitches.
pub open spec fn pitch_dist(a: u8, b: u8) -> int {
    if a >= b { a - b } else { b - a }
}

/// Whether pitch `a` is nearer to `r` than `b`, the higher pitch counting
/// as nearer at equal distance.
pub open spec fn nearer(a: u8, b: u8, r: u8) -> bool {
    pitch_dist(a, r) < pitch_dist(b, r) || (pitch_dist(a, r) == pitch_dist(b, r) && a > b)
}

/// The held pitch below `n` nearest to `r`.
pub open spec fn nearest_below(counts: Seq<u32>, r: u8, n: nat) -> Option<u8>
    decreases n,
{
    if n == 0 {
        None
    } else {
        let b = nearest_below(counts, r, (n - 1) as nat);
        if counts[n - 1] > 0 && (b is None || nearer((n - 1) as u8, b.unwrap(), r)) {
            Some((n - 1) as u8)
        } else {
            b
        }
    }
}

/// The sounding pitch, if any: the highest or lowest held pitch, the held
/// pitch nearest to `reference` (the highest without one), or the pitch of
/// the loudest held voice.
pub open spec fn spec_winner(counts: Seq<u32>, voices: Seq<Voice>, voice: VoiceSelection, reference: Option<u8>) -> Option<u8> {
    match voice {
        VoiceSelection::HighestPitch => highest_below(counts, 256),
        VoiceSelection::LowestPitch => lowest_from(counts, 0),
        VoiceSelection::NearestPitch => match reference {
            None => highest_below(counts, 256),
            Some(r) => nearest_below(counts, r, 256),
        },
        VoiceSelection::HighestVelocity => match loudest(voices) {
            Some(b) => Some(b.1),
            None => None,
        },
    }
}

fn highest(counts: &Vec<u32>) -> (w: Option<u8>)
    requires
        counts@.len() == 256,
    ensures
        w == highest_below(counts@, 256),
{
    let mut n: usize = 256;
    while n > 0
        invariant
            n <= 256,
            counts@.len() == 256,
            highest_below(counts@, 256) == highest_below(counts@, n as nat),
        decreases n,
    {
        if counts[n - 1] > 0 {
            return Some((n - 1) as u8);
        }
        n -= 1;
    }
    None
}

fn nearest(counts: &Vec<u32>, r: u8) -> (w: Option<u8>)
    requires
        counts@.len() == 256,
    ensures
        w == nearest_below(counts@, r, 256),
{
    let mut best: Option<u8> = None;
    let mut k: usize = 0;
    while k < 256
        invariant
            k <= 256,
            counts@.len() == 256,
            best == nearest_below(counts@, r, k as nat),
        decreases 256 - k,
    {
        if counts[k] > 0 {
            let kp = k as u8;
            let closer = match best {
                None => true,
                Some(b) => {
                    let da: u8 = if kp >= r { kp - r } else { r - kp };
                    let db: u8 = if b >= r { b - r } else { r - b };
                    da < db || (da == db && kp > b)
                },
            };
            if closer {
                best = Some(kp);
            }
        }
        k += 1;
    }
    best
}

fn winner(counts: &Vec<u32>, voices: &Vec<Voice>, voice: VoiceSelection, reference: Option<u8>) -> (w: Option<u8>)
    requires
        counts@.len() == 256,
    ensures
        w == spec_winner(counts@, voices@, voice, reference),
{
    match voice {
        VoiceSelection::HighestPitch => highest(counts),
        VoiceSelection::NearestPitch => match reference {
            None => highest(counts),
            Some(r) => nearest(counts, r),
        },
        VoiceSelection::HighestVelocity => match loudest_voice(voices) {
            Some(b) => Some(b.1),
            None => None,
        },
        VoiceSelection::LowestPitch => {
            let mut i: usize = 0;
            while i < 256
                invariant
                    i <= 256,
                    counts@.len() == 256,
                    voice == VoiceSelection::LowestPitch,
                    lowest_from(counts@, 0) == lowest_from(counts@, i as nat),
                decreases 256 - i,
            {
                if counts[i] > 0 {
                    return Some(i as u8);
                }
                i += 1;
            }
            None
        },
    }
}

/// What the sweep needs besides the events.
pub struct SweepParams {
    /// Which held pitch sounds.
    pub voice: VoiceSelection,
    /// Whether silences become rest notes.
    pub include_rests: bool,
    /// Whether the silence before the first playable note is dropped.
    pub trim_start: bool,
    /// The tempo map durations are measured with.
    pub map: Seq<TempoChange>,
    /// Ticks per beat.
    pub tpb: u32,
}

/// State of the sweep.
pub struct Sweep {
    /// How many presses of each pitch are held down.
    pub counts: Seq<u32>,
    /// The held voices with the velocity of their latest press.
    pub voices: Seq<Voice>,
    /// The sounding pitch.
    pub winner: Option<u8>,
    /// Tick at which the sounding pitch (or silence) began.
    pub segment_start: u64,
    /// Tick of the last event.
    pub last_tick: u64,
    /// Notes and rests produced so far, as `(pitch, duration)`.
    pub notes: Seq<(u8, u8)>,
    /// Start of the current silence, while rests are tracked.
    pub rest_start: Option<u64>,
    /// Whether a playable note has started.
    pub first_started: bool,
    /// Pitch of the last note produced (reference for contour tracking).
    pub prev_pitch: Option<u8>,
    /// The sounding pitch before the events of the current tick.
    pub tick_ref: Option<u8>,
    /// Tick of the previous event (`u64::MAX` before the first).
    pub prev_tick: u64,
}

/// The state before the first event.
pub open spec fn sweep_init(include_rests: bool) -> Sweep {
    Sweep {
        counts: Seq::new(256, |i: int| 0u32),
        voices: Seq::empty(),
        winner: None,
        segment_start: 0,
        last_tick: 0,
        notes: Seq::empty(),
        rest_start: if include_rests { Some(0) } else { None },
        first_started: false,
        prev_pitch: None,
        tick_ref: None,
        prev_tick: u64::MAX,
    }
}

/// Hold counts after `e`: a press adds one (saturating), a release takes one away.
pub open spec fn counts_after(counts: Seq<u32>, e: NoteEvent) -> Seq<u32> {
    let c = counts[e.pitch as int];
    if e.is_on {
        counts.update(e.pitch as int, if c < u32::MAX { (c + 1) as u32 } else { c })
    } else if c > 0 {
        counts.update(e.pitch as int, (c - 1) as u32)
    } else {
        counts
    }
}

/// The sounding pitch changed at `tick` to `new`: close the previous segment
/// and open the next one.
pub open spec fn change_winner(s: Sweep, new: Option<u8>, tick: u64, p: SweepParams) -> Sweep {
    let closed = match s.winner {
        Some(pitch) => {
            let dur = sat_sub(tick, s.segment_start);
            if dur > 0 {
                let n = spec_make_note(pitch, s.segment_start, dur, p.map, p.tpb);
                Sweep {
                    notes: push_opt(s.notes, n),
                    rest_start: if n is Some && p.include_rests { Some(tick) } else { s.rest_start },
                    prev_pitch: if n is Some { Some(pitch) } else { s.prev_pitch },
                    ..s
                }
            } else {
                s
            }
        },
        None => s,
    };
    let opened = match new {
        Some(np) => if playable(np) {
            let r = if p.include_rests && closed.rest_start is Some {
                let rs = closed.rest_start.unwrap();
                Sweep {
                    notes: if !(p.trim_start && !closed.first_started) {
                        push_opt(closed.notes, spec_make_rest(rs, sat_sub(tick, rs), p.map, p.tpb))
                    } else {
                        closed.notes
                    },
                    rest_start: None,
                    ..closed
                }
            } else {
                closed
            };
            Sweep { first_started: true, ..r }
        } else if p.include_rests && closed.rest_start is None {
            Sweep { rest_start: Some(tick), ..closed }
        } else {
            closed
        },
        None => closed,
    };
    Sweep { segment_start: tick, winner: new, ..opened }
}

/// Held voices after `e`: a press holds its voice, a release lets it go.
pub open spec fn voices_after(voices: Seq<Voice>, e: NoteEvent) -> Seq<Voice> {
    if e.is_on {
        held_insert(voices, (e.channel, e.pitch, e.velocity))
    } else {
        held_remove(voices, (e.channel, e.pitch))
    }
}

/// One event of the sweep. The first event of a tick records the sounding
/// pitch as the reference for contour tracking during that tick.
pub open spec fn sweep_step(s0: Sweep, e: NoteEvent, p: SweepParams) -> Sweep {
    let s = if e.abs_tick != s0.prev_tick { Sweep { tick_ref: s0.winner, prev_tick: e.abs_tick, ..s0 } } else { s0 };
    let counts = counts_after(s.counts, e);
    let voices = voices_after(s.voices, e);
    let s1 = Sweep { counts, voices, last_tick: e.abs_tick, ..s };
    let reference = match s1.tick_ref {
        Some(r) => Some(r),
        None => s1.prev_pitch,
    };
    let new = spec_winner(counts, voices, p.voice, reference);
    if new != s1.winner {
        change_winner(s1, new, e.abs_tick, p)
    } else {
        s1
    }
}

/// The sweep over the events `es`.
pub open spec fn sweep(es: Seq<NoteEvent>, p: SweepParams) -> Sweep
    decreases es.len(),
{
    if es.len() == 0 {
        sweep_init(p.include_rests)
    } else {
        sweep_step(sweep(es.drop_last(), p), es.last(), p)
    }
}

/// The merged notes: the sweep, then the segment still sounding at the last
/// event (kept even when empty), then (rests enabled, end not trimmed) the
/// trailing silence up to the later of `track_end` and the last event.
pub open spec fn spec_merged_notes(es: Seq<NoteEvent>, p: SweepParams, trim_end: bool, track_end: u64) -> Seq<(u8, u8)> {
    let s = sweep(es, p);
    let (notes, rest) = match s.winner {
        Some(pitch) => {
            let n = spec_make_note(pitch, s.segment_start, sat_sub(s.last_tick, s.segment_start), p.map, p.tpb);
            (push_opt(s.notes, n), if n is Some && p.include_rests { Some(s.last_tick) } else { s.rest_start })
        },
        None => (s.notes, s.rest_start),
    };
    if p.include_rests && !trim_end {
        let end = if track_end >= s.last_tick { track_end } else { s.last_tick };
        match rest {
            Some(rs) => push_opt(notes, spec_make_rest(rs, sat_sub(end, rs), p.map, p.tpb)),
            None => notes,
        }
    } else {
        notes
    }
}

struct Sweeper {
    counts: Vec<u32>,
    voices: Vec<Voice>,
    winner: Option<u8>,
    segment_start: u64,
    last_tick: u64,
    notes: Vec<SongNote>,
    rest_start: Option<u64>,
    first_started: bool,
    prev_pitch: Option<u8>,
    tick_ref: Option<u8>,
    prev_tick: u64,
}

impl Sweeper {
    spec fn view(&self) -> Sweep {
        Sweep {
            counts: self.counts@,
            voices: self.voices@,
            winner: self.winner,
            segment_start: self.segment_start,
            last_tick: self.last_tick,
            notes: note_views(self.notes@),
            rest_start: self.rest_start,
            first_started: self.first_started,
            prev_pitch: self.prev_pitch,
            tick_ref: self.tick_ref,
            prev_tick: self.prev_tick,
        }
    }

    fn change_winner(&mut self, new: Option<u8>, tick: u64, include_rests: bool, trim_start: bool, tempo_map: &[TempoChange], tpb: u32, Ghost(p): Ghost<SweepParams>)
        requires
            tpb > 0,
            p.include_rests == include_rests,
            p.trim_start == trim_start,
            p.map == tempo_map@,
            p.tpb == tpb,
        ensures
            final(self).view() == change_winner(old(self).view(), new, tick, p),
            final(self).counts@ == old(self).counts@,
            final(self).voices@ == old(self).voices@,
    {
        if let Some(pitch) = self.winner {
            let dur = tick.saturating_sub(self.segment_start);
            if dur > 0 {
                let n = make_note(pitch, self.segment_start, dur, tempo_map, tpb);
                let made = n.is_some();
                push_note(&mut self.notes, n);
                if made {
                    self.prev_pitch = Some(pitch);
                    if include_rests {
                        self.rest_start = Some(tick);
                    }
                }
            }
        }
        match new {
            Some(np) => {
                if 31 <= np && np <= 127 {
                    if include_rests {
                        if let Some(rs) = self.rest_start {
                            if !(trim_start && !self.first_started) {
                                let r = make_rest(rs, tick.saturating_sub(rs), tempo_map, tpb);
                                push_note(&mut self.notes, r);
                            }
                            self.rest_start = None;
                        }
                    }
                    self.first_started = true;
                } else if include_rests && self.rest_start.is_none() {
                    self.rest_start = Some(tick);
                }
            },
            None => {},
        }
        self.segment_start = tick;
        self.winner = new;
    }

    fn step(&mut self, e: NoteEvent, voice: VoiceSelection, include_rests: bool, trim_start: bool, tempo_map: &[TempoChange], tpb: u32, Ghost(p): Ghost<SweepParams>)
        requires
            tpb > 0,
            old(self).counts@.len() == 256,
            p.voice == voice,
            p.include_rests == include_rests,
            p.trim_start == trim_start,
            p.map == tempo_map@,
            p.tpb == tpb,
        ensures
            final(self).view() == sweep_step(old(self).view(), e, p),
            final(self).counts@.len() == 256,
    {
        if e.abs_tick != self.prev_tick {
            self.tick_ref = self.winner;
            self.prev_tick = e.abs_tick;
        }
        let k = e.pitch as usize;
        let c = self.counts[k];
        if e.is_on {
            self.counts.set(k, c.saturating_add(1));
            hold(&mut self.voices, (e.channel, e.pitch, e.velocity));
        } else {
            if c > 0 {
                self.counts.set(k, c - 1);
            }
            release(&mut self.voices, (e.channel, e.pitch));
        }
        self.last_tick = e.abs_tick;
        let reference = match self.tick_ref {
            Some(r) => Some(r),
            None => self.prev_pitch,
        };
        let new = winner(&self.counts, &self.voices, voice, reference);
        if new != self.winner {
            self.change_winner(new, e.abs_tick, include_rests, trim_start, tempo_map, tpb, Ghost(p));
        }
    }
}

/// Sweep-line monophonization over note events in timeline order.
///
/// Zero-length segments (two changes at the same tick) are dropped; the
/// segment still sounding at the last event is always kept. With rests
/// enabled, silences (including spans whose sounding pitch the robot cannot
/// play) become rest notes.
pub fn monophonize_events(
    events: &[NoteEvent],
    voice_selection: VoiceSelection,
    tempo_map: &[TempoChange],
    ticks_per_beat: u32,
    include_rests: bool,
    trim_start: bool,
    trim_end: bool,
    track_end_tick: u64,
) -> (notes: Vec<SongNote>)
    requires
        ticks_per_beat > 0,
    ensures
        note_views(notes@) == spec_merged_notes(events@, SweepParams {
            voice: voice_selection, include_rests, trim_start, map: tempo_map@, tpb: ticks_per_beat }, trim_end, track_end_tick),
{
    let ghost p = SweepParams { voice: voice_selection, include_rests, trim_start, map: tempo_map@, tpb: ticks_per_beat };
    let mut counts: Vec<u32> = Vec::new();
    let mut k: usize = 0;
    while k < 256
        invariant
            k <= 256,
            counts@ == Seq::new(k as nat, |i: int| 0u32),
        decreases 256 - k,
    {
        counts.push(0);
        k += 1;
        assert(counts@ =~= Seq::new(k as nat, |i: int| 0u32));
    }
    let mut s = Sweeper {
        counts,
        voices: Vec::new(),
        winner: None,
        segment_start: 0,
        last_tick: 0,
        notes: Vec::new(),
        rest_start: if include_rests { Some(0) } else { None },
        first_started: false,
        prev_pitch: None,
        tick_ref: None,
        prev_tick: u64::MAX,
    };
    assert(note_views(s.notes@) =~= Seq::<(u8, u8)>::empty());
    assert(s.voices@ =~= Seq::<Voice>::empty());
    assert(s.view() == sweep_init(include_rests));
    let mut i: usize = 0;
    while i < events.len()
        invariant
            ticks_per_beat > 0,
            p == (SweepParams { voice: voice_selection, include_rests, trim_start, map: tempo_map@, tpb: ticks_per_beat }),
            i <= events@.len(),
            s.counts@.len() == 256,
            s.view() == sweep(events@.take(i as int), p),
        decreases events@.len() - i,
    {
        assert(events@.take(i as int + 1).drop_last() =~= events@.take(i as int));
        s.step(events[i], voice_selection, include_rests, trim_start, tempo_map, ticks_per_beat, Ghost(p));
        i += 1;
    }
    assert(events@.take(events@.len() as int) =~= events@);
    if let Some(pitch) = s.winner {
        let n = make_note(pitch, s.segment_start, s.last_tick.saturating_sub(s.segment_start), tempo_map, ticks_per_beat);
        let made = n.is_some();
        push_note(&mut s.notes, n);
        if made && include_rests {
            s.rest_start = Some(s.last_tick);
        }
    }
    if include_rests && !trim_end {
        let end = if track_end_tick >= s.last_tick { track_end_tick } else { s.last_tick };
        if let Some(rs) = s.rest_start {
            let r = make_rest(rs, end.saturating_sub(rs), tempo_map, ticks_per_beat);
            push_note(&mut s.notes, r);
        }
    }
    s.notes
}

proof fn lemma_change_winner_valid(s: Sweep, new: Option<u8>, tick: u64, p: SweepParams)
    requires
        all_valid(s.notes),
    ensures
        all_valid(change_winner(s, new, tick, p).notes),
{
    let mut notes = s.notes;
    if let Some(pitch) = s.winner {
        lemma_made_notes_valid(pitch, s.segment_start, sat_sub(tick, s.segment_start), p.map, p.tpb, s.notes);
        let closed = push_opt(s.notes, spec_make_note(pitch, s.segment_start, sat_sub(tick, s.segment_start), p.map, p.tpb));
        if let Some(rs) = s.rest_start {
            lemma_made_notes_valid(0, rs, sat_sub(tick, rs), p.map, p.tpb, closed);
        }
        lemma_made_notes_valid(0, tick, sat_sub(tick, tick), p.map, p.tpb, closed);
    }
    if let Some(rs) = s.rest_start {
        lemma_made_notes_valid(0, rs, sat_sub(tick, rs), p.map, p.tpb, s.notes);
    }
}

proof fn lemma_sweep_valid(es: Seq<NoteEvent>, p: SweepParams)
    ensures
        all_valid(sweep(es, p).notes),
    decreases es.len(),
{
    if es.len() > 0 {
        lemma_sweep_valid(es.drop_last(), p);
        let s0 = sweep(es.drop_last(), p);
        let e = es.last();
        let s = if e.abs_tick != s0.prev_tick { Sweep { tick_ref: s0.winner, prev_tick: e.abs_tick, ..s0 } } else { s0 };
        let counts = counts_after(s.counts, e);
        let voices = voices_after(s.voices, e);
        let s1 = Sweep { counts, voices, last_tick: e.abs_tick, ..s };
        let reference = match s1.tick_ref {
            Some(r) => Some(r),
            None => s1.prev_pitch,
        };
        lemma_change_winner_valid(s1, spec_winner(counts, voices, p.voice, reference), e.abs_tick, p);
    }
}

/// Law: every merged note is a rest or a playable pitch, lasting 1 to 255 units.
pub proof fn lemma_merged_notes_valid(es: Seq<NoteEvent>, p: SweepParams, trim_end: bool, track_end: u64)
    ensures
        all_valid(spec_merged_notes(es, p, trim_end, track_end)),
{
    lemma_sweep_valid(es, p);
    let s = sweep(es, p);
    let end = if track_end >= s.last_tick { track_end } else { s.last_tick };
    match s.winner {
        Some(pitch) => {
            lemma_made_notes_valid(pitch, s.segment_start, sat_sub(s.last_tick, s.segment_start), p.map, p.tpb, s.notes);
            let notes = push_opt(s.notes, spec_make_note(pitch, s.segment_start, sat_sub(s.last_tick, s.segment_start), p.map, p.tpb));
            lemma_made_notes_valid(0, s.last_tick, sat_sub(end, s.last_tick), p.map, p.tpb, notes);
            if let Some(rs) = s.rest_start {
                lemma_made_notes_valid(0, rs, sat_sub(end, rs), p.map, p.tpb, notes);
            }
        },
        None => {
            if let Some(rs) = s.rest_start {
                lemma_made_notes_valid(0, rs, sat_sub(end, rs), p.map, p.tpb, s.notes);
            }
        },
    }
}

} // verus!
