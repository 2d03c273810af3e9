//! MIDI-to-robot-song conversion utilities.
//!
//! Parses a Standard MIDI File (SMF) and converts notes to [`SongNote`]
//! values suitable for [`define_song`](crate::create::Create::define_song).
//!
//! # Polyphony and multi-track files
//!
//! By default, only the first track that contains note events is used, and
//! polyphony within that track is resolved by "latest Note On wins"
//! (previous note cut). For complex multi-track or polyphonic files, enable
//! [`MidiConfig::merge_all_tracks`] to merge all tracks into a single voice
//! using [`MidiConfig::voice_selection`].
//!
//! # Limitations
//!
//! - Rests are encoded as notes of pitch 0 when [`MidiConfig::include_rests`]
//!   is set; [`MidiConfig::trim_start`] and [`MidiConfig::trim_end`] control
//!   whether leading/trailing silence is included.
//! - MIDI Format 2 (sequential multi-song) is not supported.
//! - SMPTE timecode is not supported; use metrical timing.

use vstd::prelude::*;

pub mod file;
pub mod tempo;
pub mod notes;
pub mod single;
pub mod voices;
pub mod merge;
pub mod limit;
pub mod sounding;
pub mod smf;

pub use merge::VoiceSelection;

use crate::midi::file::{EventKind, MidiContent, MidiEvent, MidiFile, MidiFormat, MidiTiming};
use crate::midi::limit::{limit_voices, spec_limit_voices};
use crate::midi::merge::{
    all_note_events, collect_note_events, lemma_merged_notes_valid, monophonize_events, sort_events,
    sort_note_events, spec_merged_notes, NoteEvent, SweepParams,
};
use crate::midi::notes::{all_valid, note_views};
use crate::midi::single::{filtered_out, lemma_track_notes_valid, spec_track_notes, track_notes, ScanParams};
use crate::midi::smf::{read_midi, smf_parse};
use crate::midi::tempo::{
    build_tempo_map, end_tick, spec_tempo_at, spec_tempo_map, tempo_at, track_views, TempoChange,
};
use crate::protocol::MAX_SONG_NOTES;
use crate::text::{decimal, push_decimal};
use crate::types::SongNote;

verus! {

/// Configuration for MIDI parsing.
#[derive(Debug, Clone)]
pub struct MidiConfig {
    /// Track index to use (0-based). `None` = the first track that contains
    /// a Note On event with nonzero velocity. Ignored when merging tracks.
    pub track: Option<usize>,
    /// Override the tempo (µs per beat). `None` = read from the file;
    /// 500 000 (120 BPM) where the file sets none.
    pub tempo_micros_per_beat: Option<u32>,
    /// Merge the notes of **all** tracks into one voice (sweep line), with
    /// [`voice_selection`](Self::voice_selection) picking the sounding note.
    pub merge_all_tracks: bool,
    /// Which held note sounds when merging. Default: highest pitch.
    pub voice_selection: VoiceSelection,
    /// When merging, first reduce the polyphony to at most this many notes
    /// at once (never 0), dropping the least important by
    /// [`voice_selection`](Self::voice_selection). `None` = no limit.
    pub max_voices: Option<usize>,
    /// Leave MIDI channel 10 (index 9, percussion) out of the merge.
    /// Ignored when [`channel`](Self::channel) is set.
    pub filter_percussion: bool,
    /// Only take notes from this channel (0–15); others are refused with
    /// [`MidiError::InvalidChannel`]. Works in both modes.
    pub channel: Option<u8>,
    /// Encode silences between notes as rest notes (pitch 0).
    pub include_rests: bool,
    /// Drop the silence before the first playable note (with rests).
    pub trim_start: bool,
    /// Drop the silence after the last playable note (with rests).
    pub trim_end: bool,
}

impl Default for MidiConfig {
    /// Auto-detected track, tempo from the file, single-track mode, highest
    /// pitch wins, percussion filtered, all channels, rests included with
    /// both ends trimmed.
    fn default() -> (c: Self)
        ensures
            c.track is None,
            c.tempo_micros_per_beat is None,
            !c.merge_all_tracks,
            c.voice_selection == VoiceSelection::HighestPitch,
            c.max_voices is None,
            c.filter_percussion,
            c.channel is None,
            c.include_rests,
            c.trim_start,
            c.trim_end,
    {
        MidiConfig {
            track: None,
            tempo_micros_per_beat: None,
            merge_all_tracks: false,
            voice_selection: VoiceSelection::default(),
            max_voices: None,
            filter_percussion: true,
            channel: None,
            include_rests: true,
            trim_start: true,
            trim_end: true,
        }
    }
}

/// Error type for MIDI parsing.
#[derive(Debug, Clone, PartialEq, Eq)]
pub enum MidiError {
    /// The MIDI byte stream could not be parsed; the parser's message.
    Parse(String),
    /// The file contains no usable notes (all pitches out of the robot's
    /// range 31–127, or no notes at all).
    NoNotes,
    /// The file uses SMPTE timecode.
    UnsupportedTiming,
    /// The file is MIDI Format 2 (sequential multi-song).
    UnsupportedFormat,
    /// The timing header has zero ticks per beat.
    InvalidTiming,
    /// The requested MIDI channel is outside 0–15.
    InvalidChannel(u8),
}

impl MidiError {
    /// The human-readable message.
    pub fn to_string(&self) -> (s: String)
        ensures
            match self {
                MidiError::Parse(m) => s@ == "MIDI parse error: "@ + m@,
                MidiError::NoNotes => s@ == "no playable notes in MIDI file"@,
                MidiError::UnsupportedTiming => s@ == "SMPTE timecode is not supported; use metrical timing"@,
                MidiError::UnsupportedFormat => s@ == "MIDI Format 2 (sequential) is not supported"@,
                MidiError::InvalidTiming => s@ == "ticks_per_beat is zero; invalid MIDI file"@,
                MidiError::InvalidChannel(ch) => s@ == "channel "@ + decimal(*ch as nat) + " is out of range; valid channels are 0–15"@,
            },
    {
        match self {
            MidiError::Parse(m) => {
                let mut s = String::from_str("MIDI parse error: ");
                s.append(m.as_str());
                s
            },
            MidiError::NoNotes => String::from_str("no playable notes in MIDI file"),
            MidiError::UnsupportedTiming => String::from_str("SMPTE timecode is not supported; use metrical timing"),
            MidiError::UnsupportedFormat => String::from_str("MIDI Format 2 (sequential) is not supported"),
            MidiError::InvalidTiming => String::from_str("ticks_per_beat is zero; invalid MIDI file"),
            MidiError::InvalidChannel(ch) => {
                let mut s = String::from_str("channel ");
                push_decimal(&mut s, *ch as u64);
                s.append(" is out of range; valid channels are 0–15");
                s
            },
        }
    }
}

/// A Note On of nonzero velocity on an accepted channel.
pub open spec fn sounding_note_on(e: MidiEvent, channel: Option<u8>) -> bool {
    e.kind matches EventKind::NoteOn { channel: ch, key, vel } && vel > 0 && !filtered_out(channel, ch)
}

/// Whether a track holds a Note On of nonzero velocity on an accepted channel.
pub open spec fn has_sounding_note(es: Seq<MidiEvent>, channel: Option<u8>) -> bool {
    exists|i: int| 0 <= i < es.len() && sounding_note_on(#[trigger] es[i], channel)
}

/// Index of the first track from `from` on with a sounding note.
pub open spec fn first_track_with_notes(tracks: Seq<Seq<MidiEvent>>, channel: Option<u8>, from: nat) -> Option<nat>
    decreases tracks.len() - from,
{
    if from >= tracks.len() {
        None
    } else if has_sounding_note(tracks[from as int], channel) {
        Some(from)
    } else {
        first_track_with_notes(tracks, channel, from + 1)
    }
}

/// Tick of the last End of Track event of a track (0 if none).
pub open spec fn eot_tick(es: Seq<MidiEvent>) -> u64
    decreases es.len(),
{
    if es.len() == 0 {
        0
    } else if es.last().kind == EventKind::EndOfTrack {
        end_tick(es)
    } else {
        eot_tick(es.drop_last())
    }
}

/// Where a track ends: the later of its End of Track event and its last event.
pub open spec fn track_end_of(es: Seq<MidiEvent>) -> u64 {
    if eot_tick(es) >= end_tick(es) { eot_tick(es) } else { end_tick(es) }
}

/// The latest end over all tracks (0 without tracks).
pub open spec fn spec_max_track_end(tracks: Seq<Seq<MidiEvent>>) -> u64
    decreases tracks.len(),
{
    if tracks.len() == 0 {
        0
    } else {
        let a = spec_max_track_end(tracks.drop_last());
        let b = track_end_of(tracks.last());
        if a >= b { a } else { b }
    }
}

/// The tempo map used for a file: the file's own, or a single change to the override at tick 0.
pub open spec fn effective_tempo_map(tracks: Seq<Seq<MidiEvent>>, cfg: MidiConfig) -> Seq<TempoChange> {
    match cfg.tempo_micros_per_beat {
        Some(t) => seq![TempoChange { abs_tick: 0, micros_per_beat: t }],
        None => spec_tempo_map(tracks),
    }
}

/// The notes of single-track mode: the selected track (explicit, or the
/// first with a sounding note) scanned with "latest Note On wins".
pub open spec fn spec_single_track(tracks: Seq<Seq<MidiEvent>>, cfg: MidiConfig, map: Seq<TempoChange>, tpb: u32) -> Result<Seq<(u8, u8)>, MidiError> {
    let idx = match cfg.track {
        Some(i) => Some(i as nat),
        None => first_track_with_notes(tracks, cfg.channel, 0),
    };
    match idx {
        None => Err(MidiError::NoNotes),
        Some(i) => if i >= tracks.len() {
            Err(MidiError::NoNotes)
        } else {
            Ok(spec_track_notes(tracks[i as int], ScanParams {
                channel: cfg.channel, include_rests: cfg.include_rests, trim_start: cfg.trim_start, map, tpb,
            }, cfg.trim_end))
        },
    }
}

/// The note events of all tracks in timeline order, reduced to
/// `max_voices` voices when a limit is set.
pub open spec fn merge_events(tracks: Seq<Seq<MidiEvent>>, cfg: MidiConfig) -> Seq<NoteEvent> {
    let sorted = sort_events(all_note_events(tracks, cfg.filter_percussion, cfg.channel));
    match cfg.max_voices {
        Some(m) => spec_limit_voices(sorted, m, cfg.voice_selection),
        None => sorted,
    }
}

/// The song a parsed file converts to under `cfg`, or why it does not:
/// format 2 and SMPTE timing are refused, then zero ticks per beat, then a
/// channel above 15; an empty result is [`MidiError::NoNotes`].
pub open spec fn spec_notes_from_midi(c: MidiContent, cfg: MidiConfig) -> Result<Seq<(u8, u8)>, MidiError> {
    let (format, timing, tracks) = c;
    if format == MidiFormat::Sequential {
        Err(MidiError::UnsupportedFormat)
    } else {
        match timing {
            MidiTiming::Timecode => Err(MidiError::UnsupportedTiming),
            MidiTiming::Metrical(t) => if t == 0 {
                Err(MidiError::InvalidTiming)
            } else if cfg.channel matches Some(ch) && ch > 15 {
                Err(MidiError::InvalidChannel(cfg.channel.unwrap()))
            } else {
                let map = effective_tempo_map(tracks, cfg);
                let track_end = if cfg.include_rests && !cfg.trim_end { spec_max_track_end(tracks) } else { 0 };
                let notes = if cfg.merge_all_tracks {
                    Ok(spec_merged_notes(
                        merge_events(tracks, cfg),
                        SweepParams {
                            voice: cfg.voice_selection,
                            include_rests: cfg.include_rests,
                            trim_start: cfg.trim_start,
                            map,
                            tpb: t as u32,
                        },
                        cfg.trim_end,
                        track_end,
                    ))
                } else {
                    spec_single_track(tracks, cfg, map, t as u32)
                };
                match notes {
                    Err(e) => Err(e),
                    Ok(ns) => if ns.len() == 0 { Err(MidiError::NoNotes) } else { Ok(ns) },
                }
            },
        }
    }
}

/// Find the latest end over all tracks.
fn find_max_track_end_tick(tracks: &[Vec<MidiEvent>]) -> (end: u64)
    ensures
        end == spec_max_track_end(track_views(tracks@)),
{
    let mut best: u64 = 0;
    let mut t: usize = 0;
    while t < tracks.len()
        invariant
            t <= tracks@.len(),
            best == spec_max_track_end(track_views(tracks@).take(t as int)),
        decreases tracks@.len() - t,
    {
        assert(track_views(tracks@).take(t as int + 1).drop_last() =~= track_views(tracks@).take(t as int));
        let track = &tracks[t];
        let mut abs_tick: u64 = 0;
        let mut eot: u64 = 0;
        let mut e: usize = 0;
        while e < track.len()
            invariant
                e <= track@.len(),
                abs_tick == end_tick(track@.take(e as int)),
                eot == eot_tick(track@.take(e as int)),
            decreases track@.len() - e,
        {
            assert(track@.take(e as int + 1).drop_last() =~= track@.take(e as int));
            abs_tick = abs_tick.saturating_add(track[e].delta as u64);
            if track[e].kind == EventKind::EndOfTrack {
                eot = abs_tick;
            }
            e += 1;
        }
        assert(track@.take(track@.len() as int) =~= track@);
        assert(track_views(tracks@)[t as int] == track@);
        let end = if eot >= abs_tick { eot } else { abs_tick };
        if end > best {
            best = end;
        }
        t += 1;
    }
    assert(track_views(tracks@).take(tracks@.len() as int) =~= track_views(tracks@));
    best
}

/// Whether a track holds a Note On of nonzero velocity on an accepted channel.
fn track_has_sounding_note(events: &[MidiEvent], channel: Option<u8>) -> (b: bool)
    ensures
        b == has_sounding_note(events@, channel),
{
    let mut i: usize = 0;
    while i < events.len()
        invariant
            i <= events@.len(),
            forall|k: int| 0 <= k < i ==> !sounding_note_on(#[trigger] events@[k], channel),
        decreases events@.len() - i,
    {
        if let EventKind::NoteOn { channel: ch, key, vel } = events[i].kind {
            let skip = match channel {
                Some(c) => c != ch,
                None => false,
            };
            if vel > 0 && !skip {
                return true;
            }
        }
        i += 1;
    }
    false
}

/// Index of the first track with a sounding note.
fn first_sounding_track(tracks: &[Vec<MidiEvent>], channel: Option<u8>) -> (r: Option<usize>)
    ensures
        r is Some <==> first_track_with_notes(track_views(tracks@), channel, 0) is Some,
        r matches Some(i) ==> first_track_with_notes(track_views(tracks@), channel, 0) == Some(i as nat),
{
    let ghost views = track_views(tracks@);
    let mut t: usize = 0;
    while t < tracks.len()
        invariant
            views == track_views(tracks@),
            t <= tracks@.len(),
            first_track_with_notes(views, channel, 0) == first_track_with_notes(views, channel, t as nat),
        decreases tracks@.len() - t,
    {
        assert(views[t as int] == tracks@[t as int]@);
        if track_has_sounding_note(tracks[t].as_slice(), channel) {
            return Some(t);
        }
        t += 1;
    }
    None
}

/// The notes of single-track mode.
fn single_track_notes(tracks: &[Vec<MidiEvent>], config: &MidiConfig, tempo_map: &[TempoChange], ticks_per_beat: u32)
    -> (r: Result<Vec<SongNote>, MidiError>)
    requires
        ticks_per_beat > 0,
    ensures
        match spec_single_track(track_views(tracks@), *config, tempo_map@, ticks_per_beat) {
            Ok(ns) => r matches Ok(v) && note_views(v@) == ns,
            Err(e) => r == Err::<Vec<SongNote>, MidiError>(e),
        },
{
    let ghost views = track_views(tracks@);
    let idx = match config.track {
        Some(i) => i,
        None => match first_sounding_track(tracks, config.channel) {
            Some(i) => i,
            None => return Err(MidiError::NoNotes),
        },
    };
    if idx >= tracks.len() {
        return Err(MidiError::NoNotes);
    }
    assert(views[idx as int] == tracks@[idx as int]@);
    Ok(track_notes(
        tracks[idx].as_slice(),
        config.channel,
        tempo_map,
        ticks_per_beat,
        config.include_rests,
        config.trim_start,
        config.trim_end,
    ))
}

/// Convert parsed MIDI contents to robot song notes.
///
/// See [`midi_to_notes`]; this is the conversion after parsing.
pub fn notes_from_midi(file: &MidiFile, config: &MidiConfig) -> (r: Result<Vec<SongNote>, MidiError>)
    requires
        config.max_voices != Some(0usize),
    ensures
        match spec_notes_from_midi(file@, *config) {
            Ok(ns) => r matches Ok(v) && note_views(v@) == ns,
            Err(e) => r == Err::<Vec<SongNote>, MidiError>(e),
        },
{
    assert(file@.2 == track_views(file.tracks@));
    if file.format == MidiFormat::Sequential {
        return Err(MidiError::UnsupportedFormat);
    }
    let ticks_per_beat: u32 = match file.timing {
        MidiTiming::Metrical(t) => {
            if t == 0 {
                return Err(MidiError::InvalidTiming);
            }
            t as u32
        },
        MidiTiming::Timecode => return Err(MidiError::UnsupportedTiming),
    };
    if let Some(ch) = config.channel {
        if ch > 15 {
            return Err(MidiError::InvalidChannel(ch));
        }
    }
    let tracks = file.tracks.as_slice();
    let mut tempo_map = build_tempo_map(tracks);
    if let Some(override_tempo) = config.tempo_micros_per_beat {
        tempo_map = Vec::new();
        tempo_map.push(TempoChange { abs_tick: 0, micros_per_beat: override_tempo });
        assert(tempo_map@ =~= seq![TempoChange { abs_tick: 0, micros_per_beat: override_tempo }]);
    }
    let track_end_tick = if config.include_rests && !config.trim_end {
        find_max_track_end_tick(tracks)
    } else {
        0
    };
    let notes = if config.merge_all_tracks {
        let events = collect_note_events(tracks, config.filter_percussion, config.channel);
        let sorted = sort_note_events(events.as_slice());
        let merged = match config.max_voices {
            Some(m) => limit_voices(sorted.as_slice(), m, config.voice_selection),
            None => sorted,
        };
        monophonize_events(
            merged.as_slice(),
            config.voice_selection,
            tempo_map.as_slice(),
            ticks_per_beat,
            config.include_rests,
            config.trim_start,
            config.trim_end,
            track_end_tick,
        )
    } else {
        match single_track_notes(tracks, config, tempo_map.as_slice(), ticks_per_beat) {
            Ok(n) => n,
            Err(e) => return Err(e),
        }
    };
    if notes.len() == 0 {
        Err(MidiError::NoNotes)
    } else {
        Ok(notes)
    }
}

/// Parse a Standard MIDI File and extract a sequence of [`SongNote`]s.
///
/// Single-track mode (default) takes the selected track (or the first with
/// note events) with "latest Note On wins"; tempo events of **all** tracks
/// form the tempo map, so a conductor track in a Format 1 file is honoured.
/// Merge mode sweeps the note events of all tracks into one voice, after
/// reducing them to [`MidiConfig::max_voices`] voices when that is set.
///
/// # Errors
///
/// [`MidiError::Parse`] if the bytes are no Standard MIDI File, otherwise
/// as [`notes_from_midi`] decides.
pub fn midi_to_notes(midi_bytes: &[u8], config: &MidiConfig) -> (r: Result<Vec<SongNote>, MidiError>)
    requires
        config.max_voices != Some(0usize),
    ensures
        match smf_parse(midi_bytes@) {
            None => r matches Err(MidiError::Parse(_)),
            Some(c) => match spec_notes_from_midi(c, *config) {
                Ok(ns) => r matches Ok(v) && note_views(v@) == ns,
                Err(e) => r == Err::<Vec<SongNote>, MidiError>(e),
            },
        },
{
    let file = match read_midi(midi_bytes) {
        Ok(f) => f,
        Err(m) => return Err(MidiError::Parse(m)),
    };
    notes_from_midi(&file, config)
}

/// The tempo at tick 0 of a parsed file, or why the file is refused
/// (format 2, SMPTE timing, zero ticks per beat).
pub open spec fn spec_initial_tempo(c: MidiContent) -> Result<u32, MidiError> {
    let (format, timing, tracks) = c;
    if format == MidiFormat::Sequential {
        Err(MidiError::UnsupportedFormat)
    } else {
        match timing {
            MidiTiming::Timecode => Err(MidiError::UnsupportedTiming),
            MidiTiming::Metrical(t) => if t == 0 {
                Err(MidiError::InvalidTiming)
            } else {
                Ok(spec_tempo_at(spec_tempo_map(tracks), 0))
            },
        }
    }
}

/// Read the initial tempo from a Standard MIDI File, in microseconds per
/// beat: the tempo in effect at tick 0, or 500 000 (120 BPM) where the file
/// sets none.
pub fn midi_initial_tempo(midi_bytes: &[u8]) -> (r: Result<u32, MidiError>)
    ensures
        match smf_parse(midi_bytes@) {
            None => r matches Err(MidiError::Parse(_)),
            Some(c) => match spec_initial_tempo(c) {
                Ok(t) => r == Ok::<u32, MidiError>(t),
                Err(e) => r == Err::<u32, MidiError>(e),
            },
        },
{
    let file = match read_midi(midi_bytes) {
        Ok(f) => f,
        Err(m) => return Err(MidiError::Parse(m)),
    };
    assert(file@.2 == track_views(file.tracks@));
    if file.format == MidiFormat::Sequential {
        return Err(MidiError::UnsupportedFormat);
    }
    match file.timing {
        MidiTiming::Timecode => return Err(MidiError::UnsupportedTiming),
        MidiTiming::Metrical(t) => {
            if t == 0 {
                return Err(MidiError::InvalidTiming);
            }
        },
    }
    let tempo_map = build_tempo_map(file.tracks.as_slice());
    Ok(tempo_at(tempo_map.as_slice(), 0))
}

/// The chunk `k` of `notes`: notes `16k` up to `16k + 16` (fewer at the end).
pub open spec fn chunk(notes: Seq<SongNote>, k: int) -> Seq<SongNote> {
    let lo = 16 * k;
    let hi = if 16 * k + 16 <= notes.len() { 16 * k + 16 } else { notes.len() as int };
    notes.subrange(lo, hi)
}

/// Split a flat list of notes into chunks of at most 16 notes, in order.
///
/// Each chunk can be uploaded to a single song slot with
/// [`define_song`](crate::create::Create::define_song).
pub fn notes_to_chunks(notes: Vec<SongNote>) -> (chunks: Vec<Vec<SongNote>>)
    ensures
        chunks@.len() == (notes@.len() + 15) / 16,
        forall|k: int| 0 <= k < chunks@.len() ==> (#[trigger] chunks@[k])@ == chunk(notes@, k),
{
    let len = notes.len();
    let count = len / MAX_SONG_NOTES + if len % MAX_SONG_NOTES == 0 { 0 } else { 1 };
    assert(count == (len + 15) / 16);
    let mut chunks: Vec<Vec<SongNote>> = Vec::new();
    let mut k: usize = 0;
    while k < count
        invariant
            len == notes@.len(),
            count == (len + 15) / 16,
            k <= count,
            chunks@.len() == k,
            forall|j: int| 0 <= j < chunks@.len() ==> (#[trigger] chunks@[j])@ == chunk(notes@, j),
        decreases count - k,
    {
        assert(16 * k < len) by (nonlinear_arith)
            requires k < count, count == (len + 15) / 16;
        let start = MAX_SONG_NOTES * k;
        let end = if len - start >= MAX_SONG_NOTES { start + MAX_SONG_NOTES } else { len };
        let mut c: Vec<SongNote> = Vec::new();
        let mut i: usize = start;
        while i < end
            invariant
                start <= i <= end,
                end <= notes@.len(),
                c@ == notes@.subrange(start as int, i as int),
            decreases end - i,
        {
            c.push(notes[i]);
            i += 1;
            assert(c@ =~= notes@.subrange(start as int, i as int));
        }
        assert(c@ == chunk(notes@, k as int));
        chunks.push(c);
        k += 1;
    }
    chunks
}

/// Law: a successful conversion yields at least one note, and every note is
/// a rest or a playable pitch (31–127) lasting 1 to 255 units of 1/64 s, so
/// each chunk of it can be defined as a song as it is.
pub proof fn lemma_converted_notes_valid(c: MidiContent, cfg: MidiConfig)
    ensures
        spec_notes_from_midi(c, cfg) matches Ok(ns) ==> ns.len() >= 1 && all_valid(ns),
{
    let (format, timing, tracks) = c;
    if let MidiTiming::Metrical(t) = timing {
        let map = effective_tempo_map(tracks, cfg);
        let track_end = if cfg.include_rests && !cfg.trim_end { spec_max_track_end(tracks) } else { 0 };
        lemma_merged_notes_valid(
            merge_events(tracks, cfg),
            SweepParams { voice: cfg.voice_selection, include_rests: cfg.include_rests, trim_start: cfg.trim_start, map, tpb: t as u32 },
            cfg.trim_end,
            track_end,
        );
        let idx = match cfg.track {
            Some(i) => Some(i as nat),
            None => first_track_with_notes(tracks, cfg.channel, 0),
        };
        if let Some(i) = idx {
            if i < tracks.len() {
                lemma_track_notes_valid(tracks[i as int], ScanParams {
                    channel: cfg.channel, include_rests: cfg.include_rests, trim_start: cfg.trim_start, map, tpb: t as u32,
                }, cfg.trim_end);
            }
        }
    }
}

/// The chunks of `notes`, put back together in order.
pub open spec fn joined(notes: Seq<SongNote>, k: nat) -> Seq<SongNote>
    decreases k,
{
    if k == 0 { Seq::empty() } else { joined(notes, (k - 1) as nat) + chunk(notes, k - 1) }
}

/// Law: splitting into chunks loses and reorders nothing — the chunks
/// joined in order are the notes — every chunk holds 1 to 16 notes, and
/// every chunk but the last holds exactly 16.
pub proof fn lemma_chunks_rejoin(notes: Seq<SongNote>)
    ensures
        joined(notes, (notes.len() + 15) / 16) == notes,
        forall|k: int| 0 <= k < (notes.len() + 15) / 16 ==> 1 <= (#[trigger] chunk(notes, k)).len() <= 16,
        forall|k: int| 0 <= k < (notes.len() + 15) / 16 - 1 ==> (#[trigger] chunk(notes, k)).len() == 16,
{
    let n = notes.len();
    let count = (n + 15) / 16;
    assert forall|k: int| 0 <= k < count - 1 implies (#[trigger] chunk(notes, k)).len() == 16 by {
        assert(16 * k + 16 <= n) by (nonlinear_arith) requires 0 <= k < count - 1, count == (n + 15) / 16;
    }
    assert forall|k: int| 0 <= k < count implies 1 <= (#[trigger] chunk(notes, k)).len() <= 16 by {
        assert(16 * k < n) by (nonlinear_arith) requires 0 <= k < count, count == (n + 15) / 16;
    }
    lemma_joined_prefix(notes, count);
    assert(16 * count >= n) by (nonlinear_arith) requires count == (n + 15) / 16;
    assert(notes.take(n as int) =~= notes);
}

proof fn lemma_joined_prefix(notes: Seq<SongNote>, k: nat)
    requires
        k <= (notes.len() + 15) / 16,
    ensures
        joined(notes, k) == notes.take(if 16 * k <= notes.len() { (16 * k) as int } else { notes.len() as int }),
    decreases k,
{
    let n = notes.len();
    if k > 0 {
        lemma_joined_prefix(notes, (k - 1) as nat);
        assert(16 * (k - 1) < n) by (nonlinear_arith) requires 0 < k <= (n + 15) / 16;
        let lo = 16 * (k - 1);
        let hi = if 16 * k <= n { (16 * k) as int } else { n as int };
        assert(notes.take(lo) + notes.subrange(lo, hi) =~= notes.take(hi));
    }
}

} // verus!
