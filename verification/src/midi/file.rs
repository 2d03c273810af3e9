//! The parts of a Standard MIDI File that song conversion reads.
//!
//! A parsed file is held as plain values: its format, its timing, and for
//! each track the list of events with their delta times. Only note, tempo
//! and end-of-track events are told apart; every other event is `Other`.

use vstd::prelude::*;

verus! {

/// Track layout of a Standard MIDI File.
#[derive(Debug, Clone, Copy, PartialEq, Eq, Structural)]
pub enum MidiFormat {
    /// A single track (format 0).
    SingleTrack,
    /// Several tracks played together (format 1).
    Parallel,
    /// Several tracks played one after another (format 2).
    Sequential,
}

/// Timing of a Standard MIDI File.
#[derive(Debug, Clone, Copy, PartialEq, Eq, Structural)]
pub enum MidiTiming {
    /// Ticks per beat (a 15-bit value).
    Metrical(u16),
    /// SMPTE timecode.
    Timecode,
}

/// What a track event does, as far as song conversion is concerned.
#[derive(Debug, Clone, Copy, PartialEq, Eq, Structural)]
pub enum EventKind {
    /// Note On on `channel` (0–15) for `key` (0–127) with velocity `vel` (0–127).
    NoteOn { channel: u8, key: u8, vel: u8 },
    /// Note Off on `channel` for `key`.
    NoteOff { channel: u8, key: u8 },
    /// Set Tempo, in microseconds per beat (a 24-bit value).
    Tempo(u32),
    /// End of track.
    EndOfTrack,
    /// Any other event.
    Other,
}

/// A track event: its delta time in ticks after the previous event, and its kind.
#[derive(Debug, Clone, Copy, PartialEq, Eq, Structural)]
pub struct MidiEvent {
    /// Ticks after the previous event (a 28-bit value).
    pub delta: u32,
    /// What the event does.
    pub kind: EventKind,
}

impl MidiEvent {
    /// The value ranges the file format gives each field.
    pub open spec fn wf(self) -> bool {
        &&& self.delta < 0x1000_0000
        &&& match self.kind {
            EventKind::NoteOn { channel, key, vel } => channel < 16 && key < 128 && vel < 128,
            EventKind::NoteOff { channel, key } => channel < 16 && key < 128,
            EventKind::Tempo(t) => t < 0x100_0000,
            _ => true,
        }
    }
}

/// Every event of every track is within its format's ranges.
pub open spec fn tracks_wf(tracks: Seq<Seq<MidiEvent>>) -> bool {
    forall|t: int, e: int| 0 <= t < tracks.len() && 0 <= e < tracks[t].len() ==> (#[trigger] tracks[t][e]).wf()
}

/// A parsed Standard MIDI File.
#[derive(Debug, Clone)]
pub struct MidiFile {
    /// Track layout.
    pub format: MidiFormat,
    /// Timing.
    pub timing: MidiTiming,
    /// The events of each track, in file order.
    pub tracks: Vec<Vec<MidiEvent>>,
}

/// The contents of a parsed file as plain values.
pub type MidiContent = (MidiFormat, MidiTiming, Seq<Seq<MidiEvent>>);

impl View for MidiFile {
    type V = MidiContent;

    open spec fn view(&self) -> MidiContent {
        (self.format, self.timing, self.tracks@.map_values(|t: Vec<MidiEvent>| t@))
    }
}

} // verus!
