//! Reading Standard MIDI Files with the `midly` parser.
//!
//! `midly` does the parsing; the items here hand its result over as the
//! plain values of [`MidiFile`].

use vstd::prelude::*;
use crate::midi::file::{EventKind, MidiContent, MidiEvent, MidiFile, MidiFormat, MidiTiming, tracks_wf};

verus! {

#[verifier::external_type_specification]
#[verifier::external_body]
pub struct ExSmf<'a>(midly::Smf<'a>);

/// The contents `midly` parses from `bytes`, or `None` where it refuses them.
pub uninterp spec fn smf_parse(bytes: Seq<u8>) -> Option<MidiContent>;

/// The contents of a file `midly` has parsed: format, timing, and the events of each track.
pub uninterp spec fn smf_content(smf: midly::Smf) -> MidiContent;

/// `midly::Smf::parse`, its error turned into the error's message.
/// Claimed: the parse succeeds exactly when `smf_parse(bytes)` names
/// contents, and then holds those contents; the same bytes always parse to
/// the same contents. Nothing is claimed of the message.
#[verifier::external_body]
fn parse_smf(bytes: &[u8]) -> (r: Result<midly::Smf<'_>, String>)
    ensures
        match smf_parse(bytes@) {
            Some(c) => r matches Ok(s) && smf_content(s) == c,
            None => r is Err,
        },
{
    midly::Smf::parse(bytes).map_err(|e| format!("{e}"))
}

/// The header fields `format` and `timing` of a `midly::Smf`, one variant
/// for one variant; claimed equal to the contents' format and timing.
#[verifier::external_body]
fn smf_header(smf: &midly::Smf) -> (h: (MidiFormat, MidiTiming))
    ensures
        h.0 == smf_content(*smf).0,
        h.1 == smf_content(*smf).1,
{
    let format = match smf.header.format {
        midly::Format::SingleTrack => MidiFormat::SingleTrack,
        midly::Format::Parallel => MidiFormat::Parallel,
        midly::Format::Sequential => MidiFormat::Sequential,
    };
    let timing = match smf.header.timing {
        midly::Timing::Metrical(t) => MidiTiming::Metrical(t.as_int()),
        midly::Timing::Timecode(..) => MidiTiming::Timecode,
    };
    (format, timing)
}

/// `smf.tracks.len()`; claimed equal to the number of tracks of the contents.
#[verifier::external_body]
fn smf_track_count(smf: &midly::Smf) -> (n: usize)
    ensures
        n == smf_content(*smf).2.len(),
{
    smf.tracks.len()
}

/// `smf.tracks[track].len()`; claimed equal to that track's number of events.
#[verifier::external_body]
fn smf_track_len(smf: &midly::Smf, track: usize) -> (n: usize)
    requires
        track < smf_content(*smf).2.len(),
    ensures
        n == smf_content(*smf).2[track as int].len(),
{
    smf.tracks[track].len()
}

/// Event `event` of track `track`, its delta time and kind copied field for
/// field; claimed equal to that event of the contents, and within the ranges
/// of `midly`'s field types (28-bit delta, 4-bit channel, 7-bit key and
/// velocity, 24-bit tempo).
#[verifier::external_body]
fn smf_event(smf: &midly::Smf, track: usize, event: usize) -> (e: MidiEvent)
    requires
        track < smf_content(*smf).2.len(),
        event < smf_content(*smf).2[track as int].len(),
    ensures
        e == smf_content(*smf).2[track as int][event as int],
        e.wf(),
{
    let ev = &smf.tracks[track][event];
    let kind = match ev.kind {
        midly::TrackEventKind::Midi { channel, message: midly::MidiMessage::NoteOn { key, vel } } =>
            EventKind::NoteOn { channel: channel.as_int(), key: key.as_int(), vel: vel.as_int() },
        midly::TrackEventKind::Midi { channel, message: midly::MidiMessage::NoteOff { key, .. } } =>
            EventKind::NoteOff { channel: channel.as_int(), key: key.as_int() },
        midly::TrackEventKind::Meta(midly::MetaMessage::Tempo(t)) => EventKind::Tempo(t.as_int()),
        midly::TrackEventKind::Meta(midly::MetaMessage::EndOfTrack) => EventKind::EndOfTrack,
        _ => EventKind::Other,
    };
    MidiEvent { delta: ev.delta.as_int(), kind }
}

/// Parse a Standard MIDI File into its plain contents; a refusal carries
/// the parser's message.
pub fn read_midi(bytes: &[u8]) -> (r: Result<MidiFile, String>)
    ensures
        match smf_parse(bytes@) {
            Some(c) => r matches Ok(f) && f@ == c,
            None => r is Err,
        },
        r matches Ok(f) ==> tracks_wf(f@.2),
{
    let smf = match parse_smf(bytes) {
        Ok(s) => s,
        Err(e) => return Err(e),
    };
    let ghost c = smf_content(smf);
    let (format, timing) = smf_header(&smf);
    let count = smf_track_count(&smf);
    let mut tracks: Vec<Vec<MidiEvent>> = Vec::new();
    let mut t: usize = 0;
    while t < count
        invariant
            c == smf_content(smf),
            count == c.2.len(),
            t <= count,
            tracks@.len() == t,
            forall|k: int| 0 <= k < t ==> (#[trigger] tracks@[k])@ == c.2[k],
            forall|k: int, e: int| 0 <= k < t && 0 <= e < tracks@[k]@.len() ==> (#[trigger] tracks@[k]@[e]).wf(),
        decreases count - t,
    {
        let len = smf_track_len(&smf, t);
        let mut events: Vec<MidiEvent> = Vec::new();
        let mut e: usize = 0;
        while e < len
            invariant
                c == smf_content(smf),
                count == c.2.len(),
                t < count,
                len == c.2[t as int].len(),
                e <= len,
                events@ == c.2[t as int].take(e as int),
                forall|i: int| 0 <= i < e ==> (#[trigger] events@[i]).wf(),
            decreases len - e,
        {
            let ev = smf_event(&smf, t, e);
            events.push(ev);
            e += 1;
            assert(events@ =~= c.2[t as int].take(e as int));
        }
        assert(events@ =~= c.2[t as int]);
        tracks.push(events);
        t += 1;
    }
    let file = MidiFile { format, timing, tracks };
    assert(file@.2 =~= c.2);
    Ok(file)
}

} // verus!
