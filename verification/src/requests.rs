//! The bytes each robot command sends, decided before any I/O.
//!
//! Every function here takes the robot model (and, where it matters, whether
//! a sensor stream is running) together with the command's arguments, and
//! either returns the exact bytes to transmit or the error the command is
//! refused with. Nothing is sent on a refusal. The blocking
//! [`Create`](crate::create::Create) handle and any other front end run these
//! checks first and then hand the bytes to their transport.

use vstd::prelude::*;
use crate::error::{Error, ValidationError};
use crate::protocol::command::{
    encode_baud, encode_buttons, encode_clean, encode_control, encode_date, encode_digit_leds_ascii,
    encode_digit_leds_raw, encode_drive, encode_drive_direct, encode_drive_pwm, encode_max,
    encode_motors_pwm, encode_play, encode_safe, encode_schedule, encode_scheduling_leds, encode_song,
    encode_spot, encode_stop, encode_stream, encode_toggle_stream, i16_hi, i16_lo, i8_byte,
    id_list_bytes, lemma_i16_be_round_trip, schedule_bytes, song_bytes, two_i16_command,
};
use crate::protocol::error::ProtocolError;
use crate::protocol::opcode::{
    lemma_opcode_values,
    group_data_len, group_packet_ids, lemma_group_members_individual, packet_info, spec_data_len,
    spec_group_data_len, spec_group_ids, spec_packet_info, Opcode,
};
use crate::protocol::sensor::{expected_data_len, has_duplicate_ids, lemma_distinct_ids_at_most_256, spec_expected_data_len};
use crate::protocol::stream::max_payload;
use crate::protocol::types::{CleanMode, DayOfWeek, RadiusMm, VelocityMmPerSec, WheelPwm};
use crate::types::{ButtonBits, RobotModel, SongNote, SongNumber};

verus! {

/// A validation failure of `field` for `reason`, as a control-layer error.
pub open spec fn invalid<E>(field: &'static str, reason: &'static str) -> Error<E> {
    Error::Validation(ValidationError { field, reason })
}

/// `r` is what `plan` decides: the same bytes, or the same error.
pub open spec fn produced<E>(r: Result<Vec<u8>, Error<E>>, plan: Result<Seq<u8>, Error<E>>) -> bool {
    match plan {
        Ok(bytes) => r matches Ok(v) && v@ == bytes,
        Err(e) => r == Err::<Vec<u8>, Error<E>>(e),
    }
}

/// `bytes` if `allowed`, else the validation error of `field` for `reason`.
pub open spec fn gate<E>(allowed: bool, field: &'static str, reason: &'static str, bytes: Seq<u8>) -> Result<Seq<u8>, Error<E>> {
    if allowed { Ok(bytes) } else { Err(invalid(field, reason)) }
}

fn refuse<E>(field: &'static str, reason: &'static str) -> (r: Result<Vec<u8>, Error<E>>)
    ensures
        r == Err::<Vec<u8>, Error<E>>(invalid(field, reason)),
{
    Err(Error::Validation(ValidationError { field, reason }))
}

fn bytes_of(a: &[u8]) -> (v: Vec<u8>)
    ensures
        v@ == a@,
{
    vstd::slice::slice_to_vec(a)
}

// ---------------------------------------------------------------------------
// Sensor packet IDs
// ---------------------------------------------------------------------------

/// Whether `model` can be asked for packet `id`. IDs that are neither a
/// group nor an individual packet pass here; they are refused later as unknown.
pub open spec fn spec_packet_id_check(model: RobotModel, id: u8) -> Result<(), ValidationError> {
    if spec_group_data_len(id) is Some {
        if model.spec_supports_group_packet(id) {
            Ok(())
        } else {
            Err(ValidationError { field: "packet_id", reason: "sensor group packet is not supported by this robot model" })
        }
    } else if spec_packet_info(id) is Some {
        if !model.spec_supports_individual_sensor_packets() {
            Err(ValidationError {
                field: "packet_id",
                reason: "individual sensor packets are not supported by Roomba 400; use group IDs 0–3",
            })
        } else if id > model.spec_max_individual_sensor_packet_id() {
            Err(ValidationError { field: "packet_id", reason: "sensor packet ID is not available on this robot model" })
        } else {
            Ok(())
        }
    } else {
        Ok(())
    }
}

/// Check that `model` can be asked for packet `packet_id`.
pub fn validate_packet_id(model: RobotModel, packet_id: u8) -> (r: Result<(), ValidationError>)
    ensures
        r == spec_packet_id_check(model, packet_id),
{
    if group_data_len(packet_id).is_some() {
        if !model.supports_group_packet(packet_id) {
            return Err(ValidationError {
                field: "packet_id",
                reason: "sensor group packet is not supported by this robot model",
            });
        }
    } else if packet_info(packet_id).is_some() {
        if !model.supports_individual_sensor_packets() {
            return Err(ValidationError {
                field: "packet_id",
                reason: "individual sensor packets are not supported by Roomba 400; use group IDs 0–3",
            });
        }
        if packet_id > model.max_individual_sensor_packet_id() {
            return Err(ValidationError {
                field: "packet_id",
                reason: "sensor packet ID is not available on this robot model",
            });
        }
    }
    Ok(())
}

/// The check of the first ID in `ids` that `model` refuses, or `Ok` if none is refused.
pub open spec fn spec_packet_ids_check(model: RobotModel, ids: Seq<u8>) -> Result<(), ValidationError>
    decreases ids.len(),
{
    if ids.len() == 0 {
        Ok(())
    } else {
        match spec_packet_id_check(model, ids[0]) {
            Err(e) => Err(e),
            Ok(()) => spec_packet_ids_check(model, ids.skip(1)),
        }
    }
}

/// Check every ID of `ids` in order; the first refusal is returned.
pub fn validate_packet_ids(model: RobotModel, ids: &[u8]) -> (r: Result<(), ValidationError>)
    ensures
        r == spec_packet_ids_check(model, ids@),
{
    let mut i: usize = 0;
    assert(ids@.skip(0) =~= ids@);
    while i < ids.len()
        invariant
            i <= ids@.len(),
            spec_packet_ids_check(model, ids@) == spec_packet_ids_check(model, ids@.skip(i as int)),
        decreases ids@.len() - i,
    {
        assert(ids@.skip(i as int).skip(1) =~= ids@.skip(i as int + 1));
        assert(ids@.skip(i as int)[0] == ids@[i as int]);
        match validate_packet_id(model, ids[i]) {
            Err(e) => return Err(e),
            Ok(()) => {},
        }
        i += 1;
    }
    assert(ids@.skip(i as int) =~= Seq::<u8>::empty());
    Ok(())
}

/// Number of response bytes of a single-packet query for `id`:
/// the packet's length, or the total length of a group's members.
pub open spec fn spec_query_len(id: u8) -> Option<nat> {
    match spec_packet_info(id) {
        Some(p) => Some(p.len as nat),
        None => spec_group_data_len(id),
    }
}

/// Reason given when a query is attempted while a stream is running.
pub open spec fn streaming_error<E>() -> Error<E> {
    invalid("stream", "sensor queries cannot be sent while streaming; call toggle_stream(false) first")
}

/// The response length of a single-packet query, or why it is refused.
pub open spec fn spec_sensor_query_len<E>(model: RobotModel, streaming: bool, id: u8) -> Result<nat, Error<E>> {
    if streaming {
        Err(streaming_error())
    } else {
        match spec_packet_id_check(model, id) {
            Err(v) => Err(Error::Validation(v)),
            Ok(()) => match spec_query_len(id) {
                Some(n) => Ok(n),
                None => Err(Error::Protocol(ProtocolError::UnknownPacketId(id))),
            },
        }
    }
}

/// Decide a single-packet query (individual or group ID): the number of
/// bytes the robot answers with.
pub fn sensor_query_len<E>(model: RobotModel, streaming: bool, packet_id: u8) -> (r: Result<usize, Error<E>>)
    ensures
        match spec_sensor_query_len::<E>(model, streaming, packet_id) {
            Ok(n) => r == Ok::<usize, Error<E>>(n as usize) && n <= 104,
            Err(e) => r == Err::<usize, Error<E>>(e),
        },
{
    if streaming {
        return Err(Error::Validation(ValidationError {
            field: "stream",
            reason: "sensor queries cannot be sent while streaming; call toggle_stream(false) first",
        }));
    }
    match validate_packet_id(model, packet_id) {
        Err(v) => return Err(Error::Validation(v)),
        Ok(()) => {},
    }
    proof { lemma_group_members_individual(packet_id); }
    match packet_info(packet_id) {
        Some(p) => Ok(p.len as usize),
        None => match group_data_len(packet_id) {
            Some(n) => Ok(n),
            None => Err(Error::Protocol(ProtocolError::UnknownPacketId(packet_id))),
        },
    }
}

/// The response length of a query-list request, or why it is refused.
pub open spec fn spec_query_list_check<E>(model: RobotModel, streaming: bool, ids: Seq<u8>) -> Result<nat, Error<E>> {
    if streaming {
        Err(streaming_error())
    } else if !model.spec_supports_query_list() {
        Err(invalid("model", "query_list (OPCODE 149) is not supported on Roomba 400; use query_sensor_raw with group IDs 0–3"))
    } else if !ids.no_duplicates() {
        Err(invalid("packet_ids", "duplicate packet IDs are not allowed in query_list"))
    } else {
        match spec_packet_ids_check(model, ids) {
            Err(v) => Err(Error::Validation(v)),
            Ok(()) => match spec_expected_data_len(ids) {
                Err(e) => Err(Error::Protocol(e)),
                Ok(n) => if ids.len() > 255 {
                    Err(Error::Protocol(ProtocolError::TooManyItems { max: 255, got: ids.len() as usize }))
                } else {
                    Ok(n)
                },
            },
        }
    }
}

/// Decide a query-list request: the number of response bytes, checked in
/// the order streaming, model, duplicates, per-ID availability, known IDs.
pub fn query_list_len<E>(model: RobotModel, streaming: bool, packet_ids: &[u8]) -> (r: Result<usize, Error<E>>)
    ensures
        match spec_query_list_check::<E>(model, streaming, packet_ids@) {
            Ok(n) => r == Ok::<usize, Error<E>>(n as usize) && n <= 104 * 256,
            Err(e) => r == Err::<usize, Error<E>>(e),
        },
{
    if streaming {
        return Err(Error::Validation(ValidationError {
            field: "stream",
            reason: "sensor queries cannot be sent while streaming; call toggle_stream(false) first",
        }));
    }
    if !model.supports_query_list() {
        return Err(Error::Validation(ValidationError {
            field: "model",
            reason: "query_list (OPCODE 149) is not supported on Roomba 400; use query_sensor_raw with group IDs 0–3",
        }));
    }
    if has_duplicate_ids(packet_ids) {
        return Err(Error::Validation(ValidationError {
            field: "packet_ids",
            reason: "duplicate packet IDs are not allowed in query_list",
        }));
    }
    match validate_packet_ids(model, packet_ids) {
        Err(v) => return Err(Error::Validation(v)),
        Ok(()) => {},
    }
    proof { lemma_distinct_ids_at_most_256(packet_ids@); }
    let n = match expected_data_len(packet_ids) {
        Err(e) => return Err(Error::Protocol(e)),
        Ok(n) => n,
    };
    if packet_ids.len() > 255 {
        return Err(Error::Protocol(ProtocolError::TooManyItems { max: 255, got: packet_ids.len() }));
    }
    Ok(n)
}

// ---------------------------------------------------------------------------
// Streams
// ---------------------------------------------------------------------------

/// Bytes one entry of a stream list adds to every stream frame's payload:
/// an individual packet costs its ID byte plus its data, a group costs one
/// ID byte per member plus the members' data.
pub open spec fn stream_cost(id: u8) -> Option<nat> {
    match spec_packet_info(id) {
        Some(p) => Some(1 + p.len as nat),
        None => match spec_group_ids(id) {
            Some(members) => Some(members.len() + spec_data_len(members)),
            None => None,
        },
    }
}

/// Payload bytes per stream frame for `ids`, or the first unknown ID.
pub open spec fn spec_stream_payload(ids: Seq<u8>) -> Result<nat, ProtocolError>
    decreases ids.len(),
{
    if ids.len() == 0 {
        Ok(0)
    } else {
        match stream_cost(ids[0]) {
            None => Err(ProtocolError::UnknownPacketId(ids[0])),
            Some(c) => match spec_stream_payload(ids.skip(1)) {
                Ok(t) => Ok(c + t),
                Err(e) => Err(e),
            },
        }
    }
}

proof fn lemma_stream_cost_bounds(id: u8)
    ensures
        stream_cost(id) matches Some(c) ==> 2 <= c <= 156,
{
    lemma_group_members_individual(id);
}

/// Every entry costs between 2 and 156 payload bytes.
proof fn lemma_stream_payload_bounds(ids: Seq<u8>)
    ensures
        spec_stream_payload(ids) matches Ok(n) ==> 2 * ids.len() <= n <= 156 * ids.len(),
    decreases ids.len(),
{
    if ids.len() > 0 {
        lemma_stream_cost_bounds(ids[0]);
        lemma_stream_payload_bounds(ids.skip(1));
    }
}

/// Compute the per-frame payload of a stream of `ids`.
pub fn stream_payload_len(ids: &[u8]) -> (r: Result<usize, ProtocolError>)
    requires
        156 * ids@.len() <= usize::MAX,
    ensures
        match spec_stream_payload(ids@) {
            Ok(n) => r == Ok::<usize, ProtocolError>(n as usize) && n <= 156 * ids@.len(),
            Err(e) => r == Err::<usize, ProtocolError>(e),
        },
{
    let mut total: usize = 0;
    let mut i: usize = 0;
    assert(ids@.skip(0) =~= ids@);
    while i < ids.len()
        invariant
            156 * ids@.len() <= usize::MAX,
            i <= ids@.len(),
            total <= 156 * i,
            match spec_stream_payload(ids@.skip(i as int)) {
                Ok(t) => spec_stream_payload(ids@) == Ok::<nat, ProtocolError>(total as nat + t),
                Err(e) => spec_stream_payload(ids@) == Err::<nat, ProtocolError>(e),
            },
        decreases ids@.len() - i,
    {
        assert(ids@.skip(i as int).skip(1) =~= ids@.skip(i as int + 1));
        assert(ids@.skip(i as int)[0] == ids@[i as int]);
        let id = ids[i];
        proof {
            lemma_stream_cost_bounds(id);
            lemma_group_members_individual(id);
        }
        match packet_info(id) {
            Some(p) => {
                total = total + 1 + p.len as usize;
            },
            None => match group_packet_ids(id) {
                Some(members) => {
                    let data = match group_data_len(id) {
                        Some(d) => d,
                        None => 0,
                    };
                    total = total + members.len() + data;
                },
                None => return Err(ProtocolError::UnknownPacketId(id)),
            },
        }
        i += 1;
    }
    assert(ids@.skip(i as int) =~= Seq::<u8>::empty());
    proof { lemma_stream_payload_bounds(ids@); }
    Ok(total)
}

/// Decision on a stream request: the checks of the stream-start command, in
/// order. `per_model` adds the check that every ID is available on the model.
pub open spec fn spec_stream_check<E>(model: RobotModel, ids: Seq<u8>, per_model: bool) -> Result<(), Error<E>> {
    if !model.spec_supports_stream() {
        Err(invalid("stream", "sensor streaming is not supported by this robot model"))
    } else if !ids.no_duplicates() {
        Err(invalid("packet_ids", "duplicate packet IDs are not allowed in start_stream"))
    } else {
        match if per_model { spec_packet_ids_check(model, ids) } else { Ok(()) } {
            Err(v) => Err(Error::Validation(v)),
            Ok(()) => match spec_stream_payload(ids) {
                Err(e) => Err(Error::Protocol(e)),
                Ok(n) => if n > 255 {
                    Err(invalid("packet_ids", "stream payload per cycle exceeds OI limit of 255 bytes"))
                } else {
                    Ok(())
                },
            },
        }
    }
}

/// The bytes that start a stream of `ids`, or why it is refused.
pub open spec fn spec_start_stream<E>(model: RobotModel, ids: Seq<u8>, per_model: bool) -> Result<Seq<u8>, Error<E>> {
    match spec_stream_check::<E>(model, ids, per_model) {
        Err(e) => Err(e),
        Ok(()) => Ok(id_list_bytes(Opcode::Stream, ids)),
    }
}

/// Decide a stream-start request: model support, no duplicate IDs, (with
/// `per_model`) every ID available on the model, all IDs known, at most 255
/// payload bytes per frame.
pub fn start_stream<E>(model: RobotModel, packet_ids: &[u8], per_model: bool) -> (r: Result<Vec<u8>, Error<E>>)
    ensures
        produced(r, spec_start_stream::<E>(model, packet_ids@, per_model)),
{
    if !model.supports_stream() {
        return refuse("stream", "sensor streaming is not supported by this robot model");
    }
    if has_duplicate_ids(packet_ids) {
        return refuse("packet_ids", "duplicate packet IDs are not allowed in start_stream");
    }
    if per_model {
        match validate_packet_ids(model, packet_ids) {
            Err(v) => return Err(Error::Validation(v)),
            Ok(()) => {},
        }
    }
    proof {
        lemma_distinct_ids_at_most_256(packet_ids@);
        lemma_stream_payload_bounds(packet_ids@);
    }
    let payload = match stream_payload_len(packet_ids) {
        Err(e) => return Err(Error::Protocol(e)),
        Ok(n) => n,
    };
    if payload > 255 {
        return refuse("packet_ids", "stream payload per cycle exceeds OI limit of 255 bytes");
    }
    match encode_stream(packet_ids) {
        Ok(v) => Ok(v),
        Err(e) => Err(Error::Protocol(e)),
    }
}

/// The bytes that pause or resume a stream, or why it is refused.
pub open spec fn spec_toggle_stream<E>(model: RobotModel, enable: bool) -> Result<Seq<u8>, Error<E>> {
    gate(model.spec_supports_stream(), "stream", "sensor streaming is not supported by this robot model",
        seq![Opcode::ToggleStream.spec_byte(), if enable { 1u8 } else { 0u8 }])
}

/// Decide a pause/resume request: refused on models without streaming.
pub fn toggle_stream<E>(model: RobotModel, enable: bool) -> (r: Result<Vec<u8>, Error<E>>)
    ensures
        produced(r, spec_toggle_stream::<E>(model, enable)),
{
    if !model.supports_stream() {
        return refuse("stream", "sensor streaming is not supported by this robot model");
    }
    Ok(bytes_of(&encode_toggle_stream(enable)))
}

// ---------------------------------------------------------------------------
// Mode changes
// ---------------------------------------------------------------------------

/// The command that enters Safe mode from Passive: CONTROL (130) on
/// Roomba 400, whose interface has no SAFE command there, SAFE (131) otherwise.
pub open spec fn spec_to_safe(model: RobotModel) -> Seq<u8> {
    if model == RobotModel::Roomba400 {
        seq![Opcode::Control.spec_byte()]
    } else {
        seq![Opcode::Safe.spec_byte()]
    }
}

/// The bytes that enter Safe mode from Passive.
pub fn to_safe(model: RobotModel) -> (r: [u8; 1])
    ensures
        r@ == spec_to_safe(model),
{
    if model == RobotModel::Roomba400 {
        encode_control()
    } else {
        encode_safe()
    }
}

/// STOP (173) ends the session; it exists on Create 2 only.
pub open spec fn spec_to_off<E>(model: RobotModel) -> Result<Seq<u8>, Error<E>> {
    gate(model.spec_is_create2(), "model",
        "to_off (OPCODE 173 STOP) requires Create 2; not supported on Create 1 or Roomba 400",
        seq![Opcode::Stop.spec_byte()])
}

/// Decide a STOP request.
pub fn to_off<E>(model: RobotModel) -> (r: Result<Vec<u8>, Error<E>>)
    ensures
        produced(r, spec_to_off::<E>(model)),
{
    if !model.is_create2() {
        return refuse("model", "to_off (OPCODE 173 STOP) requires Create 2; not supported on Create 1 or Roomba 400");
    }
    Ok(bytes_of(&encode_stop()))
}

/// The cleaning command of `mode`; MAX (136) is refused on Create 1, where
/// that opcode starts a demo instead.
pub open spec fn spec_clean<E>(model: RobotModel, mode: CleanMode) -> Result<Seq<u8>, Error<E>> {
    if mode == CleanMode::Max && model == RobotModel::Create1 {
        Err(invalid("mode", "CleanMode::Max (OPCODE 136) is a Demo command on Create 1; use CleanMode::Default or CleanMode::Spot"))
    } else {
        Ok(match mode {
            CleanMode::Default => seq![Opcode::Clean.spec_byte()],
            CleanMode::Spot => seq![Opcode::Spot.spec_byte()],
            CleanMode::Max => seq![Opcode::Max.spec_byte()],
        })
    }
}

/// Decide a cleaning request.
pub fn clean<E>(model: RobotModel, mode: CleanMode) -> (r: Result<Vec<u8>, Error<E>>)
    ensures
        produced(r, spec_clean::<E>(model, mode)),
{
    match mode {
        CleanMode::Default => Ok(bytes_of(&encode_clean())),
        CleanMode::Spot => Ok(bytes_of(&encode_spot())),
        CleanMode::Max => {
            if model == RobotModel::Create1 {
                return refuse("mode", "CleanMode::Max (OPCODE 136) is a Demo command on Create 1; use CleanMode::Default or CleanMode::Spot");
            }
            Ok(bytes_of(&encode_max()))
        },
    }
}

// ---------------------------------------------------------------------------
// Songs
// ---------------------------------------------------------------------------

/// Reason given for a song slot above the model's maximum.
pub open spec fn song_slot_error<E>() -> Error<E> {
    invalid("number", "song slot exceeds this model's maximum")
}

/// The (note, duration) pairs of `notes`.
pub open spec fn note_pairs(notes: Seq<SongNote>) -> Seq<(u8, u8)> {
    notes.map_values(|n: SongNote| n@)
}

/// The bytes that define song `number` as `notes`, or why it is refused:
/// the slot must exist on the model and the song must hold at most 16 notes
/// (and, with `require_notes`, at least one).
pub open spec fn spec_define_song<E>(model: RobotModel, number: SongNumber, notes: Seq<SongNote>, require_notes: bool) -> Result<Seq<u8>, Error<E>> {
    if number@ > model.spec_max_song_number() {
        Err(song_slot_error())
    } else if notes.len() > 16 {
        Err(Error::Protocol(ProtocolError::TooManyItems { max: 16, got: notes.len() as usize }))
    } else if require_notes && notes.len() == 0 {
        Err(Error::Protocol(ProtocolError::TooFewItems { min: 1, got: 0 }))
    } else {
        Ok(song_bytes(number@, note_pairs(notes)))
    }
}

/// Decide a song definition.
pub fn define_song<E>(model: RobotModel, number: SongNumber, notes: &[SongNote], require_notes: bool) -> (r: Result<Vec<u8>, Error<E>>)
    ensures
        produced(r, spec_define_song::<E>(model, number, notes@, require_notes)),
{
    if number.get() > model.max_song_number() {
        return refuse("number", "song slot exceeds this model's maximum");
    }
    if notes.len() > 16 {
        return Err(Error::Protocol(ProtocolError::TooManyItems { max: 16, got: notes.len() }));
    }
    if require_notes && notes.len() == 0 {
        return Err(Error::Protocol(ProtocolError::TooFewItems { min: 1, got: 0 }));
    }
    let mut raw: Vec<(u8, u8)> = Vec::new();
    let mut i: usize = 0;
    while i < notes.len()
        invariant
            i <= notes@.len(),
            raw@ =~= note_pairs(notes@).take(i as int),
        decreases notes@.len() - i,
    {
        let n = notes[i];
        raw.push((n.midi_note(), n.duration_64ths()));
        i += 1;
    }
    assert(note_pairs(notes@).take(notes@.len() as int) =~= note_pairs(notes@));
    match encode_song(number.get(), raw.as_slice()) {
        Ok(v) => Ok(v),
        Err(e) => Err(Error::Protocol(e)),
    }
}

/// The bytes that play song `number`, or why it is refused.
pub open spec fn spec_play_song<E>(model: RobotModel, number: SongNumber) -> Result<Seq<u8>, Error<E>> {
    if number@ > model.spec_max_song_number() {
        Err(song_slot_error())
    } else {
        Ok(seq![Opcode::Play.spec_byte(), number@])
    }
}

/// Decide a song playback.
pub fn play_song<E>(model: RobotModel, number: SongNumber) -> (r: Result<Vec<u8>, Error<E>>)
    ensures
        produced(r, spec_play_song::<E>(model, number)),
{
    if number.get() > model.max_song_number() {
        return refuse("number", "song slot exceeds this model's maximum");
    }
    Ok(bytes_of(&encode_play(number.get())))
}

// ---------------------------------------------------------------------------
// Actuators
// ---------------------------------------------------------------------------

/// The command that halts both wheels: DRIVE at 0 mm/s "straight" on
/// Roomba 400, which lacks DRIVE_DIRECT; DRIVE_DIRECT with 0 on both
/// wheels otherwise.
pub open spec fn spec_stop(model: RobotModel) -> Seq<u8> {
    if model == RobotModel::Roomba400 {
        two_i16_command(Opcode::Drive, 0i16, -32768i16)
    } else {
        two_i16_command(Opcode::DriveDirect, 0i16, 0i16)
    }
}

/// The bytes that halt both wheels.
pub fn stop(model: RobotModel) -> (r: [u8; 5])
    ensures
        r@ == spec_stop(model),
{
    if model == RobotModel::Roomba400 {
        encode_drive(VelocityMmPerSec::zero().get(), RadiusMm::straight().get())
    } else {
        encode_drive_direct(VelocityMmPerSec::zero().get(), VelocityMmPerSec::zero().get())
    }
}

/// DRIVE_DIRECT (145) exists on Create 1 and Create 2.
pub open spec fn spec_drive_direct<E>(model: RobotModel, right: VelocityMmPerSec, left: VelocityMmPerSec) -> Result<Seq<u8>, Error<E>> {
    gate(model.spec_supports_drive_direct(), "model",
        "drive_direct (OPCODE 145) requires Create 1 or Create 2; not supported on Roomba 400",
        two_i16_command(Opcode::DriveDirect, right@, left@))
}

/// Decide a per-wheel velocity command.
pub fn drive_direct<E>(model: RobotModel, right: VelocityMmPerSec, left: VelocityMmPerSec) -> (r: Result<Vec<u8>, Error<E>>)
    ensures
        produced(r, spec_drive_direct::<E>(model, right, left)),
{
    if !model.supports_drive_direct() {
        return refuse("model", "drive_direct (OPCODE 145) requires Create 1 or Create 2; not supported on Roomba 400");
    }
    Ok(bytes_of(&encode_drive_direct(right.get(), left.get())))
}

/// DRIVE_PWM (146) exists on Create 2 only.
pub open spec fn spec_drive_pwm<E>(model: RobotModel, right: WheelPwm, left: WheelPwm) -> Result<Seq<u8>, Error<E>> {
    gate(model.spec_is_create2(), "model",
        "drive_pwm (OPCODE 146) requires Create 2; not supported on Create 1 or Roomba 400",
        two_i16_command(Opcode::DrivePwm, right@, left@))
}

/// Decide a per-wheel PWM command.
pub fn drive_pwm<E>(model: RobotModel, right: WheelPwm, left: WheelPwm) -> (r: Result<Vec<u8>, Error<E>>)
    ensures
        produced(r, spec_drive_pwm::<E>(model, right, left)),
{
    if !model.is_create2() {
        return refuse("model", "drive_pwm (OPCODE 146) requires Create 2; not supported on Create 1 or Roomba 400");
    }
    Ok(bytes_of(&encode_drive_pwm(right.get(), left.get())))
}

/// Printable ASCII, the characters the digit display can show.
pub open spec fn printable(c: u8) -> bool {
    32 <= c <= 126
}

/// The error for a non-printable digit character in `field`.
pub open spec fn digit_error<E>(field: &'static str) -> Error<E> {
    invalid(field, "digit LED character must be printable ASCII (32–126)")
}

/// The ASCII digit command (164, Create 2 only); each character must be
/// printable, checked from `d3` to `d0`.
pub open spec fn spec_digit_leds<E>(model: RobotModel, d3: u8, d2: u8, d1: u8, d0: u8) -> Result<Seq<u8>, Error<E>> {
    if !model.spec_is_create2() {
        Err(invalid("model", "set_digit_leds (OPCODE 164) requires Create 2; not supported on Create 1 or Roomba 400"))
    } else if !printable(d3) {
        Err(digit_error("d3"))
    } else if !printable(d2) {
        Err(digit_error("d2"))
    } else if !printable(d1) {
        Err(digit_error("d1"))
    } else if !printable(d0) {
        Err(digit_error("d0"))
    } else {
        Ok(seq![Opcode::DigitLedsAscii.spec_byte(), d3, d2, d1, d0])
    }
}

/// Decide an ASCII digit-display command.
pub fn digit_leds<E>(model: RobotModel, d3: u8, d2: u8, d1: u8, d0: u8) -> (r: Result<Vec<u8>, Error<E>>)
    ensures
        produced(r, spec_digit_leds::<E>(model, d3, d2, d1, d0)),
{
    if !model.is_create2() {
        return refuse("model", "set_digit_leds (OPCODE 164) requires Create 2; not supported on Create 1 or Roomba 400");
    }
    if d3 < 32 || d3 > 126 {
        return refuse("d3", "digit LED character must be printable ASCII (32–126)");
    }
    if d2 < 32 || d2 > 126 {
        return refuse("d2", "digit LED character must be printable ASCII (32–126)");
    }
    if d1 < 32 || d1 > 126 {
        return refuse("d1", "digit LED character must be printable ASCII (32–126)");
    }
    if d0 < 32 || d0 > 126 {
        return refuse("d0", "digit LED character must be printable ASCII (32–126)");
    }
    Ok(bytes_of(&encode_digit_leds_ascii(d3, d2, d1, d0)))
}

/// The error for a brush PWM of -128 in `field`.
pub open spec fn brush_pwm_error<E>(field: &'static str) -> Error<E> {
    invalid(field, "motor PWM value -128 is not valid; range is -127..=127")
}

/// The cleaning-motor PWM command (144, Create 2 only): brushes take
/// -127..=127, the vacuum 0..=127.
pub open spec fn spec_motors_pwm<E>(model: RobotModel, main_brush: i8, side_brush: i8, vacuum: u8) -> Result<Seq<u8>, Error<E>> {
    if !model.spec_is_create2() {
        Err(invalid("model", "set_motors_pwm (OPCODE 144) requires Create 2; not supported on Create 1 or Roomba 400"))
    } else if main_brush == -128 {
        Err(brush_pwm_error("main_brush"))
    } else if side_brush == -128 {
        Err(brush_pwm_error("side_brush"))
    } else if vacuum > 127 {
        Err(invalid("vacuum", "vacuum PWM must be 0..=127; values above 127 are invalid per OI spec"))
    } else {
        Ok(seq![Opcode::MotorsPwm.spec_byte(), i8_byte(main_brush), i8_byte(side_brush), vacuum])
    }
}

/// Decide a cleaning-motor PWM command.
pub fn motors_pwm<E>(model: RobotModel, main_brush: i8, side_brush: i8, vacuum: u8) -> (r: Result<Vec<u8>, Error<E>>)
    ensures
        produced(r, spec_motors_pwm::<E>(model, main_brush, side_brush, vacuum)),
{
    if !model.is_create2() {
        return refuse("model", "set_motors_pwm (OPCODE 144) requires Create 2; not supported on Create 1 or Roomba 400");
    }
    if main_brush == i8::MIN {
        return refuse("main_brush", "motor PWM value -128 is not valid; range is -127..=127");
    }
    if side_brush == i8::MIN {
        return refuse("side_brush", "motor PWM value -128 is not valid; range is -127..=127");
    }
    if vacuum > 127 {
        return refuse("vacuum", "vacuum PWM must be 0..=127; values above 127 are invalid per OI spec");
    }
    Ok(bytes_of(&encode_motors_pwm(main_brush, side_brush, vacuum as i8)))
}

/// The raw segment command (163, Create 2 only).
pub open spec fn spec_digit_leds_raw<E>(model: RobotModel, d3: u8, d2: u8, d1: u8, d0: u8) -> Result<Seq<u8>, Error<E>> {
    gate(model.spec_is_create2(), "model",
        "set_digit_leds_raw (OPCODE 163) requires Create 2; not supported on Create 1 or Roomba 400",
        seq![Opcode::DigitLedsRaw.spec_byte(), d3, d2, d1, d0])
}

/// Decide a raw segment command.
pub fn digit_leds_raw<E>(model: RobotModel, d3: u8, d2: u8, d1: u8, d0: u8) -> (r: Result<Vec<u8>, Error<E>>)
    ensures
        produced(r, spec_digit_leds_raw::<E>(model, d3, d2, d1, d0)),
{
    if !model.is_create2() {
        return refuse("model", "set_digit_leds_raw (OPCODE 163) requires Create 2; not supported on Create 1 or Roomba 400");
    }
    Ok(bytes_of(&encode_digit_leds_raw(d3, d2, d1, d0)))
}

/// The scheduling-LED command (162, Create 2 only); bit 7 of `day_leds` and
/// the upper nibble of `schedule_leds` are reserved.
pub open spec fn spec_scheduling_leds<E>(model: RobotModel, day_leds: u8, schedule_leds: u8) -> Result<Seq<u8>, Error<E>> {
    if !model.spec_is_create2() {
        Err(invalid("model", "set_scheduling_leds (OPCODE 162) requires Create 2; not supported on Create 1 or Roomba 400"))
    } else if day_leds >= 128 {
        Err(invalid("day_leds", "bit 7 of day_leds is reserved; only bits 0-6 (Sun-Sat) are valid"))
    } else if schedule_leds >= 16 {
        Err(invalid("schedule_leds", "upper 4 bits of schedule_leds are reserved; only bits 0-3 are valid"))
    } else {
        Ok(seq![Opcode::SchedulingLeds.spec_byte(), day_leds, schedule_leds])
    }
}

/// Decide a scheduling-LED command.
pub fn scheduling_leds<E>(model: RobotModel, day_leds: u8, schedule_leds: u8) -> (r: Result<Vec<u8>, Error<E>>)
    ensures
        produced(r, spec_scheduling_leds::<E>(model, day_leds, schedule_leds)),
{
    if !model.is_create2() {
        return refuse("model", "set_scheduling_leds (OPCODE 162) requires Create 2; not supported on Create 1 or Roomba 400");
    }
    if day_leds & 0x80 != 0 {
        assert(day_leds & 0x80 != 0 ==> day_leds >= 128) by (bit_vector);
        return refuse("day_leds", "bit 7 of day_leds is reserved; only bits 0-6 (Sun-Sat) are valid");
    }
    assert(day_leds & 0x80 == 0 ==> day_leds < 128) by (bit_vector);
    if schedule_leds & 0xF0 != 0 {
        assert(schedule_leds & 0xF0 != 0 ==> schedule_leds >= 16) by (bit_vector);
        return refuse("schedule_leds", "upper 4 bits of schedule_leds are reserved; only bits 0-3 are valid");
    }
    assert(schedule_leds & 0xF0 == 0 ==> schedule_leds < 16) by (bit_vector);
    Ok(bytes_of(&encode_scheduling_leds(day_leds, schedule_leds)))
}

/// The button-simulation command (165, Create 2 only).
pub open spec fn spec_buttons<E>(model: RobotModel, buttons: ButtonBits) -> Result<Seq<u8>, Error<E>> {
    gate(model.spec_is_create2(), "model",
        "simulate_buttons (OPCODE 165) requires Create 2; not supported on Create 1 or Roomba 400",
        seq![Opcode::Buttons.spec_byte(), buttons.spec_to_raw()])
}

/// Decide a button-simulation command.
pub fn buttons<E>(model: RobotModel, pressed: ButtonBits) -> (r: Result<Vec<u8>, Error<E>>)
    ensures
        produced(r, spec_buttons::<E>(model, pressed)),
{
    if !model.is_create2() {
        return refuse("model", "simulate_buttons (OPCODE 165) requires Create 2; not supported on Create 1 or Roomba 400");
    }
    Ok(bytes_of(&encode_buttons(pressed.to_raw())))
}

/// The error for an hour above 23.
pub open spec fn hour_error<E>() -> Error<E> {
    invalid("hour", "hour must be in range 0-23")
}

/// The error for a minute above 59.
pub open spec fn minute_error<E>() -> Error<E> {
    invalid("minute", "minute must be in range 0-59")
}

/// The clock-setting command (168, Create 2 only) with a valid time of day.
pub open spec fn spec_date<E>(model: RobotModel, day: DayOfWeek, hour: u8, minute: u8) -> Result<Seq<u8>, Error<E>> {
    if !model.spec_is_create2() {
        Err(invalid("model", "set_date (OPCODE 168) requires Create 2; not supported on Create 1 or Roomba 400"))
    } else if hour > 23 {
        Err(hour_error())
    } else if minute > 59 {
        Err(minute_error())
    } else {
        Ok(seq![Opcode::Date.spec_byte(), day.spec_to_raw(), hour, minute])
    }
}

/// Decide a clock-setting command.
pub fn date<E>(model: RobotModel, day: DayOfWeek, hour: u8, minute: u8) -> (r: Result<Vec<u8>, Error<E>>)
    ensures
        produced(r, spec_date::<E>(model, day, hour, minute)),
{
    if !model.is_create2() {
        return refuse("model", "set_date (OPCODE 168) requires Create 2; not supported on Create 1 or Roomba 400");
    }
    if hour > 23 {
        return refuse("hour", "hour must be in range 0-23");
    }
    if minute > 59 {
        return refuse("minute", "minute must be in range 0-59");
    }
    Ok(bytes_of(&encode_date(day.to_raw(), hour, minute)))
}

/// The first invalid (hour, minute) of `times`, checked day by day, hour before minute.
pub open spec fn times_error<E>(times: Seq<(u8, u8)>) -> Option<Error<E>>
    decreases times.len(),
{
    if times.len() == 0 {
        None
    } else if times[0].0 > 23 {
        Some(hour_error())
    } else if times[0].1 > 59 {
        Some(minute_error())
    } else {
        times_error(times.skip(1))
    }
}

/// The weekly schedule command (167, Create 2 only): only the seven day
/// bits may be set and every time must be a valid time of day.
pub open spec fn spec_schedule<E>(model: RobotModel, days: u8, times: Seq<(u8, u8)>) -> Result<Seq<u8>, Error<E>> {
    if !model.spec_is_create2() {
        Err(invalid("model", "set_schedule (OPCODE 167) requires Create 2; not supported on Create 1 or Roomba 400"))
    } else if days >= 128 {
        Err(invalid("days", "days bitmask must only use bits 0-6 (Sunday=0 … Saturday=6)"))
    } else {
        match times_error::<E>(times) {
            Some(e) => Err(e),
            None => Ok(schedule_bytes(days, times)),
        }
    }
}

/// Decide a weekly schedule command.
pub fn schedule<E>(model: RobotModel, days: u8, times: [(u8, u8); 7]) -> (r: Result<Vec<u8>, Error<E>>)
    ensures
        produced(r, spec_schedule::<E>(model, days, times@)),
{
    if !model.is_create2() {
        return refuse("model", "set_schedule (OPCODE 167) requires Create 2; not supported on Create 1 or Roomba 400");
    }
    if days & 0x80 != 0 {
        assert(days & 0x80 != 0 ==> days >= 128) by (bit_vector);
        return refuse("days", "days bitmask must only use bits 0-6 (Sunday=0 … Saturday=6)");
    }
    assert(days & 0x80 == 0 ==> days < 128) by (bit_vector);
    let mut i: usize = 0;
    assert(times@.skip(0) =~= times@);
    while i < 7
        invariant
            i <= 7,
            times@.len() == 7,
            model.spec_is_create2(),
            days < 128,
            times_error::<E>(times@) == times_error::<E>(times@.skip(i as int)),
        decreases 7 - i,
    {
        assert(times@.skip(i as int).skip(1) =~= times@.skip(i as int + 1));
        assert(times@.skip(i as int)[0] == times@[i as int]);
        let (h, m) = times[i];
        if h > 23 {
            return refuse("hour", "hour must be in range 0-23");
        }
        if m > 59 {
            return refuse("minute", "minute must be in range 0-59");
        }
        i += 1;
    }
    assert(times@.skip(7) =~= Seq::<(u8, u8)>::empty());
    Ok(bytes_of(&encode_schedule(days, times)))
}

/// Law: a stream the library agrees to start has frames its parser takes —
/// at most 255 payload bytes, within the payload limit of a 258-byte frame
/// buffer — and lists at most 127 packet IDs.
pub proof fn lemma_accepted_stream_fits_frames<E>(model: RobotModel, ids: Seq<u8>, per_model: bool)
    requires
        spec_start_stream::<E>(model, ids, per_model) is Ok,
    ensures
        spec_stream_payload(ids) matches Ok(n) && n <= max_payload(258),
        ids.len() <= 127,
{
    lemma_stream_payload_bounds(ids);
}

/// Law: while a stream runs, every sensor query is refused with the same
/// error, before anything is sent.
pub proof fn lemma_queries_refused_while_streaming<E>(model: RobotModel, id: u8, ids: Seq<u8>)
    ensures
        spec_sensor_query_len::<E>(model, true, id) == Err::<nat, Error<E>>(streaming_error()),
        spec_query_list_check::<E>(model, true, ids) == Err::<nat, Error<E>>(streaming_error()),
{
}

/// The ID checks of a list pass exactly when each ID's check passes.
pub proof fn lemma_packet_ids_check_all(model: RobotModel, ids: Seq<u8>)
    ensures
        spec_packet_ids_check(model, ids) is Ok
            <==> forall|i: int| 0 <= i < ids.len() ==> (#[trigger] spec_packet_id_check(model, ids[i])) is Ok,
    decreases ids.len(),
{
    if ids.len() > 0 {
        let t = ids.skip(1);
        lemma_packet_ids_check_all(model, t);
        if forall|i: int| 0 <= i < ids.len() ==> (#[trigger] spec_packet_id_check(model, ids[i])) is Ok {
            assert forall|i: int| 0 <= i < t.len() implies (#[trigger] spec_packet_id_check(model, t[i])) is Ok by {
                assert(t[i] == ids[i + 1]);
                assert(spec_packet_id_check(model, ids[i + 1]) is Ok);
            }
        }
        if spec_packet_ids_check(model, ids) is Ok {
            assert forall|i: int| 0 <= i < ids.len() implies (#[trigger] spec_packet_id_check(model, ids[i])) is Ok by {
                if i > 0 {
                    assert(ids[i] == t[i - 1]);
                    assert(spec_packet_id_check(model, t[i - 1]) is Ok);
                }
            }
        }
    }
}

/// Law: a query-list request is accepted exactly when no stream runs, the
/// model supports the command, no ID repeats, every ID is available on the
/// model, every ID is known and there are at most 255 of them; the response
/// length is then the list's expected data length.
pub proof fn lemma_query_list_accepted<E>(model: RobotModel, streaming: bool, ids: Seq<u8>)
    ensures
        spec_query_list_check::<E>(model, streaming, ids) is Ok <==> {
            &&& !streaming
            &&& model.spec_supports_query_list()
            &&& ids.no_duplicates()
            &&& forall|i: int| 0 <= i < ids.len() ==> (#[trigger] spec_packet_id_check(model, ids[i])) is Ok
            &&& spec_expected_data_len(ids) is Ok
            &&& ids.len() <= 255
        },
        spec_query_list_check::<E>(model, streaming, ids) matches Ok(k) ==> spec_expected_data_len(ids) == Ok::<nat, ProtocolError>(k),
{
    lemma_packet_ids_check_all(model, ids);
}

/// The signed value of two big-endian bytes.
pub open spec fn signed_be(hi: u8, lo: u8) -> int {
    (if hi >= 128 { hi as int - 256 } else { hi as int }) * 256 + lo as int
}

/// Law: a per-wheel velocity command is refused exactly on Roomba 400; an
/// accepted one is five bytes: 145, then the right wheel's velocity, then
/// the left wheel's, each big-endian.
pub proof fn lemma_drive_direct_bytes<E>(model: RobotModel, right: VelocityMmPerSec, left: VelocityMmPerSec)
    ensures
        spec_drive_direct::<E>(model, right, left) is Ok <==> model != RobotModel::Roomba400,
        spec_drive_direct::<E>(model, right, left) matches Ok(b) ==> {
            &&& b.len() == 5
            &&& b[0] == 145
            &&& signed_be(b[1], b[2]) == right@ as int
            &&& signed_be(b[3], b[4]) == left@ as int
        },
{
    lemma_opcode_values();
    lemma_i16_be_round_trip(right@);
    lemma_i16_be_round_trip(left@);
    lemma_signed_be(right@);
    lemma_signed_be(left@);
}

/// Law: a per-wheel PWM command is accepted exactly on Create 2; it is five
/// bytes: 146, then the right wheel's PWM, then the left wheel's, each big-endian.
pub proof fn lemma_drive_pwm_bytes<E>(model: RobotModel, right: WheelPwm, left: WheelPwm)
    ensures
        spec_drive_pwm::<E>(model, right, left) is Ok <==> model == RobotModel::Create2,
        spec_drive_pwm::<E>(model, right, left) matches Ok(b) ==> {
            &&& b.len() == 5
            &&& b[0] == 146
            &&& signed_be(b[1], b[2]) == right@ as int
            &&& signed_be(b[3], b[4]) == left@ as int
        },
{
    lemma_opcode_values();
    lemma_signed_be(right@);
    lemma_signed_be(left@);
}

proof fn lemma_signed_be(v: i16)
    ensures
        signed_be(i16_hi(v), i16_lo(v)) == v as int,
{
    lemma_i16_be_round_trip(v);
    let hi = i16_hi(v);
    let lo = i16_lo(v);
    let x = signed_be(hi, lo);
    assert(-32768 <= x <= 32767);
}

/// Law: a clock-setting command is accepted exactly on Create 2 with an
/// hour of at most 23 and a minute of at most 59, and is then the four
/// bytes 168, the day's code (Sunday 0 … Saturday 6), the hour, the minute.
pub proof fn lemma_date_bytes<E>(model: RobotModel, day: DayOfWeek, hour: u8, minute: u8)
    ensures
        spec_date::<E>(model, day, hour, minute) is Ok <==> (model == RobotModel::Create2 && hour <= 23 && minute <= 59),
        spec_date::<E>(model, day, hour, minute) matches Ok(b) ==> {
            &&& b.len() == 4
            &&& b[0] == 168
            &&& b[1] == match day {
                DayOfWeek::Sunday => 0u8,
                DayOfWeek::Monday => 1,
                DayOfWeek::Tuesday => 2,
                DayOfWeek::Wednesday => 3,
                DayOfWeek::Thursday => 4,
                DayOfWeek::Friday => 5,
                DayOfWeek::Saturday => 6,
            }
            &&& b[2] == hour
            &&& b[3] == minute
        },
{
    lemma_opcode_values();
}

/// Law: playing a song is accepted exactly for a slot the model has
/// (Create 2: 0–4; Create 1 and Roomba 400: 0–15), and is then the two
/// bytes 141 (PLAY) and the slot number.
pub proof fn lemma_play_song_bytes<E>(model: RobotModel, number: SongNumber)
    ensures
        spec_play_song::<E>(model, number) is Ok <==> number@ <= (if model == RobotModel::Create2 { 4u8 } else { 15u8 }),
        spec_play_song::<E>(model, number) matches Ok(b) ==> b == seq![141u8, number@],
{
    lemma_opcode_values();
}

} // verus!
