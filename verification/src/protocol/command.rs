//! Sans-IO command encoding.
//!
//! Each fixed-size command is returned as a byte array — zero allocation.
//! The caller passes these bytes to a transport for transmission.
//!
//! Variable-length commands (song, query_list, stream) have two variants:
//! - `encode_*_into(buf, ...)` — writes into a caller-provided buffer
//! - `encode_*(...)` — returns a `Vec<u8>`

use vstd::prelude::*;
use crate::protocol::error::ProtocolError;
use crate::protocol::opcode::Opcode;
use crate::protocol::sensor::be_i16;

verus! {

/// High byte of the big-endian two's-complement encoding of `v`.
pub open spec fn i16_hi(v: i16) -> u8 {
    ((if v < 0 { v as int + 65536 } else { v as int }) / 256) as u8
}

/// Low byte of the big-endian two's-complement encoding of `v`.
pub open spec fn i16_lo(v: i16) -> u8 {
    ((if v < 0 { v as int + 65536 } else { v as int }) % 256) as u8
}

/// The two's-complement byte of a signed byte.
pub open spec fn i8_byte(v: i8) -> u8 {
    (if v < 0 { v as int + 256 } else { v as int }) as u8
}

/// Decoding the big-endian bytes of a value gives the value back.
pub proof fn lemma_i16_be_round_trip(v: i16)
    ensures
        be_i16(i16_hi(v), i16_lo(v)) == v,
{
}

/// Big-endian bytes of an `i16`.
fn i16_be_bytes(v: i16) -> (r: (u8, u8))
    ensures
        r == (i16_hi(v), i16_lo(v)),
{
    let u: u32 = if v < 0 { (v as i32 + 65536) as u32 } else { v as u32 };
    ((u / 256) as u8, (u % 256) as u8)
}

/// Two's-complement byte of an `i8`.
fn i8_to_byte(v: i8) -> (b: u8)
    ensures
        b == i8_byte(v),
{
    if v < 0 { (v as i16 + 256) as u8 } else { v as u8 }
}

/// Start the OI. Transitions to Passive mode.
pub fn encode_start() -> (r: [u8; 1])
    ensures
        r@ == seq![Opcode::Start.spec_byte()],
{
    [Opcode::Start.byte()]
}

/// Reset the robot.
pub fn encode_reset() -> (r: [u8; 1])
    ensures
        r@ == seq![Opcode::Reset.spec_byte()],
{
    [Opcode::Reset.byte()]
}

/// Stop the OI. Transitions to Off mode.
pub fn encode_stop() -> (r: [u8; 1])
    ensures
        r@ == seq![Opcode::Stop.spec_byte()],
{
    [Opcode::Stop.byte()]
}

/// Enter Safe mode.
pub fn encode_safe() -> (r: [u8; 1])
    ensures
        r@ == seq![Opcode::Safe.spec_byte()],
{
    [Opcode::Safe.byte()]
}

/// Enter Full mode.
pub fn encode_full() -> (r: [u8; 1])
    ensures
        r@ == seq![Opcode::Full.spec_byte()],
{
    [Opcode::Full.byte()]
}

/// Enter Control mode (same as Safe for Create 2).
pub fn encode_control() -> (r: [u8; 1])
    ensures
        r@ == seq![Opcode::Control.spec_byte()],
{
    [Opcode::Control.byte()]
}

/// Power down the robot.
pub fn encode_power() -> (r: [u8; 1])
    ensures
        r@ == seq![Opcode::Power.spec_byte()],
{
    [Opcode::Power.byte()]
}

/// Start default cleaning.
pub fn encode_clean() -> (r: [u8; 1])
    ensures
        r@ == seq![Opcode::Clean.spec_byte()],
{
    [Opcode::Clean.byte()]
}

/// Start max cleaning.
pub fn encode_max() -> (r: [u8; 1])
    ensures
        r@ == seq![Opcode::Max.spec_byte()],
{
    [Opcode::Max.byte()]
}

/// Start spot cleaning.
pub fn encode_spot() -> (r: [u8; 1])
    ensures
        r@ == seq![Opcode::Spot.spec_byte()],
{
    [Opcode::Spot.byte()]
}

/// Seek dock.
pub fn encode_dock() -> (r: [u8; 1])
    ensures
        r@ == seq![Opcode::Dock.spec_byte()],
{
    [Opcode::Dock.byte()]
}

/// The 5-byte command `op` followed by the big-endian bytes of `a` and `b`.
pub open spec fn two_i16_command(op: Opcode, a: i16, b: i16) -> Seq<u8> {
    seq![op.spec_byte(), i16_hi(a), i16_lo(a), i16_hi(b), i16_lo(b)]
}

/// Drive with velocity (mm/s) and radius (mm).
/// Both values are signed 16-bit big-endian.
pub fn encode_drive(velocity_mm: i16, radius_mm: i16) -> (r: [u8; 5])
    ensures
        r@ == two_i16_command(Opcode::Drive, velocity_mm, radius_mm),
{
    let v = i16_be_bytes(velocity_mm);
    let rr = i16_be_bytes(radius_mm);
    [Opcode::Drive.byte(), v.0, v.1, rr.0, rr.1]
}

/// Drive wheels directly with individual velocities (mm/s).
pub fn encode_drive_direct(right_mm: i16, left_mm: i16) -> (r: [u8; 5])
    ensures
        r@ == two_i16_command(Opcode::DriveDirect, right_mm, left_mm),
{
    let rr = i16_be_bytes(right_mm);
    let l = i16_be_bytes(left_mm);
    [Opcode::DriveDirect.byte(), rr.0, rr.1, l.0, l.1]
}

/// Drive wheels with PWM values (-255 to 255).
pub fn encode_drive_pwm(right_pwm: i16, left_pwm: i16) -> (r: [u8; 5])
    ensures
        r@ == two_i16_command(Opcode::DrivePwm, right_pwm, left_pwm),
{
    let rr = i16_be_bytes(right_pwm);
    let l = i16_be_bytes(left_pwm);
    [Opcode::DrivePwm.byte(), rr.0, rr.1, l.0, l.1]
}

/// Set motor states (side brush, main brush, vacuum).
/// Bit 0: side brush, Bit 1: vacuum, Bit 2: main brush.
/// Bits 3,4: side/main brush direction.
pub fn encode_motors(bits: u8) -> (r: [u8; 2])
    ensures
        r@ == seq![Opcode::Motors.spec_byte(), bits],
{
    [Opcode::Motors.byte(), bits]
}

/// Set motor PWM values: main brush, side brush, vacuum.
/// Each is a signed byte (-127 to 127).
pub fn encode_motors_pwm(main_brush: i8, side_brush: i8, vacuum: i8) -> (r: [u8; 4])
    ensures
        r@ == seq![Opcode::MotorsPwm.spec_byte(), i8_byte(main_brush), i8_byte(side_brush), i8_byte(vacuum)],
{
    [Opcode::MotorsPwm.byte(), i8_to_byte(main_brush), i8_to_byte(side_brush), i8_to_byte(vacuum)]
}

/// Set LEDs.
/// `led_bits`: Bit 0=debris, 1=spot, 2=dock, 3=check_robot
/// `power_color`: 0=green, 255=red
/// `power_intensity`: 0=off, 255=full
pub fn encode_leds(led_bits: u8, power_color: u8, power_intensity: u8) -> (r: [u8; 4])
    ensures
        r@ == seq![Opcode::Leds.spec_byte(), led_bits, power_color, power_intensity],
{
    [Opcode::Leds.byte(), led_bits, power_color, power_intensity]
}

/// Set the 7-segment displays with ASCII characters.
pub fn encode_digit_leds_ascii(d3: u8, d2: u8, d1: u8, d0: u8) -> (r: [u8; 5])
    ensures
        r@ == seq![Opcode::DigitLedsAscii.spec_byte(), d3, d2, d1, d0],
{
    [Opcode::DigitLedsAscii.byte(), d3, d2, d1, d0]
}

/// Set the scheduling LEDs (opcode 162).
///
/// `day_leds`: bits 0–6 select the Sun–Sat day LEDs.
/// `schedule_leds`: bit 0=colon, bit 1=AM/PM indicator, bit 2=clock icon, bit 3=schedule icon.
pub fn encode_scheduling_leds(day_leds: u8, schedule_leds: u8) -> (r: [u8; 3])
    ensures
        r@ == seq![Opcode::SchedulingLeds.spec_byte(), day_leds, schedule_leds],
{
    [Opcode::SchedulingLeds.byte(), day_leds, schedule_leds]
}

/// Set raw 7-segment digit LEDs (opcode 163).
///
/// Each argument directly controls the 7 segments and decimal point of one digit:
/// bits 0–6 = segments A–G, bit 7 = decimal point. `d3` is the leftmost digit.
pub fn encode_digit_leds_raw(d3: u8, d2: u8, d1: u8, d0: u8) -> (r: [u8; 5])
    ensures
        r@ == seq![Opcode::DigitLedsRaw.spec_byte(), d3, d2, d1, d0],
{
    [Opcode::DigitLedsRaw.byte(), d3, d2, d1, d0]
}

/// Simulate button presses (opcode 165; Full mode only).
///
/// Bits: 0=clean, 1=spot, 2=dock, 3=minute, 4=hour, 5=day, 6=schedule, 7=clock.
pub fn encode_buttons(bits: u8) -> (r: [u8; 2])
    ensures
        r@ == seq![Opcode::Buttons.spec_byte(), bits],
{
    [Opcode::Buttons.byte(), bits]
}

/// The schedule command: opcode, day mask, then (hour, minute) for Sunday … Saturday.
pub open spec fn schedule_bytes(days: u8, times: Seq<(u8, u8)>) -> Seq<u8> {
    seq![Opcode::Schedule.spec_byte(), days] + Seq::new(14, |k: int| if k % 2 == 0 { times[k / 2].0 } else { times[k / 2].1 })
}

/// Set the weekly cleaning schedule (opcode 167).
///
/// `days`: bitmask of scheduled days (bit 0=Sunday, bit 6=Saturday).
/// `times`: (hour, minute) for each day of the week, starting with Sunday.
pub fn encode_schedule(days: u8, times: [(u8, u8); 7]) -> (r: [u8; 16])
    ensures
        r@ == schedule_bytes(days, times@),
{
    let r = [
        Opcode::Schedule.byte(), days,
        times[0].0, times[0].1, times[1].0, times[1].1, times[2].0, times[2].1,
        times[3].0, times[3].1, times[4].0, times[4].1, times[5].0, times[5].1,
        times[6].0, times[6].1,
    ];
    assert(r@ =~= schedule_bytes(days, times@));
    r
}

/// The note bytes of a song: each (note, duration) pair in order.
pub open spec fn note_bytes(notes: Seq<(u8, u8)>) -> Seq<u8> {
    Seq::new(2 * notes.len(), |k: int| if k % 2 == 0 { notes[k / 2].0 } else { notes[k / 2].1 })
}

/// The song-definition command.
pub open spec fn song_bytes(song_number: u8, notes: Seq<(u8, u8)>) -> Seq<u8> {
    seq![Opcode::Song.spec_byte(), song_number, notes.len() as u8] + note_bytes(notes)
}

/// Define a song. Writes into `buf` and returns the number of bytes written.
///
/// `song_number`: 0-3
/// `notes`: pairs of (MIDI note, duration_64ths). Maximum 16 notes per OI spec.
///
/// Required buffer size: `3 + notes.len() * 2`
pub fn encode_song_into(buf: &mut [u8], song_number: u8, notes: &[(u8, u8)]) -> (r: Result<usize, ProtocolError>)
    ensures
        notes@.len() > 16 ==> r == Err::<usize, ProtocolError>(ProtocolError::TooManyItems { max: 16, got: notes@.len() as usize })
            && final(buf)@ == old(buf)@,
        notes@.len() <= 16 && old(buf)@.len() < 3 + 2 * notes@.len() ==> r == Err::<usize, ProtocolError>(
            ProtocolError::BufferTooSmall { need: (3 + 2 * notes@.len()) as usize, got: old(buf)@.len() as usize })
            && final(buf)@ == old(buf)@,
        notes@.len() <= 16 && old(buf)@.len() >= 3 + 2 * notes@.len() ==> r == Ok::<usize, ProtocolError>((3 + 2 * notes@.len()) as usize)
            && final(buf)@ == song_bytes(song_number, notes@) + old(buf)@.skip((3 + 2 * notes@.len()) as int),
{
    if notes.len() > 16 {
        return Err(ProtocolError::TooManyItems { max: 16, got: notes.len() });
    }
    let need = 3 + notes.len() * 2;
    if buf.len() < need {
        return Err(ProtocolError::BufferTooSmall { need, got: buf.len() });
    }
    buf[0] = Opcode::Song.byte();
    buf[1] = song_number;
    buf[2] = notes.len() as u8;
    let mut i: usize = 0;
    while i < notes.len()
        invariant
            notes@.len() <= 16,
            need == 3 + 2 * notes@.len(),
            i <= notes@.len(),
            buf@.len() == old(buf)@.len(),
            buf@.len() >= need,
            buf@.subrange(0, 3 + 2 * i) =~= song_bytes(song_number, notes@).subrange(0, 3 + 2 * i),
            buf@.skip(need as int) =~= old(buf)@.skip(need as int),
        decreases notes@.len() - i,
    {
        let (note, duration) = notes[i];
        buf[3 + i * 2] = note;
        buf[3 + i * 2 + 1] = duration;
        i += 1;
        proof {
            let full = song_bytes(song_number, notes@);
            assert((2 * (i - 1)) / 2 == i - 1);
            assert((2 * (i - 1)) % 2 == 0);
            assert((2 * (i - 1) + 1) / 2 == i - 1);
            assert((2 * (i - 1) + 1) % 2 == 1);
            assert(full[3 + 2 * (i - 1)] == note);
            assert(full[3 + 2 * (i - 1) + 1] == duration);
        }
    }
    assert(buf@ =~= buf@.subrange(0, need as int) + buf@.skip(need as int));
    assert(song_bytes(song_number, notes@).len() == need);
    Ok(need)
}

/// Define a song. Returns a `Vec<u8>`.
///
/// `song_number`: 0-3
/// `notes`: pairs of (MIDI note, duration_64ths). Maximum 16 notes per OI spec.
pub fn encode_song(song_number: u8, notes: &[(u8, u8)]) -> (r: Result<Vec<u8>, ProtocolError>)
    ensures
        notes@.len() > 16 ==> r == Err::<Vec<u8>, ProtocolError>(ProtocolError::TooManyItems { max: 16, got: notes@.len() as usize }),
        notes@.len() <= 16 ==> (r matches Ok(v) && v@ == song_bytes(song_number, notes@)),
{
    if notes.len() > 16 {
        return Err(ProtocolError::TooManyItems { max: 16, got: notes.len() });
    }
    let mut buf: Vec<u8> = Vec::with_capacity(3 + notes.len() * 2);
    buf.push(Opcode::Song.byte());
    buf.push(song_number);
    buf.push(notes.len() as u8);
    let mut i: usize = 0;
    while i < notes.len()
        invariant
            notes@.len() <= 16,
            i <= notes@.len(),
            buf@ =~= song_bytes(song_number, notes@).subrange(0, 3 + 2 * i),
        decreases notes@.len() - i,
    {
        let (note, duration) = notes[i];
        buf.push(note);
        buf.push(duration);
        i += 1;
        assert(buf@ =~= song_bytes(song_number, notes@).subrange(0, 3 + 2 * i)) by {
            let ghost full = song_bytes(song_number, notes@);
            assert((2 * (i - 1)) / 2 == i - 1);
            assert((2 * (i - 1) + 1) / 2 == i - 1);
            assert(full[3 + 2 * (i - 1)] == notes@[i - 1].0);
            assert(full[3 + 2 * (i - 1) + 1] == notes@[i - 1].1);
        }
    }
    Ok(buf)
}

/// Play a previously defined song.
pub fn encode_play(song_number: u8) -> (r: [u8; 2])
    ensures
        r@ == seq![Opcode::Play.spec_byte(), song_number],
{
    [Opcode::Play.byte(), song_number]
}

/// Request a single sensor packet.
pub fn encode_sensors(packet_id: u8) -> (r: [u8; 2])
    ensures
        r@ == seq![Opcode::Sensors.spec_byte(), packet_id],
{
    [Opcode::Sensors.byte(), packet_id]
}

/// A counted packet-ID list command: opcode, count, then the IDs.
pub open spec fn id_list_bytes(op: Opcode, ids: Seq<u8>) -> Seq<u8> {
    seq![op.spec_byte(), ids.len() as u8] + ids
}

/// Write a counted packet-ID list command into `buf`.
fn encode_id_list_into(buf: &mut [u8], op: Opcode, packet_ids: &[u8]) -> (r: Result<usize, ProtocolError>)
    ensures
        packet_ids@.len() > 255 ==> r == Err::<usize, ProtocolError>(ProtocolError::TooManyItems { max: 255, got: packet_ids@.len() as usize })
            && final(buf)@ == old(buf)@,
        packet_ids@.len() <= 255 && old(buf)@.len() < 2 + packet_ids@.len() ==> r == Err::<usize, ProtocolError>(
            ProtocolError::BufferTooSmall { need: (2 + packet_ids@.len()) as usize, got: old(buf)@.len() as usize })
            && final(buf)@ == old(buf)@,
        packet_ids@.len() <= 255 && old(buf)@.len() >= 2 + packet_ids@.len() ==> r == Ok::<usize, ProtocolError>((2 + packet_ids@.len()) as usize)
            && final(buf)@ == id_list_bytes(op, packet_ids@) + old(buf)@.skip((2 + packet_ids@.len()) as int),
{
    if packet_ids.len() > 255 {
        return Err(ProtocolError::TooManyItems { max: 255, got: packet_ids.len() });
    }
    let need = 2 + packet_ids.len();
    if buf.len() < need {
        return Err(ProtocolError::BufferTooSmall { need, got: buf.len() });
    }
    buf[0] = op.byte();
    buf[1] = packet_ids.len() as u8;
    let mut i: usize = 0;
    while i < packet_ids.len()
        invariant
            packet_ids@.len() <= 255,
            need == 2 + packet_ids@.len(),
            i <= packet_ids@.len(),
            buf@.len() == old(buf)@.len(),
            buf@.len() >= need,
            buf@.subrange(0, 2 + i) =~= id_list_bytes(op, packet_ids@).subrange(0, 2 + i),
            buf@.skip(need as int) =~= old(buf)@.skip(need as int),
        decreases packet_ids@.len() - i,
    {
        buf[2 + i] = packet_ids[i];
        i += 1;
        assert(buf@.subrange(0, 2 + i) =~= id_list_bytes(op, packet_ids@).subrange(0, 2 + i)) by {
            assert forall|k: int| 0 <= k < 2 + i - 1 implies #[trigger] buf@[k] == buf@.subrange(0, 2 + i - 1)[k] by {}
        }
    }
    assert(buf@ =~= buf@.subrange(0, need as int) + buf@.skip(need as int));
    Ok(need)
}

/// A counted packet-ID list command as a `Vec`.
fn encode_id_list(op: Opcode, packet_ids: &[u8]) -> (r: Result<Vec<u8>, ProtocolError>)
    ensures
        packet_ids@.len() > 255 ==> r == Err::<Vec<u8>, ProtocolError>(ProtocolError::TooManyItems { max: 255, got: packet_ids@.len() as usize }),
        packet_ids@.len() <= 255 ==> (r matches Ok(v) && v@ == id_list_bytes(op, packet_ids@)),
{
    if packet_ids.len() > 255 {
        return Err(ProtocolError::TooManyItems { max: 255, got: packet_ids.len() });
    }
    let mut buf: Vec<u8> = Vec::with_capacity(2 + packet_ids.len());
    buf.push(op.byte());
    buf.push(packet_ids.len() as u8);
    let mut i: usize = 0;
    while i < packet_ids.len()
        invariant
            packet_ids@.len() <= 255,
            i <= packet_ids@.len(),
            buf@ =~= id_list_bytes(op, packet_ids@).subrange(0, 2 + i),
        decreases packet_ids@.len() - i,
    {
        buf.push(packet_ids[i]);
        i += 1;
    }
    Ok(buf)
}

/// Request multiple sensor packets (query list). Writes into `buf`.
///
/// Returns `TooManyItems` if `packet_ids.len() > 255`.
/// Required buffer size: `2 + packet_ids.len()`
pub fn encode_query_list_into(buf: &mut [u8], packet_ids: &[u8]) -> (r: Result<usize, ProtocolError>)
    ensures
        packet_ids@.len() > 255 ==> r == Err::<usize, ProtocolError>(ProtocolError::TooManyItems { max: 255, got: packet_ids@.len() as usize })
            && final(buf)@ == old(buf)@,
        packet_ids@.len() <= 255 && old(buf)@.len() < 2 + packet_ids@.len() ==> r == Err::<usize, ProtocolError>(
            ProtocolError::BufferTooSmall { need: (2 + packet_ids@.len()) as usize, got: old(buf)@.len() as usize })
            && final(buf)@ == old(buf)@,
        packet_ids@.len() <= 255 && old(buf)@.len() >= 2 + packet_ids@.len() ==> r == Ok::<usize, ProtocolError>((2 + packet_ids@.len()) as usize)
            && final(buf)@ == id_list_bytes(Opcode::QueryList, packet_ids@) + old(buf)@.skip((2 + packet_ids@.len()) as int),
{
    encode_id_list_into(buf, Opcode::QueryList, packet_ids)
}

/// Request multiple sensor packets (query list). Returns a `Vec<u8>`.
///
/// Returns `TooManyItems` if `packet_ids.len() > 255`.
pub fn encode_query_list(packet_ids: &[u8]) -> (r: Result<Vec<u8>, ProtocolError>)
    ensures
        packet_ids@.len() > 255 ==> r == Err::<Vec<u8>, ProtocolError>(ProtocolError::TooManyItems { max: 255, got: packet_ids@.len() as usize }),
        packet_ids@.len() <= 255 ==> (r matches Ok(v) && v@ == id_list_bytes(Opcode::QueryList, packet_ids@)),
{
    encode_id_list(Opcode::QueryList, packet_ids)
}

/// Start a sensor stream with the given packet IDs. Writes into `buf`.
///
/// Returns `TooManyItems` if `packet_ids.len() > 255`.
/// Required buffer size: `2 + packet_ids.len()`
pub fn encode_stream_into(buf: &mut [u8], packet_ids: &[u8]) -> (r: Result<usize, ProtocolError>)
    ensures
        packet_ids@.len() > 255 ==> r == Err::<usize, ProtocolError>(ProtocolError::TooManyItems { max: 255, got: packet_ids@.len() as usize })
            && final(buf)@ == old(buf)@,
        packet_ids@.len() <= 255 && old(buf)@.len() < 2 + packet_ids@.len() ==> r == Err::<usize, ProtocolError>(
            ProtocolError::BufferTooSmall { need: (2 + packet_ids@.len()) as usize, got: old(buf)@.len() as usize })
            && final(buf)@ == old(buf)@,
        packet_ids@.len() <= 255 && old(buf)@.len() >= 2 + packet_ids@.len() ==> r == Ok::<usize, ProtocolError>((2 + packet_ids@.len()) as usize)
            && final(buf)@ == id_list_bytes(Opcode::Stream, packet_ids@) + old(buf)@.skip((2 + packet_ids@.len()) as int),
{
    encode_id_list_into(buf, Opcode::Stream, packet_ids)
}

/// Start a sensor stream with the given packet IDs. Returns a `Vec<u8>`.
///
/// Returns `TooManyItems` if `packet_ids.len() > 255`.
pub fn encode_stream(packet_ids: &[u8]) -> (r: Result<Vec<u8>, ProtocolError>)
    ensures
        packet_ids@.len() > 255 ==> r == Err::<Vec<u8>, ProtocolError>(ProtocolError::TooManyItems { max: 255, got: packet_ids@.len() as usize }),
        packet_ids@.len() <= 255 ==> (r matches Ok(v) && v@ == id_list_bytes(Opcode::Stream, packet_ids@)),
{
    encode_id_list(Opcode::Stream, packet_ids)
}

/// Pause or resume the sensor stream.
pub fn encode_toggle_stream(enable: bool) -> (r: [u8; 2])
    ensures
        r@ == seq![Opcode::ToggleStream.spec_byte(), if enable { 1u8 } else { 0u8 }],
{
    [Opcode::ToggleStream.byte(), if enable { 1 } else { 0 }]
}

/// Set the date/time.
pub fn encode_date(day: u8, hour: u8, minute: u8) -> (r: [u8; 4])
    ensures
        r@ == seq![Opcode::Date.spec_byte(), day, hour, minute],
{
    [Opcode::Date.byte(), day, hour, minute]
}

/// Change baud rate.
pub fn encode_baud(baud_code: u8) -> (r: [u8; 2])
    ensures
        r@ == seq![Opcode::Baud.spec_byte(), baud_code],
{
    [Opcode::Baud.byte(), baud_code]
}

} // verus!
