//! Sans-IO sensor packet parsing.
//!
//! Each sensor value is decoded from raw big-endian bytes — zero allocation,
//! zero copy.

use vstd::prelude::*;
use vstd::slice::slice_subrange;
use crate::protocol::error::ProtocolError;
use crate::protocol::opcode::{
    group_data_len, group_packet_ids, is_individual_packet, lemma_data_len_bound,
    lemma_group_members_individual, packet_info, spec_data_len, spec_group_data_len,
    spec_group_ids, spec_info_len, spec_packet_info, spec_packet_len,
};
use crate::protocol::types::{ChargingState, IrChar, OiMode};

verus! {

// ---------------------------------------------------------------------------
// Raw sensor value decoding
// ---------------------------------------------------------------------------

/// The unsigned value of two big-endian bytes.
pub open spec fn be_u16(hi: u8, lo: u8) -> u16 {
    (hi as int * 256 + lo as int) as u16
}

/// The two's-complement value of two big-endian bytes.
pub open spec fn be_i16(hi: u8, lo: u8) -> i16 {
    ((if hi >= 128 { hi as int - 256 } else { hi as int }) * 256 + lo as int) as i16
}

/// The two's-complement value of one byte.
pub open spec fn as_i8(b: u8) -> i8 {
    (if b >= 128 { b as int - 256 } else { b as int }) as i8
}

/// Decode a single unsigned value.
pub fn decode_u8(data: &[u8]) -> (r: Result<u8, ProtocolError>)
    ensures
        data@.len() == 0 ==> r == Err::<u8, ProtocolError>(ProtocolError::InsufficientData { need: 1, got: 0 }),
        data@.len() > 0 ==> r == Ok::<u8, ProtocolError>(data@[0]),
{
    if data.len() == 0 {
        Err(ProtocolError::InsufficientData { need: 1, got: 0 })
    } else {
        Ok(data[0])
    }
}

/// Decode a signed 8-bit value.
pub fn decode_i8(data: &[u8]) -> (r: Result<i8, ProtocolError>)
    ensures
        data@.len() == 0 ==> r == Err::<i8, ProtocolError>(ProtocolError::InsufficientData { need: 1, got: 0 }),
        data@.len() > 0 ==> r == Ok::<i8, ProtocolError>(as_i8(data@[0])),
{
    if data.len() == 0 {
        Err(ProtocolError::InsufficientData { need: 1, got: 0 })
    } else {
        let b = data[0];
        if b >= 128 {
            Ok((b as i16 - 256) as i8)
        } else {
            Ok(b as i8)
        }
    }
}

/// Decode a 16-bit unsigned value from big-endian bytes.
pub fn decode_u16(data: &[u8]) -> (r: Result<u16, ProtocolError>)
    ensures
        data@.len() < 2 ==> r == Err::<u16, ProtocolError>(ProtocolError::InsufficientData { need: 2, got: data@.len() as usize }),
        data@.len() >= 2 ==> r == Ok::<u16, ProtocolError>(be_u16(data@[0], data@[1])),
{
    if data.len() < 2 {
        Err(ProtocolError::InsufficientData { need: 2, got: data.len() })
    } else {
        Ok((data[0] as u16) * 256 + data[1] as u16)
    }
}

/// Decode a 16-bit signed value from big-endian bytes.
pub fn decode_i16(data: &[u8]) -> (r: Result<i16, ProtocolError>)
    ensures
        data@.len() < 2 ==> r == Err::<i16, ProtocolError>(ProtocolError::InsufficientData { need: 2, got: data@.len() as usize }),
        data@.len() >= 2 ==> r == Ok::<i16, ProtocolError>(be_i16(data@[0], data@[1])),
{
    if data.len() < 2 {
        Err(ProtocolError::InsufficientData { need: 2, got: data.len() })
    } else {
        let hi: i32 = if data[0] >= 128 { data[0] as i32 - 256 } else { data[0] as i32 };
        Ok((hi * 256 + data[1] as i32) as i16)
    }
}

// ---------------------------------------------------------------------------
// Typed sensor values
// ---------------------------------------------------------------------------

/// Sensor data parsed from a query or stream response.
///
/// Fields are `Option` to support partial queries (not all packets may be present).
#[derive(Debug, Clone, Copy)]
pub struct SensorData {
    pub bumps_and_wheeldrops: Option<u8>,
    pub wall: Option<bool>,
    pub cliff_left: Option<bool>,
    pub cliff_front_left: Option<bool>,
    pub cliff_front_right: Option<bool>,
    pub cliff_right: Option<bool>,
    pub virtual_wall: Option<bool>,
    pub overcurrents: Option<u8>,
    pub dirt_detect_left: Option<u8>,
    pub dirt_detect_right: Option<u8>,
    pub ir_omni: Option<IrChar>,
    pub buttons: Option<u8>,
    /// Estimated distance traveled since this field was last read, in mm.
    ///
    /// This is a delta accumulator, not an absolute position: the robot resets
    /// its counter each time the packet is read. Positive = forward.
    pub distance_delta_mm: Option<i16>,
    /// Estimated heading change since this field was last read, in degrees.
    ///
    /// This is a delta accumulator, not an absolute heading. Positive = counter-clockwise.
    pub angle_delta_deg: Option<i16>,
    pub charging_state: Option<ChargingState>,
    pub voltage: Option<u16>,
    pub current: Option<i16>,
    pub temperature: Option<i8>,
    pub battery_charge: Option<u16>,
    pub battery_capacity: Option<u16>,
    pub wall_signal: Option<u16>,
    pub cliff_left_signal: Option<u16>,
    pub cliff_front_left_signal: Option<u16>,
    pub cliff_front_right_signal: Option<u16>,
    pub cliff_right_signal: Option<u16>,
    pub cargo_bay_digital_inputs: Option<u8>,
    pub cargo_bay_analog_signal: Option<u16>,
    pub charging_sources: Option<u8>,
    pub oi_mode: Option<OiMode>,
    pub song_number: Option<u8>,
    pub song_playing: Option<bool>,
    pub num_stream_packets: Option<u8>,
    pub requested_velocity: Option<i16>,
    pub requested_radius: Option<i16>,
    pub requested_right_velocity: Option<i16>,
    pub requested_left_velocity: Option<i16>,
    /// Left wheel encoder count (packet 43). Wraps modulo 65536.
    pub left_encoder_counts: Option<u16>,
    /// Right wheel encoder count (packet 44). Wraps modulo 65536.
    pub right_encoder_counts: Option<u16>,
    pub light_bumper: Option<u8>,
    pub light_bump_left_signal: Option<u16>,
    pub light_bump_front_left_signal: Option<u16>,
    pub light_bump_center_left_signal: Option<u16>,
    pub light_bump_center_right_signal: Option<u16>,
    pub light_bump_front_right_signal: Option<u16>,
    pub light_bump_right_signal: Option<u16>,
    pub ir_left: Option<IrChar>,
    pub ir_right: Option<IrChar>,
    pub left_motor_current: Option<i16>,
    pub right_motor_current: Option<i16>,
    pub main_brush_motor_current: Option<i16>,
    pub side_brush_motor_current: Option<i16>,
    pub stasis: Option<u8>,
}

/// Whether bit `mask` is set in an optional flag byte.
pub open spec fn bit_flag(b: Option<u8>, mask: u8) -> Option<bool> {
    match b {
        Some(v) => Some(v & mask != 0),
        None => None,
    }
}

impl SensorData {
    /// The sensor data with no packet decoded.
    pub open spec fn empty() -> SensorData {
        SensorData {
            bumps_and_wheeldrops: None,
            wall: None,
            cliff_left: None,
            cliff_front_left: None,
            cliff_front_right: None,
            cliff_right: None,
            virtual_wall: None,
            overcurrents: None,
            dirt_detect_left: None,
            dirt_detect_right: None,
            ir_omni: None,
            buttons: None,
            distance_delta_mm: None,
            angle_delta_deg: None,
            charging_state: None,
            voltage: None,
            current: None,
            temperature: None,
            battery_charge: None,
            battery_capacity: None,
            wall_signal: None,
            cliff_left_signal: None,
            cliff_front_left_signal: None,
            cliff_front_right_signal: None,
            cliff_right_signal: None,
            cargo_bay_digital_inputs: None,
            cargo_bay_analog_signal: None,
            charging_sources: None,
            oi_mode: None,
            song_number: None,
            song_playing: None,
            num_stream_packets: None,
            requested_velocity: None,
            requested_radius: None,
            requested_right_velocity: None,
            requested_left_velocity: None,
            left_encoder_counts: None,
            right_encoder_counts: None,
            light_bumper: None,
            light_bump_left_signal: None,
            light_bump_front_left_signal: None,
            light_bump_center_left_signal: None,
            light_bump_center_right_signal: None,
            light_bump_front_right_signal: None,
            light_bump_right_signal: None,
            ir_left: None,
            ir_right: None,
            left_motor_current: None,
            right_motor_current: None,
            main_brush_motor_current: None,
            side_brush_motor_current: None,
            stasis: None,
        }
    }

    /// The sensor data after storing individual packet `id`, whose value bytes start `d`.
    pub open spec fn spec_with_packet(self, id: u8, d: Seq<u8>) -> SensorData {
        if id == 7 { SensorData { bumps_and_wheeldrops: Some(d[0]), ..self } }
        else if id == 8 { SensorData { wall: Some(d[0] != 0), ..self } }
        else if id == 9 { SensorData { cliff_left: Some(d[0] != 0), ..self } }
        else if id == 10 { SensorData { cliff_front_left: Some(d[0] != 0), ..self } }
        else if id == 11 { SensorData { cliff_front_right: Some(d[0] != 0), ..self } }
        else if id == 12 { SensorData { cliff_right: Some(d[0] != 0), ..self } }
        else if id == 13 { SensorData { virtual_wall: Some(d[0] != 0), ..self } }
        else if id == 14 { SensorData { overcurrents: Some(d[0]), ..self } }
        else if id == 15 { SensorData { dirt_detect_left: Some(d[0]), ..self } }
        else if id == 16 { SensorData { dirt_detect_right: Some(d[0]), ..self } }
        else if id == 17 { SensorData { ir_omni: Some(IrChar::spec_from_raw(d[0])), ..self } }
        else if id == 18 { SensorData { buttons: Some(d[0]), ..self } }
        else if id == 19 { SensorData { distance_delta_mm: Some(be_i16(d[0], d[1])), ..self } }
        else if id == 20 { SensorData { angle_delta_deg: Some(be_i16(d[0], d[1])), ..self } }
        else if id == 21 { SensorData { charging_state: Some(ChargingState::spec_from_raw(d[0])), ..self } }
        else if id == 22 { SensorData { voltage: Some(be_u16(d[0], d[1])), ..self } }
        else if id == 23 { SensorData { current: Some(be_i16(d[0], d[1])), ..self } }
        else if id == 24 { SensorData { temperature: Some(as_i8(d[0])), ..self } }
        else if id == 25 { SensorData { battery_charge: Some(be_u16(d[0], d[1])), ..self } }
        else if id == 26 { SensorData { battery_capacity: Some(be_u16(d[0], d[1])), ..self } }
        else if id == 27 { SensorData { wall_signal: Some(be_u16(d[0], d[1])), ..self } }
        else if id == 28 { SensorData { cliff_left_signal: Some(be_u16(d[0], d[1])), ..self } }
        else if id == 29 { SensorData { cliff_front_left_signal: Some(be_u16(d[0], d[1])), ..self } }
        else if id == 30 { SensorData { cliff_front_right_signal: Some(be_u16(d[0], d[1])), ..self } }
        else if id == 31 { SensorData { cliff_right_signal: Some(be_u16(d[0], d[1])), ..self } }
        else if id == 32 { SensorData { cargo_bay_digital_inputs: Some(d[0]), ..self } }
        else if id == 33 { SensorData { cargo_bay_analog_signal: Some(be_u16(d[0], d[1])), ..self } }
        else if id == 34 { SensorData { charging_sources: Some(d[0]), ..self } }
        else if id == 35 { SensorData { oi_mode: Some(OiMode::spec_from_raw(d[0])), ..self } }
        else if id == 36 { SensorData { song_number: Some(d[0]), ..self } }
        else if id == 37 { SensorData { song_playing: Some(d[0] != 0), ..self } }
        else if id == 38 { SensorData { num_stream_packets: Some(d[0]), ..self } }
        else if id == 39 { SensorData { requested_velocity: Some(be_i16(d[0], d[1])), ..self } }
        else if id == 40 { SensorData { requested_radius: Some(be_i16(d[0], d[1])), ..self } }
        else if id == 41 { SensorData { requested_right_velocity: Some(be_i16(d[0], d[1])), ..self } }
        else if id == 42 { SensorData { requested_left_velocity: Some(be_i16(d[0], d[1])), ..self } }
        else if id == 43 { SensorData { left_encoder_counts: Some(be_u16(d[0], d[1])), ..self } }
        else if id == 44 { SensorData { right_encoder_counts: Some(be_u16(d[0], d[1])), ..self } }
        else if id == 45 { SensorData { light_bumper: Some(d[0]), ..self } }
        else if id == 46 { SensorData { light_bump_left_signal: Some(be_u16(d[0], d[1])), ..self } }
        else if id == 47 { SensorData { light_bump_front_left_signal: Some(be_u16(d[0], d[1])), ..self } }
        else if id == 48 { SensorData { light_bump_center_left_signal: Some(be_u16(d[0], d[1])), ..self } }
        else if id == 49 { SensorData { light_bump_center_right_signal: Some(be_u16(d[0], d[1])), ..self } }
        else if id == 50 { SensorData { light_bump_front_right_signal: Some(be_u16(d[0], d[1])), ..self } }
        else if id == 51 { SensorData { light_bump_right_signal: Some(be_u16(d[0], d[1])), ..self } }
        else if id == 52 { SensorData { ir_left: Some(IrChar::spec_from_raw(d[0])), ..self } }
        else if id == 53 { SensorData { ir_right: Some(IrChar::spec_from_raw(d[0])), ..self } }
        else if id == 54 { SensorData { left_motor_current: Some(be_i16(d[0], d[1])), ..self } }
        else if id == 55 { SensorData { right_motor_current: Some(be_i16(d[0], d[1])), ..self } }
        else if id == 56 { SensorData { main_brush_motor_current: Some(be_i16(d[0], d[1])), ..self } }
        else if id == 57 { SensorData { side_brush_motor_current: Some(be_i16(d[0], d[1])), ..self } }
        else if id == 58 { SensorData { stasis: Some(d[0]), ..self } }
        else { self }
    }

    /// Decode a single packet from `data` starting at offset 0,
    /// and store the result into the appropriate field.
    ///
    /// Returns the number of bytes consumed.
    pub fn decode_packet(&mut self, id: u8, data: &[u8]) -> (r: Result<usize, ProtocolError>)
        ensures
            (*final(self), r) == spec_decode_packet(*old(self), id, data@),
    {
        let info = match packet_info(id) {
            Some(info) => info,
            None => return Err(ProtocolError::UnknownPacketId(id)),
        };
        let len = info.len as usize;
        if data.len() < len {
            return Err(ProtocolError::InsufficientData { need: len, got: data.len() });
        }
        self.store_value(id, data);
        Ok(len)
    }

    /// Decode a sequence of packets (e.g., from a query list response).
    /// `ids` is the ordered list of packet IDs. `data` is the concatenated bytes.
    ///
    /// Group packet IDs (0-6, 100) are expanded to their constituent individual
    /// packet IDs before decoding; the robot always returns individual packet data
    /// in the same order.
    pub fn decode_packets(&mut self, ids: &[u8], data: &[u8]) -> (r: Result<(), ProtocolError>)
        ensures
            (*final(self), r) == spec_decode_packets(*old(self), ids@, data@),
    {
        let ghost sd0 = *self;
        let mut offset: usize = 0;
        let mut i: usize = 0;
        while i < ids.len()
            invariant
                sd0 == *old(self),
                i <= ids@.len(),
                offset <= data@.len(),
                (*self, Ok::<nat, ProtocolError>(offset as nat))
                    == spec_decode_seq(sd0, spec_expand_ids(ids@.take(i as int)), data@),
            decreases ids@.len() - i,
        {
            let id = ids[i];
            let ghost prefix = spec_expand_ids(ids@.take(i as int));
            let ghost rest = spec_expand_ids(ids@.skip(i as int + 1));
            proof {
                let whole = ids@.take(i as int + 1);
                assert(whole.drop_last() =~= ids@.take(i as int));
                assert(whole.last() == id);
                assert(spec_expand_ids(whole) == prefix + match spec_group_ids(id) {
                    Some(m) => m,
                    None => seq![id],
                });
                lemma_expand_concat(whole, ids@.skip(i as int + 1));
                assert(whole + ids@.skip(i as int + 1) =~= ids@);
                assert(spec_expand_ids(ids@) == spec_expand_ids(whole) + rest);
            }
            if let Some(members) = group_packet_ids(id) {
                proof { assert(spec_expand_ids(ids@) == prefix + members@ + rest); }
                let mut j: usize = 0;
                while j < members.len()
                    invariant
                        sd0 == *old(self),
                        spec_expand_ids(ids@) == prefix + members@ + rest,
                        j <= members@.len(),
                        offset <= data@.len(),
                        (*self, Ok::<nat, ProtocolError>(offset as nat))
                            == spec_decode_seq(sd0, prefix + members@.take(j as int), data@),
                    decreases members@.len() - j,
                {
                    let ghost cur = prefix + members@.take(j as int);
                    proof {
                        assert((prefix + members@.take(j as int + 1)).drop_last() =~= cur);
                    }
                    let consumed = match self.decode_packet(members[j], slice_subrange(data, offset, data.len())) {
                        Ok(n) => n,
                        Err(e) => {
                            proof {
                                let a = prefix + members@.take(j as int + 1);
                                let b = members@.skip(j as int + 1) + rest;
                                assert(data@.subrange(offset as int, data@.len() as int) =~= data@.skip(offset as int));
                                assert(a.drop_last() =~= cur);
                                assert(a.last() == members@[j as int]);
                                assert(spec_decode_seq(sd0, a, data@) == (*self, Err::<nat, ProtocolError>(e)));
                                lemma_decode_seq_err_stable(sd0, a, b, data@);
                                assert(members@ =~= members@.take(j as int + 1) + members@.skip(j as int + 1));
                                assert(a + b =~= spec_expand_ids(ids@));
                            }
                            return Err(e);
                        },
                    };
                    proof {
                        assert(data@.subrange(offset as int, data@.len() as int) =~= data@.skip(offset as int));
                    }
                    offset += consumed;
                    j += 1;
                }
                proof { assert(members@.take(members@.len() as int) =~= members@); }
            } else {
                proof {
                    assert((prefix + seq![id]).drop_last() =~= prefix);
                    assert(data@.subrange(offset as int, data@.len() as int) =~= data@.skip(offset as int));
                }
                let consumed = match self.decode_packet(id, slice_subrange(data, offset, data.len())) {
                    Ok(n) => n,
                    Err(e) => {
                        proof {
                            let a = prefix + seq![id];
                            assert(a.last() == id);
                            assert(spec_decode_seq(sd0, a, data@) == (*self, Err::<nat, ProtocolError>(e)));
                            lemma_decode_seq_err_stable(sd0, a, rest, data@);
                            assert(a + rest =~= spec_expand_ids(ids@));
                        }
                        return Err(e);
                    },
                };
                offset += consumed;
            }
            i += 1;
        }
        proof { assert(ids@.take(ids@.len() as int) =~= ids@); }
        if offset != data.len() {
            return Err(ProtocolError::UnexpectedData { trailing: data.len() - offset });
        }
        Ok(())
    }

    // Bumps and wheeldrops (packet 7)

    /// Returns `true` if the right bump sensor is active; `None` when the packet was not decoded.
    pub fn is_right_bump(&self) -> (r: Option<bool>)
        ensures
            r == bit_flag(self.bumps_and_wheeldrops, 0x01),
    {
        match self.bumps_and_wheeldrops {
            Some(b) => Some(b & 0x01 != 0),
            None => None,
        }
    }

    /// Returns `true` if the left bump sensor is active; `None` when the packet was not decoded.
    pub fn is_left_bump(&self) -> (r: Option<bool>)
        ensures
            r == bit_flag(self.bumps_and_wheeldrops, 0x02),
    {
        match self.bumps_and_wheeldrops {
            Some(b) => Some(b & 0x02 != 0),
            None => None,
        }
    }

    /// Returns `true` if the right wheel has dropped; `None` when the packet was not decoded.
    pub fn is_right_wheeldrop(&self) -> (r: Option<bool>)
        ensures
            r == bit_flag(self.bumps_and_wheeldrops, 0x04),
    {
        match self.bumps_and_wheeldrops {
            Some(b) => Some(b & 0x04 != 0),
            None => None,
        }
    }

    /// Returns `true` if the left wheel has dropped; `None` when the packet was not decoded.
    pub fn is_left_wheeldrop(&self) -> (r: Option<bool>)
        ensures
            r == bit_flag(self.bumps_and_wheeldrops, 0x08),
    {
        match self.bumps_and_wheeldrops {
            Some(b) => Some(b & 0x08 != 0),
            None => None,
        }
    }

    // Buttons (packet 18)

    /// Returns `true` if the Clean button is pressed; `None` when the packet was not decoded.
    pub fn is_button_clean(&self) -> (r: Option<bool>)
        ensures
            r == bit_flag(self.buttons, 0x01),
    {
        match self.buttons {
            Some(b) => Some(b & 0x01 != 0),
            None => None,
        }
    }

    /// Returns `true` if the Spot button is pressed; `None` when the packet was not decoded.
    pub fn is_button_spot(&self) -> (r: Option<bool>)
        ensures
            r == bit_flag(self.buttons, 0x02),
    {
        match self.buttons {
            Some(b) => Some(b & 0x02 != 0),
            None => None,
        }
    }

    /// Returns `true` if the Dock button is pressed; `None` when the packet was not decoded.
    pub fn is_button_dock(&self) -> (r: Option<bool>)
        ensures
            r == bit_flag(self.buttons, 0x04),
    {
        match self.buttons {
            Some(b) => Some(b & 0x04 != 0),
            None => None,
        }
    }

    /// Returns `true` if the Minute button is pressed; `None` when the packet was not decoded.
    pub fn is_button_minute(&self) -> (r: Option<bool>)
        ensures
            r == bit_flag(self.buttons, 0x08),
    {
        match self.buttons {
            Some(b) => Some(b & 0x08 != 0),
            None => None,
        }
    }

    /// Returns `true` if the Hour button is pressed; `None` when the packet was not decoded.
    pub fn is_button_hour(&self) -> (r: Option<bool>)
        ensures
            r == bit_flag(self.buttons, 0x10),
    {
        match self.buttons {
            Some(b) => Some(b & 0x10 != 0),
            None => None,
        }
    }

    /// Returns `true` if the Day button is pressed; `None` when the packet was not decoded.
    pub fn is_button_day(&self) -> (r: Option<bool>)
        ensures
            r == bit_flag(self.buttons, 0x20),
    {
        match self.buttons {
            Some(b) => Some(b & 0x20 != 0),
            None => None,
        }
    }

    /// Returns `true` if the Schedule button is pressed; `None` when the packet was not decoded.
    pub fn is_button_schedule(&self) -> (r: Option<bool>)
        ensures
            r == bit_flag(self.buttons, 0x40),
    {
        match self.buttons {
            Some(b) => Some(b & 0x40 != 0),
            None => None,
        }
    }

    /// Returns `true` if the Clock button is pressed; `None` when the packet was not decoded.
    pub fn is_button_clock(&self) -> (r: Option<bool>)
        ensures
            r == bit_flag(self.buttons, 0x80),
    {
        match self.buttons {
            Some(b) => Some(b & 0x80 != 0),
            None => None,
        }
    }

    // Overcurrents (packet 14)

    /// Returns `true` if the side brush motor is drawing excessive current; `None` when the packet was not decoded.
    pub fn is_overcurrent_side_brush(&self) -> (r: Option<bool>)
        ensures
            r == bit_flag(self.overcurrents, 0x01),
    {
        match self.overcurrents {
            Some(b) => Some(b & 0x01 != 0),
            None => None,
        }
    }

    /// Returns `true` if the main brush motor is drawing excessive current; `None` when the packet was not decoded.
    pub fn is_overcurrent_main_brush(&self) -> (r: Option<bool>)
        ensures
            r == bit_flag(self.overcurrents, 0x04),
    {
        match self.overcurrents {
            Some(b) => Some(b & 0x04 != 0),
            None => None,
        }
    }

    /// Returns `true` if the right wheel motor is drawing excessive current; `None` when the packet was not decoded.
    pub fn is_overcurrent_right_wheel(&self) -> (r: Option<bool>)
        ensures
            r == bit_flag(self.overcurrents, 0x08),
    {
        match self.overcurrents {
            Some(b) => Some(b & 0x08 != 0),
            None => None,
        }
    }

    /// Returns `true` if the left wheel motor is drawing excessive current; `None` when the packet was not decoded.
    pub fn is_overcurrent_left_wheel(&self) -> (r: Option<bool>)
        ensures
            r == bit_flag(self.overcurrents, 0x10),
    {
        match self.overcurrents {
            Some(b) => Some(b & 0x10 != 0),
            None => None,
        }
    }

    // Light bumper (packet 45)

    /// Returns `true` if the left light bumper is detecting an obstacle; `None` when the packet was not decoded.
    pub fn is_light_bump_left(&self) -> (r: Option<bool>)
        ensures
            r == bit_flag(self.light_bumper, 0x01),
    {
        match self.light_bumper {
            Some(b) => Some(b & 0x01 != 0),
            None => None,
        }
    }

    /// Returns `true` if the front-left light bumper is detecting an obstacle; `None` when the packet was not decoded.
    pub fn is_light_bump_front_left(&self) -> (r: Option<bool>)
        ensures
            r == bit_flag(self.light_bumper, 0x02),
    {
        match self.light_bumper {
            Some(b) => Some(b & 0x02 != 0),
            None => None,
        }
    }

    /// Returns `true` if the center-left light bumper is detecting an obstacle; `None` when the packet was not decoded.
    pub fn is_light_bump_center_left(&self) -> (r: Option<bool>)
        ensures
            r == bit_flag(self.light_bumper, 0x04),
    {
        match self.light_bumper {
            Some(b) => Some(b & 0x04 != 0),
            None => None,
        }
    }

    /// Returns `true` if the center-right light bumper is detecting an obstacle; `None` when the packet was not decoded.
    pub fn is_light_bump_center_right(&self) -> (r: Option<bool>)
        ensures
            r == bit_flag(self.light_bumper, 0x08),
    {
        match self.light_bumper {
            Some(b) => Some(b & 0x08 != 0),
            None => None,
        }
    }

    /// Returns `true` if the front-right light bumper is detecting an obstacle; `None` when the packet was not decoded.
    pub fn is_light_bump_front_right(&self) -> (r: Option<bool>)
        ensures
            r == bit_flag(self.light_bumper, 0x10),
    {
        match self.light_bumper {
            Some(b) => Some(b & 0x10 != 0),
            None => None,
        }
    }

    /// Returns `true` if the right light bumper is detecting an obstacle; `None` when the packet was not decoded.
    pub fn is_light_bump_right(&self) -> (r: Option<bool>)
        ensures
            r == bit_flag(self.light_bumper, 0x20),
    {
        match self.light_bumper {
            Some(b) => Some(b & 0x20 != 0),
            None => None,
        }
    }

    // Charging sources (packet 34)

    /// Returns `true` if the charging via the home base dock; `None` when the packet was not decoded.
    pub fn is_charging_home_base(&self) -> (r: Option<bool>)
        ensures
            r == bit_flag(self.charging_sources, 0x01),
    {
        match self.charging_sources {
            Some(b) => Some(b & 0x01 != 0),
            None => None,
        }
    }

    /// Returns `true` if the charging via the internal charger; `None` when the packet was not decoded.
    pub fn is_charging_internal(&self) -> (r: Option<bool>)
        ensures
            r == bit_flag(self.charging_sources, 0x02),
    {
        match self.charging_sources {
            Some(b) => Some(b & 0x02 != 0),
            None => None,
        }
    }

    // Stasis (packet 58)

    /// Returns `true` if the robot is making forward progress (Create 2).
    ///
    /// Packet 58 bit 0 = 1 means the robot is making forward progress; bits 1–7
    /// are reserved and ignored.
    pub fn is_making_forward_progress(&self) -> (r: Option<bool>)
        ensures
            r == bit_flag(self.stasis, 0x01),
    {
        match self.stasis {
            Some(b) => Some(b & 0x01 != 0),
            None => None,
        }
    }

    /// Returns `true` if the robot is making forward progress.
    ///
    /// The name is misleading — this returns `true` when the robot IS moving;
    /// use [`is_making_forward_progress`](Self::is_making_forward_progress) instead
    /// (this name is deprecated).
    pub fn is_stasis_detected(&self) -> (r: Option<bool>)
        ensures
            r == bit_flag(self.stasis, 0x01),
    {
        self.is_making_forward_progress()
    }

    /// Store the value of individual packet `id` read from the front of
    /// `data`. An ID outside 7–58 is unknown, and data shorter than the
    /// packet is refused; either way nothing is stored.
    fn store_value(&mut self, id: u8, data: &[u8]) -> (r: Result<(), ProtocolError>)
        ensures
            !is_individual_packet(id) ==> r == Err::<(), ProtocolError>(ProtocolError::UnknownPacketId(id))
                && *final(self) == *old(self),
            is_individual_packet(id) && data@.len() < spec_packet_len(id) ==> r == Err::<(), ProtocolError>(
                ProtocolError::InsufficientData { need: spec_packet_len(id) as usize, got: data@.len() as usize })
                && *final(self) == *old(self),
            is_individual_packet(id) && data@.len() >= spec_packet_len(id) ==> r is Ok
                && *final(self) == old(self).spec_with_packet(id, data@),
    {
        match id {
            7 => self.bumps_and_wheeldrops = Some(decode_u8(data)?),
            8 => self.wall = Some(decode_u8(data)? != 0),
            9 => self.cliff_left = Some(decode_u8(data)? != 0),
            10 => self.cliff_front_left = Some(decode_u8(data)? != 0),
            11 => self.cliff_front_right = Some(decode_u8(data)? != 0),
            12 => self.cliff_right = Some(decode_u8(data)? != 0),
            13 => self.virtual_wall = Some(decode_u8(data)? != 0),
            14 => self.overcurrents = Some(decode_u8(data)?),
            15 => self.dirt_detect_left = Some(decode_u8(data)?),
            16 => self.dirt_detect_right = Some(decode_u8(data)?),
            17 => self.ir_omni = Some(IrChar::from_raw(decode_u8(data)?)),
            18 => self.buttons = Some(decode_u8(data)?),
            19 => self.distance_delta_mm = Some(decode_i16(data)?),
            20 => self.angle_delta_deg = Some(decode_i16(data)?),
            21 => self.charging_state = Some(ChargingState::from_raw(decode_u8(data)?)),
            22 => self.voltage = Some(decode_u16(data)?),
            23 => self.current = Some(decode_i16(data)?),
            24 => self.temperature = Some(decode_i8(data)?),
            25 => self.battery_charge = Some(decode_u16(data)?),
            26 => self.battery_capacity = Some(decode_u16(data)?),
            27 => self.wall_signal = Some(decode_u16(data)?),
            28 => self.cliff_left_signal = Some(decode_u16(data)?),
            29 => self.cliff_front_left_signal = Some(decode_u16(data)?),
            30 => self.cliff_front_right_signal = Some(decode_u16(data)?),
            31 => self.cliff_right_signal = Some(decode_u16(data)?),
            32 => self.cargo_bay_digital_inputs = Some(decode_u8(data)?),
            33 => self.cargo_bay_analog_signal = Some(decode_u16(data)?),
            34 => self.charging_sources = Some(decode_u8(data)?),
            35 => self.oi_mode = Some(OiMode::from_raw(decode_u8(data)?)),
            36 => self.song_number = Some(decode_u8(data)?),
            37 => self.song_playing = Some(decode_u8(data)? != 0),
            38 => self.num_stream_packets = Some(decode_u8(data)?),
            39 => self.requested_velocity = Some(decode_i16(data)?),
            40 => self.requested_radius = Some(decode_i16(data)?),
            41 => self.requested_right_velocity = Some(decode_i16(data)?),
            42 => self.requested_left_velocity = Some(decode_i16(data)?),
            43 => self.left_encoder_counts = Some(decode_u16(data)?),
            44 => self.right_encoder_counts = Some(decode_u16(data)?),
            45 => self.light_bumper = Some(decode_u8(data)?),
            46 => self.light_bump_left_signal = Some(decode_u16(data)?),
            47 => self.light_bump_front_left_signal = Some(decode_u16(data)?),
            48 => self.light_bump_center_left_signal = Some(decode_u16(data)?),
            49 => self.light_bump_center_right_signal = Some(decode_u16(data)?),
            50 => self.light_bump_front_right_signal = Some(decode_u16(data)?),
            51 => self.light_bump_right_signal = Some(decode_u16(data)?),
            52 => self.ir_left = Some(IrChar::from_raw(decode_u8(data)?)),
            53 => self.ir_right = Some(IrChar::from_raw(decode_u8(data)?)),
            54 => self.left_motor_current = Some(decode_i16(data)?),
            55 => self.right_motor_current = Some(decode_i16(data)?),
            56 => self.main_brush_motor_current = Some(decode_i16(data)?),
            57 => self.side_brush_motor_current = Some(decode_i16(data)?),
            58 => self.stasis = Some(decode_u8(data)?),
            _ => return Err(ProtocolError::UnknownPacketId(id)),
        }
        Ok(())
    }
}

impl Default for SensorData {
    fn default() -> (r: Self)
        ensures
            r == SensorData::empty(),
    {
        SensorData {
            bumps_and_wheeldrops: None,
            wall: None,
            cliff_left: None,
            cliff_front_left: None,
            cliff_front_right: None,
            cliff_right: None,
            virtual_wall: None,
            overcurrents: None,
            dirt_detect_left: None,
            dirt_detect_right: None,
            ir_omni: None,
            buttons: None,
            distance_delta_mm: None,
            angle_delta_deg: None,
            charging_state: None,
            voltage: None,
            current: None,
            temperature: None,
            battery_charge: None,
            battery_capacity: None,
            wall_signal: None,
            cliff_left_signal: None,
            cliff_front_left_signal: None,
            cliff_front_right_signal: None,
            cliff_right_signal: None,
            cargo_bay_digital_inputs: None,
            cargo_bay_analog_signal: None,
            charging_sources: None,
            oi_mode: None,
            song_number: None,
            song_playing: None,
            num_stream_packets: None,
            requested_velocity: None,
            requested_radius: None,
            requested_right_velocity: None,
            requested_left_velocity: None,
            left_encoder_counts: None,
            right_encoder_counts: None,
            light_bumper: None,
            light_bump_left_signal: None,
            light_bump_front_left_signal: None,
            light_bump_center_left_signal: None,
            light_bump_center_right_signal: None,
            light_bump_front_right_signal: None,
            light_bump_right_signal: None,
            ir_left: None,
            ir_right: None,
            left_motor_current: None,
            right_motor_current: None,
            main_brush_motor_current: None,
            side_brush_motor_current: None,
            stasis: None,
        }
    }
}

/// Outcome of decoding individual packet `id` from bytes `data`: the updated
/// data and the number of bytes consumed, or the error (data unchanged).
pub open spec fn spec_decode_packet(sd: SensorData, id: u8, data: Seq<u8>) -> (SensorData, Result<usize, ProtocolError>) {
    match spec_packet_info(id) {
        None => (sd, Err(ProtocolError::UnknownPacketId(id))),
        Some(info) => if data.len() < info.len {
            (sd, Err(ProtocolError::InsufficientData { need: info.len as usize, got: data.len() as usize }))
        } else {
            (sd.spec_with_packet(id, data), Ok(info.len as usize))
        },
    }
}

/// A packet list with every group ID replaced by its member IDs.
pub open spec fn spec_expand_ids(ids: Seq<u8>) -> Seq<u8>
    decreases ids.len(),
{
    if ids.len() == 0 {
        Seq::empty()
    } else {
        spec_expand_ids(ids.drop_last()) + match spec_group_ids(ids.last()) {
            Some(members) => members,
            None => seq![ids.last()],
        }
    }
}

/// Decode the individual packets `ids` in order from the concatenated `data`:
/// the resulting data, and the total bytes consumed or the first error.
pub open spec fn spec_decode_seq(sd: SensorData, ids: Seq<u8>, data: Seq<u8>) -> (SensorData, Result<nat, ProtocolError>)
    decreases ids.len(),
{
    if ids.len() == 0 {
        (sd, Ok(0))
    } else {
        let (sd1, r1) = spec_decode_seq(sd, ids.drop_last(), data);
        match r1 {
            Err(e) => (sd1, Err(e)),
            Ok(off) => {
                let (sd2, r2) = spec_decode_packet(sd1, ids.last(), data.skip(off as int));
                match r2 {
                    Err(e) => (sd2, Err(e)),
                    Ok(n) => (sd2, Ok((off + n) as nat)),
                }
            },
        }
    }
}

/// Decode a packet list (group IDs expanded) from `data`, which must be consumed exactly.
pub open spec fn spec_decode_packets(sd: SensorData, ids: Seq<u8>, data: Seq<u8>) -> (SensorData, Result<(), ProtocolError>) {
    let (sd1, r) = spec_decode_seq(sd, spec_expand_ids(ids), data);
    match r {
        Err(e) => (sd1, Err(e)),
        Ok(off) => if off != data.len() {
            (sd1, Err(ProtocolError::UnexpectedData { trailing: (data.len() - off) as usize }))
        } else {
            (sd1, Ok(()))
        },
    }
}

/// Expansion distributes over concatenation.
pub proof fn lemma_expand_concat(a: Seq<u8>, b: Seq<u8>)
    ensures
        spec_expand_ids(a + b) == spec_expand_ids(a) + spec_expand_ids(b),
    decreases b.len(),
{
    if b.len() == 0 {
        assert(a + b =~= a);
        assert(spec_expand_ids(a) + spec_expand_ids(b) =~= spec_expand_ids(a));
    } else {
        lemma_expand_concat(a, b.drop_last());
        assert((a + b).drop_last() =~= a + b.drop_last());
        assert(spec_expand_ids(a + b) =~= spec_expand_ids(a) + spec_expand_ids(b));
    }
}

/// Once decoding a prefix has failed, decoding any extension fails the same way.
pub proof fn lemma_decode_seq_err_stable(sd: SensorData, a: Seq<u8>, b: Seq<u8>, data: Seq<u8>)
    requires
        spec_decode_seq(sd, a, data).1 is Err,
    ensures
        spec_decode_seq(sd, a + b, data) == spec_decode_seq(sd, a, data),
    decreases b.len(),
{
    if b.len() == 0 {
        assert(a + b =~= a);
    } else {
        lemma_decode_seq_err_stable(sd, a, b.drop_last(), data);
        assert((a + b).drop_last() =~= a + b.drop_last());
    }
}

/// Consumed bytes never exceed the available data.
pub proof fn lemma_decode_seq_offset(sd: SensorData, ids: Seq<u8>, data: Seq<u8>)
    ensures
        spec_decode_seq(sd, ids, data).1 matches Ok(off) ==> off <= data.len(),
    decreases ids.len(),
{
    if ids.len() > 0 {
        lemma_decode_seq_offset(sd, ids.drop_last(), data);
    }
}

/// Total expected response length for a packet list, or the first unknown ID.
///
/// Individual packets contribute their own length, group packets the total of
/// their members.
pub open spec fn spec_expected_data_len(ids: Seq<u8>) -> Result<nat, ProtocolError>
    decreases ids.len(),
{
    if ids.len() == 0 {
        Ok(0)
    } else {
        match spec_expected_data_len(ids.drop_last()) {
            Err(e) => Err(e),
            Ok(t) => match spec_packet_info(ids.last()) {
                Some(p) => Ok(t + p.len as nat),
                None => match spec_group_data_len(ids.last()) {
                    Some(l) => Ok(t + l),
                    None => Err(ProtocolError::UnknownPacketId(ids.last())),
                },
            },
        }
    }
}

/// Compute the expected total data length (bytes) for a list of packet IDs.
///
/// Both individual packet IDs (7-58) and group packet IDs (0-6, 100) are
/// accepted; group IDs are expanded to their constituent packets.
pub fn expected_data_len(ids: &[u8]) -> (r: Result<usize, ProtocolError>)
    requires
        104 * ids@.len() <= usize::MAX,
    ensures
        match spec_expected_data_len(ids@) {
            Ok(n) => r == Ok::<usize, ProtocolError>(n as usize) && n <= 104 * ids@.len(),
            Err(e) => r == Err::<usize, ProtocolError>(e),
        },
{
    let mut total: usize = 0;
    let mut i: usize = 0;
    while i < ids.len()
        invariant
            104 * ids@.len() <= usize::MAX,
            i <= ids@.len(),
            total <= 104 * i,
            spec_expected_data_len(ids@.take(i as int)) == Ok::<nat, ProtocolError>(total as nat),
        decreases ids@.len() - i,
    {
        proof {
            assert(ids@.take(i as int + 1).drop_last() =~= ids@.take(i as int));
            lemma_group_members_individual(ids@[i as int]);
        }
        match packet_info(ids[i]) {
            Some(p) => total += p.len as usize,
            None => match group_data_len(ids[i]) {
                Some(len) => total += len,
                None => {
                    proof { lemma_expected_err_stable(ids@.take(i as int + 1), ids@.skip(i as int + 1));
                        assert(ids@.take(i as int + 1) + ids@.skip(i as int + 1) =~= ids@); }
                    return Err(ProtocolError::UnknownPacketId(ids[i]));
                },
            },
        }
        i += 1;
    }
    proof { assert(ids@.take(ids@.len() as int) =~= ids@); }
    Ok(total)
}

/// Once a prefix of a packet list holds an unknown ID, the whole list fails with it.
pub proof fn lemma_expected_err_stable(a: Seq<u8>, b: Seq<u8>)
    requires
        spec_expected_data_len(a) is Err,
    ensures
        spec_expected_data_len(a + b) == spec_expected_data_len(a),
    decreases b.len(),
{
    if b.len() == 0 {
        assert(a + b =~= a);
    } else {
        lemma_expected_err_stable(a, b.drop_last());
        assert((a + b).drop_last() =~= a + b.drop_last());
    }
}

/// Returns `true` if `ids` contains any duplicate packet ID.
pub fn has_duplicate_ids(ids: &[u8]) -> (r: bool)
    ensures
        r == !ids@.no_duplicates(),
{
    let mut seen: Vec<bool> = Vec::new();
    let mut k: usize = 0;
    while k < 256
        invariant
            k <= 256,
            seen@.len() == k,
            forall|v: int| 0 <= v < k ==> !seen@[v],
        decreases 256 - k,
    {
        seen.push(false);
        k += 1;
    }
    let mut i: usize = 0;
    while i < ids.len()
        invariant
            i <= ids@.len(),
            seen@.len() == 256,
            ids@.take(i as int).no_duplicates(),
            forall|v: u8| seen@[v as int] <==> ids@.take(i as int).contains(v),
        decreases ids@.len() - i,
    {
        let id = ids[i];
        proof {
            assert(ids@.take(i as int + 1) =~= ids@.take(i as int).push(id));
        }
        if seen[id as usize] {
            proof {
                let j = choose|j: int| 0 <= j < i && ids@.take(i as int)[j] == id;
                assert(ids@[j] == ids@[i as int]);
            }
            return true;
        }
        seen.set(id as usize, true);
        i += 1;
        proof {
            assert forall|v: u8| seen@[v as int] <==> ids@.take(i as int).contains(v) by {
                if v == id {
                    assert(ids@.take(i as int)[i as int - 1] == id);
                } else if ids@.take(i as int).contains(v) {
                    let j = choose|j: int| 0 <= j < i && ids@.take(i as int)[j] == v;
                    assert(ids@.take(i as int - 1)[j] == v);
                }
            }
        }
    }
    proof { assert(ids@.take(ids@.len() as int) =~= ids@); }
    false
}

/// A packet-ID list without duplicates has at most 256 entries.
pub proof fn lemma_distinct_ids_at_most_256(ids: Seq<u8>)
    requires
        ids.no_duplicates(),
    ensures
        ids.len() <= 256,
{
    let t = ids.map_values(|b: u8| b as int);
    assert(t.no_duplicates()) by {
        assert forall|i: int, j: int| 0 <= i < t.len() && 0 <= j < t.len() && i != j implies t[i] != t[j] by {
            assert(ids[i] != ids[j]);
        }
    }
    t.unique_seq_to_set();
    vstd::set_lib::lemma_int_range(0, 256);
    assert(t.to_set().subset_of(vstd::set_lib::set_int_range(0, 256))) by {
        assert forall|x: int| t.to_set().contains(x) implies vstd::set_lib::set_int_range(0, 256).contains(x) by {
            assert(t.contains(x));
            let i = choose|i: int| 0 <= i < t.len() && t[i] == x;
            assert(t[i] == ids[i] as int);
        }
    }
    vstd::set_lib::lemma_len_subset(t.to_set(), vstd::set_lib::set_int_range(0, 256));
}

/// Decoding a list of individual packets from enough bytes consumes exactly their data length.
pub proof fn lemma_decode_seq_individual(sd: SensorData, ids: Seq<u8>, data: Seq<u8>)
    requires
        forall|i: int| 0 <= i < ids.len() ==> #[trigger] is_individual_packet(ids[i]),
        spec_data_len(ids) <= data.len(),
    ensures
        spec_decode_seq(sd, ids, data).1 == Ok::<nat, ProtocolError>(spec_data_len(ids)),
    decreases ids.len(),
{
    if ids.len() > 0 {
        let front = ids.drop_last();
        assert forall|i: int| 0 <= i < front.len() implies #[trigger] is_individual_packet(front[i]) by {
            assert(front[i] == ids[i]);
        }
        assert(is_individual_packet(ids[ids.len() - 1]));
        lemma_decode_seq_individual(sd, front, data);
    }
}

/// A list whose expected length is known expands to individual packets of exactly that total length.
pub proof fn lemma_expected_len_expansion(ids: Seq<u8>)
    requires
        spec_expected_data_len(ids) is Ok,
    ensures
        forall|i: int| 0 <= i < spec_expand_ids(ids).len() ==> #[trigger] is_individual_packet(spec_expand_ids(ids)[i]),
        spec_expected_data_len(ids) == Ok::<nat, ProtocolError>(spec_data_len(spec_expand_ids(ids))),
    decreases ids.len(),
{
    if ids.len() > 0 {
        let front = ids.drop_last();
        let last = ids.last();
        lemma_expected_len_expansion(front);
        let ef = spec_expand_ids(front);
        let tail = match spec_group_ids(last) { Some(m) => m, None => seq![last] };
        lemma_group_members_individual(last);
        assert(spec_expand_ids(ids) == ef + tail);
        lemma_data_len_concat(ef, tail);
        assert forall|i: int| 0 <= i < (ef + tail).len() implies #[trigger] is_individual_packet((ef + tail)[i]) by {
            if i >= ef.len() {
                assert((ef + tail)[i] == tail[i - ef.len()]);
            }
        }
        if spec_group_ids(last) is None {
            assert(tail.drop_last() =~= Seq::<u8>::empty());
            assert(tail.last() == last);
            assert(spec_data_len(Seq::<u8>::empty()) == 0);
            assert(spec_data_len(tail) == spec_info_len(last));
            assert(spec_packet_info(last) is Some);
        } else {
            assert(spec_packet_info(last) is None);
            assert(spec_group_data_len(last) == Some(spec_data_len(tail)));
        }
        assert(spec_expected_data_len(ids) == Ok::<nat, ProtocolError>(spec_data_len(ef) + spec_data_len(tail)));
    }
}

/// Data length distributes over concatenation.
pub proof fn lemma_data_len_concat(a: Seq<u8>, b: Seq<u8>)
    ensures
        spec_data_len(a + b) == spec_data_len(a) + spec_data_len(b),
    decreases b.len(),
{
    if b.len() == 0 {
        assert(a + b =~= a);
    } else {
        lemma_data_len_concat(a, b.drop_last());
        assert((a + b).drop_last() =~= a + b.drop_last());
    }
}

/// Law: when a packet list has a known expected response length `n`, any
/// response of exactly `n` bytes decodes without error and is consumed
/// completely — the length a query reads is the length its decoder needs.
pub proof fn lemma_expected_len_decodes(sd: SensorData, ids: Seq<u8>, data: Seq<u8>)
    requires
        spec_expected_data_len(ids) == Ok::<nat, ProtocolError>(data.len()),
    ensures
        spec_decode_packets(sd, ids, data).1 == Ok::<(), ProtocolError>(()),
{
    lemma_expected_len_expansion(ids);
    lemma_decode_seq_individual(sd, spec_expand_ids(ids), data);
}

/// A successful decoding consumed exactly the data length of the packets,
/// all of them individual.
proof fn lemma_decode_seq_ok(sd: SensorData, ids: Seq<u8>, data: Seq<u8>)
    requires
        spec_decode_seq(sd, ids, data).1 is Ok,
    ensures
        forall|i: int| 0 <= i < ids.len() ==> #[trigger] is_individual_packet(ids[i]),
        spec_decode_seq(sd, ids, data).1 == Ok::<nat, ProtocolError>(spec_data_len(ids)),
        spec_data_len(ids) <= data.len(),
    decreases ids.len(),
{
    if ids.len() > 0 {
        let front = ids.drop_last();
        lemma_decode_seq_ok(sd, front, data);
        assert forall|i: int| 0 <= i < ids.len() implies #[trigger] is_individual_packet(ids[i]) by {
            if i < front.len() {
                assert(front[i] == ids[i]);
            }
        }
    }
}

/// A list whose expansion holds individual packets only has a known length.
proof fn lemma_expansion_known(ids: Seq<u8>)
    requires
        forall|i: int| 0 <= i < spec_expand_ids(ids).len() ==> #[trigger] is_individual_packet(spec_expand_ids(ids)[i]),
    ensures
        spec_expected_data_len(ids) is Ok,
    decreases ids.len(),
{
    if ids.len() > 0 {
        let front = ids.drop_last();
        let last = ids.last();
        let ef = spec_expand_ids(front);
        let tail = match spec_group_ids(last) { Some(m) => m, None => seq![last] };
        assert(spec_expand_ids(ids) == ef + tail);
        assert forall|i: int| 0 <= i < ef.len() implies #[trigger] is_individual_packet(ef[i]) by {
            assert((ef + tail)[i] == ef[i]);
        }
        lemma_expansion_known(front);
        if spec_group_ids(last) is None {
            assert((ef + tail)[ef.len() as int] == last);
        }
    }
}

/// Law: a packet list decodes from `data` exactly when its expected length
/// is known and equals the data's length; data longer than a known
/// expected length `k` is refused with the `len - k` trailing bytes.
pub proof fn lemma_decode_packets_length(sd: SensorData, ids: Seq<u8>, data: Seq<u8>)
    ensures
        spec_decode_packets(sd, ids, data).1 is Ok <==> spec_expected_data_len(ids) == Ok::<nat, ProtocolError>(data.len()),
        match spec_expected_data_len(ids) {
            Ok(k) => data.len() > k ==> spec_decode_packets(sd, ids, data).1
                == Err::<(), ProtocolError>(ProtocolError::UnexpectedData { trailing: (data.len() - k) as usize }),
            Err(_) => true,
        },
{
    let e = spec_expand_ids(ids);
    if spec_decode_seq(sd, e, data).1 is Ok {
        lemma_decode_seq_ok(sd, e, data);
        lemma_expansion_known(ids);
        lemma_expected_len_expansion(ids);
    }
    if spec_expected_data_len(ids) is Ok {
        lemma_expected_len_expansion(ids);
        if spec_data_len(e) <= data.len() {
            lemma_decode_seq_individual(sd, e, data);
        }
    }
}

/// Whether every ID of `ids` is an individual or a group packet.
pub open spec fn all_known(ids: Seq<u8>) -> bool {
    forall|i: int| 0 <= i < ids.len() ==> (#[trigger] spec_packet_info(ids[i]) is Some || spec_group_data_len(ids[i]) is Some)
}

/// The lengths of the first `n` IDs of a list of known IDs, summed.
pub open spec fn sum_of_lengths(ids: Seq<u8>, n: nat) -> nat
    decreases n,
{
    if n == 0 {
        0
    } else {
        sum_of_lengths(ids, (n - 1) as nat) + match spec_packet_info(ids[n - 1]) {
            Some(p) => p.len as nat,
            None => match spec_group_data_len(ids[n - 1]) {
                Some(l) => l,
                None => 0,
            },
        }
    }
}

/// Law: the expected length of a list of known IDs is the sum of their
/// lengths (a group counts its members' total); otherwise it is the error of
/// the first unknown ID.
pub proof fn lemma_expected_len_cases(ids: Seq<u8>)
    ensures
        all_known(ids) ==> spec_expected_data_len(ids) == Ok::<nat, ProtocolError>(sum_of_lengths(ids, ids.len())),
        !all_known(ids) ==> exists|j: int| 0 <= j < ids.len()
            && spec_packet_info(ids[j]) is None && spec_group_data_len(ids[j]) is None
            && all_known(ids.take(j))
            && spec_expected_data_len(ids) == Err::<nat, ProtocolError>(ProtocolError::UnknownPacketId(ids[j])),
    decreases ids.len(),
{
    if ids.len() > 0 {
        let front = ids.drop_last();
        lemma_expected_len_cases(front);
        assert forall|n: nat| n <= front.len() implies sum_of_lengths(front, n) == sum_of_lengths(ids, n) by {
            lemma_sum_prefix(front, ids, n);
        }
        let last = ids.len() - 1;
        if all_known(front) {
            if spec_packet_info(ids[last]) is None && spec_group_data_len(ids[last]) is None {
                assert(ids.take(last) =~= front);
                assert(!all_known(ids));
            } else {
                assert forall|i: int| 0 <= i < ids.len() implies (#[trigger] spec_packet_info(ids[i]) is Some || spec_group_data_len(ids[i]) is Some) by {
                    if i < last {
                        assert(front[i] == ids[i]);
                    }
                }
            }
        } else {
            let j = choose|j: int| 0 <= j < front.len()
                && spec_packet_info(front[j]) is None && spec_group_data_len(front[j]) is None
                && all_known(front.take(j))
                && spec_expected_data_len(front) == Err::<nat, ProtocolError>(ProtocolError::UnknownPacketId(front[j]));
            assert(front[j] == ids[j]);
            assert(front.take(j) =~= ids.take(j));
            assert(!all_known(ids)) by {
                assert(!(spec_packet_info(ids[j]) is Some || spec_group_data_len(ids[j]) is Some));
            }
        }
    }
}

proof fn lemma_sum_prefix(a: Seq<u8>, b: Seq<u8>, n: nat)
    requires
        n <= a.len(),
        n <= b.len(),
        forall|i: int| 0 <= i < n ==> a[i] == b[i],
    ensures
        sum_of_lengths(a, n) == sum_of_lengths(b, n),
    decreases n,
{
    if n > 0 {
        lemma_sum_prefix(a, b, (n - 1) as nat);
    }
}

/// Law: decoding individual packet `id` (7–58) from enough bytes consumes
/// its length and writes exactly the field the OI assigns to it — the
/// byte itself, a flag (nonzero), an enum code, or the big-endian value of
/// two bytes (unsigned or two's complement) — leaving every other field as
/// it was.
#[verifier::rlimit(50)]
pub proof fn lemma_packet_fields(sd: SensorData, id: u8, d: Seq<u8>)
    ensures
        id == 7 && d.len() >= 1 ==> ({
            let (r, res) = spec_decode_packet(sd, id, d);
            &&& res == Ok::<usize, ProtocolError>(1)
            &&& r.bumps_and_wheeldrops == Some(d[0])
            &&& SensorData { bumps_and_wheeldrops: sd.bumps_and_wheeldrops, ..r } == sd
        }),
        id == 8 && d.len() >= 1 ==> ({
            let (r, res) = spec_decode_packet(sd, id, d);
            &&& res == Ok::<usize, ProtocolError>(1)
            &&& r.wall == Some(d[0] != 0)
            &&& SensorData { wall: sd.wall, ..r } == sd
        }),
        id == 9 && d.len() >= 1 ==> ({
            let (r, res) = spec_decode_packet(sd, id, d);
            &&& res == Ok::<usize, ProtocolError>(1)
            &&& r.cliff_left == Some(d[0] != 0)
            &&& SensorData { cliff_left: sd.cliff_left, ..r } == sd
        }),
        id == 10 && d.len() >= 1 ==> ({
            let (r, res) = spec_decode_packet(sd, id, d);
            &&& res == Ok::<usize, ProtocolError>(1)
            &&& r.cliff_front_left == Some(d[0] != 0)
            &&& SensorData { cliff_front_left: sd.cliff_front_left, ..r } == sd
        }),
        id == 11 && d.len() >= 1 ==> ({
            let (r, res) = spec_decode_packet(sd, id, d);
            &&& res == Ok::<usize, ProtocolError>(1)
            &&& r.cliff_front_right == Some(d[0] != 0)
            &&& SensorData { cliff_front_right: sd.cliff_front_right, ..r } == sd
        }),
        id == 12 && d.len() >= 1 ==> ({
            let (r, res) = spec_decode_packet(sd, id, d);
            &&& res == Ok::<usize, ProtocolError>(1)
            &&& r.cliff_right == Some(d[0] != 0)
            &&& SensorData { cliff_right: sd.cliff_right, ..r } == sd
        }),
        id == 13 && d.len() >= 1 ==> ({
            let (r, res) = spec_decode_packet(sd, id, d);
            &&& res == Ok::<usize, ProtocolError>(1)
            &&& r.virtual_wall == Some(d[0] != 0)
            &&& SensorData { virtual_wall: sd.virtual_wall, ..r } == sd
        }),
        id == 14 && d.len() >= 1 ==> ({
            let (r, res) = spec_decode_packet(sd, id, d);
            &&& res == Ok::<usize, ProtocolError>(1)
            &&& r.overcurrents == Some(d[0])
            &&& SensorData { overcurrents: sd.overcurrents, ..r } == sd
        }),
        id == 15 && d.len() >= 1 ==> ({
            let (r, res) = spec_decode_packet(sd, id, d);
            &&& res == Ok::<usize, ProtocolError>(1)
            &&& r.dirt_detect_left == Some(d[0])
            &&& SensorData { dirt_detect_left: sd.dirt_detect_left, ..r } == sd
        }),
        id == 16 && d.len() >= 1 ==> ({
            let (r, res) = spec_decode_packet(sd, id, d);
            &&& res == Ok::<usize, ProtocolError>(1)
            &&& r.dirt_detect_right == Some(d[0])
            &&& SensorData { dirt_detect_right: sd.dirt_detect_right, ..r } == sd
        }),
        id == 17 && d.len() >= 1 ==> ({
            let (r, res) = spec_decode_packet(sd, id, d);
            &&& res == Ok::<usize, ProtocolError>(1)
            &&& r.ir_omni == Some(IrChar::spec_from_raw(d[0]))
            &&& SensorData { ir_omni: sd.ir_omni, ..r } == sd
        }),
        id == 18 && d.len() >= 1 ==> ({
            let (r, res) = spec_decode_packet(sd, id, d);
            &&& res == Ok::<usize, ProtocolError>(1)
            &&& r.buttons == Some(d[0])
            &&& SensorData { buttons: sd.buttons, ..r } == sd
        }),
        id == 19 && d.len() >= 2 ==> ({
            let (r, res) = spec_decode_packet(sd, id, d);
            &&& res == Ok::<usize, ProtocolError>(2)
            &&& r.distance_delta_mm matches Some(v) && v as int == (if d[0] >= 128 { d[0] as int - 256 } else { d[0] as int }) * 256 + d[1] as int
            &&& SensorData { distance_delta_mm: sd.distance_delta_mm, ..r } == sd
        }),
        id == 20 && d.len() >= 2 ==> ({
            let (r, res) = spec_decode_packet(sd, id, d);
            &&& res == Ok::<usize, ProtocolError>(2)
            &&& r.angle_delta_deg matches Some(v) && v as int == (if d[0] >= 128 { d[0] as int - 256 } else { d[0] as int }) * 256 + d[1] as int
            &&& SensorData { angle_delta_deg: sd.angle_delta_deg, ..r } == sd
        }),
        id == 21 && d.len() >= 1 ==> ({
            let (r, res) = spec_decode_packet(sd, id, d);
            &&& res == Ok::<usize, ProtocolError>(1)
            &&& r.charging_state == Some(ChargingState::spec_from_raw(d[0]))
            &&& SensorData { charging_state: sd.charging_state, ..r } == sd
        }),
        id == 22 && d.len() >= 2 ==> ({
            let (r, res) = spec_decode_packet(sd, id, d);
            &&& res == Ok::<usize, ProtocolError>(2)
            &&& r.voltage matches Some(v) && v as int == d[0] as int * 256 + d[1] as int
            &&& SensorData { voltage: sd.voltage, ..r } == sd
        }),
        id == 23 && d.len() >= 2 ==> ({
            let (r, res) = spec_decode_packet(sd, id, d);
            &&& res == Ok::<usize, ProtocolError>(2)
            &&& r.current matches Some(v) && v as int == (if d[0] >= 128 { d[0] as int - 256 } else { d[0] as int }) * 256 + d[1] as int
            &&& SensorData { current: sd.current, ..r } == sd
        }),
        id == 24 && d.len() >= 1 ==> ({
            let (r, res) = spec_decode_packet(sd, id, d);
            &&& res == Ok::<usize, ProtocolError>(1)
            &&& r.temperature matches Some(v) && v as int == (if d[0] >= 128 { d[0] as int - 256 } else { d[0] as int })
            &&& SensorData { temperature: sd.temperature, ..r } == sd
        }),
        id == 25 && d.len() >= 2 ==> ({
            let (r, res) = spec_decode_packet(sd, id, d);
            &&& res == Ok::<usize, ProtocolError>(2)
            &&& r.battery_charge matches Some(v) && v as int == d[0] as int * 256 + d[1] as int
            &&& SensorData { battery_charge: sd.battery_charge, ..r } == sd
        }),
        id == 26 && d.len() >= 2 ==> ({
            let (r, res) = spec_decode_packet(sd, id, d);
            &&& res == Ok::<usize, ProtocolError>(2)
            &&& r.battery_capacity matches Some(v) && v as int == d[0] as int * 256 + d[1] as int
            &&& SensorData { battery_capacity: sd.battery_capacity, ..r } == sd
        }),
        id == 27 && d.len() >= 2 ==> ({
            let (r, res) = spec_decode_packet(sd, id, d);
            &&& res == Ok::<usize, ProtocolError>(2)
            &&& r.wall_signal matches Some(v) && v as int == d[0] as int * 256 + d[1] as int
            &&& SensorData { wall_signal: sd.wall_signal, ..r } == sd
        }),
        id == 28 && d.len() >= 2 ==> ({
            let (r, res) = spec_decode_packet(sd, id, d);
            &&& res == Ok::<usize, ProtocolError>(2)
            &&& r.cliff_left_signal matches Some(v) && v as int == d[0] as int * 256 + d[1] as int
            &&& SensorData { cliff_left_signal: sd.cliff_left_signal, ..r } == sd
        }),
        id == 29 && d.len() >= 2 ==> ({
            let (r, res) = spec_decode_packet(sd, id, d);
            &&& res == Ok::<usize, ProtocolError>(2)
            &&& r.cliff_front_left_signal matches Some(v) && v as int == d[0] as int * 256 + d[1] as int
            &&& SensorData { cliff_front_left_signal: sd.cliff_front_left_signal, ..r } == sd
        }),
        id == 30 && d.len() >= 2 ==> ({
            let (r, res) = spec_decode_packet(sd, id, d);
            &&& res == Ok::<usize, ProtocolError>(2)
            &&& r.cliff_front_right_signal matches Some(v) && v as int == d[0] as int * 256 + d[1] as int
            &&& SensorData { cliff_front_right_signal: sd.cliff_front_right_signal, ..r } == sd
        }),
        id == 31 && d.len() >= 2 ==> ({
            let (r, res) = spec_decode_packet(sd, id, d);
            &&& res == Ok::<usize, ProtocolError>(2)
            &&& r.cliff_right_signal matches Some(v) && v as int == d[0] as int * 256 + d[1] as int
            &&& SensorData { cliff_right_signal: sd.cliff_right_signal, ..r } == sd
        }),
        id == 32 && d.len() >= 1 ==> ({
            let (r, res) = spec_decode_packet(sd, id, d);
            &&& res == Ok::<usize, ProtocolError>(1)
            &&& r.cargo_bay_digital_inputs == Some(d[0])
            &&& SensorData { cargo_bay_digital_inputs: sd.cargo_bay_digital_inputs, ..r } == sd
        }),
        id == 33 && d.len() >= 2 ==> ({
            let (r, res) = spec_decode_packet(sd, id, d);
            &&& res == Ok::<usize, ProtocolError>(2)
            &&& r.cargo_bay_analog_signal matches Some(v) && v as int == d[0] as int * 256 + d[1] as int
            &&& SensorData { cargo_bay_analog_signal: sd.cargo_bay_analog_signal, ..r } == sd
        }),
        id == 34 && d.len() >= 1 ==> ({
            let (r, res) = spec_decode_packet(sd, id, d);
            &&& res == Ok::<usize, ProtocolError>(1)
            &&& r.charging_sources == Some(d[0])
            &&& SensorData { charging_sources: sd.charging_sources, ..r } == sd
        }),
        id == 35 && d.len() >= 1 ==> ({
            let (r, res) = spec_decode_packet(sd, id, d);
            &&& res == Ok::<usize, ProtocolError>(1)
            &&& r.oi_mode == Some(OiMode::spec_from_raw(d[0]))
            &&& SensorData { oi_mode: sd.oi_mode, ..r } == sd
        }),
        id == 36 && d.len() >= 1 ==> ({
            let (r, res) = spec_decode_packet(sd, id, d);
            &&& res == Ok::<usize, ProtocolError>(1)
            &&& r.song_number == Some(d[0])
            &&& SensorData { song_number: sd.song_number, ..r } == sd
        }),
        id == 37 && d.len() >= 1 ==> ({
            let (r, res) = spec_decode_packet(sd, id, d);
            &&& res == Ok::<usize, ProtocolError>(1)
            &&& r.song_playing == Some(d[0] != 0)
            &&& SensorData { song_playing: sd.song_playing, ..r } == sd
        }),
        id == 38 && d.len() >= 1 ==> ({
            let (r, res) = spec_decode_packet(sd, id, d);
            &&& res == Ok::<usize, ProtocolError>(1)
            &&& r.num_stream_packets == Some(d[0])
            &&& SensorData { num_stream_packets: sd.num_stream_packets, ..r } == sd
        }),
        id == 39 && d.len() >= 2 ==> ({
            let (r, res) = spec_decode_packet(sd, id, d);
            &&& res == Ok::<usize, ProtocolError>(2)
            &&& r.requested_velocity matches Some(v) && v as int == (if d[0] >= 128 { d[0] as int - 256 } else { d[0] as int }) * 256 + d[1] as int
            &&& SensorData { requested_velocity: sd.requested_velocity, ..r } == sd
        }),
        id == 40 && d.len() >= 2 ==> ({
            let (r, res) = spec_decode_packet(sd, id, d);
            &&& res == Ok::<usize, ProtocolError>(2)
            &&& r.requested_radius matches Some(v) && v as int == (if d[0] >= 128 { d[0] as int - 256 } else { d[0] as int }) * 256 + d[1] as int
            &&& SensorData { requested_radius: sd.requested_radius, ..r } == sd
        }),
        id == 41 && d.len() >= 2 ==> ({
            let (r, res) = spec_decode_packet(sd, id, d);
            &&& res == Ok::<usize, ProtocolError>(2)
            &&& r.requested_right_velocity matches Some(v) && v as int == (if d[0] >= 128 { d[0] as int - 256 } else { d[0] as int }) * 256 + d[1] as int
            &&& SensorData { requested_right_velocity: sd.requested_right_velocity, ..r } == sd
        }),
        id == 42 && d.len() >= 2 ==> ({
            let (r, res) = spec_decode_packet(sd, id, d);
            &&& res == Ok::<usize, ProtocolError>(2)
            &&& r.requested_left_velocity matches Some(v) && v as int == (if d[0] >= 128 { d[0] as int - 256 } else { d[0] as int }) * 256 + d[1] as int
            &&& SensorData { requested_left_velocity: sd.requested_left_velocity, ..r } == sd
        }),
        id == 43 && d.len() >= 2 ==> ({
            let (r, res) = spec_decode_packet(sd, id, d);
            &&& res == Ok::<usize, ProtocolError>(2)
            &&& r.left_encoder_counts matches Some(v) && v as int == d[0] as int * 256 + d[1] as int
            &&& SensorData { left_encoder_counts: sd.left_encoder_counts, ..r } == sd
        }),
        id == 44 && d.len() >= 2 ==> ({
            let (r, res) = spec_decode_packet(sd, id, d);
            &&& res == Ok::<usize, ProtocolError>(2)
            &&& r.right_encoder_counts matches Some(v) && v as int == d[0] as int * 256 + d[1] as int
            &&& SensorData { right_encoder_counts: sd.right_encoder_counts, ..r } == sd
        }),
        id == 45 && d.len() >= 1 ==> ({
            let (r, res) = spec_decode_packet(sd, id, d);
            &&& res == Ok::<usize, ProtocolError>(1)
            &&& r.light_bumper == Some(d[0])
            &&& SensorData { light_bumper: sd.light_bumper, ..r } == sd
        }),
        id == 46 && d.len() >= 2 ==> ({
            let (r, res) = spec_decode_packet(sd, id, d);
            &&& res == Ok::<usize, ProtocolError>(2)
            &&& r.light_bump_left_signal matches Some(v) && v as int == d[0] as int * 256 + d[1] as int
            &&& SensorData { light_bump_left_signal: sd.light_bump_left_signal, ..r } == sd
        }),
        id == 47 && d.len() >= 2 ==> ({
            let (r, res) = spec_decode_packet(sd, id, d);
            &&& res == Ok::<usize, ProtocolError>(2)
            &&& r.light_bump_front_left_signal matches Some(v) && v as int == d[0] as int * 256 + d[1] as int
            &&& SensorData { light_bump_front_left_signal: sd.light_bump_front_left_signal, ..r } == sd
        }),
        id == 48 && d.len() >= 2 ==> ({
            let (r, res) = spec_decode_packet(sd, id, d);
            &&& res == Ok::<usize, ProtocolError>(2)
            &&& r.light_bump_center_left_signal matches Some(v) && v as int == d[0] as int * 256 + d[1] as int
            &&& SensorData { light_bump_center_left_signal: sd.light_bump_center_left_signal, ..r } == sd
        }),
        id == 49 && d.len() >= 2 ==> ({
            let (r, res) = spec_decode_packet(sd, id, d);
            &&& res == Ok::<usize, ProtocolError>(2)
            &&& r.light_bump_center_right_signal matches Some(v) && v as int == d[0] as int * 256 + d[1] as int
            &&& SensorData { light_bump_center_right_signal: sd.light_bump_center_right_signal, ..r } == sd
        }),
        id == 50 && d.len() >= 2 ==> ({
            let (r, res) = spec_decode_packet(sd, id, d);
            &&& res == Ok::<usize, ProtocolError>(2)
            &&& r.light_bump_front_right_signal matches Some(v) && v as int == d[0] as int * 256 + d[1] as int
            &&& SensorData { light_bump_front_right_signal: sd.light_bump_front_right_signal, ..r } == sd
        }),
        id == 51 && d.len() >= 2 ==> ({
            let (r, res) = spec_decode_packet(sd, id, d);
            &&& res == Ok::<usize, ProtocolError>(2)
            &&& r.light_bump_right_signal matches Some(v) && v as int == d[0] as int * 256 + d[1] as int
            &&& SensorData { light_bump_right_signal: sd.light_bump_right_signal, ..r } == sd
        }),
        id == 52 && d.len() >= 1 ==> ({
            let (r, res) = spec_decode_packet(sd, id, d);
            &&& res == Ok::<usize, ProtocolError>(1)
            &&& r.ir_left == Some(IrChar::spec_from_raw(d[0]))
            &&& SensorData { ir_left: sd.ir_left, ..r } == sd
        }),
        id == 53 && d.len() >= 1 ==> ({
            let (r, res) = spec_decode_packet(sd, id, d);
            &&& res == Ok::<usize, ProtocolError>(1)
            &&& r.ir_right == Some(IrChar::spec_from_raw(d[0]))
            &&& SensorData { ir_right: sd.ir_right, ..r } == sd
        }),
        id == 54 && d.len() >= 2 ==> ({
            let (r, res) = spec_decode_packet(sd, id, d);
            &&& res == Ok::<usize, ProtocolError>(2)
            &&& r.left_motor_current matches Some(v) && v as int == (if d[0] >= 128 { d[0] as int - 256 } else { d[0] as int }) * 256 + d[1] as int
            &&& SensorData { left_motor_current: sd.left_motor_current, ..r } == sd
        }),
        id == 55 && d.len() >= 2 ==> ({
            let (r, res) = spec_decode_packet(sd, id, d);
            &&& res == Ok::<usize, ProtocolError>(2)
            &&& r.right_motor_current matches Some(v) && v as int == (if d[0] >= 128 { d[0] as int - 256 } else { d[0] as int }) * 256 + d[1] as int
            &&& SensorData { right_motor_current: sd.right_motor_current, ..r } == sd
        }),
        id == 56 && d.len() >= 2 ==> ({
            let (r, res) = spec_decode_packet(sd, id, d);
            &&& res == Ok::<usize, ProtocolError>(2)
            &&& r.main_brush_motor_current matches Some(v) && v as int == (if d[0] >= 128 { d[0] as int - 256 } else { d[0] as int }) * 256 + d[1] as int
            &&& SensorData { main_brush_motor_current: sd.main_brush_motor_current, ..r } == sd
        }),
        id == 57 && d.len() >= 2 ==> ({
            let (r, res) = spec_decode_packet(sd, id, d);
            &&& res == Ok::<usize, ProtocolError>(2)
            &&& r.side_brush_motor_current matches Some(v) && v as int == (if d[0] >= 128 { d[0] as int - 256 } else { d[0] as int }) * 256 + d[1] as int
            &&& SensorData { side_brush_motor_current: sd.side_brush_motor_current, ..r } == sd
        }),
        id == 58 && d.len() >= 1 ==> ({
            let (r, res) = spec_decode_packet(sd, id, d);
            &&& res == Ok::<usize, ProtocolError>(1)
            &&& r.stasis == Some(d[0])
            &&& SensorData { stasis: sd.stasis, ..r } == sd
        }),
{
}

} // verus!
