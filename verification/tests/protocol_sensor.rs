//! Sensor packet decoding.

use create_oi::protocol::error::ProtocolError;
use create_oi::protocol::opcode::{group_data_len, packet_info, sensor_packets};
use create_oi::protocol::sensor::{
    decode_i16, decode_u16, decode_u8, expected_data_len, has_duplicate_ids, SensorData,
};
use create_oi::protocol::types::OiMode;


#[test]
fn decode_u8_single_byte() {
    assert_eq!(decode_u8(&[42]).unwrap(), 42);
}

#[test]
fn decode_u8_empty() {
    assert!(decode_u8(&[]).is_err());
}

#[test]
fn decode_u16_big_endian() {
    assert_eq!(decode_u16(&[0x01, 0x00]).unwrap(), 256);
    assert_eq!(decode_u16(&[0xFF, 0xFF]).unwrap(), 65535);
}

#[test]
fn decode_i16_negative() {
    // -1 in big-endian is 0xFF, 0xFF
    assert_eq!(decode_i16(&[0xFF, 0xFF]).unwrap(), -1);
    // -256
    assert_eq!(decode_i16(&[0xFF, 0x00]).unwrap(), -256);
}

#[test]
fn decode_single_packet_wall() {
    let mut sd = SensorData::default();
    let consumed = sd.decode_packet(8, &[1]).unwrap();
    assert_eq!(consumed, 1);
    assert_eq!(sd.wall, Some(true));
}

#[test]
fn decode_single_packet_voltage() {
    let mut sd = SensorData::default();
    // 12500 mV = 0x30D4
    let consumed = sd.decode_packet(22, &[0x30, 0xD4]).unwrap();
    assert_eq!(consumed, 2);
    assert_eq!(sd.voltage, Some(12500));
}

#[test]
fn decode_packet_insufficient_data() {
    let mut sd = SensorData::default();
    let result = sd.decode_packet(22, &[0x30]); // needs 2 bytes
    assert!(result.is_err());
}

#[test]
fn decode_packet_unknown_id() {
    let mut sd = SensorData::default();
    let result = sd.decode_packet(200, &[0x00]);
    assert!(result.is_err());
}

#[test]
fn decode_packets_query_list() {
    let mut sd = SensorData::default();
    // Decode wall (id 8, 1 byte) + voltage (id 22, 2 bytes)
    let data = [1, 0x30, 0xD4];
    sd.decode_packets(&[8, 22], &data).unwrap();
    assert_eq!(sd.wall, Some(true));
    assert_eq!(sd.voltage, Some(12500));
}

#[test]
fn decode_packets_trailing_bytes_returns_error() {
    let mut sd = SensorData::default();
    // wall (id 8, 1 byte) + 2 extra bytes
    let data = [1, 0xFF, 0xFF];
    let err = sd.decode_packets(&[8], &data).unwrap_err();
    assert!(
        matches!(err, ProtocolError::UnexpectedData { trailing: 2 }),
        "expected UnexpectedData(2), got {err:?}"
    );
}

#[test]
fn decode_oi_mode() {
    let mut sd = SensorData::default();
    sd.decode_packet(35, &[2]).unwrap();
    assert_eq!(sd.oi_mode, Some(OiMode::Safe));
}

#[test]
fn decode_signed_current() {
    let mut sd = SensorData::default();
    // -500 mA = 0xFE0C
    sd.decode_packet(23, &[0xFE, 0x0C]).unwrap();
    assert_eq!(sd.current, Some(-500));
}

#[test]
fn decode_temperature() {
    let mut sd = SensorData::default();
    // -10°C = 0xF6 as i8
    sd.decode_packet(24, &[0xF6]).unwrap();
    assert_eq!(sd.temperature, Some(-10));
}

#[test]
fn expected_data_len_computes() {
    // wall(1) + voltage(2) + distance(2) = 5
    assert_eq!(expected_data_len(&[8, 22, 19]).unwrap(), 5);
}

#[test]
fn decode_all_individual_packets() {
    // Verify every packet in the packet table can be decoded without panic.
    let mut sd = SensorData::default();
    for p in sensor_packets() {
        let data: Vec<u8> = vec![0; p.len as usize];
        sd.decode_packet(p.id, &data).unwrap();
    }
}

#[test]
fn decode_distance_angle_fields() {
    let mut sd = SensorData::default();
    // distance = +500 mm = 0x01F4
    sd.decode_packet(19, &[0x01, 0xF4]).unwrap();
    assert_eq!(sd.distance_delta_mm, Some(500));
    // angle = -90 deg = 0xFFA6
    sd.decode_packet(20, &[0xFF, 0xA6]).unwrap();
    assert_eq!(sd.angle_delta_deg, Some(-90));
}

#[test]
fn stasis_detected_accessor() {
    let mut sd = SensorData::default();
    // bit 0 set → forward progress detected
    sd.decode_packet(58, &[0x01]).unwrap();
    assert_eq!(sd.is_making_forward_progress(), Some(true));
    // bit 0 clear → no forward progress
    sd.decode_packet(58, &[0x00]).unwrap();
    assert_eq!(sd.is_making_forward_progress(), Some(false));
    // reserved bits set but bit 0 clear
    sd.decode_packet(58, &[0xFE]).unwrap();
    assert_eq!(sd.is_making_forward_progress(), Some(false));
    // reserved bits + bit 0 → detected
    sd.decode_packet(58, &[0xFF]).unwrap();
    assert_eq!(sd.is_making_forward_progress(), Some(true));
}

#[test]
#[allow(deprecated)]
fn stasis_deprecated_alias_works() {
    let mut sd = SensorData::default();
    sd.decode_packet(58, &[0x01]).unwrap();
    assert_eq!(sd.is_stasis_detected(), Some(true));
}

// Round 14: has_duplicate_ids tests
#[test]
fn has_duplicate_ids_empty() {
    assert!(!has_duplicate_ids(&[]), "empty slice has no duplicates");
}

#[test]
fn has_duplicate_ids_no_dups() {
    assert!(
        !has_duplicate_ids(&[7, 8, 22, 19]),
        "distinct IDs have no duplicates"
    );
}

#[test]
fn has_duplicate_ids_adjacent_dup() {
    assert!(has_duplicate_ids(&[7, 7]), "adjacent duplicate detected");
}

#[test]
fn has_duplicate_ids_non_adjacent_dup() {
    assert!(
        has_duplicate_ids(&[7, 8, 22, 7]),
        "non-adjacent duplicate detected"
    );
}

#[test]
fn has_duplicate_ids_group_ids_not_same_as_individuals() {
    // Group ID 0 is different from individual IDs 7-26; not a duplicate
    assert!(
        !has_duplicate_ids(&[0, 7, 8]),
        "group ID 0 is not the same as ID 7 or 8"
    );
}

// Round 14: expected_data_len with group IDs
#[test]
fn expected_data_len_group_0() {
    // Group 0 = packets 7-26; total = sum of their individual lengths
    let len = expected_data_len(&[0]).unwrap();
    // Validate it's non-zero and matches group_data_len
    assert_eq!(Some(len), group_data_len(0));
}

#[test]
fn expected_data_len_group_100() {
    let len = expected_data_len(&[100]).unwrap();
    assert_eq!(Some(len), group_data_len(100));
}

#[test]
fn expected_data_len_mixed_individual_and_group() {
    // Mix a group ID with an individual packet
    let group_len = group_data_len(6).unwrap();
    let individual_len = packet_info(8).unwrap().len as usize;
    let total = expected_data_len(&[6, 8]).unwrap();
    assert_eq!(total, group_len + individual_len);
}

#[test]
fn expected_data_len_unknown_id_fails() {
    let result = expected_data_len(&[200]);
    assert!(result.is_err(), "unknown ID 200 should return Err");
}
