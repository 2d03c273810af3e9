//! Control-layer value types.

use create_oi::protocol::types::{ChargingState, IrChar, OiMode};
use create_oi::types::{ButtonBits, MotorBits, RobotModel, SongNote, SongNumber};

#[test]
fn song_note_accessors() {
    let note = SongNote::new(69, 32).unwrap();
    assert_eq!(note.midi_note(), 69);
    assert_eq!(note.duration_64ths(), 32);
}

#[test]
fn song_note_invalid_midi() {
    assert!(SongNote::new(30, 32).is_err());
    assert!(SongNote::new(128, 32).is_err());
    // Boundary values
    assert!(SongNote::new(31, 0).is_ok());
    assert!(SongNote::new(127, 255).is_ok());
}

#[test]
fn song_number_valid() {
    assert!(SongNumber::new(0).is_ok());
    assert!(SongNumber::new(4).is_ok());
    assert!(SongNumber::new(15).is_ok());
}

#[test]
fn song_number_invalid() {
    assert!(SongNumber::new(16).is_err());
}

#[test]
fn model_max_song_number() {
    assert_eq!(RobotModel::Create2.max_song_number(), 4);
    assert_eq!(RobotModel::Create1.max_song_number(), 15);
    assert_eq!(RobotModel::Roomba400.max_song_number(), 15);
}

#[test]
fn oi_mode_from_raw() {
    assert_eq!(OiMode::from_raw(0), OiMode::Off);
    assert_eq!(OiMode::from_raw(1), OiMode::Passive);
    assert_eq!(OiMode::from_raw(2), OiMode::Safe);
    assert_eq!(OiMode::from_raw(3), OiMode::Full);
    assert_eq!(OiMode::from_raw(99), OiMode::Unknown(99));
}

#[test]
fn charging_state_from_raw() {
    assert_eq!(ChargingState::from_raw(0), ChargingState::NotCharging);
    assert_eq!(
        ChargingState::from_raw(5),
        ChargingState::ChargingFaultCondition
    );
    assert_eq!(ChargingState::from_raw(42), ChargingState::Unknown(42));
}

#[test]
fn ir_char_from_raw() {
    assert_eq!(IrChar::from_raw(0), IrChar::NoSignal);
    assert_eq!(IrChar::from_raw(143), IrChar::SeekDock);
    assert_eq!(IrChar::from_raw(200), IrChar::Unknown(200));
}

#[test]
fn model_baud() {
    assert_eq!(RobotModel::Create2.baud(), 115_200);
    assert_eq!(RobotModel::Create1.baud(), 57_600);
}

#[test]
fn motor_bits_all_off() {
    assert_eq!(MotorBits::default().to_raw(), 0);
}

#[test]
fn motor_bits_all_on() {
    let bits = MotorBits {
        side_brush: true,
        vacuum: true,
        main_brush: true,
        main_brush_backward: false,
        side_brush_backward: false,
    };
    assert_eq!(bits.to_raw(), 0b00000111);
}

#[test]
fn motor_bits_reverse() {
    let bits = MotorBits {
        side_brush: true,
        vacuum: false,
        main_brush: true,
        main_brush_backward: true,
        side_brush_backward: true,
    };
    // bits: 0=side_brush(1), 1=vacuum(0), 2=main_brush(1),
    //       3=side_brush_backward(1), 4=main_brush_backward(1) → 0b11101 = 29
    assert_eq!(bits.to_raw(), 0b11101);
}

#[test]
fn motor_bits_side_brush_backward_is_bit3() {
    // OI spec §5.6: bit 3 = side brush direction
    let bits = MotorBits {
        side_brush_backward: true,
        ..Default::default()
    };
    assert_eq!(bits.to_raw(), 0b01000); // only bit 3 set = 8
}

#[test]
fn motor_bits_main_brush_backward_is_bit4() {
    // OI spec §5.6: bit 4 = main brush direction
    let bits = MotorBits {
        main_brush_backward: true,
        ..Default::default()
    };
    assert_eq!(bits.to_raw(), 0b10000); // only bit 4 set = 16
}

#[test]
fn button_bits_all_off() {
    assert_eq!(ButtonBits::default().to_raw(), 0);
}

#[test]
fn button_bits_clean_and_dock() {
    let bits = ButtonBits {
        clean: true,
        dock: true,
        ..Default::default()
    };
    assert_eq!(bits.to_raw(), 0b00000101);
}

#[test]
fn button_bits_all_on() {
    let bits = ButtonBits {
        clean: true,
        spot: true,
        dock: true,
        minute: true,
        hour: true,
        day: true,
        schedule: true,
        clock: true,
    };
    assert_eq!(bits.to_raw(), 0xFF);
}

#[test]
fn model_display() {
    assert_eq!(RobotModel::Create2.to_string(), "Create2");
    assert_eq!(RobotModel::Create1.to_string(), "Create1");
    assert_eq!(RobotModel::Roomba400.to_string(), "Roomba400");
}

#[test]
fn model_supports_drive_direct() {
    assert!(RobotModel::Create1.supports_drive_direct());
    assert!(RobotModel::Create2.supports_drive_direct());
    assert!(!RobotModel::Roomba400.supports_drive_direct());
}

#[test]
fn model_supports_individual_sensor_packets() {
    assert!(RobotModel::Create1.supports_individual_sensor_packets());
    assert!(RobotModel::Create2.supports_individual_sensor_packets());
    assert!(!RobotModel::Roomba400.supports_individual_sensor_packets());
}

#[test]
fn model_max_individual_sensor_packet_id() {
    assert_eq!(RobotModel::Create2.max_individual_sensor_packet_id(), 58);
    assert_eq!(RobotModel::Create1.max_individual_sensor_packet_id(), 42);
    assert_eq!(RobotModel::Roomba400.max_individual_sensor_packet_id(), 0);
}

#[test]
fn model_supports_query_list() {
    assert!(RobotModel::Create1.supports_query_list());
    assert!(RobotModel::Create2.supports_query_list());
    assert!(!RobotModel::Roomba400.supports_query_list());
}

#[test]
fn model_supports_group_packet() {
    // Groups 0-3: all models
    for g in 0..=3u8 {
        assert!(RobotModel::Roomba400.supports_group_packet(g), "group {g}");
        assert!(RobotModel::Create1.supports_group_packet(g), "group {g}");
        assert!(RobotModel::Create2.supports_group_packet(g), "group {g}");
    }
    // Groups 4-6: Create 1 and Create 2 only
    for g in 4..=6u8 {
        assert!(!RobotModel::Roomba400.supports_group_packet(g), "group {g}");
        assert!(RobotModel::Create1.supports_group_packet(g), "group {g}");
        assert!(RobotModel::Create2.supports_group_packet(g), "group {g}");
    }
    // Group 100: Create 2 only
    assert!(!RobotModel::Roomba400.supports_group_packet(100));
    assert!(!RobotModel::Create1.supports_group_packet(100));
    assert!(RobotModel::Create2.supports_group_packet(100));
    // Unknown group
    assert!(!RobotModel::Create2.supports_group_packet(7));
    assert!(!RobotModel::Create2.supports_group_packet(99));
}
