//! Wire-level value types.

use create_oi::protocol::types::{
    ChargingState, CleanMode, DayOfWeek, IrChar, OiMode, RadiusMm, VelocityMmPerSec, WheelPwm,
};


#[test]
fn day_of_week_round_trip() {
    for i in 0u8..=6 {
        let day = DayOfWeek::from_raw(i).expect("valid day index");
        assert_eq!(day.to_raw(), i);
        // TryFrom<u8> must agree with from_raw
        let day2 = DayOfWeek::try_from(i).expect("try_from valid");
        assert_eq!(day, day2);
    }
    assert!(DayOfWeek::from_raw(7).is_none());
    assert!(DayOfWeek::try_from(7u8).is_err());
}

#[test]
fn day_of_week_display() {
    assert_eq!(DayOfWeek::Sunday.to_string(), "Sunday");
    assert_eq!(DayOfWeek::Saturday.to_string(), "Saturday");
}

#[test]
fn oi_mode_display() {
    assert_eq!(OiMode::Off.to_string(), "Off");
    assert_eq!(OiMode::Full.to_string(), "Full");
    assert_eq!(OiMode::Unknown(42).to_string(), "Unknown(42)");
}

#[test]
fn charging_state_display() {
    assert_eq!(ChargingState::NotCharging.to_string(), "NotCharging");
    assert_eq!(ChargingState::Unknown(99).to_string(), "Unknown(99)");
}

#[test]
fn velocity_mm_per_sec_round_trip() {
    let v = VelocityMmPerSec::from_raw(300);
    assert_eq!(v.get(), 300);
    assert_eq!(VelocityMmPerSec::zero().get(), 0);
    assert_eq!(v.to_string(), "300 mm/s");
}

#[test]
fn radius_mm_special_values() {
    assert_eq!(RadiusMm::straight().get(), i16::MIN);
    assert_eq!(RadiusMm::turn_cw().get(), -1);
    assert_eq!(RadiusMm::turn_ccw().get(), 1);
    assert_eq!(RadiusMm::straight().to_string(), "straight");
    assert_eq!(RadiusMm::turn_cw().to_string(), "turn-cw");
    assert_eq!(RadiusMm::turn_ccw().to_string(), "turn-ccw");
    assert_eq!(RadiusMm::from_raw(500).to_string(), "500 mm");
}

#[test]
fn wheel_pwm_round_trip() {
    let p = WheelPwm::from_raw(-128);
    assert_eq!(p.get(), -128);
    assert_eq!(WheelPwm::stop().get(), 0);
    assert_eq!(p.to_string(), "PWM -128");
}

#[test]
fn velocity_mm_per_sec_try_from() {
    assert!(VelocityMmPerSec::try_from(500_i16).is_ok());
    assert!(VelocityMmPerSec::try_from(-500_i16).is_ok());
    assert!(VelocityMmPerSec::try_from(0_i16).is_ok());
    assert_eq!(VelocityMmPerSec::try_from(501_i16), Err(501));
    assert_eq!(VelocityMmPerSec::try_from(-501_i16), Err(-501));
    assert_eq!(VelocityMmPerSec::try_from(i16::MAX), Err(i16::MAX));
}

#[test]
fn radius_mm_try_from() {
    // Special sentinels are valid
    assert!(RadiusMm::try_from(i16::MIN).is_ok());
    assert!(RadiusMm::try_from(-1_i16).is_ok());
    assert!(RadiusMm::try_from(1_i16).is_ok());
    // Arc radii in range
    assert!(RadiusMm::try_from(500_i16).is_ok());
    assert!(RadiusMm::try_from(-2000_i16).is_ok());
    assert!(RadiusMm::try_from(2000_i16).is_ok());
    // Invalid values
    assert_eq!(RadiusMm::try_from(0_i16), Err(0));
    assert_eq!(RadiusMm::try_from(2001_i16), Err(2001));
    assert_eq!(RadiusMm::try_from(-2001_i16), Err(-2001));
    // i16::MAX is neither a sentinel nor in range
    assert!(RadiusMm::try_from(i16::MAX).is_err());
}

#[test]
fn wheel_pwm_try_from() {
    assert!(WheelPwm::try_from(255_i16).is_ok());
    assert!(WheelPwm::try_from(-255_i16).is_ok());
    assert!(WheelPwm::try_from(0_i16).is_ok());
    assert_eq!(WheelPwm::try_from(256_i16), Err(256));
    assert_eq!(WheelPwm::try_from(-256_i16), Err(-256));
}

// Round 34: IrChar predicates
#[test]
fn irchar_is_no_signal() {
    assert!(IrChar::NoSignal.is_no_signal());
    assert!(!IrChar::Left.is_no_signal());
    assert!(!IrChar::ForceField.is_no_signal());
}

#[test]
fn irchar_is_unknown() {
    assert!(IrChar::Unknown(42).is_unknown());
    assert!(!IrChar::NoSignal.is_unknown());
    assert!(!IrChar::SeekDock.is_unknown());
}

#[test]
fn irchar_is_remote_control() {
    // All RC directional codes and SeekDock
    for code in [
        IrChar::Left,
        IrChar::ForwardLeft,
        IrChar::CenterLeft,
        IrChar::CenterRight,
        IrChar::ForwardRight,
        IrChar::Right,
        IrChar::SeekDock,
    ] {
        assert!(
            code.is_remote_control(),
            "{code:?} should be remote control"
        );
    }
    // Dock beacon codes are not RC
    assert!(!IrChar::ForceField.is_remote_control());
    assert!(!IrChar::BuoyGreen.is_remote_control());
    assert!(!IrChar::NoSignal.is_remote_control());
}

#[test]
fn irchar_is_dock_beacon() {
    for code in [
        IrChar::ForceField,
        IrChar::BuoyGreen,
        IrChar::BuoyRed,
        IrChar::BuoyGreenAndRed,
        IrChar::BuoyGreenAndForceField,
        IrChar::BuoyRedAndForceField,
        IrChar::BuoyGreenRedAndForceField,
    ] {
        assert!(code.is_dock_beacon(), "{code:?} should be dock beacon");
    }
    // RC codes are not dock beacons
    assert!(!IrChar::Left.is_dock_beacon());
    assert!(!IrChar::SeekDock.is_dock_beacon());
    assert!(!IrChar::NoSignal.is_dock_beacon());
}

#[test]
fn irchar_includes_force_field() {
    assert!(IrChar::ForceField.includes_force_field());
    assert!(IrChar::BuoyGreenAndForceField.includes_force_field());
    assert!(IrChar::BuoyRedAndForceField.includes_force_field());
    assert!(IrChar::BuoyGreenRedAndForceField.includes_force_field());
    assert!(!IrChar::BuoyGreen.includes_force_field());
    assert!(!IrChar::BuoyRed.includes_force_field());
    assert!(!IrChar::SeekDock.includes_force_field());
    assert!(!IrChar::NoSignal.includes_force_field());
}

// Round 34: CleanMode Display
#[test]
fn clean_mode_display() {
    assert_eq!(CleanMode::Default.to_string(), "Default");
    assert_eq!(CleanMode::Max.to_string(), "Max");
    assert_eq!(CleanMode::Spot.to_string(), "Spot");
}

#[test]
fn clean_mode_name() {
    assert_eq!(CleanMode::Default.name(), "Default");
    assert_eq!(CleanMode::Max.name(), "Max");
    assert_eq!(CleanMode::Spot.name(), "Spot");
}
