//! Wire-level types parsed from or encoded into OI packets.
//!
//! These are raw protocol values, not validated physical quantities.

use vstd::prelude::*;
use vstd::std_specs::convert::TryFromSpecImpl;
use crate::text::{decimal, push_decimal, push_signed_decimal, signed_decimal, string_of};

verus! {

// ---------------------------------------------------------------------------
// Baud rate codes (opcode 129 argument)
// ---------------------------------------------------------------------------

/// OI baud rate code (argument to opcode 129 / BAUD).
///
/// After the robot receives the `BAUD` command it switches to the new rate.
/// The host must wait 100 ms and then reconfigure its serial connection
/// to the same rate before sending further commands.
///
/// The baud code table is the same for all robot models: codes 0–11 map to
/// 300–115200 bps inclusive, in declaration order.
#[derive(Debug, Clone, Copy, PartialEq, Eq, Structural)]
pub enum BaudRate {
    /// 300 bps
    Baud300,
    /// 600 bps
    Baud600,
    /// 1200 bps
    Baud1200,
    /// 2400 bps
    Baud2400,
    /// 4800 bps
    Baud4800,
    /// 9600 bps
    Baud9600,
    /// 14400 bps
    Baud14400,
    /// 19200 bps
    Baud19200,
    /// 28800 bps
    Baud28800,
    /// 38400 bps
    Baud38400,
    /// 57600 bps — default for Create 1 / Roomba 400
    Baud57600,
    /// 115200 bps — default for Create 2
    Baud115200,
}

impl BaudRate {
    /// The OI baud code (0–11) of this rate.
    pub open spec fn spec_code(self) -> u8 {
        match self {
            BaudRate::Baud300 => 0,
            BaudRate::Baud600 => 1,
            BaudRate::Baud1200 => 2,
            BaudRate::Baud2400 => 3,
            BaudRate::Baud4800 => 4,
            BaudRate::Baud9600 => 5,
            BaudRate::Baud14400 => 6,
            BaudRate::Baud19200 => 7,
            BaudRate::Baud28800 => 8,
            BaudRate::Baud38400 => 9,
            BaudRate::Baud57600 => 10,
            BaudRate::Baud115200 => 11,
        }
    }

    /// The bit rate, in bits per second.
    pub open spec fn spec_baud(self) -> u32 {
        match self {
            BaudRate::Baud300 => 300,
            BaudRate::Baud600 => 600,
            BaudRate::Baud1200 => 1200,
            BaudRate::Baud2400 => 2400,
            BaudRate::Baud4800 => 4800,
            BaudRate::Baud9600 => 9600,
            BaudRate::Baud14400 => 14400,
            BaudRate::Baud19200 => 19200,
            BaudRate::Baud28800 => 28800,
            BaudRate::Baud38400 => 38400,
            BaudRate::Baud57600 => 57600,
            BaudRate::Baud115200 => 115200,
        }
    }

    /// The OI baud code (0–11) of this rate.
    #[verifier::when_used_as_spec(spec_code)]
    pub fn code(self) -> (c: u8)
        ensures
            c == self.spec_code(),
    {
        match self {
            BaudRate::Baud300 => 0,
            BaudRate::Baud600 => 1,
            BaudRate::Baud1200 => 2,
            BaudRate::Baud2400 => 3,
            BaudRate::Baud4800 => 4,
            BaudRate::Baud9600 => 5,
            BaudRate::Baud14400 => 6,
            BaudRate::Baud19200 => 7,
            BaudRate::Baud28800 => 8,
            BaudRate::Baud38400 => 9,
            BaudRate::Baud57600 => 10,
            BaudRate::Baud115200 => 11,
        }
    }

    /// The baud rate as a `u32`.
    pub fn baud_u32(self) -> (b: u32)
        ensures
            b == self.spec_baud(),
    {
        match self {
            BaudRate::Baud300 => 300,
            BaudRate::Baud600 => 600,
            BaudRate::Baud1200 => 1200,
            BaudRate::Baud2400 => 2400,
            BaudRate::Baud4800 => 4800,
            BaudRate::Baud9600 => 9600,
            BaudRate::Baud14400 => 14400,
            BaudRate::Baud19200 => 19200,
            BaudRate::Baud28800 => 28800,
            BaudRate::Baud38400 => 38400,
            BaudRate::Baud57600 => 57600,
            BaudRate::Baud115200 => 115200,
        }
    }

    /// Decode a baud code byte. Returns `None` for values outside 0–11.
    pub fn from_code(code: u8) -> (r: Option<Self>)
        ensures
            r is Some <==> code <= 11,
            r matches Some(rate) ==> rate.spec_code() == code,
    {
        match code {
            0 => Some(BaudRate::Baud300),
            1 => Some(BaudRate::Baud600),
            2 => Some(BaudRate::Baud1200),
            3 => Some(BaudRate::Baud2400),
            4 => Some(BaudRate::Baud4800),
            5 => Some(BaudRate::Baud9600),
            6 => Some(BaudRate::Baud14400),
            7 => Some(BaudRate::Baud19200),
            8 => Some(BaudRate::Baud28800),
            9 => Some(BaudRate::Baud38400),
            10 => Some(BaudRate::Baud57600),
            11 => Some(BaudRate::Baud115200),
            _ => None,
        }
    }

    /// Human-readable rendering, e.g. `"57600 bps"`.
    pub fn to_string(&self) -> (s: String)
        ensures
            s@ == decimal(self.spec_baud() as nat) + " bps"@,
    {
        let mut s = String::new();
        push_decimal(&mut s, self.baud_u32() as u64);
        s.append(" bps");
        s
    }
}

/// Distinct rates have distinct codes, and decoding a rate's code gives the rate back.
pub proof fn lemma_baud_code_round_trip(rate: BaudRate, other: BaudRate)
    ensures
        rate.spec_code() <= 11,
        rate.spec_code() == other.spec_code() ==> rate == other,
        rate.spec_code() < other.spec_code() <==> rate.spec_baud() < other.spec_baud(),
{
}

// ---------------------------------------------------------------------------
// OI mode (runtime value from sensor data, packet 35)
// ---------------------------------------------------------------------------

/// The OI mode as reported by the robot's sensor data (packet 35).
#[derive(Debug, Clone, Copy, PartialEq, Eq, Structural)]
pub enum OiMode {
    Off,
    Passive,
    Safe,
    Full,
    Unknown(u8),
}

impl OiMode {
    /// The mode for a raw packet-35 byte.
    pub open spec fn spec_from_raw(v: u8) -> OiMode {
        if v == 0 { OiMode::Off }
        else if v == 1 { OiMode::Passive }
        else if v == 2 { OiMode::Safe }
        else if v == 3 { OiMode::Full }
        else { OiMode::Unknown(v) }
    }

    pub open spec fn spec_name(self) -> &'static str {
        match self {
            OiMode::Off => "Off",
            OiMode::Passive => "Passive",
            OiMode::Safe => "Safe",
            OiMode::Full => "Full",
            OiMode::Unknown(_) => "Unknown",
        }
    }

    /// The mode for a raw packet-35 byte.
    #[verifier::when_used_as_spec(spec_from_raw)]
    pub fn from_raw(v: u8) -> (m: Self)
        ensures
            m == Self::spec_from_raw(v),
    {
        match v {
            0 => OiMode::Off,
            1 => OiMode::Passive,
            2 => OiMode::Safe,
            3 => OiMode::Full,
            x => OiMode::Unknown(x),
        }
    }

    pub fn name(self) -> (s: &'static str)
        ensures
            s == self.spec_name(),
    {
        match self {
            OiMode::Off => "Off",
            OiMode::Passive => "Passive",
            OiMode::Safe => "Safe",
            OiMode::Full => "Full",
            OiMode::Unknown(_) => "Unknown",
        }
    }

    /// Human-readable rendering: the name, or `Unknown(<raw>)`.
    pub fn to_string(&self) -> (s: String)
        ensures
            s@ == match *self {
                OiMode::Unknown(x) => "Unknown("@ + decimal(x as nat) + ")"@,
                _ => self.spec_name()@,
            },
    {
        match *self {
            OiMode::Unknown(x) => {
                let mut s = string_of("Unknown(");
                push_decimal(&mut s, x as u64);
                s.append(")");
                s
            },
            _ => string_of(self.name()),
        }
    }
}

/// Every raw byte decodes to a mode that remembers it: the four defined
/// modes for 0–3, `Unknown(v)` otherwise.
pub proof fn lemma_oi_mode_from_raw_injective(a: u8, b: u8)
    ensures
        OiMode::spec_from_raw(a) == OiMode::spec_from_raw(b) ==> a == b,
        a > 3 <==> OiMode::spec_from_raw(a) is Unknown,
{
}

// ---------------------------------------------------------------------------
// Charging state (packet 21)
// ---------------------------------------------------------------------------

/// Battery charging state (packet 21).
#[derive(Debug, Clone, Copy, PartialEq, Eq, Structural)]
pub enum ChargingState {
    NotCharging,
    ReconditioningCharging,
    FullCharging,
    TrickleCharging,
    Waiting,
    ChargingFaultCondition,
    Unknown(u8),
}

impl ChargingState {
    /// The state for a raw packet-21 byte.
    pub open spec fn spec_from_raw(v: u8) -> ChargingState {
        if v == 0 { ChargingState::NotCharging }
        else if v == 1 { ChargingState::ReconditioningCharging }
        else if v == 2 { ChargingState::FullCharging }
        else if v == 3 { ChargingState::TrickleCharging }
        else if v == 4 { ChargingState::Waiting }
        else if v == 5 { ChargingState::ChargingFaultCondition }
        else { ChargingState::Unknown(v) }
    }

    pub open spec fn spec_name(self) -> &'static str {
        match self {
            ChargingState::NotCharging => "NotCharging",
            ChargingState::ReconditioningCharging => "ReconditioningCharging",
            ChargingState::FullCharging => "FullCharging",
            ChargingState::TrickleCharging => "TrickleCharging",
            ChargingState::Waiting => "Waiting",
            ChargingState::ChargingFaultCondition => "ChargingFaultCondition",
            ChargingState::Unknown(_) => "Unknown",
        }
    }

    /// The state for a raw packet-21 byte.
    #[verifier::when_used_as_spec(spec_from_raw)]
    pub fn from_raw(v: u8) -> (c: Self)
        ensures
            c == Self::spec_from_raw(v),
    {
        match v {
            0 => ChargingState::NotCharging,
            1 => ChargingState::ReconditioningCharging,
            2 => ChargingState::FullCharging,
            3 => ChargingState::TrickleCharging,
            4 => ChargingState::Waiting,
            5 => ChargingState::ChargingFaultCondition,
            x => ChargingState::Unknown(x),
        }
    }

    pub fn name(self) -> (s: &'static str)
        ensures
            s == self.spec_name(),
    {
        match self {
            ChargingState::NotCharging => "NotCharging",
            ChargingState::ReconditioningCharging => "ReconditioningCharging",
            ChargingState::FullCharging => "FullCharging",
            ChargingState::TrickleCharging => "TrickleCharging",
            ChargingState::Waiting => "Waiting",
            ChargingState::ChargingFaultCondition => "ChargingFaultCondition",
            ChargingState::Unknown(_) => "Unknown",
        }
    }

    /// Human-readable rendering: the name, or `Unknown(<raw>)`.
    pub fn to_string(&self) -> (s: String)
        ensures
            s@ == match *self {
                ChargingState::Unknown(x) => "Unknown("@ + decimal(x as nat) + ")"@,
                _ => self.spec_name()@,
            },
    {
        match *self {
            ChargingState::Unknown(x) => {
                let mut s = string_of("Unknown(");
                push_decimal(&mut s, x as u64);
                s.append(")");
                s
            },
            _ => string_of(self.name()),
        }
    }
}

// ---------------------------------------------------------------------------
// Clean mode
// ---------------------------------------------------------------------------

/// Cleaning mode command.
#[derive(Debug, Clone, Copy, PartialEq, Eq, Structural)]
pub enum CleanMode {
    Default,
    Max,
    Spot,
}

impl CleanMode {
    pub open spec fn spec_name(self) -> &'static str {
        match self {
            CleanMode::Default => "Default",
            CleanMode::Max => "Max",
            CleanMode::Spot => "Spot",
        }
    }

    /// Returns the human-readable name of this cleaning mode.
    pub fn name(self) -> (s: &'static str)
        ensures
            s == self.spec_name(),
    {
        match self {
            CleanMode::Default => "Default",
            CleanMode::Max => "Max",
            CleanMode::Spot => "Spot",
        }
    }

    /// Human-readable rendering (the name).
    pub fn to_string(&self) -> (s: String)
        ensures
            s@ == self.spec_name()@,
    {
        string_of(self.name())
    }
}

// ---------------------------------------------------------------------------
// Day of week
// ---------------------------------------------------------------------------

/// Day of week for the robot's internal clock.
#[derive(Debug, Clone, Copy, PartialEq, Eq, Structural)]
pub enum DayOfWeek {
    Sunday,
    Monday,
    Tuesday,
    Wednesday,
    Thursday,
    Friday,
    Saturday,
}

impl DayOfWeek {
    /// The day index: 0 = Sunday … 6 = Saturday.
    pub open spec fn spec_to_raw(self) -> u8 {
        match self {
            DayOfWeek::Sunday => 0,
            DayOfWeek::Monday => 1,
            DayOfWeek::Tuesday => 2,
            DayOfWeek::Wednesday => 3,
            DayOfWeek::Thursday => 4,
            DayOfWeek::Friday => 5,
            DayOfWeek::Saturday => 6,
        }
    }

    pub open spec fn spec_name(self) -> &'static str {
        match self {
            DayOfWeek::Sunday => "Sunday",
            DayOfWeek::Monday => "Monday",
            DayOfWeek::Tuesday => "Tuesday",
            DayOfWeek::Wednesday => "Wednesday",
            DayOfWeek::Thursday => "Thursday",
            DayOfWeek::Friday => "Friday",
            DayOfWeek::Saturday => "Saturday",
        }
    }

    /// The day index: 0 = Sunday … 6 = Saturday.
    #[verifier::when_used_as_spec(spec_to_raw)]
    pub fn to_raw(self) -> (v: u8)
        ensures
            v == self.spec_to_raw(),
    {
        match self {
            DayOfWeek::Sunday => 0,
            DayOfWeek::Monday => 1,
            DayOfWeek::Tuesday => 2,
            DayOfWeek::Wednesday => 3,
            DayOfWeek::Thursday => 4,
            DayOfWeek::Friday => 5,
            DayOfWeek::Saturday => 6,
        }
    }

    /// Convert a day index (0 = Sunday … 6 = Saturday) to a `DayOfWeek`.
    ///
    /// Returns `None` for values outside 0–6.
    pub fn from_raw(v: u8) -> (d: Option<Self>)
        ensures
            d is Some <==> v <= 6,
            d matches Some(day) ==> day.spec_to_raw() == v,
    {
        match v {
            0 => Some(DayOfWeek::Sunday),
            1 => Some(DayOfWeek::Monday),
            2 => Some(DayOfWeek::Tuesday),
            3 => Some(DayOfWeek::Wednesday),
            4 => Some(DayOfWeek::Thursday),
            5 => Some(DayOfWeek::Friday),
            6 => Some(DayOfWeek::Saturday),
            _ => None,
        }
    }

    pub fn name(self) -> (s: &'static str)
        ensures
            s == self.spec_name(),
    {
        match self {
            DayOfWeek::Sunday => "Sunday",
            DayOfWeek::Monday => "Monday",
            DayOfWeek::Tuesday => "Tuesday",
            DayOfWeek::Wednesday => "Wednesday",
            DayOfWeek::Thursday => "Thursday",
            DayOfWeek::Friday => "Friday",
            DayOfWeek::Saturday => "Saturday",
        }
    }

    /// Human-readable rendering (the name).
    pub fn to_string(&self) -> (s: String)
        ensures
            s@ == self.spec_name()@,
    {
        string_of(self.name())
    }
}

/// A day's index identifies the day, and lies in 0–6.
pub proof fn lemma_day_of_week_round_trip(a: DayOfWeek, b: DayOfWeek)
    ensures
        a.spec_to_raw() <= 6,
        a.spec_to_raw() == b.spec_to_raw() ==> a == b,
{
}

impl TryFrom<u8> for DayOfWeek {
    type Error = u8;

    /// Convert a day index (0 = Sunday … 6 = Saturday) to a `DayOfWeek`.
    ///
    /// Returns `Err(v)` for values outside 0–6.
    fn try_from(v: u8) -> (r: Result<Self, Self::Error>)
        ensures
            v <= 6 ==> (r matches Ok(day) && day.spec_to_raw() == v),
            v > 6 ==> r == Err::<DayOfWeek, u8>(v),
    {
        match DayOfWeek::from_raw(v) {
            Some(d) => Ok(d),
            None => Err(v),
        }
    }
}

impl TryFromSpecImpl<u8> for DayOfWeek {
    open spec fn obeys_try_from_spec() -> bool {
        true
    }

    open spec fn try_from_spec(v: u8) -> Result<Self, u8> {
        if v == 0 { Ok(DayOfWeek::Sunday) }
        else if v == 1 { Ok(DayOfWeek::Monday) }
        else if v == 2 { Ok(DayOfWeek::Tuesday) }
        else if v == 3 { Ok(DayOfWeek::Wednesday) }
        else if v == 4 { Ok(DayOfWeek::Thursday) }
        else if v == 5 { Ok(DayOfWeek::Friday) }
        else if v == 6 { Ok(DayOfWeek::Saturday) }
        else { Err(v) }
    }
}

// ---------------------------------------------------------------------------
// IR character
// ---------------------------------------------------------------------------

/// IR character received by the robot's IR sensors.
#[derive(Debug, Clone, Copy, PartialEq, Eq, Structural)]
pub enum IrChar {
    NoSignal,
    Left,
    ForwardLeft,
    CenterLeft,
    CenterRight,
    ForwardRight,
    Right,
    SeekDock,
    ReservedGreen,
    ForceField,
    ReservedRed,
    BuoyGreen,
    BuoyRed,
    BuoyGreenAndRed,
    BuoyGreenAndForceField,
    BuoyRedAndForceField,
    BuoyGreenRedAndForceField,
    Unknown(u8),
}

impl IrChar {
    /// The IR character for a raw IR byte.
    pub open spec fn spec_from_raw(v: u8) -> IrChar {
        if v == 0 { IrChar::NoSignal }
        else if v == 129 { IrChar::Left }
        else if v == 130 { IrChar::ForwardLeft }
        else if v == 131 { IrChar::CenterLeft }
        else if v == 132 { IrChar::CenterRight }
        else if v == 133 { IrChar::ForwardRight }
        else if v == 134 { IrChar::Right }
        else if v == 143 { IrChar::SeekDock }
        else if v == 160 { IrChar::ReservedGreen }
        else if v == 161 { IrChar::ForceField }
        else if v == 162 { IrChar::ReservedRed }
        else if v == 164 { IrChar::BuoyGreen }
        else if v == 168 { IrChar::BuoyRed }
        else if v == 172 { IrChar::BuoyGreenAndRed }
        else if v == 165 { IrChar::BuoyGreenAndForceField }
        else if v == 169 { IrChar::BuoyRedAndForceField }
        else if v == 173 { IrChar::BuoyGreenRedAndForceField }
        else { IrChar::Unknown(v) }
    }

    pub open spec fn spec_name(self) -> &'static str {
        match self {
            IrChar::NoSignal => "None",
            IrChar::Left => "Left",
            IrChar::ForwardLeft => "ForwardLeft",
            IrChar::CenterLeft => "CenterLeft",
            IrChar::CenterRight => "CenterRight",
            IrChar::ForwardRight => "ForwardRight",
            IrChar::Right => "Right",
            IrChar::SeekDock => "SeekDock",
            IrChar::ReservedGreen => "ReservedGreen",
            IrChar::ForceField => "ForceField",
            IrChar::ReservedRed => "ReservedRed",
            IrChar::BuoyGreen => "BuoyGreen",
            IrChar::BuoyRed => "BuoyRed",
            IrChar::BuoyGreenAndRed => "BuoyGreenAndRed",
            IrChar::BuoyGreenAndForceField => "BuoyGreenAndForceField",
            IrChar::BuoyRedAndForceField => "BuoyRedAndForceField",
            IrChar::BuoyGreenRedAndForceField => "BuoyGreenRedAndForceField",
            IrChar::Unknown(_) => "Unknown",
        }
    }

    /// Codes sent by the Create 2 remote control (directions and `SeekDock`).
    pub open spec fn spec_is_remote_control(self) -> bool {
        ||| self == IrChar::Left
        ||| self == IrChar::ForwardLeft
        ||| self == IrChar::CenterLeft
        ||| self == IrChar::CenterRight
        ||| self == IrChar::ForwardRight
        ||| self == IrChar::Right
        ||| self == IrChar::SeekDock
    }

    /// Codes emitted by the home base or a virtual wall.
    pub open spec fn spec_is_dock_beacon(self) -> bool {
        ||| self == IrChar::ForceField
        ||| self == IrChar::BuoyGreen
        ||| self == IrChar::BuoyRed
        ||| self == IrChar::BuoyGreenAndRed
        ||| self == IrChar::BuoyGreenAndForceField
        ||| self == IrChar::BuoyRedAndForceField
        ||| self == IrChar::BuoyGreenRedAndForceField
    }

    /// Codes with a force-field component.
    pub open spec fn spec_includes_force_field(self) -> bool {
        ||| self == IrChar::ForceField
        ||| self == IrChar::BuoyGreenAndForceField
        ||| self == IrChar::BuoyRedAndForceField
        ||| self == IrChar::BuoyGreenRedAndForceField
    }

    /// The IR character for a raw IR byte.
    #[verifier::when_used_as_spec(spec_from_raw)]
    pub fn from_raw(v: u8) -> (c: Self)
        ensures
            c == Self::spec_from_raw(v),
    {
        match v {
            0 => IrChar::NoSignal,
            129 => IrChar::Left,
            130 => IrChar::ForwardLeft,
            131 => IrChar::CenterLeft,
            132 => IrChar::CenterRight,
            133 => IrChar::ForwardRight,
            134 => IrChar::Right,
            143 => IrChar::SeekDock,
            160 => IrChar::ReservedGreen,
            161 => IrChar::ForceField,
            162 => IrChar::ReservedRed,
            164 => IrChar::BuoyGreen,
            168 => IrChar::BuoyRed,
            172 => IrChar::BuoyGreenAndRed,
            165 => IrChar::BuoyGreenAndForceField,
            169 => IrChar::BuoyRedAndForceField,
            173 => IrChar::BuoyGreenRedAndForceField,
            x => IrChar::Unknown(x),
        }
    }

    pub fn name(self) -> (s: &'static str)
        ensures
            s == self.spec_name(),
    {
        match self {
            IrChar::NoSignal => "None",
            IrChar::Left => "Left",
            IrChar::ForwardLeft => "ForwardLeft",
            IrChar::CenterLeft => "CenterLeft",
            IrChar::CenterRight => "CenterRight",
            IrChar::ForwardRight => "ForwardRight",
            IrChar::Right => "Right",
            IrChar::SeekDock => "SeekDock",
            IrChar::ReservedGreen => "ReservedGreen",
            IrChar::ForceField => "ForceField",
            IrChar::ReservedRed => "ReservedRed",
            IrChar::BuoyGreen => "BuoyGreen",
            IrChar::BuoyRed => "BuoyRed",
            IrChar::BuoyGreenAndRed => "BuoyGreenAndRed",
            IrChar::BuoyGreenAndForceField => "BuoyGreenAndForceField",
            IrChar::BuoyRedAndForceField => "BuoyRedAndForceField",
            IrChar::BuoyGreenRedAndForceField => "BuoyGreenRedAndForceField",
            IrChar::Unknown(_) => "Unknown",
        }
    }

    /// Returns `true` if this code was emitted by a Create 2 Remote Control.
    ///
    /// The remote control sends directional codes (`Left`, `ForwardLeft`,
    /// `CenterLeft`, `CenterRight`, `ForwardRight`, `Right`) and `SeekDock`.
    pub fn is_remote_control(self) -> (b: bool)
        ensures
            b == self.spec_is_remote_control(),
    {
        match self {
            IrChar::Left | IrChar::ForwardLeft | IrChar::CenterLeft | IrChar::CenterRight
            | IrChar::ForwardRight | IrChar::Right | IrChar::SeekDock => true,
            _ => false,
        }
    }

    /// Returns `true` if this is a dock approach beacon signal emitted by the
    /// home base dock or a virtual wall beacon.
    pub fn is_dock_beacon(self) -> (b: bool)
        ensures
            b == self.spec_is_dock_beacon(),
    {
        match self {
            IrChar::ForceField | IrChar::BuoyGreen | IrChar::BuoyRed | IrChar::BuoyGreenAndRed
            | IrChar::BuoyGreenAndForceField | IrChar::BuoyRedAndForceField
            | IrChar::BuoyGreenRedAndForceField => true,
            _ => false,
        }
    }

    /// Returns `true` if this code includes a virtual wall / force field component.
    pub fn includes_force_field(self) -> (b: bool)
        ensures
            b == self.spec_includes_force_field(),
    {
        match self {
            IrChar::ForceField | IrChar::BuoyGreenAndForceField | IrChar::BuoyRedAndForceField
            | IrChar::BuoyGreenRedAndForceField => true,
            _ => false,
        }
    }

    /// Returns `true` if no IR signal is present (the [`IrChar::NoSignal`] variant).
    pub fn is_no_signal(self) -> (b: bool)
        ensures
            b == (self == IrChar::NoSignal),
    {
        match self {
            IrChar::NoSignal => true,
            _ => false,
        }
    }

    /// Returns `true` if this is an unrecognized IR code.
    pub fn is_unknown(self) -> (b: bool)
        ensures
            b == (self is Unknown),
    {
        match self {
            IrChar::Unknown(_) => true,
            _ => false,
        }
    }

    /// Human-readable rendering: the name, or `Unknown(<raw>)`.
    pub fn to_string(&self) -> (s: String)
        ensures
            s@ == match *self {
                IrChar::Unknown(x) => "Unknown("@ + decimal(x as nat) + ")"@,
                _ => self.spec_name()@,
            },
    {
        match *self {
            IrChar::Unknown(x) => {
                let mut s = string_of("Unknown(");
                push_decimal(&mut s, x as u64);
                s.append(")");
                s
            },
            _ => string_of(self.name()),
        }
    }
}

/// The IR classes relate as documented: every force-field code is a dock
/// beacon, and no remote-control code is a beacon.
pub proof fn lemma_ir_char_classes(c: IrChar)
    ensures
        c.spec_includes_force_field() ==> c.spec_is_dock_beacon(),
        !(c.spec_is_remote_control() && c.spec_is_dock_beacon()),
        c.spec_is_remote_control() ==> !(c is Unknown) && c != IrChar::NoSignal,
{
}

// ---------------------------------------------------------------------------
// Drive command wire-level integer newtypes
// ---------------------------------------------------------------------------

/// Wheel velocity in mm/s, as used in the OI wire protocol.
///
/// Validated construction via [`TryFrom<i16>`] accepts −500 to +500 mm/s;
/// [`from_raw`](Self::from_raw) performs no validation.
#[derive(Debug, Clone, Copy, PartialEq, Eq, PartialOrd, Ord, Structural)]
pub struct VelocityMmPerSec(i16);

impl View for VelocityMmPerSec {
    type V = i16;

    closed spec fn view(&self) -> i16 {
        self.0
    }
}

impl VelocityMmPerSec {
    /// Zero velocity (stopped).
    pub fn zero() -> (v: Self)
        ensures
            v@ == 0,
    {
        VelocityMmPerSec(0)
    }

    /// Construct from a raw mm/s value. No range validation is performed.
    pub fn from_raw(v: i16) -> (r: Self)
        ensures
            r@ == v,
    {
        VelocityMmPerSec(v)
    }

    /// Return the raw mm/s value.
    pub fn get(self) -> (v: i16)
        ensures
            v == self@,
    {
        self.0
    }

    /// Human-readable rendering, e.g. `"300 mm/s"`.
    pub fn to_string(&self) -> (s: String)
        ensures
            s@ == signed_decimal(self@ as int) + " mm/s"@,
    {
        let mut s = String::new();
        push_signed_decimal(&mut s, self.0 as i64);
        s.append(" mm/s");
        s
    }
}

impl TryFrom<i16> for VelocityMmPerSec {
    /// The out-of-range input value.
    type Error = i16;

    /// Construct a `VelocityMmPerSec` with OI spec range validation (−500 to +500 mm/s).
    ///
    /// Returns `Err(v)` if `v` is outside `−500..=500`.
    fn try_from(v: i16) -> (r: Result<Self, Self::Error>)
        ensures
            -500 <= v <= 500 ==> (r matches Ok(x) && x@ == v),
            !(-500 <= v <= 500) ==> r == Err::<VelocityMmPerSec, i16>(v),
    {
        if -500 <= v && v <= 500 {
            Ok(VelocityMmPerSec(v))
        } else {
            Err(v)
        }
    }
}

impl TryFromSpecImpl<i16> for VelocityMmPerSec {
    open spec fn obeys_try_from_spec() -> bool {
        true
    }

    closed spec fn try_from_spec(v: i16) -> Result<Self, i16> {
        if -500 <= v <= 500 { Ok(VelocityMmPerSec(v)) } else { Err(v) }
    }
}

/// Turning radius in mm, as used in the OI `Drive` command wire protocol.
///
/// Encodes both physical arc radii and the three OI special values:
/// straight (`i16::MIN`), turn clockwise (`-1`), turn counter-clockwise (`1`).
#[derive(Debug, Clone, Copy, PartialEq, Eq, PartialOrd, Ord, Structural)]
pub struct RadiusMm(i16);

impl View for RadiusMm {
    type V = i16;

    closed spec fn view(&self) -> i16 {
        self.0
    }
}

/// Whether `v` is an accepted OI radius: the straight sentinel or a non-zero value within ±2000 mm.
pub open spec fn valid_radius_mm(v: i16) -> bool {
    v == i16::MIN || (-2000 <= v <= 2000 && v != 0)
}

impl RadiusMm {
    /// Drive straight (OI special: `0x8000` = `i16::MIN`).
    pub fn straight() -> (r: Self)
        ensures
            r@ == i16::MIN,
    {
        RadiusMm(i16::MIN)
    }

    /// Turn in place clockwise (OI special: `-1`).
    pub fn turn_cw() -> (r: Self)
        ensures
            r@ == -1,
    {
        RadiusMm(-1)
    }

    /// Turn in place counter-clockwise (OI special: `1`).
    pub fn turn_ccw() -> (r: Self)
        ensures
            r@ == 1,
    {
        RadiusMm(1)
    }

    /// Construct from a raw mm value. No range validation is performed.
    pub fn from_raw(v: i16) -> (r: Self)
        ensures
            r@ == v,
    {
        RadiusMm(v)
    }

    /// Return the raw mm value.
    pub fn get(self) -> (v: i16)
        ensures
            v == self@,
    {
        self.0
    }

    /// Human-readable rendering: `straight`, `turn-cw`, `turn-ccw` or `<v> mm`.
    pub fn to_string(&self) -> (s: String)
        ensures
            s@ == if self@ == i16::MIN {
                "straight"@
            } else if self@ == -1 {
                "turn-cw"@
            } else if self@ == 1 {
                "turn-ccw"@
            } else {
                signed_decimal(self@ as int) + " mm"@
            },
    {
        if self.0 == i16::MIN {
            string_of("straight")
        } else if self.0 == -1 {
            string_of("turn-cw")
        } else if self.0 == 1 {
            string_of("turn-ccw")
        } else {
            let mut s = String::new();
            push_signed_decimal(&mut s, self.0 as i64);
            s.append(" mm");
            s
        }
    }
}

impl TryFrom<i16> for RadiusMm {
    /// The out-of-range input value.
    type Error = i16;

    /// Construct a `RadiusMm` with OI spec validation: `i16::MIN` (straight) or a
    /// non-zero value in `−2000..=2000`. Returns `Err(v)` for any other value.
    fn try_from(v: i16) -> (r: Result<Self, Self::Error>)
        ensures
            valid_radius_mm(v) ==> (r matches Ok(x) && x@ == v),
            !valid_radius_mm(v) ==> r == Err::<RadiusMm, i16>(v),
    {
        if v == i16::MIN || (v >= -2000 && v != 0 && v <= 2000) {
            Ok(RadiusMm(v))
        } else {
            Err(v)
        }
    }
}

impl TryFromSpecImpl<i16> for RadiusMm {
    open spec fn obeys_try_from_spec() -> bool {
        true
    }

    closed spec fn try_from_spec(v: i16) -> Result<Self, i16> {
        if valid_radius_mm(v) { Ok(RadiusMm(v)) } else { Err(v) }
    }
}

/// Wheel PWM value as used in the OI `DrivePwm` command wire protocol.
///
/// Valid OI range is ±255.
#[derive(Debug, Clone, Copy, PartialEq, Eq, PartialOrd, Ord, Structural)]
pub struct WheelPwm(i16);

impl View for WheelPwm {
    type V = i16;

    closed spec fn view(&self) -> i16 {
        self.0
    }
}

impl WheelPwm {
    /// Zero PWM (motor off).
    pub fn stop() -> (p: Self)
        ensures
            p@ == 0,
    {
        WheelPwm(0)
    }

    /// Construct from a raw PWM value. No range validation is performed.
    pub fn from_raw(v: i16) -> (r: Self)
        ensures
            r@ == v,
    {
        WheelPwm(v)
    }

    /// Return the raw PWM value.
    pub fn get(self) -> (v: i16)
        ensures
            v == self@,
    {
        self.0
    }

    /// Human-readable rendering, e.g. `"PWM -128"`.
    pub fn to_string(&self) -> (s: String)
        ensures
            s@ == "PWM "@ + signed_decimal(self@ as int),
    {
        let mut s = string_of("PWM ");
        push_signed_decimal(&mut s, self.0 as i64);
        s
    }
}

impl TryFrom<i16> for WheelPwm {
    /// The out-of-range input value.
    type Error = i16;

    /// Construct a `WheelPwm` with OI spec range validation (−255 to +255).
    fn try_from(v: i16) -> (r: Result<Self, Self::Error>)
        ensures
            -255 <= v <= 255 ==> (r matches Ok(x) && x@ == v),
            !(-255 <= v <= 255) ==> r == Err::<WheelPwm, i16>(v),
    {
        if -255 <= v && v <= 255 {
            Ok(WheelPwm(v))
        } else {
            Err(v)
        }
    }
}

impl TryFromSpecImpl<i16> for WheelPwm {
    open spec fn obeys_try_from_spec() -> bool {
        true
    }

    closed spec fn try_from_spec(v: i16) -> Result<Self, i16> {
        if -255 <= v <= 255 { Ok(WheelPwm(v)) } else { Err(v) }
    }
}

} // verus!
