//! Domain types: robot models and validated newtypes for the control layer.
//!
//! Wire-level types (`OiMode`, `ChargingState`, `IrChar`, etc.) live in
//! [`crate::protocol::types`] and are re-exported here.

use vstd::prelude::*;
use vstd::std_specs::convert::{FromSpecImpl, TryFromSpecImpl};
use crate::error::ValidationError;
use crate::text::{decimal, push_decimal, string_of};

pub use crate::protocol::types::{ChargingState, CleanMode, DayOfWeek, IrChar, OiMode};

verus! {

/// Recommended delay after mode-change commands, in milliseconds.
pub const MODE_CHANGE_DELAY_MS: u64 = 20;

/// Maximum song slot index across all models (Create 1 / Roomba 400: 0–15).
pub const OI_MAX_SONG_NUMBER: u8 = 15;

/// A `Duration` of `ms` milliseconds.
pub uninterp spec fn duration_of_millis(ms: u64) -> core::time::Duration;

/// `core::time::Duration::from_millis`.
#[verifier::external_body]
pub(crate) fn millis(ms: u64) -> (d: core::time::Duration)
    ensures
        d == duration_of_millis(ms),
{
    core::time::Duration::from_millis(ms)
}

// ---------------------------------------------------------------------------
// Robot model
// ---------------------------------------------------------------------------

/// Physical robot model, determining protocol version and physical parameters.
#[derive(Debug, Clone, Copy, PartialEq, Eq, Structural)]
pub enum RobotModel {
    /// Roomba 400 series and earlier (protocol V1).
    Roomba400,
    /// iRobot Create 1 / Roomba 500 series (protocol V2).
    Create1,
    /// iRobot Create 2 / Roomba 600+ series (protocol V3).
    Create2,
}

/// Alternative name of [`RobotModel`].
pub type CreateRobotModel = RobotModel;

impl RobotModel {
    pub open spec fn spec_baud(self) -> u32 {
        match self {
            RobotModel::Create2 => 115_200,
            _ => 57_600,
        }
    }

    pub open spec fn spec_supports_stream(self) -> bool {
        self != RobotModel::Roomba400
    }

    pub open spec fn spec_is_create2(self) -> bool {
        self == RobotModel::Create2
    }

    pub open spec fn spec_max_song_number(self) -> u8 {
        if self == RobotModel::Create2 { 4 } else { 15 }
    }

    pub open spec fn spec_supports_drive_direct(self) -> bool {
        self != RobotModel::Roomba400
    }

    pub open spec fn spec_supports_individual_sensor_packets(self) -> bool {
        self != RobotModel::Roomba400
    }

    pub open spec fn spec_max_individual_sensor_packet_id(self) -> u8 {
        match self {
            RobotModel::Create2 => 58,
            RobotModel::Create1 => 42,
            RobotModel::Roomba400 => 0,
        }
    }

    pub open spec fn spec_supports_query_list(self) -> bool {
        self != RobotModel::Roomba400
    }

    /// Groups 0–3: all models; 4–6: Create 1 and 2; 100: Create 2 only.
    pub open spec fn spec_supports_group_packet(self, group: u8) -> bool {
        if group <= 3 {
            true
        } else if 4 <= group <= 6 {
            self != RobotModel::Roomba400
        } else if group == 100 {
            self == RobotModel::Create2
        } else {
            false
        }
    }

    pub open spec fn spec_name(self) -> &'static str {
        match self {
            RobotModel::Roomba400 => "Roomba400",
            RobotModel::Create1 => "Create1",
            RobotModel::Create2 => "Create2",
        }
    }

    /// Default baud rate for this model.
    #[verifier::when_used_as_spec(spec_baud)]
    pub fn baud(self) -> (b: u32)
        ensures
            b == self.spec_baud(),
    {
        match self {
            RobotModel::Roomba400 | RobotModel::Create1 => 57_600,
            RobotModel::Create2 => 115_200,
        }
    }

    /// Whether this model supports the sensor stream protocol.
    #[verifier::when_used_as_spec(spec_supports_stream)]
    pub fn supports_stream(self) -> (b: bool)
        ensures
            b == self.spec_supports_stream(),
    {
        match self {
            RobotModel::Create1 | RobotModel::Create2 => true,
            _ => false,
        }
    }

    /// Whether this model supports Create 2–specific opcodes.
    ///
    /// Returns `true` only for [`RobotModel::Create2`]. Several OI opcodes
    /// (DRIVE_PWM 146, MOTORS_PWM 144, DIGIT_LEDS_RAW 163, DIGIT_LEDS_ASCII 164,
    /// BUTTONS 165, SCHEDULE 167, SET_DAY_TIME 168) are Create 2 only.
    #[verifier::when_used_as_spec(spec_is_create2)]
    pub fn is_create2(self) -> (b: bool)
        ensures
            b == self.spec_is_create2(),
    {
        match self {
            RobotModel::Create2 => true,
            _ => false,
        }
    }

    /// Maximum song slot index (0..=max, inclusive) for this model.
    ///
    /// - Create 2: 5 slots (0–4)
    /// - Create 1 / Roomba 400: 16 slots (0–15)
    #[verifier::when_used_as_spec(spec_max_song_number)]
    pub fn max_song_number(self) -> (n: u8)
        ensures
            n == self.spec_max_song_number(),
    {
        match self {
            RobotModel::Create2 => 4,
            RobotModel::Roomba400 | RobotModel::Create1 => 15,
        }
    }

    /// Whether this model supports the Drive Direct command (opcode 145).
    #[verifier::when_used_as_spec(spec_supports_drive_direct)]
    pub fn supports_drive_direct(self) -> (b: bool)
        ensures
            b == self.spec_supports_drive_direct(),
    {
        match self {
            RobotModel::Roomba400 => false,
            _ => true,
        }
    }

    /// Whether this model supports individual sensor packet IDs (7+).
    #[verifier::when_used_as_spec(spec_supports_individual_sensor_packets)]
    pub fn supports_individual_sensor_packets(self) -> (b: bool)
        ensures
            b == self.spec_supports_individual_sensor_packets(),
    {
        match self {
            RobotModel::Roomba400 => false,
            _ => true,
        }
    }

    /// Maximum individual sensor packet ID (inclusive) for this model.
    ///
    /// - Create 2: 58
    /// - Create 1: 42
    /// - Roomba 400: 0 (no individual packet IDs; use group queries 0–3 only)
    #[verifier::when_used_as_spec(spec_max_individual_sensor_packet_id)]
    pub fn max_individual_sensor_packet_id(self) -> (n: u8)
        ensures
            n == self.spec_max_individual_sensor_packet_id(),
    {
        match self {
            RobotModel::Create2 => 58,
            RobotModel::Create1 => 42,
            RobotModel::Roomba400 => 0,
        }
    }

    /// Whether this model supports the Query List command (opcode 149).
    #[verifier::when_used_as_spec(spec_supports_query_list)]
    pub fn supports_query_list(self) -> (b: bool)
        ensures
            b == self.spec_supports_query_list(),
    {
        match self {
            RobotModel::Roomba400 => false,
            _ => true,
        }
    }

    /// Whether this model supports the given group sensor packet ID.
    ///
    /// - Groups 0–3: all models (Roomba 400, Create 1, Create 2)
    /// - Groups 4–6: Create 1 and Create 2 only
    /// - Group 100: Create 2 only
    #[verifier::when_used_as_spec(spec_supports_group_packet)]
    pub fn supports_group_packet(self, group: u8) -> (b: bool)
        ensures
            b == self.spec_supports_group_packet(group),
    {
        if group <= 3 {
            true
        } else if 4 <= group && group <= 6 {
            match self {
                RobotModel::Roomba400 => false,
                _ => true,
            }
        } else if group == 100 {
            match self {
                RobotModel::Create2 => true,
                _ => false,
            }
        } else {
            false
        }
    }

    /// Recommended delay after sending a mode-change command (20 ms).
    pub fn mode_change_delay(self) -> (d: core::time::Duration)
        ensures
            d == duration_of_millis(MODE_CHANGE_DELAY_MS),
    {
        millis(MODE_CHANGE_DELAY_MS)
    }

    /// The model's name.
    pub fn to_string(&self) -> (s: String)
        ensures
            s@ == self.spec_name()@,
    {
        match *self {
            RobotModel::Roomba400 => string_of("Roomba400"),
            RobotModel::Create1 => string_of("Create1"),
            RobotModel::Create2 => string_of("Create2"),
        }
    }
}

/// The capability table is monotone in the model generation: whatever
/// Roomba 400 supports, Create 1 supports, and whatever Create 1 supports,
/// Create 2 supports.
pub proof fn lemma_model_capabilities_monotone(group: u8)
    ensures
        RobotModel::Roomba400.spec_supports_group_packet(group) ==> RobotModel::Create1.spec_supports_group_packet(group),
        RobotModel::Create1.spec_supports_group_packet(group) ==> RobotModel::Create2.spec_supports_group_packet(group),
        RobotModel::Roomba400.spec_max_individual_sensor_packet_id() <= RobotModel::Create1.spec_max_individual_sensor_packet_id(),
        RobotModel::Create1.spec_max_individual_sensor_packet_id() <= RobotModel::Create2.spec_max_individual_sensor_packet_id(),
        RobotModel::Create2.spec_max_song_number() <= RobotModel::Create1.spec_max_song_number(),
{
}

// ---------------------------------------------------------------------------
// LED bit-packing helper
// ---------------------------------------------------------------------------

/// The LED-bits byte: Create 1/2 use bits debris=0, spot=1, dock=2,
/// check_robot=3; Roomba 400 uses debris=3, check_robot=4, dock=5, spot=6.
pub open spec fn spec_led_bits(model: RobotModel, debris: bool, spot: bool, dock: bool, check_robot: bool) -> u8 {
    let b = |x: bool| if x { 1int } else { 0int };
    if model == RobotModel::Roomba400 {
        (8 * b(debris) + 16 * b(check_robot) + 32 * b(dock) + 64 * b(spot)) as u8
    } else {
        (b(debris) + 2 * b(spot) + 4 * b(dock) + 8 * b(check_robot)) as u8
    }
}

fn bit(x: bool) -> (r: u8)
    ensures
        r == if x { 1u8 } else { 0u8 },
{
    if x { 1 } else { 0 }
}

/// Compute the LED-bits byte for the OI `LEDS` command (opcode 139).
///
/// | Parameter    | Create 1/2 bit | Roomba 400 bit |
/// |---|---|---|
/// | `debris`     | 0              | 3              |
/// | `spot`       | 1              | 6              |
/// | `dock`       | 2              | 5              |
/// | `check_robot`| 3              | 4              |
pub fn led_bits(model: RobotModel, debris: bool, spot: bool, dock: bool, check_robot: bool) -> (r: u8)
    ensures
        r == spec_led_bits(model, debris, spot, dock, check_robot),
{
    match model {
        RobotModel::Roomba400 => 8 * bit(debris) + 16 * bit(check_robot) + 32 * bit(dock) + 64 * bit(spot),
        _ => bit(debris) + 2 * bit(spot) + 4 * bit(dock) + 8 * bit(check_robot),
    }
}

// ---------------------------------------------------------------------------
// Validated byte newtypes
// ---------------------------------------------------------------------------

/// Power LED color (0 = green, 255 = red).
#[derive(Debug, Clone, Copy, PartialEq, Eq, Structural)]
pub struct PowerLedColor(u8);

impl View for PowerLedColor {
    type V = u8;

    closed spec fn view(&self) -> u8 {
        self.0
    }
}

impl PowerLedColor {
    /// Green (0).
    pub fn green() -> (c: Self)
        ensures
            c@ == 0,
    {
        PowerLedColor(0)
    }

    /// Red (255).
    pub fn red() -> (c: Self)
        ensures
            c@ == 255,
    {
        PowerLedColor(255)
    }

    pub fn new(value: u8) -> (c: Self)
        ensures
            c@ == value,
    {
        PowerLedColor(value)
    }

    pub fn get(self) -> (v: u8)
        ensures
            v == self@,
    {
        self.0
    }

    /// The color value in decimal.
    pub fn to_string(&self) -> (s: String)
        ensures
            s@ == decimal(self@ as nat),
    {
        let mut s = String::new();
        push_decimal(&mut s, self.0 as u64);
        s
    }
}

impl From<u8> for PowerLedColor {
    fn from(v: u8) -> (c: Self)
        ensures
            c@ == v,
    {
        PowerLedColor(v)
    }
}

impl FromSpecImpl<u8> for PowerLedColor {
    open spec fn obeys_from_spec() -> bool {
        true
    }

    closed spec fn from_spec(v: u8) -> Self {
        PowerLedColor(v)
    }
}

impl From<PowerLedColor> for u8 {
    fn from(c: PowerLedColor) -> (v: u8)
        ensures
            v == c@,
    {
        c.0
    }
}

impl FromSpecImpl<PowerLedColor> for u8 {
    open spec fn obeys_from_spec() -> bool {
        true
    }

    closed spec fn from_spec(c: PowerLedColor) -> u8 {
        c.0
    }
}

/// LED intensity (0 = off, 255 = full brightness).
#[derive(Debug, Clone, Copy, PartialEq, Eq, Structural)]
pub struct LedIntensity(u8);

impl View for LedIntensity {
    type V = u8;

    closed spec fn view(&self) -> u8 {
        self.0
    }
}

impl LedIntensity {
    /// Off (0).
    pub fn off() -> (i: Self)
        ensures
            i@ == 0,
    {
        LedIntensity(0)
    }

    /// Full brightness (255).
    pub fn full() -> (i: Self)
        ensures
            i@ == 255,
    {
        LedIntensity(255)
    }

    pub fn new(value: u8) -> (i: Self)
        ensures
            i@ == value,
    {
        LedIntensity(value)
    }

    pub fn get(self) -> (v: u8)
        ensures
            v == self@,
    {
        self.0
    }

    /// The intensity value in decimal.
    pub fn to_string(&self) -> (s: String)
        ensures
            s@ == decimal(self@ as nat),
    {
        let mut s = String::new();
        push_decimal(&mut s, self.0 as u64);
        s
    }
}

impl From<u8> for LedIntensity {
    fn from(v: u8) -> (i: Self)
        ensures
            i@ == v,
    {
        LedIntensity(v)
    }
}

impl FromSpecImpl<u8> for LedIntensity {
    open spec fn obeys_from_spec() -> bool {
        true
    }

    closed spec fn from_spec(v: u8) -> Self {
        LedIntensity(v)
    }
}

impl From<LedIntensity> for u8 {
    fn from(i: LedIntensity) -> (v: u8)
        ensures
            v == i@,
    {
        i.0
    }
}

impl FromSpecImpl<LedIntensity> for u8 {
    open spec fn obeys_from_spec() -> bool {
        true
    }

    closed spec fn from_spec(i: LedIntensity) -> u8 {
        i.0
    }
}

/// Song number (0–15 for Create 1 / Roomba 400, 0–4 for Create 2).
///
/// `SongNumber::new()` accepts the widest valid range (0–15). The control
/// layer (`define_song`, `play_song`) further restricts this to the
/// per-model maximum via [`RobotModel::max_song_number`].
#[derive(Debug, Clone, Copy, PartialEq, Eq, Structural)]
pub struct SongNumber(u8);

impl View for SongNumber {
    type V = u8;

    closed spec fn view(&self) -> u8 {
        self.0
    }
}

/// The error `SongNumber::new` reports for slots above 15.
pub open spec fn song_number_error() -> ValidationError {
    ValidationError { field: "SongNumber", reason: "song number exceeds OI maximum of 15" }
}

impl SongNumber {
    /// Validate a song slot: accepted iff `value <= 15`.
    pub fn new(value: u8) -> (r: Result<Self, ValidationError>)
        ensures
            value <= OI_MAX_SONG_NUMBER ==> (r matches Ok(s) && s@ == value),
            value > OI_MAX_SONG_NUMBER ==> r == Err::<SongNumber, ValidationError>(song_number_error()),
    {
        if value > OI_MAX_SONG_NUMBER {
            return Err(ValidationError {
                field: "SongNumber",
                reason: "song number exceeds OI maximum of 15",
            });
        }
        Ok(SongNumber(value))
    }

    pub fn get(self) -> (v: u8)
        ensures
            v == self@,
            v <= OI_MAX_SONG_NUMBER,
    {
        proof { use_type_invariant(self); }
        self.0
    }

    #[verifier::type_invariant]
    spec fn inv(self) -> bool {
        self.0 <= OI_MAX_SONG_NUMBER
    }

    /// The slot number in decimal.
    pub fn to_string(&self) -> (s: String)
        ensures
            s@ == decimal(self@ as nat),
    {
        let mut s = String::new();
        push_decimal(&mut s, self.0 as u64);
        s
    }
}

impl TryFrom<u8> for SongNumber {
    type Error = ValidationError;

    fn try_from(v: u8) -> (r: Result<Self, Self::Error>)
        ensures
            v <= OI_MAX_SONG_NUMBER ==> (r matches Ok(s) && s@ == v),
            v > OI_MAX_SONG_NUMBER ==> r == Err::<SongNumber, ValidationError>(song_number_error()),
    {
        Self::new(v)
    }
}

impl TryFromSpecImpl<u8> for SongNumber {
    open spec fn obeys_try_from_spec() -> bool {
        true
    }

    closed spec fn try_from_spec(v: u8) -> Result<Self, ValidationError> {
        if v <= OI_MAX_SONG_NUMBER { Ok(SongNumber(v)) } else { Err(song_number_error()) }
    }
}

impl From<SongNumber> for u8 {
    fn from(s: SongNumber) -> (v: u8)
        ensures
            v == s@,
    {
        s.0
    }
}

impl FromSpecImpl<SongNumber> for u8 {
    open spec fn obeys_from_spec() -> bool {
        true
    }

    closed spec fn from_spec(s: SongNumber) -> u8 {
        s.0
    }
}

/// A validated song note: MIDI pitch number and duration.
///
/// Note numbers must be in 31..=127. Duration is in 1/64-second
/// increments (0–255).
#[derive(Debug, Clone, Copy, PartialEq, Eq, Structural)]
pub struct SongNote {
    /// MIDI note number (31–127).
    midi_note: u8,
    /// Duration in units of 1/64 second (0–255).
    duration_64ths: u8,
}

impl View for SongNote {
    type V = (u8, u8);

    closed spec fn view(&self) -> (u8, u8) {
        (self.midi_note, self.duration_64ths)
    }
}

/// The error `SongNote::new` reports for pitches outside 31..=127.
pub open spec fn midi_note_error() -> ValidationError {
    ValidationError { field: "midi_note", reason: "MIDI note number must be in range 31..=127 (OI spec §5.13)" }
}

impl SongNote {
    /// Create a new `SongNote`, validating that `midi_note` is in 31..=127.
    ///
    /// Duration is unconstrained (0–255 covers the full spec range).
    pub fn new(midi_note: u8, duration_64ths: u8) -> (r: Result<Self, ValidationError>)
        ensures
            31 <= midi_note <= 127 ==> (r matches Ok(n) && n@ == (midi_note, duration_64ths)),
            !(31 <= midi_note <= 127) ==> r == Err::<SongNote, ValidationError>(midi_note_error()),
    {
        if midi_note < 31 || midi_note > 127 {
            return Err(ValidationError {
                field: "midi_note",
                reason: "MIDI note number must be in range 31..=127 (OI spec §5.13)",
            });
        }
        Ok(SongNote { midi_note, duration_64ths })
    }

    /// A rest: MIDI note number 0, which the robot plays as silence, for
    /// `duration_64ths` 1/64-second units.
    pub fn rest(duration_64ths: u8) -> (n: Self)
        ensures
            n@ == (0u8, duration_64ths),
    {
        SongNote { midi_note: 0, duration_64ths }
    }

    /// Whether this is a rest (MIDI note number 0).
    pub fn is_rest(self) -> (b: bool)
        ensures
            b == (self@.0 == 0),
    {
        self.midi_note == 0
    }

    /// Returns the MIDI note number (31–127, or 0 for a rest).
    pub fn midi_note(self) -> (n: u8)
        ensures
            n == self@.0,
    {
        self.midi_note
    }

    /// Returns the duration in 1/64-second units (0–255).
    pub fn duration_64ths(self) -> (d: u8)
        ensures
            d == self@.1,
    {
        self.duration_64ths
    }
}

// ---------------------------------------------------------------------------
// Motor and button bitfield types
// ---------------------------------------------------------------------------

/// Motor enable and direction bits for the MOTORS command (opcode 138).
///
/// - Bit 0 = side_brush (1 = on)
/// - Bit 1 = vacuum (1 = on)
/// - Bit 2 = main_brush (1 = on)
/// - Bit 3 = side_brush_backward (1 = clockwise direction)
/// - Bit 4 = main_brush_backward (1 = outward direction)
#[derive(Debug, Clone, Copy, PartialEq, Eq, Structural)]
pub struct MotorBits {
    /// Enable the side brush motor.
    pub side_brush: bool,
    /// Enable the vacuum motor.
    pub vacuum: bool,
    /// Enable the main brush motor.
    pub main_brush: bool,
    /// Reverse the side brush direction (`false` = counterclockwise, `true` = clockwise).
    pub side_brush_backward: bool,
    /// Reverse the main brush direction (`false` = inward, `true` = outward).
    pub main_brush_backward: bool,
}

/// 1 for `true`, 0 for `false`.
pub open spec fn flag(x: bool) -> int {
    if x { 1 } else { 0 }
}

/// Four flags packed into the low four bits, the first flag in bit 0.
pub open spec fn nibble(a: bool, b: bool, c: bool, d: bool) -> int {
    flag(a) + 2 * flag(b) + 4 * flag(c) + 8 * flag(d)
}

fn nibble_bits(a: bool, b: bool, c: bool, d: bool) -> (r: u8)
    ensures
        r == nibble(a, b, c, d),
        r < 16,
{
    bit(a) + 2 * bit(b) + 4 * bit(c) + 8 * bit(d)
}

impl MotorBits {
    pub open spec fn spec_to_raw(self) -> u8 {
        (flag(self.side_brush) + 2 * flag(self.vacuum) + 4 * flag(self.main_brush)
            + 8 * flag(self.side_brush_backward) + 16 * flag(self.main_brush_backward)) as u8
    }

    /// Encode to the raw OI byte.
    pub fn to_raw(self) -> (r: u8)
        ensures
            r == self.spec_to_raw(),
    {
        bit(self.side_brush) + 2 * bit(self.vacuum) + 4 * bit(self.main_brush)
            + 8 * bit(self.side_brush_backward) + 16 * bit(self.main_brush_backward)
    }
}

impl Default for MotorBits {
    /// All motors off, default directions.
    fn default() -> (r: Self)
        ensures
            r == (MotorBits { side_brush: false, vacuum: false, main_brush: false, side_brush_backward: false, main_brush_backward: false }),
    {
        MotorBits { side_brush: false, vacuum: false, main_brush: false, side_brush_backward: false, main_brush_backward: false }
    }
}

/// Button simulation bits for the BUTTONS command (opcode 165, Full mode only).
///
/// Bit layout: 0=clean, 1=spot, 2=dock, 3=minute, 4=hour, 5=day, 6=schedule, 7=clock.
#[derive(Debug, Clone, Copy, PartialEq, Eq, Structural)]
pub struct ButtonBits {
    /// Simulate pressing the Clean button.
    pub clean: bool,
    /// Simulate pressing the Spot button.
    pub spot: bool,
    /// Simulate pressing the Dock button.
    pub dock: bool,
    /// Simulate pressing the Minute button.
    pub minute: bool,
    /// Simulate pressing the Hour button.
    pub hour: bool,
    /// Simulate pressing the Day button.
    pub day: bool,
    /// Simulate pressing the Schedule button.
    pub schedule: bool,
    /// Simulate pressing the Clock button.
    pub clock: bool,
}

impl ButtonBits {
    pub open spec fn spec_to_raw(self) -> u8 {
        (nibble(self.clean, self.spot, self.dock, self.minute)
            + 16 * nibble(self.hour, self.day, self.schedule, self.clock)) as u8
    }

    /// Encode to the raw OI byte.
    pub fn to_raw(self) -> (r: u8)
        ensures
            r == self.spec_to_raw(),
    {
        let low = nibble_bits(self.clean, self.spot, self.dock, self.minute);
        let high = nibble_bits(self.hour, self.day, self.schedule, self.clock);
        low + 16 * high
    }
}

impl Default for ButtonBits {
    /// No button pressed.
    fn default() -> (r: Self)
        ensures
            r == (ButtonBits { clean: false, spot: false, dock: false, minute: false, hour: false, day: false, schedule: false, clock: false }),
    {
        ButtonBits { clean: false, spot: false, dock: false, minute: false, hour: false, day: false, schedule: false, clock: false }
    }
}

/// Distinct motor settings encode to distinct bytes, and the encoding uses bits 0–4 only.
pub proof fn lemma_motor_bits_injective(a: MotorBits, b: MotorBits)
    ensures
        a.spec_to_raw() < 32,
        a.spec_to_raw() == b.spec_to_raw() ==> a == b,
{
}

/// Distinct button sets encode to distinct bytes.
pub proof fn lemma_button_bits_injective(a: ButtonBits, b: ButtonBits)
    ensures
        a.spec_to_raw() == b.spec_to_raw() ==> a == b,
{
}

} // verus!
