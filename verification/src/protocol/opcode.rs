//! iRobot Open Interface opcodes, sensor packet IDs and packet metadata.

use vstd::prelude::*;
use vstd::std_specs::convert::FromSpecImpl;

verus! {

/// All opcodes defined by the iRobot OI protocol.
#[derive(Debug, Clone, Copy, PartialEq, Eq, Structural)]
pub enum Opcode {
    Start,
    Reset,
    Stop,
    Baud,
    Control,
    Safe,
    Full,
    Power,
    Spot,
    Clean,
    Max,
    Drive,
    Motors,
    Leds,
    Song,
    Play,
    Sensors,
    Dock,
    MotorsPwm,
    DriveDirect,
    DrivePwm,
    Stream,
    QueryList,
    ToggleStream,
    SchedulingLeds,
    DigitLedsRaw,
    DigitLedsAscii,
    Buttons,
    Schedule,
    Date,
}

impl Opcode {
    /// The opcode byte sent on the wire.
    pub open spec fn spec_byte(self) -> u8 {
        match self {
            Opcode::Start => 128,
            Opcode::Reset => 7,
            Opcode::Stop => 173,
            Opcode::Baud => 129,
            Opcode::Control => 130,
            Opcode::Safe => 131,
            Opcode::Full => 132,
            Opcode::Power => 133,
            Opcode::Spot => 134,
            Opcode::Clean => 135,
            Opcode::Max => 136,
            Opcode::Drive => 137,
            Opcode::Motors => 138,
            Opcode::Leds => 139,
            Opcode::Song => 140,
            Opcode::Play => 141,
            Opcode::Sensors => 142,
            Opcode::Dock => 143,
            Opcode::MotorsPwm => 144,
            Opcode::DriveDirect => 145,
            Opcode::DrivePwm => 146,
            Opcode::Stream => 148,
            Opcode::QueryList => 149,
            Opcode::ToggleStream => 150,
            Opcode::SchedulingLeds => 162,
            Opcode::DigitLedsRaw => 163,
            Opcode::DigitLedsAscii => 164,
            Opcode::Buttons => 165,
            Opcode::Schedule => 167,
            Opcode::Date => 168,
        }
    }

    /// The opcode byte sent on the wire.
    #[verifier::when_used_as_spec(spec_byte)]
    pub fn byte(self) -> (b: u8)
        ensures
            b == self.spec_byte(),
    {
        match self {
            Opcode::Start => 128,
            Opcode::Reset => 7,
            Opcode::Stop => 173,
            Opcode::Baud => 129,
            Opcode::Control => 130,
            Opcode::Safe => 131,
            Opcode::Full => 132,
            Opcode::Power => 133,
            Opcode::Spot => 134,
            Opcode::Clean => 135,
            Opcode::Max => 136,
            Opcode::Drive => 137,
            Opcode::Motors => 138,
            Opcode::Leds => 139,
            Opcode::Song => 140,
            Opcode::Play => 141,
            Opcode::Sensors => 142,
            Opcode::Dock => 143,
            Opcode::MotorsPwm => 144,
            Opcode::DriveDirect => 145,
            Opcode::DrivePwm => 146,
            Opcode::Stream => 148,
            Opcode::QueryList => 149,
            Opcode::ToggleStream => 150,
            Opcode::SchedulingLeds => 162,
            Opcode::DigitLedsRaw => 163,
            Opcode::DigitLedsAscii => 164,
            Opcode::Buttons => 165,
            Opcode::Schedule => 167,
            Opcode::Date => 168,
        }
    }
}

/// Law: each opcode goes on the wire as its value in the Open Interface
/// specification (START 128, RESET 7, STOP 173, …, PLAY 141, …, DATE 168).
pub proof fn lemma_opcode_values()
    ensures
        Opcode::Start.spec_byte() == 128,
        Opcode::Reset.spec_byte() == 7,
        Opcode::Stop.spec_byte() == 173,
        Opcode::Baud.spec_byte() == 129,
        Opcode::Control.spec_byte() == 130,
        Opcode::Safe.spec_byte() == 131,
        Opcode::Full.spec_byte() == 132,
        Opcode::Power.spec_byte() == 133,
        Opcode::Spot.spec_byte() == 134,
        Opcode::Clean.spec_byte() == 135,
        Opcode::Max.spec_byte() == 136,
        Opcode::Drive.spec_byte() == 137,
        Opcode::Motors.spec_byte() == 138,
        Opcode::Leds.spec_byte() == 139,
        Opcode::Song.spec_byte() == 140,
        Opcode::Play.spec_byte() == 141,
        Opcode::Sensors.spec_byte() == 142,
        Opcode::Dock.spec_byte() == 143,
        Opcode::MotorsPwm.spec_byte() == 144,
        Opcode::DriveDirect.spec_byte() == 145,
        Opcode::DrivePwm.spec_byte() == 146,
        Opcode::Stream.spec_byte() == 148,
        Opcode::QueryList.spec_byte() == 149,
        Opcode::ToggleStream.spec_byte() == 150,
        Opcode::SchedulingLeds.spec_byte() == 162,
        Opcode::DigitLedsRaw.spec_byte() == 163,
        Opcode::DigitLedsAscii.spec_byte() == 164,
        Opcode::Buttons.spec_byte() == 165,
        Opcode::Schedule.spec_byte() == 167,
        Opcode::Date.spec_byte() == 168,
{
}

/// No two opcodes share a wire byte.
pub proof fn lemma_opcode_bytes_distinct(a: Opcode, b: Opcode)
    ensures
        a.spec_byte() == b.spec_byte() ==> a == b,
{
}

// ---------------------------------------------------------------------------
// Sensor packet IDs and metadata
// ---------------------------------------------------------------------------

/// A sensor packet identifier.
///
/// Group IDs (0–6, 100) request a predefined bundle of packets; individual
/// packet IDs are 7–58. No range validation is performed on construction;
/// unknown IDs are rejected where they are used.
#[derive(Debug, Clone, Copy, PartialEq, Eq, PartialOrd, Ord, Hash, Structural)]
pub struct PacketId(u8);

impl View for PacketId {
    type V = u8;

    closed spec fn view(&self) -> u8 {
        self.0
    }
}

impl PacketId {
    /// Construct a `PacketId` from a raw byte value.
    pub fn new(id: u8) -> (p: Self)
        ensures
            p@ == id,
    {
        PacketId(id)
    }

    /// Return the raw byte value of this packet ID.
    pub fn get(self) -> (id: u8)
        ensures
            id == self@,
    {
        self.0
    }
}

impl From<u8> for PacketId {
    /// Wraps a raw byte as a `PacketId` without validation.
    fn from(id: u8) -> (p: Self)
        ensures
            p@ == id,
    {
        PacketId(id)
    }
}

impl FromSpecImpl<u8> for PacketId {
    open spec fn obeys_from_spec() -> bool {
        true
    }

    closed spec fn from_spec(id: u8) -> Self {
        PacketId(id)
    }
}

impl From<PacketId> for u8 {
    fn from(id: PacketId) -> (v: u8)
        ensures
            v == id@,
    {
        id.0
    }
}

impl FromSpecImpl<PacketId> for u8 {
    open spec fn obeys_from_spec() -> bool {
        true
    }

    closed spec fn from_spec(id: PacketId) -> u8 {
        id.0
    }
}

/// Metadata for a single sensor packet.
#[derive(Debug, Clone, Copy)]
pub struct PacketInfo {
    pub id: u8,
    /// Number of data bytes for this packet (1 or 2).
    pub len: u8,
    /// Whether the value should be interpreted as signed.
    pub signed: bool,
}

/// Individual sensor packets occupy IDs 7–58.
pub open spec fn is_individual_packet(id: u8) -> bool {
    7 <= id <= 58
}

/// Packets whose value is two bytes long (all others in 7–58 are one byte).
pub open spec fn is_two_byte_packet(id: u8) -> bool {
    ||| id == 19 || id == 20 || id == 22 || id == 23
    ||| 25 <= id <= 31
    ||| id == 33
    ||| 39 <= id <= 44
    ||| 46 <= id <= 51
    ||| 54 <= id <= 57
}

/// Packets whose value is a signed integer.
pub open spec fn is_signed_packet(id: u8) -> bool {
    ||| id == 19 || id == 20 || id == 23 || id == 24
    ||| 39 <= id <= 42
    ||| 54 <= id <= 57
}

/// Data length of an individual packet.
pub open spec fn spec_packet_len(id: u8) -> u8 {
    if is_two_byte_packet(id) { 2 } else { 1 }
}

/// Metadata of the individual packet `id`, or `None` outside 7–58.
pub open spec fn spec_packet_info(id: u8) -> Option<PacketInfo> {
    if is_individual_packet(id) {
        Some(PacketInfo { id, len: spec_packet_len(id), signed: is_signed_packet(id) })
    } else {
        None
    }
}

/// The IDs `lo..=hi`, in increasing order.
pub open spec fn id_range(lo: u8, hi: u8) -> Seq<u8> {
    Seq::new((hi - lo + 1) as nat, |i: int| (lo + i) as u8)
}

/// First and last member ID of each group packet.
pub open spec fn spec_group_bounds(group: u8) -> Option<(u8, u8)> {
    if group == 0 { Some((7u8, 26u8)) }
    else if group == 1 { Some((7u8, 16u8)) }
    else if group == 2 { Some((17u8, 20u8)) }
    else if group == 3 { Some((21u8, 26u8)) }
    else if group == 4 { Some((27u8, 34u8)) }
    else if group == 5 { Some((35u8, 42u8)) }
    else if group == 6 { Some((7u8, 42u8)) }
    else if group == 100 { Some((7u8, 58u8)) }
    else { None }
}

/// The member IDs of a group packet (0–6, 100), or `None` for other IDs.
pub open spec fn spec_group_ids(group: u8) -> Option<Seq<u8>> {
    match spec_group_bounds(group) {
        Some((lo, hi)) => Some(id_range(lo, hi)),
        None => None,
    }
}

/// Data length of one entry of a packet list: its own length for an individual packet, 0 otherwise.
pub open spec fn spec_info_len(id: u8) -> nat {
    match spec_packet_info(id) {
        Some(p) => p.len as nat,
        None => 0,
    }
}

/// Total data length of a list of individual packet IDs.
pub open spec fn spec_data_len(ids: Seq<u8>) -> nat
    decreases ids.len(),
{
    if ids.len() == 0 {
        0
    } else {
        spec_data_len(ids.drop_last()) + spec_info_len(ids.last())
    }
}

/// Total data length of a group packet.
pub open spec fn spec_group_data_len(group: u8) -> Option<nat> {
    match spec_group_ids(group) {
        Some(ids) => Some(spec_data_len(ids)),
        None => None,
    }
}

/// Each list entry adds at most two bytes.
pub proof fn lemma_data_len_bound(ids: Seq<u8>)
    ensures
        spec_data_len(ids) <= 2 * ids.len(),
    decreases ids.len(),
{
    if ids.len() > 0 {
        lemma_data_len_bound(ids.drop_last());
    }
}

/// Group members are individual packets, and a group carries at most 104 bytes.
pub proof fn lemma_group_members_individual(group: u8)
    ensures
        spec_group_ids(group) matches Some(ids) ==> {
            &&& 1 <= ids.len() <= 52
            &&& forall|i: int| 0 <= i < ids.len() ==> #[trigger] is_individual_packet(ids[i])
            &&& spec_data_len(ids) <= 104
        },
{
    if let Some(ids) = spec_group_ids(group) {
        lemma_data_len_bound(ids);
    }
}

/// Returns the constituent individual packet IDs for a group packet.
///
/// Returns `None` for non-group IDs (i.e., IDs other than 0–6 and 100).
pub fn group_packet_ids(group: u8) -> (r: Option<&'static [u8]>)
    ensures
        r is Some <==> spec_group_ids(group) is Some,
        r matches Some(ids) ==> ids@ == spec_group_ids(group).unwrap(),
{
    match group {
        0 => {
            let ids: &'static [u8] = &[7u8, 8, 9, 10, 11, 12, 13, 14, 15, 16, 17, 18, 19, 20, 21, 22, 23, 24, 25, 26];
            assert(ids@ =~= id_range(7, 26));
            Some(ids)
        },
        1 => {
            let ids: &'static [u8] = &[7u8, 8, 9, 10, 11, 12, 13, 14, 15, 16];
            assert(ids@ =~= id_range(7, 16));
            Some(ids)
        },
        2 => {
            let ids: &'static [u8] = &[17u8, 18, 19, 20];
            assert(ids@ =~= id_range(17, 20));
            Some(ids)
        },
        3 => {
            let ids: &'static [u8] = &[21u8, 22, 23, 24, 25, 26];
            assert(ids@ =~= id_range(21, 26));
            Some(ids)
        },
        4 => {
            let ids: &'static [u8] = &[27u8, 28, 29, 30, 31, 32, 33, 34];
            assert(ids@ =~= id_range(27, 34));
            Some(ids)
        },
        5 => {
            let ids: &'static [u8] = &[35u8, 36, 37, 38, 39, 40, 41, 42];
            assert(ids@ =~= id_range(35, 42));
            Some(ids)
        },
        6 => {
            let ids: &'static [u8] = &[7u8, 8, 9, 10, 11, 12, 13, 14, 15, 16, 17, 18, 19, 20, 21, 22, 23, 24, 25, 26, 27, 28, 29, 30, 31, 32, 33, 34, 35, 36, 37, 38, 39, 40, 41, 42];
            assert(ids@ =~= id_range(7, 42));
            Some(ids)
        },
        100 => {
            let ids: &'static [u8] = &[7u8, 8, 9, 10, 11, 12, 13, 14, 15, 16, 17, 18, 19, 20, 21, 22, 23, 24, 25, 26, 27, 28, 29, 30, 31, 32, 33, 34, 35, 36, 37, 38, 39, 40, 41, 42, 43, 44, 45, 46, 47, 48, 49, 50, 51, 52, 53, 54, 55, 56, 57, 58];
            assert(ids@ =~= id_range(7, 58));
            Some(ids)
        },
        _ => None,
    }
}

/// Total byte length for the data returned by a group packet request.
///
/// Returns `None` for non-group IDs.
pub fn group_data_len(group: u8) -> (r: Option<usize>)
    ensures
        r is Some <==> spec_group_data_len(group) is Some,
        r matches Some(n) ==> n as nat == spec_group_data_len(group).unwrap(),
{
    let ids = match group_packet_ids(group) {
        Some(ids) => ids,
        None => return None,
    };
    proof { lemma_group_members_individual(group); }
    let mut total: usize = 0;
    let mut i: usize = 0;
    while i < ids.len()
        invariant
            i <= ids@.len(),
            ids@.len() <= 52,
            total as nat == spec_data_len(ids@.take(i as int)),
        decreases ids@.len() - i,
    {
        proof {
            assert(ids@.take(i as int + 1).drop_last() =~= ids@.take(i as int));
            lemma_data_len_bound(ids@.take(i as int));
        }
        if let Some(p) = packet_info_raw(ids[i]) {
            total += p.len as usize;
        }
        i += 1;
    }
    proof { assert(ids@.take(ids@.len() as int) =~= ids@); }
    Some(total)
}

/// Look up metadata for an individual sensor packet by its ID.
///
/// Returns `None` for group IDs (0–6, 100+) and any ID outside the
/// individual range 7–58.
pub fn packet_info(id: u8) -> (r: Option<&'static PacketInfo>)
    ensures
        r is Some <==> spec_packet_info(id) is Some,
        r matches Some(p) ==> spec_packet_info(id) == Some(*p),
{
    packet_info_raw(id)
}

/// Look up packet info by raw `u8` ID.
pub(crate) fn packet_info_raw(id: u8) -> (r: Option<&'static PacketInfo>)
    ensures
        r is Some <==> spec_packet_info(id) is Some,
        r matches Some(p) ==> spec_packet_info(id) == Some(*p),
{
    match id {
        7 => Some(&PacketInfo { id: 7, len: 1, signed: false }),
        8 => Some(&PacketInfo { id: 8, len: 1, signed: false }),
        9 => Some(&PacketInfo { id: 9, len: 1, signed: false }),
        10 => Some(&PacketInfo { id: 10, len: 1, signed: false }),
        11 => Some(&PacketInfo { id: 11, len: 1, signed: false }),
        12 => Some(&PacketInfo { id: 12, len: 1, signed: false }),
        13 => Some(&PacketInfo { id: 13, len: 1, signed: false }),
        14 => Some(&PacketInfo { id: 14, len: 1, signed: false }),
        15 => Some(&PacketInfo { id: 15, len: 1, signed: false }),
        16 => Some(&PacketInfo { id: 16, len: 1, signed: false }),
        17 => Some(&PacketInfo { id: 17, len: 1, signed: false }),
        18 => Some(&PacketInfo { id: 18, len: 1, signed: false }),
        19 => Some(&PacketInfo { id: 19, len: 2, signed: true }),
        20 => Some(&PacketInfo { id: 20, len: 2, signed: true }),
        21 => Some(&PacketInfo { id: 21, len: 1, signed: false }),
        22 => Some(&PacketInfo { id: 22, len: 2, signed: false }),
        23 => Some(&PacketInfo { id: 23, len: 2, signed: true }),
        24 => Some(&PacketInfo { id: 24, len: 1, signed: true }),
        25 => Some(&PacketInfo { id: 25, len: 2, signed: false }),
        26 => Some(&PacketInfo { id: 26, len: 2, signed: false }),
        27 => Some(&PacketInfo { id: 27, len: 2, signed: false }),
        28 => Some(&PacketInfo { id: 28, len: 2, signed: false }),
        29 => Some(&PacketInfo { id: 29, len: 2, signed: false }),
        30 => Some(&PacketInfo { id: 30, len: 2, signed: false }),
        31 => Some(&PacketInfo { id: 31, len: 2, signed: false }),
        32 => Some(&PacketInfo { id: 32, len: 1, signed: false }),
        33 => Some(&PacketInfo { id: 33, len: 2, signed: false }),
        34 => Some(&PacketInfo { id: 34, len: 1, signed: false }),
        35 => Some(&PacketInfo { id: 35, len: 1, signed: false }),
        36 => Some(&PacketInfo { id: 36, len: 1, signed: false }),
        37 => Some(&PacketInfo { id: 37, len: 1, signed: false }),
        38 => Some(&PacketInfo { id: 38, len: 1, signed: false }),
        39 => Some(&PacketInfo { id: 39, len: 2, signed: true }),
        40 => Some(&PacketInfo { id: 40, len: 2, signed: true }),
        41 => Some(&PacketInfo { id: 41, len: 2, signed: true }),
        42 => Some(&PacketInfo { id: 42, len: 2, signed: true }),
        43 => Some(&PacketInfo { id: 43, len: 2, signed: false }),
        44 => Some(&PacketInfo { id: 44, len: 2, signed: false }),
        45 => Some(&PacketInfo { id: 45, len: 1, signed: false }),
        46 => Some(&PacketInfo { id: 46, len: 2, signed: false }),
        47 => Some(&PacketInfo { id: 47, len: 2, signed: false }),
        48 => Some(&PacketInfo { id: 48, len: 2, signed: false }),
        49 => Some(&PacketInfo { id: 49, len: 2, signed: false }),
        50 => Some(&PacketInfo { id: 50, len: 2, signed: false }),
        51 => Some(&PacketInfo { id: 51, len: 2, signed: false }),
        52 => Some(&PacketInfo { id: 52, len: 1, signed: false }),
        53 => Some(&PacketInfo { id: 53, len: 1, signed: false }),
        54 => Some(&PacketInfo { id: 54, len: 2, signed: true }),
        55 => Some(&PacketInfo { id: 55, len: 2, signed: true }),
        56 => Some(&PacketInfo { id: 56, len: 2, signed: true }),
        57 => Some(&PacketInfo { id: 57, len: 2, signed: true }),
        58 => Some(&PacketInfo { id: 58, len: 1, signed: false }),
        _ => None,
    }
}

/// All individual sensor packet definitions (IDs 7–58), in ID order.
pub fn sensor_packets() -> (r: Vec<PacketInfo>)
    ensures
        r@.len() == 52,
        forall|i: int| 0 <= i < 52 ==> spec_packet_info((7 + i) as u8) == Some(#[trigger] r@[i]),
{
    let mut v: Vec<PacketInfo> = Vec::new();
    let mut id: u8 = 7;
    while id <= 58
        invariant
            7 <= id <= 59,
            v@.len() == id - 7,
            forall|i: int| 0 <= i < v@.len() ==> spec_packet_info((7 + i) as u8) == Some(#[trigger] v@[i]),
        decreases 59 - id,
    {
        let p = packet_info_raw(id).unwrap();
        v.push(*p);
        id += 1;
    }
    v
}

/// Total data bytes for group 100 (all sensors).
pub fn all_sensors_data_len() -> (n: usize)
    ensures
        n as nat == spec_data_len(id_range(7, 58)),
{
    let mut total: usize = 0;
    let mut id: u8 = 7;
    while id <= 58
        invariant
            7 <= id <= 59,
            total as nat == spec_data_len(id_range(7, 58).take(id - 7)),
            total <= 2 * (id - 7),
        decreases 59 - id,
    {
        proof {
            let s = id_range(7, 58);
            assert(s.take(id - 6).drop_last() =~= s.take(id - 7));
            assert(s.take(id - 6).last() == id);
        }
        total += packet_info_raw(id).unwrap().len as usize;
        id += 1;
    }
    proof { assert(id_range(7, 58).take(52) =~= id_range(7, 58)); }
    total
}

} // verus!
