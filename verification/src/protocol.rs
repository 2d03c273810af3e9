//! Sans-IO implementation of the iRobot Create / Roomba Open Interface wire
//! protocol: command encoding, sensor decoding and stream framing, all on
//! plain byte slices.

use vstd::prelude::*;

pub mod command;
pub mod error;
pub mod opcode;
pub mod sensor;
pub mod stream;
pub mod types;
pub mod prelude;

verus! {

/// Maximum number of notes in a single song definition (OI spec §5.13).
pub const MAX_SONG_NOTES: usize = 16;

/// Maximum number of packet IDs in a single query-list or stream command
/// (the count byte is a `u8`, so the protocol cap is 255).
pub const MAX_PACKET_IDS: usize = 255;

} // verus!
