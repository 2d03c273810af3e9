//! Convenience re-exports of commonly used protocol items.

pub use crate::protocol::error::ProtocolError;
pub use crate::protocol::opcode::Opcode;
pub use crate::protocol::sensor::SensorData;
pub use crate::protocol::stream::StreamParser;
pub use crate::protocol::types::{ChargingState, IrChar, OiMode};
