//! Convenient re-exports for common usage.

pub use crate::create::Create;
pub use crate::error::{ConnectError, Error, TransitionError};
pub use crate::mode::{Actuatable, Full, FullControl, Mode, Off, Passive, Safe, SensorReadable};
pub use crate::transport::{BaudConfigurable, Transport};
pub use crate::types::{
    ButtonBits, CleanMode, DayOfWeek, LedIntensity, MotorBits, PowerLedColor, RobotModel, SongNote,
    SongNumber,
};
pub use crate::protocol::opcode::Opcode;
pub use crate::protocol::sensor::SensorData;
pub use crate::protocol::stream::StreamParser;
pub use crate::protocol::types::{BaudRate, OiMode, RadiusMm, VelocityMmPerSec, WheelPwm};
