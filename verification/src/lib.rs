//! iRobot Create / Roomba Open Interface: a verified, sans-IO wire protocol
//! and a TypeState control layer.

pub mod protocol;
pub mod text;
pub mod transport;
pub mod mode;
pub mod error;
pub mod types;
pub mod requests;
pub mod create;
pub mod node;
pub mod embassy;
pub mod sys;
pub mod prelude;
pub mod midi;
