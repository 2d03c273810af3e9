//! Private supertraits that seal the mode and capability traits: code outside
//! this crate cannot name them, so cannot add new implementations.

use vstd::prelude::*;

verus! {

/// Seals [`Mode`](super::Mode).
pub trait Sealed {}

/// Seals [`SensorReadable`](super::SensorReadable).
pub trait SensorCapable {}

/// Seals [`Actuatable`](super::Actuatable).
pub trait ActuateCapable {}

/// Seals [`FullControl`](super::FullControl).
pub trait FullCapable {}

} // verus!
