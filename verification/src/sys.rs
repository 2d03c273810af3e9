//! Identifiers shared with the native driver library's C interface.

use vstd::prelude::*;

verus! {

/// Model ID of a Roomba 400.
pub const CREATE_MODEL_ROOMBA_400: i32 = 0;
/// Model ID of a Create 1.
pub const CREATE_MODEL_CREATE_1: i32 = 1;
/// Model ID of a Create 2.
pub const CREATE_MODEL_CREATE_2: i32 = 2;

/// OI mode ID: Off.
pub const CREATE_MODE_OFF: i32 = 0;
/// OI mode ID: Passive.
pub const CREATE_MODE_PASSIVE: i32 = 1;
/// OI mode ID: Safe.
pub const CREATE_MODE_SAFE: i32 = 2;
/// OI mode ID: Full.
pub const CREATE_MODE_FULL: i32 = 3;

/// Clean mode ID: default cleaning.
pub const CREATE_CLEAN_DEFAULT: i32 = 0;
/// Clean mode ID: max cleaning.
pub const CREATE_CLEAN_MAX: i32 = 1;
/// Clean mode ID: spot cleaning.
pub const CREATE_CLEAN_SPOT: i32 = 2;

/// Return code: success.
pub const CREATE_OK: i32 = 0;
/// Return code: failure.
pub const CREATE_ERROR: i32 = -1;

} // verus!
