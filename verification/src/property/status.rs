//! PE status codes for the Set Property Data Reply.
use vstd::prelude::*;

verus! {

/// Success.
pub const OK: u8 = 0x00;

/// Unspecified error.
pub const UNSPECIFIED: u8 = 0x01;

/// The requested resource does not exist.
pub const RESOURCE_NOT_FOUND: u8 = 0x02;

/// The resource is read-only.
pub const READ_ONLY: u8 = 0x03;

/// The provided data could not be processed.
pub const PROCESS_ERROR: u8 = 0x04;

} // verus!
