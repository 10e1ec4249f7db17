//! Profile Configuration sub-ID 2 values (M2-115).
use vstd::prelude::*;

verus! {

/// Profile Inquiry.
pub const INQUIRY: u8 = 0x20;

/// Profile Inquiry Reply.
pub const INQUIRY_REPLY: u8 = 0x21;

/// Set Profile On.
pub const SET_ON: u8 = 0x22;

/// Set Profile On Reply.
pub const SET_ON_REPLY: u8 = 0x23;

/// Set Profile Off.
pub const SET_OFF: u8 = 0x24;

/// Set Profile Off Reply.
pub const SET_OFF_REPLY: u8 = 0x25;

} // verus!
