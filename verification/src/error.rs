use vstd::prelude::*;

verus! {

/// Errors raised by the protocol layers.
#[derive(Debug, Clone, PartialEq, Eq)]
pub enum ControlError {
    /// A destination buffer cannot hold the encoded bytes.
    BufferTooSmall { needed: usize, available: usize },
    /// The transport was closed.
    Closed,
    /// No device with the given name exists.
    DeviceNotFound(String),
    /// An OSC address failed validation.
    InvalidAddress(String),
    /// Malformed or unsupported wire data.
    InvalidData(String),
    /// An I/O failure, described by its message.
    Io(String),
    /// A value lies outside its permitted range.
    OutOfRange { value: i64, min: i64, max: i64 },
    /// A port is already in use.
    PortBusy(String),
    /// The operation is not supported.
    Unsupported(String),
}

/// Builds an `InvalidData` error carrying `message`.
pub fn invalid_data(message: &str) -> (e: ControlError)
    ensures
        e matches ControlError::InvalidData(s) && s@ == message@,
{
    ControlError::InvalidData(message.to_string())
}

} // verus!
