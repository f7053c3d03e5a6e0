//! Error kinds reported by the library.
use vstd::prelude::*;

verus! {

/// Why a parameter operation failed.
#[derive(Clone, Copy, Debug, PartialEq, Eq, Structural)]
pub enum ParamFault {
    /// No parameter of that name in the table of contents.
    NotFound,
    /// The value's type differs from the parameter's type.
    TypeMismatch,
    /// The device answered a write with this error code.
    WriteCode(u8),
    /// The type byte of a table-of-contents entry names no known type.
    UnknownType(u8),
    /// The device answered a persistence command with this error code.
    CommandCode(u8),
    /// The parameter cannot be written.
    ReadOnly,
    /// The parameter has no default value on the device.
    DefaultUnsupported,
}

/// Why a log operation failed.
#[derive(Clone, Copy, Debug, PartialEq, Eq, Structural)]
pub enum LogFault {
    /// The device answered a control command with this status.
    Status(u8),
    /// The value type cannot be logged.
    UnsupportedType,
    /// Every block id of the connection has been handed out.
    BlockIdsExhausted,
    /// The period is not a multiple of 10 ms in [10 ms, 2550 ms].
    InvalidPeriod,
    /// The block is streaming and cannot be changed.
    NotCreated,
    /// The block is not streaming.
    NotStreaming,
}

/// Why a memory operation failed.
#[derive(Clone, Copy, Debug, PartialEq, Eq, Structural)]
pub enum MemoryFault {
    /// The memory is not of the type that the view reads.
    WrongType,
    /// The device answered a request with this status.
    Status(u8),
    /// A CRC stored in the memory does not match its data.
    CrcMismatch,
    /// A checksum stored in the memory does not match its data.
    ChecksumMismatch,
    /// The content or a response does not have the expected layout.
    Malformed,
    /// No memory with that id.
    UnknownId,
    /// The memory is already lent to a view.
    InUse,
    /// The layout version is not supported.
    UnsupportedVersion,
    /// The stored radio speed is not a known speed.
    InvalidRadioSpeed(u8),
}

/// The errors of the library.
#[derive(Clone, Copy, Debug, PartialEq, Eq, Structural)]
pub enum Error {
    /// The device speaks a protocol version outside the supported band.
    ProtocolVersionNotSupported,
    /// A packet was malformed or unexpected.
    ProtocolError,
    /// A parameter operation failed.
    ParamError(ParamFault),
    /// A log operation failed.
    LogError(LogFault),
    /// A memory operation failed.
    MemoryError(MemoryFault),
    /// An argument was out of range; nothing was sent.
    InvalidArgument,
    /// A value or a slice did not have the expected type or length.
    ConversionError,
    /// The transport failed.
    LinkError,
    /// The connection is closed.
    Disconnected,
    /// A table-of-contents lookup found no such variable.
    VariableNotFound,
    /// A deadline passed.
    Timeout,
    /// An app-channel packet would be longer than its MTU.
    AppchannelPacketTooLarge,
}

} // verus!
