//! The error type shared by every operation of the crate, and its mapping to and from the
//! numeric status codes of the codec's C interface.

use vstd::prelude::*;

verus! {

/// Status code of the codec for a call that succeeded.
pub const OPUS_OK: i32 = 0;

/// Status code: one or more arguments were invalid.
pub const OPUS_BAD_ARG: i32 = -1;

/// Status code: the supplied buffer cannot hold the result.
pub const OPUS_BUFFER_TOO_SMALL: i32 = -2;

/// Status code: an internal error was detected.
pub const OPUS_INTERNAL_ERROR: i32 = -3;

/// Status code: the compressed data is corrupted.
pub const OPUS_INVALID_PACKET: i32 = -4;

/// Status code: the request number is invalid or unsupported.
pub const OPUS_UNIMPLEMENTED: i32 = -5;

/// Status code: a codec state structure is invalid or already freed.
pub const OPUS_INVALID_STATE: i32 = -6;

/// Status code: memory allocation failed.
pub const OPUS_ALLOC_FAIL: i32 = -7;

/// Why an operation was refused.
#[derive(Debug, Clone, Copy, PartialEq, Eq, Structural)]
pub enum Error {
    /// Bad argument passed to a function.
    BadArg,
    /// Provided buffer was too small.
    BufferTooSmall,
    /// Internal codec error.
    InternalError,
    /// Packet is invalid or unsupported.
    InvalidPacket,
    /// Feature not implemented.
    Unimplemented,
    /// Invalid state.
    InvalidState,
    /// Memory allocation failure.
    AllocFail,
    /// A packet's coding configuration differs from the one a repacketizer already holds.
    IncompatibleFrame,
    /// Accepting a packet would exceed the number of frames one packet may carry.
    CapacityExceeded,
    /// Unknown error code.
    Unknown(i32),
}

impl Error {
    /// The error that a status code stands for.
    pub open spec fn of_code(code: int) -> Error {
        if code == -1 {
            Error::BadArg
        } else if code == -2 {
            Error::BufferTooSmall
        } else if code == -3 {
            Error::InternalError
        } else if code == -4 {
            Error::InvalidPacket
        } else if code == -5 {
            Error::Unimplemented
        } else if code == -6 {
            Error::InvalidState
        } else if code == -7 {
            Error::AllocFail
        } else {
            Error::Unknown(code as i32)
        }
    }

    /// The status code under which the codec reports this error. The two framing errors that
    /// the codec does not tell apart from a corrupted packet share that packet's code.
    pub open spec fn code(self) -> int {
        match self {
            Error::BadArg => -1,
            Error::BufferTooSmall => -2,
            Error::InternalError => -3,
            Error::InvalidPacket => -4,
            Error::Unimplemented => -5,
            Error::InvalidState => -6,
            Error::AllocFail => -7,
            Error::IncompatibleFrame => -4,
            Error::CapacityExceeded => -4,
            Error::Unknown(code) => code as int,
        }
    }

    /// Whether `from_code` can return this value: it is neither a framing refinement nor an
    /// `Unknown` that wraps a code with a named variant.
    pub open spec fn is_canonical(self) -> bool {
        match self {
            Error::IncompatibleFrame => false,
            Error::CapacityExceeded => false,
            Error::Unknown(code) => !(-7 <= code <= -1),
            _ => true,
        }
    }

    /// Map a codec status code to an [`Error`].
    pub fn from_code(code: i32) -> (e: Self)
        ensures
            e == Self::of_code(code as int),
            e.is_canonical(),
    {
        if code == OPUS_BAD_ARG {
            Error::BadArg
        } else if code == OPUS_BUFFER_TOO_SMALL {
            Error::BufferTooSmall
        } else if code == OPUS_INTERNAL_ERROR {
            Error::InternalError
        } else if code == OPUS_INVALID_PACKET {
            Error::InvalidPacket
        } else if code == OPUS_UNIMPLEMENTED {
            Error::Unimplemented
        } else if code == OPUS_INVALID_STATE {
            Error::InvalidState
        } else if code == OPUS_ALLOC_FAIL {
            Error::AllocFail
        } else {
            Error::Unknown(code)
        }
    }

    /// Convert an [`Error`] back to the codec's status code.
    pub fn to_code(self) -> (code: i32)
        ensures
            code == self.code(),
    {
        match self {
            Error::BadArg => OPUS_BAD_ARG,
            Error::BufferTooSmall => OPUS_BUFFER_TOO_SMALL,
            Error::InternalError => OPUS_INTERNAL_ERROR,
            Error::InvalidPacket => OPUS_INVALID_PACKET,
            Error::Unimplemented => OPUS_UNIMPLEMENTED,
            Error::InvalidState => OPUS_INVALID_STATE,
            Error::AllocFail => OPUS_ALLOC_FAIL,
            Error::IncompatibleFrame => OPUS_INVALID_PACKET,
            Error::CapacityExceeded => OPUS_INVALID_PACKET,
            Error::Unknown(code) => code,
        }
    }

    /// The words that describe an error.
    pub open spec fn description(self) -> Seq<char> {
        match self {
            Error::BadArg => "Bad arguments passed to Opus function"@,
            Error::BufferTooSmall => "Buffer too small"@,
            Error::InternalError => "Internal Opus error"@,
            Error::InvalidPacket => "Invalid packet"@,
            Error::Unimplemented => "Unimplemented feature"@,
            Error::InvalidState => "Invalid state"@,
            Error::AllocFail => "Memory allocation failed"@,
            Error::IncompatibleFrame => "Incompatible frame configuration"@,
            Error::CapacityExceeded => "Too many frames for one packet"@,
            Error::Unknown(_) => "Unknown Opus error code"@,
        }
    }

    /// A short description of the error, in English.
    pub fn message(&self) -> (text: &'static str)
        ensures
            text@ == self.description(),
    {
        match self {
            Error::BadArg => "Bad arguments passed to Opus function",
            Error::BufferTooSmall => "Buffer too small",
            Error::InternalError => "Internal Opus error",
            Error::InvalidPacket => "Invalid packet",
            Error::Unimplemented => "Unimplemented feature",
            Error::InvalidState => "Invalid state",
            Error::AllocFail => "Memory allocation failed",
            Error::IncompatibleFrame => "Incompatible frame configuration",
            Error::CapacityExceeded => "Too many frames for one packet",
            Error::Unknown(_) => "Unknown Opus error code",
        }
    }
}

/// Every status code survives the trip through [`Error`]: the code of the error that a code
/// stands for is that code again.
pub proof fn code_round_trip(code: i32)
    ensures
        Error::of_code(code as int).code() == code,
{
}

/// An error that `from_code` can return is recovered from its own code.
pub proof fn error_round_trip(e: Error)
    requires
        e.is_canonical(),
    ensures
        Error::of_code(e.code()) == e,
{
}

} // verus!
