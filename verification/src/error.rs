use vstd::prelude::*;

use crate::protocol::DevSpec;

pub use async_hid::HidError;

verus! {

/// The HID transport's error type, carried through unchanged.
#[verifier::external_type_specification]
#[verifier::external_body]
pub struct ExHidError(async_hid::HidError);

/// Why a byte buffer could not be decoded, or a value could not be encoded.
#[derive(Debug, Clone, Copy, PartialEq, Eq, Structural)]
pub enum FrameError {
    /// The buffer ended before a field that had to be read.
    UnexpectedEof,
    /// A leading magic value did not match.
    BadMagic,
    /// A byte did not name any variant of the enumeration stored there.
    NoVariantMatch,
    /// A length did not fit in the one byte that stores it.
    LengthOverflow,
}

/// Errors of the keyboard protocol.
#[derive(Debug)]
pub enum ProtoError {
    /// The HID transport failed.
    HidError(HidError),
    /// A report arrived with a report ID other than the protocol's.
    InvalidReportId(u8),
    /// A frame or record could not be decoded or encoded.
    BadFrame(FrameError),
    /// The response answered another command than the request.
    ResponseMismatch,
    /// No protocol is known for the device.
    NotSupported(DevSpec),
}

pub type ProtoResult<T> = Result<T, ProtoError>;

} // verus!
