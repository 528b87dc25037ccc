use vstd::prelude::*;

verus! {

/// Declares `std::io::Error` so that transport failures can be carried
/// through unchanged; nothing about its contents is relied on.
#[verifier::external_type_specification]
#[verifier::external_body]
pub struct ExIoError(std::io::Error);

/// Errors of sensor operations.
#[derive(Debug)]
pub enum WitError {
    /// A malformed frame or an invalid parameter; the text says which.
    InvalidParameter(String),
    /// No data arrived within the allotted window.
    Timeout,
    /// The CRC carried by a frame does not match its contents.
    CrcMismatch,
    /// The link-speed scan tried every candidate without an answer.
    SensorNotFound,
    /// A failure of the underlying transport.
    Io(std::io::Error),
}

/// Result type of sensor operations.
pub type WitResult<T> = Result<T, WitError>;

} // verus!
