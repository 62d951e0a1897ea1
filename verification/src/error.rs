//! The failures a read can end in.
use vstd::prelude::*;
use vstd::std_specs::convert::FromSpecImpl;

verus! {

/// `tonic::Status`: the status a remote call ended with. Carried through
/// as it came; nothing is read from it here.
#[verifier::external_type_specification]
#[verifier::external_body]
pub struct ExStatus(tonic::Status);

/// `std::io::Error`. Carried through as it came; nothing is read from it
/// here.
#[verifier::external_type_specification]
#[verifier::external_body]
pub struct ExIoError(std::io::Error);

/// Why a call did not return rows. None of these is retried here.
#[derive(Debug)]
pub enum Error {
    /// No usable credential could be produced.
    AccessTokenError(String),
    /// The root certificate could not be loaded.
    CertificateError(String),
    /// An input or output operation failed.
    IoError(std::io::Error),
    /// The channel could not be set up; the transport's own words.
    TransportError(String),
    /// The row asked for does not exist.
    RowNotFound,
    /// The row could not be written.
    RowWriteFailed,
    /// A decoded row lacks the cell that should hold the object.
    ObjectNotFound(String),
    /// A cell holds bytes that do not decode to the object.
    ObjectCorrupt(String),
    /// The remote stream ended with an error status.
    RpcError(tonic::Status),
    /// The exchange took longer than the configured bound.
    TimeoutError,
}

impl core::convert::From<std::io::Error> for Error {
    fn from(err: std::io::Error) -> (e: Self) {
        Error::IoError(err)
    }
}

impl FromSpecImpl<std::io::Error> for Error {
    open spec fn obeys_from_spec() -> bool {
        true
    }

    open spec fn from_spec(err: std::io::Error) -> Self {
        Error::IoError(err)
    }
}

impl core::convert::From<tonic::Status> for Error {
    fn from(err: tonic::Status) -> (e: Self) {
        Error::RpcError(err)
    }
}

impl FromSpecImpl<tonic::Status> for Error {
    open spec fn obeys_from_spec() -> bool {
        true
    }

    open spec fn from_spec(err: tonic::Status) -> Self {
        Error::RpcError(err)
    }
}

/// What a call returns: its value, or the reason why there is none.
pub type Result<T> = core::result::Result<T, Error>;

} // verus!
