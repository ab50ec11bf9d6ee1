//! Error types of other crates that the library carries through unopened, and
//! the one question it asks of an I/O error.

use vstd::prelude::*;

verus! {

/// `std::io::Error`.
#[verifier::external_type_specification]
#[verifier::external_body]
pub struct ExIoError(std::io::Error);

/// `virtio_queue::Error`.
#[verifier::external_type_specification]
#[verifier::external_body]
pub struct ExQueueError(virtio_queue::Error);

/// `anyhow::Error`.
#[verifier::external_type_specification]
#[verifier::external_body]
pub struct ExAnyhowError(anyhow::Error);

/// Whether the kind of an I/O error is `std::io::ErrorKind::Interrupted`.
pub uninterp spec fn io_error_interrupted(error: std::io::Error) -> bool;

/// Asks `std::io::Error::kind` for the kind of `error`. The answer is a function
/// of the error alone and is named `io_error_interrupted`.
#[verifier::external_body]
pub(crate) fn is_interrupted(error: &std::io::Error) -> (interrupted: bool)
    ensures
        interrupted == io_error_interrupted(*error),
{
    error.kind() == std::io::ErrorKind::Interrupted
}

} // verus!
