//! The non blocking result type shared by the device drivers: an operation
//! either completes, fails, or reports that it would have to block.

use nb::Error as WouldBlockOr;
use vstd::prelude::*;

verus! {

/// The error half of `nb::Result`: a failure of the operation, or
/// `WouldBlock` while the device is not ready yet.
#[verifier::external_type_specification]
#[verifier::reject_recursive_types(E)]
pub struct ExNbError<E>(WouldBlockOr<E>);

} // verus!
