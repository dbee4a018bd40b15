//! Errors of a VM.
use vstd::prelude::*;

verus! {

/// Why an operation on a VM failed. `E` is the error type of the host layer
/// (vCPU, address space, devices); its errors pass through unchanged.
#[derive(Debug, PartialEq, Eq)]
pub enum VmError<E> {
    /// An argument or a configuration value is not acceptable.
    InvalidInput,
    /// The VM is in a state that does not allow the operation.
    BadState,
    /// The hardware cannot do what was asked.
    Unsupported,
    /// The host layer failed.
    Host(E),
}

} // verus!
