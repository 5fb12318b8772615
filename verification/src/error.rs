//! The error type of the guest-facing layers (decoding, OS compatibility).

use vstd::prelude::*;

verus! {

/// Errors reported to the virtual machine.
#[derive(Debug, Clone, PartialEq, Eq)]
pub enum VmError {
    /// Bytes that do not decode as an instruction.
    DecodeError { message: String, module: String },
    /// A request this layer does not support.
    NotSupported { feature: String, module: String },
    /// An argument outside the accepted values.
    InvalidArgument { argument: String, value: String, reason: String },
    /// A feature without an implementation.
    NotImplemented { feature: String, module: String },
    /// An internal failure.
    Internal { message: String, module: String },
    /// An operation found the machine in a state it does not expect.
    InvalidState { message: String, current: String, expected: String },
    /// A device does not support the operation.
    UnsupportedOperation { device_type: String, operation: String },
    /// The host architecture is none of those supported.
    UnsupportedArch { arch: String, supported: Vec<String> },
}

} // verus!
