//! Building a cross-architecture VM: the guest architecture, and optionally
//! the memory size and the execution mode that replace the defaults of the
//! guest's automatic configuration.

use vstd::prelude::*;
use crate::direct_execution::ExecMode;
use crate::ir::GuestArch;

verus! {

/// What a VM is to be built with.
#[derive(Debug, Clone, Copy, PartialEq, Eq, Structural)]
pub struct CrossArchVmBuilder {
    pub guest_arch: GuestArch,
    pub memory_size: Option<usize>,
    pub exec_mode: Option<ExecMode>,
}

impl CrossArchVmBuilder {
    /// A builder for `guest_arch` that keeps the default memory size and
    /// execution mode.
    pub fn new(guest_arch: GuestArch) -> (b: Self)
        ensures
            b == (CrossArchVmBuilder { guest_arch, memory_size: None, exec_mode: None }),
    {
        CrossArchVmBuilder { guest_arch, memory_size: None, exec_mode: None }
    }

    /// Sets the memory size.
    pub fn memory_size(self, size: usize) -> (b: Self)
        ensures
            b == (CrossArchVmBuilder { memory_size: Some(size), ..self }),
    {
        CrossArchVmBuilder { memory_size: Some(size), ..self }
    }

    /// Sets the execution mode.
    pub fn exec_mode(self, mode: ExecMode) -> (b: Self)
        ensures
            b == (CrossArchVmBuilder { exec_mode: Some(mode), ..self }),
    {
        CrossArchVmBuilder { exec_mode: Some(mode), ..self }
    }

    /// The execution mode of the built VM: the one set, else the mode of the
    /// automatic configuration.
    pub fn resolve_exec_mode(&self, configured: ExecMode) -> (m: ExecMode)
        ensures
            m == match self.exec_mode {
                Some(mode) => mode,
                None => configured,
            },
    {
        match self.exec_mode {
            Some(mode) => mode,
            None => configured,
        }
    }
}

} // verus!
