//! Direct execution: when the guest and the host architecture are the same
//! and the host offers hardware virtualization, blocks may run on a
//! hardware accelerator instead of being translated. Detecting the host,
//! probing the hardware and creating the accelerator happen outside; this
//! module decides from their answers.

use vstd::prelude::*;
use crate::consistency_tests::ExecResult;
use crate::ir::{GuestArch, IRBlock};

verus! {

/// How blocks are to be executed.
#[derive(Debug, Clone, Copy, PartialEq, Eq, Structural)]
pub enum ExecMode {
    Interpreter,
    JIT,
    /// Interpretation with JIT compilation of hot code.
    Hybrid,
    HardwareAssisted,
}

/// Decides whether the guest can run directly on the host.
#[derive(Debug, Clone, Copy)]
pub struct DirectExecutionOptimizer {
    host_arch: GuestArch,
    guest_arch: GuestArch,
    hardware_virtualization_enabled: bool,
    hardware_accel: bool,
}

/// The state of the optimizer.
pub struct DirectView {
    pub host_arch: GuestArch,
    pub guest_arch: GuestArch,
    pub hardware_virtualization_enabled: bool,
    /// A hardware accelerator was created.
    pub hardware_accel: bool,
}

impl View for DirectExecutionOptimizer {
    type V = DirectView;

    closed spec fn view(&self) -> DirectView {
        DirectView {
            host_arch: self.host_arch,
            guest_arch: self.guest_arch,
            hardware_virtualization_enabled: self.hardware_virtualization_enabled,
            hardware_accel: self.hardware_accel,
        }
    }
}

/// An accelerator is only tried for a guest of the host's architecture on a
/// host with hardware virtualization.
pub open spec fn tries_accel(guest: GuestArch, host: GuestArch, hw: bool) -> bool {
    host == guest && hw
}

impl DirectExecutionOptimizer {
    /// Whether to try creating a hardware accelerator for `guest_arch` on a
    /// `host_arch` host with or without hardware virtualization.
    pub fn should_create_accel(guest_arch: GuestArch, host_arch: GuestArch, hardware_virtualization_enabled: bool) -> (b: bool)
        ensures
            b == tries_accel(guest_arch, host_arch, hardware_virtualization_enabled),
    {
        host_arch == guest_arch && hardware_virtualization_enabled
    }

    /// The optimizer for `guest_arch` on a `host_arch` host; `accel_created`
    /// is whether creating the accelerator succeeded, where it was tried
    /// (see `should_create_accel`).
    pub fn new(guest_arch: GuestArch, host_arch: GuestArch, hardware_virtualization_enabled: bool, accel_created: bool) -> (o: Self)
        ensures
            o@ == (DirectView {
                host_arch,
                guest_arch,
                hardware_virtualization_enabled,
                hardware_accel: tries_accel(guest_arch, host_arch, hardware_virtualization_enabled) && accel_created,
            }),
    {
        let hardware_accel = Self::should_create_accel(guest_arch, host_arch, hardware_virtualization_enabled)
            && accel_created;
        DirectExecutionOptimizer { host_arch, guest_arch, hardware_virtualization_enabled, hardware_accel }
    }

    /// Same architecture, and an accelerator is there.
    pub fn can_use_direct_execution(&self) -> (b: bool)
        ensures
            b == (self@.host_arch == self@.guest_arch && self@.hardware_accel),
    {
        self.host_arch == self.guest_arch && self.hardware_accel
    }

    /// Hardware-assisted where direct execution is possible, else JIT.
    pub fn recommended_exec_mode(&self) -> (m: ExecMode)
        ensures
            m == if self@.host_arch == self@.guest_arch && self@.hardware_accel {
                ExecMode::HardwareAssisted
            } else {
                ExecMode::JIT
            },
    {
        if self.can_use_direct_execution() {
            ExecMode::HardwareAssisted
        } else {
            ExecMode::JIT
        }
    }

    /// Runs a block directly. Direct execution of blocks is not available
    /// yet: the answer is always `None`, so the caller falls back to another
    /// engine.
    pub fn execute_directly(&self, block: &IRBlock) -> (r: Option<ExecResult>)
        ensures
            r is None,
    {
        if !self.can_use_direct_execution() {
            return None;
        }
        None
    }

    pub fn host_arch(&self) -> (a: GuestArch)
        ensures
            a == self@.host_arch,
    {
        self.host_arch
    }

    pub fn guest_arch(&self) -> (a: GuestArch)
        ensures
            a == self@.guest_arch,
    {
        self.guest_arch
    }

    pub fn is_same_arch(&self) -> (b: bool)
        ensures
            b == (self@.host_arch == self@.guest_arch),
    {
        self.host_arch == self.guest_arch
    }

    /// Whether the host offers hardware virtualization.
    pub fn hardware_virtualization_enabled(&self) -> (b: bool)
        ensures
            b == self@.hardware_virtualization_enabled,
    {
        self.hardware_virtualization_enabled
    }
}

} // verus!
