//! Operating-system support: the system calls that the Linux handler
//! serves, the devices the system layer emulates, and the queue of raised
//! interrupt lines. Reading guest memory, printing guest output and running
//! interrupt handlers is the job of the layers around.

use vstd::prelude::*;
use crate::consistency_tests::{hex, push_hex};
use crate::error::VmError;
use crate::ir::GuestAddr;
use crate::text::{dec, push_text, push_u64, text};

verus! {

/// Devices that the system layer emulates.
#[derive(Debug, Clone, Copy, PartialEq, Eq, Structural, Hash)]
pub enum DeviceType {
    VirtioBlk,
    VirtioNet,
    VirtioConsole,
    Rtc,
    Uart,
}

/// What a system call asks for.
#[derive(Debug, Clone, Copy, PartialEq, Eq, Structural)]
pub enum SyscallRequest {
    /// `write` (number 1): `count` bytes at guest address `buf_addr` to the
    /// file descriptor `fd` (the low 32 bits of the first argument).
    Write { fd: u32, buf_addr: u64, count: usize },
    /// `exit` (number 60) with the low 32 bits of the first argument.
    Exit { code: i32 },
    /// Any other number; it is answered with 0.
    Unhandled { number: u64 },
}

/// The Linux system-call handler; it keeps no state.
#[derive(Debug, Clone, Copy)]
pub struct LinuxSyscallHandler {}

/// The request of system call `num` with arguments `args` (`args` holds as
/// many arguments as the call reads).
pub open spec fn request_of(num: u64, args: Seq<u64>) -> SyscallRequest {
    if num == 1 {
        SyscallRequest::Write { fd: args[0] as u32, buf_addr: args[1], count: args[2] as usize }
    } else if num == 60 {
        SyscallRequest::Exit { code: args[0] as i32 }
    } else {
        SyscallRequest::Unhandled { number: num }
    }
}

/// The number of arguments that system call `num` reads.
pub open spec fn args_needed(num: u64) -> nat {
    if num == 1 {
        3
    } else if num == 60 {
        1
    } else {
        0
    }
}

impl LinuxSyscallHandler {
    pub fn new() -> (h: Self)
        ensures
            h == (LinuxSyscallHandler {}),
    {
        LinuxSyscallHandler {}
    }

    /// Decodes system call `syscall_num` with its arguments.
    pub fn decode_syscall(&self, syscall_num: u64, args: &[u64]) -> (r: SyscallRequest)
        requires
            args@.len() >= args_needed(syscall_num),
        ensures
            r == request_of(syscall_num, args@),
    {
        if syscall_num == 1 {
            SyscallRequest::Write { fd: args[0] as u32, buf_addr: args[1], count: args[2] as usize }
        } else if syscall_num == 60 {
            SyscallRequest::Exit { code: args[0] as i32 }
        } else {
            SyscallRequest::Unhandled { number: syscall_num }
        }
    }

    /// The answer to a `write` whose `count` bytes were read from guest
    /// memory: the count, for standard output and standard error; any other
    /// descriptor is an unsupported operation of the system-call device.
    pub fn complete_write(&self, fd: u32, count: usize) -> (r: Result<u64, VmError>)
        ensures
            fd == 1 || fd == 2 ==> r == Ok::<u64, VmError>(count as u64),
            !(fd == 1 || fd == 2) ==> r is Err && is_unsupported_write(fd, r->Err_0),
    {
        if fd == 1 || fd == 2 {
            Ok(count as u64)
        } else {
            let mut operation = text("write fd ");
            push_u64(&mut operation, fd as u64);
            Err(VmError::UnsupportedOperation { device_type: text("Syscall"), operation })
        }
    }

    /// The answer to a system call other than `write`: 0.
    pub fn complete_other(&self, request: SyscallRequest) -> (r: Result<u64, VmError>)
        requires
            !(request is Write),
        ensures
            r == Ok::<u64, VmError>(0),
    {
        Ok(0)
    }
}

/// Guest memory as the system-call handler sees it: address translation
/// and reads of physical memory.
pub trait GuestMemory {
    /// The physical address of guest address `addr` for a read.
    fn translate(&mut self, addr: GuestAddr) -> Result<u64, VmError>;

    /// Reads `buf.len()` bytes at physical address `paddr` into `buf`.
    fn read_bulk(&mut self, paddr: u64, buf: &mut Vec<u8>) -> Result<(), VmError>;
}

/// A handler of guest system calls.
pub trait SyscallHandler {
    fn handle_syscall(&mut self, syscall_num: u64, args: &[u64], mmu: &mut dyn GuestMemory) -> (r: Result<u64, VmError>)
        requires
            args@.len() >= args_needed(syscall_num),
    ;
}

/// A device that the system layer emulates.
pub trait DeviceEmulator {
    fn read(&mut self, offset: u64, size: usize) -> Result<Vec<u8>, VmError>;

    fn write(&mut self, offset: u64, data: &[u8]) -> Result<(), VmError>;

    fn device_type(&self) -> DeviceType;
}

/// The text that the derived `Debug` of `VmError` renders for an error; it
/// depends on the error's value alone.
pub uninterp spec fn vm_error_text(e: VmError) -> Seq<char>;

/// The `Debug` rendering of an error, for the text of the error that wraps
/// it. Calls `format!("{:?}")`; the text is claimed to be `vm_error_text`
/// of the error and nothing more.
#[verifier::external_body]
fn vm_error_debug(e: &VmError) -> (s: String)
    ensures
        s@ == vm_error_text(*e),
{
    format!("{:?}", e)
}

/// The `Internal` error of the system-call layer whose message starts with
/// `head`.
pub open spec fn is_os_internal(e: VmError, head: Seq<char>) -> bool {
    e matches VmError::Internal { message, module } && message@.len() >= head.len() && message@.subrange(0, head.len() as int)
        == head && module@ == "os_support"@
}

/// The `Internal` error of the system-call layer with message `head`, `": "`
/// and the `Debug` text of the memory error `cause`.
pub open spec fn is_os_failure(e: VmError, head: Seq<char>, cause: VmError) -> bool {
    e matches VmError::Internal { message, module } && message@ == head + ": "@ + vm_error_text(cause) && module@
        == "os_support"@
}

/// `e` is the error of a failed translation of `buf_addr`, or of a failed
/// read of `count` bytes at the physical address it translated to, wrapping
/// the error that guest memory gave.
pub open spec fn memory_failure(buf_addr: u64, count: nat, e: VmError) -> bool {
    ||| exists|cause: VmError| #[trigger] is_os_failure(e, "Failed to translate address 0x"@ + hex(buf_addr as nat), cause)
    ||| exists|paddr: u64, cause: VmError| #[trigger] is_os_failure(
        e,
        "Failed to read "@ + dec(count) + " bytes from address 0x"@ + hex(paddr as nat),
        cause,
    )
}

/// `e` is the error of a `write` to descriptor `fd`, which is neither
/// standard output nor standard error.
pub open spec fn is_unsupported_write(fd: u32, e: VmError) -> bool {
    e matches VmError::UnsupportedOperation { device_type, operation } && device_type@ == "Syscall"@ && operation@
        == "write fd "@ + dec(fd as nat)
}

/// The error of a failed translation of `addr`.
fn translate_failure(addr: u64, e: &VmError) -> (err: VmError)
    ensures
        is_os_failure(err, "Failed to translate address 0x"@ + hex(addr as nat), *e),
{
    let mut message = text("Failed to translate address 0x");
    push_hex(&mut message, addr);
    let ghost head = message@;
    push_text(&mut message, ": ");
    let detail = vm_error_debug(e);
    push_text(&mut message, detail.as_str());
    proof {
        reveal_strlit(": ");
        assert(message@ =~= head + ": "@ + vm_error_text(*e));
    }
    VmError::Internal { message, module: text("os_support") }
}

/// The error of a failed read of `count` bytes at `paddr`.
fn read_failure(count: usize, paddr: u64, e: &VmError) -> (err: VmError)
    ensures
        is_os_failure(err, "Failed to read "@ + dec(count as nat) + " bytes from address 0x"@ + hex(paddr as nat), *e),
{
    let mut message = text("Failed to read ");
    push_u64(&mut message, count as u64);
    push_text(&mut message, " bytes from address 0x");
    push_hex(&mut message, paddr);
    let ghost head = message@;
    push_text(&mut message, ": ");
    let detail = vm_error_debug(e);
    push_text(&mut message, detail.as_str());
    proof {
        reveal_strlit(": ");
        assert(message@ =~= head + ": "@ + vm_error_text(*e));
    }
    VmError::Internal { message, module: text("os_support") }
}

impl SyscallHandler for LinuxSyscallHandler {
    /// `write` translates the buffer address and reads the `count` bytes
    /// (a failure of either is an `Internal` error of this layer), then
    /// answers as `complete_write`; every other call is answered with 0.
    fn handle_syscall(&mut self, syscall_num: u64, args: &[u64], mmu: &mut dyn GuestMemory) -> (r: Result<u64, VmError>)
        ensures
            syscall_num != 1 ==> r == Ok::<u64, VmError>(0),
            syscall_num == 1 && r is Ok ==> (args@[0] as u32 == 1 || args@[0] as u32 == 2) && r == Ok::<u64, VmError>(
                (args@[2] as usize) as u64,
            ),
            syscall_num == 1 && !(args@[0] as u32 == 1 || args@[0] as u32 == 2) ==> r is Err,
            syscall_num == 1 && r is Err ==> memory_failure(args@[1], (args@[2] as usize) as nat, r->Err_0) || (!(
            args@[0] as u32 == 1 || args@[0] as u32 == 2) && is_unsupported_write(args@[0] as u32, r->Err_0)),
    {
        match self.decode_syscall(syscall_num, args) {
            SyscallRequest::Write { fd, buf_addr, count } => {
                let phys_addr = match mmu.translate(buf_addr) {
                    Ok(p) => p,
                    Err(e) => {
                        return Err(translate_failure(buf_addr, &e));
                    },
                };
                let mut buf: Vec<u8> = Vec::new();
                let mut i: usize = 0;
                while i < count
                    invariant
                        i <= count,
                        buf@.len() == i,
                    decreases count - i,
                {
                    buf.push(0);
                    i += 1;
                }
                match mmu.read_bulk(phys_addr, &mut buf) {
                    Ok(()) => {},
                    Err(e) => {
                        return Err(read_failure(count, phys_addr, &e));
                    },
                }
                self.complete_write(fd, count)
            },
            request => self.complete_other(request),
        }
    }
}

impl Default for LinuxSyscallHandler {
    fn default() -> (h: Self)
        ensures
            h == (LinuxSyscallHandler {}),
    {
        Self::new()
    }
}

/// Raised interrupt lines waiting to be handled, and the lines that have a
/// handler.
pub struct InterruptController {
    handled_lines: Vec<u32>,
    pending_interrupts: Vec<u32>,
}

impl InterruptController {
    /// The raised lines, in the order they were raised.
    pub closed spec fn pending(&self) -> Seq<u32> {
        self.pending_interrupts@
    }

    /// The lines with a handler.
    pub closed spec fn handled(&self) -> Set<u32> {
        self.handled_lines@.to_set()
    }

    pub fn new() -> (c: Self)
        ensures
            c.pending() == Seq::<u32>::empty(),
            c.handled() == Set::<u32>::empty(),
    {
        let c = InterruptController { handled_lines: Vec::new(), pending_interrupts: Vec::new() };
        assert(c.handled_lines@.to_set() =~= Set::<u32>::empty());
        c
    }

    /// Notes that line `irq` has a handler.
    pub fn register_handler(&mut self, irq: u32)
        ensures
            final(self).pending() == old(self).pending(),
            final(self).handled() == old(self).handled().insert(irq),
    {
        self.handled_lines.push(irq);
        assert(self.handled_lines@.to_set() =~= old(self).handled_lines@.to_set().insert(irq)) by {
            assert forall|x: u32| #[trigger] self.handled_lines@.contains(x) <==> (old(self).handled_lines@.contains(x) || x == irq) by {
                crate::keyed::lemma_push_contains(old(self).handled_lines@, irq, x);
            }
        }
    }

    /// Raises line `irq`.
    pub fn trigger_interrupt(&mut self, irq: u32)
        ensures
            final(self).pending() == old(self).pending().push(irq),
            final(self).handled() == old(self).handled(),
    {
        self.pending_interrupts.push(irq);
    }

    /// The number of raised lines.
    pub fn pending_count(&self) -> (n: usize)
        ensures
            n == self.pending().len(),
    {
        self.pending_interrupts.len()
    }

    /// Takes the most recently raised line, with whether it has a handler
    /// to run.
    pub fn next_interrupt(&mut self) -> (r: Option<(u32, bool)>)
        ensures
            final(self).handled() == old(self).handled(),
            old(self).pending().len() == 0 ==> r is None && final(self).pending() == old(self).pending(),
            old(self).pending().len() > 0 ==> r == Some((old(self).pending().last(), old(self).handled().contains(old(self).pending().last())))
                && final(self).pending() == old(self).pending().drop_last(),
    {
        match self.pending_interrupts.pop() {
            Some(irq) => {
                let mut handled = false;
                let mut i: usize = 0;
                while i < self.handled_lines.len()
                    invariant
                        i <= self.handled_lines@.len(),
                        handled == (exists|k: int| 0 <= k < i && self.handled_lines@[k] == irq),
                    decreases self.handled_lines.len() - i,
                {
                    if self.handled_lines[i] == irq {
                        handled = true;
                    }
                    i += 1;
                }
                proof {
                    if handled {
                        let k = choose|k: int| 0 <= k < self.handled_lines@.len() && self.handled_lines@[k] == irq;
                        assert(self.handled_lines@.contains(irq));
                    }
                }
                Some((irq, handled))
            },
            None => None,
        }
    }
}

impl Default for InterruptController {
    fn default() -> (c: Self)
        ensures
            c.pending() == Seq::<u32>::empty(),
            c.handled() == Set::<u32>::empty(),
    {
        Self::new()
    }
}

} // verus!
