use vm_cross_arch::error::VmError;
use vm_cross_arch::os_support::{GuestMemory, InterruptController, LinuxSyscallHandler, SyscallHandler, SyscallRequest};
use vm_cross_arch::refactored_encoder::{AccessType, AccessWidth, EncodingError, RefactoredArchEncoder};
use vm_cross_arch::encoding::Architecture;

/// Flat guest memory of a given size; addresses translate to themselves.
struct SoftMemory {
    bytes: Vec<u8>,
}

impl SoftMemory {
    fn new(size: usize) -> Self {
        SoftMemory { bytes: vec![0; size] }
    }
}

impl GuestMemory for SoftMemory {
    fn translate(&mut self, addr: u64) -> Result<u64, VmError> {
        if (addr as usize) < self.bytes.len() {
            Ok(addr)
        } else {
            Err(VmError::InvalidArgument { argument: "addr".to_string(), value: addr.to_string(), reason: "unmapped".to_string() })
        }
    }

    fn read_bulk(&mut self, paddr: u64, buf: &mut Vec<u8>) -> Result<(), VmError> {
        let start = paddr as usize;
        let end = start + buf.len();
        if end > self.bytes.len() {
            return Err(VmError::InvalidArgument { argument: "len".to_string(), value: end.to_string(), reason: "past end".to_string() });
        }
        buf.copy_from_slice(&self.bytes[start..end]);
        Ok(())
    }
}

#[test]
fn test_linux_syscall_handler() {
    let mut handler = LinuxSyscallHandler::new();
    let mut mmu = SoftMemory::new(1024);
    // exit system call
    let result = handler.handle_syscall(60, &[0], &mut mmu);
    assert!(result.is_ok());
    assert_eq!(handler.decode_syscall(60, &[0]), SyscallRequest::Exit { code: 0 });
}

#[test]
fn syscall_write_reads_guest_memory_first() {
    let mut handler = LinuxSyscallHandler::new();
    let mut mmu = SoftMemory::new(1024);
    assert_eq!(handler.handle_syscall(1, &[1, 0x10, 5], &mut mmu), Ok(5));
    assert!(matches!(handler.handle_syscall(1, &[9, 0x10, 5], &mut mmu), Err(VmError::UnsupportedOperation { .. })));
    match handler.handle_syscall(1, &[1, 0x1000, 5], &mut mmu) {
        Err(VmError::Internal { message, module }) => {
            assert!(message.starts_with("Failed to translate address 0x1000: "));
            assert_eq!(module, "os_support");
        },
        other => panic!("unexpected {:?}", other),
    }
    match handler.handle_syscall(1, &[2, 0x3f0, 100], &mut mmu) {
        Err(VmError::Internal { message, .. }) => {
            assert!(message.starts_with("Failed to read 100 bytes from address 0x3f0: "));
        },
        other => panic!("unexpected {:?}", other),
    }
    assert_eq!(handler.handle_syscall(39, &[], &mut mmu), Ok(0));
}

#[test]
fn os_support_test_interrupt_controller() {
    let mut controller = InterruptController::new();
    controller.trigger_interrupt(1);
    assert_eq!(controller.pending_count(), 1);
}

#[test]
fn syscall_write_answers_count_for_stdout_only() {
    let handler = LinuxSyscallHandler::default();
    let request = handler.decode_syscall(1, &[1, 0x4000, 12]);
    assert_eq!(request, SyscallRequest::Write { fd: 1, buf_addr: 0x4000, count: 12 });
    assert_eq!(handler.complete_write(1, 12), Ok(12));
    assert_eq!(handler.complete_write(2, 3), Ok(3));
    match handler.complete_write(7, 3) {
        Err(VmError::UnsupportedOperation { device_type, operation }) => {
            assert_eq!(device_type, "Syscall");
            assert_eq!(operation, "write fd 7");
        },
        other => panic!("unexpected {:?}", other),
    }
    assert_eq!(handler.decode_syscall(39, &[]), SyscallRequest::Unhandled { number: 39 });
    assert_eq!(handler.complete_other(SyscallRequest::Unhandled { number: 39 }), Ok(0));
}

#[test]
fn interrupts_come_out_last_raised_first() {
    let mut c = InterruptController::new();
    c.register_handler(4);
    c.trigger_interrupt(3);
    c.trigger_interrupt(4);
    assert_eq!(c.next_interrupt(), Some((4, true)));
    assert_eq!(c.next_interrupt(), Some((3, false)));
    assert_eq!(c.next_interrupt(), None);
    assert_eq!(c.pending_count(), 0);
}

#[test]
fn test_refactored_encoder_creation() {
    let encoder = RefactoredArchEncoder::new(Architecture::X86_64);
    assert!(encoder.is_ok());
}

#[test]
fn test_arithmetic_encoding() {
    let encoder = RefactoredArchEncoder::new(Architecture::X86_64).unwrap();
    let result = encoder.encode_arithmetic_op(0, 1, 2, "add");
    assert!(result.is_ok());

    let instructions = result.unwrap();
    assert!(!instructions.is_empty());
}

#[test]
fn test_memory_encoding() {
    let encoder = RefactoredArchEncoder::new(Architecture::X86_64).unwrap();
    let result = encoder.encode_memory_op(3, 4, 0x1000, AccessWidth::Word, AccessType::Read);
    assert!(result.is_ok());

    let instructions = result.unwrap();
    assert!(!instructions.is_empty());
}

#[test]
fn refactored_arithmetic_bytes_per_target() {
    let x86 = RefactoredArchEncoder::new(Architecture::X86_64).unwrap();
    let v = x86.encode_arithmetic_op(0, 1, 2, "add").unwrap();
    assert_eq!(v.len(), 1);
    assert_eq!(v[0].bytes, vec![0x48, 0x01, 0xD0]);
    assert_eq!(v[0].length, 3);
    assert_eq!(v[0].mnemonic, "add");
    assert!(!v[0].is_memory_op);
    let arm = RefactoredArchEncoder::new(Architecture::ARM64).unwrap();
    assert_eq!(arm.encode_arithmetic_op(0, 1, 2, "add").unwrap()[0].bytes, vec![0x20, 0x00, 0x02, 0x8B]);
    let rv = RefactoredArchEncoder::new(Architecture::RISCV64).unwrap();
    assert_eq!(rv.encode_arithmetic_op(0, 1, 2, "add").unwrap()[0].bytes, vec![0x33, 0x80, 0x20, 0x00]);
    assert_eq!(x86.encode_arithmetic_op(0, 1, 2, "mul").unwrap_err(), EncodingError::InvalidFormat);
}

#[test]
fn refactored_memory_bytes() {
    let x86 = RefactoredArchEncoder::new(Architecture::X86_64).unwrap();
    let v = x86.encode_memory_op(3, 4, 0x1000, AccessWidth::Word, AccessType::Read).unwrap();
    assert_eq!(v[0].bytes, vec![0x8B, 0x9C, 0x00, 0x10, 0x00, 0x00]);
    assert_eq!(v[0].mnemonic, "mov");
    assert!(v[0].is_memory_op);
    let w = x86.encode_memory_op(3, 4, 0, AccessWidth::Byte, AccessType::Write).unwrap();
    assert_eq!(w[0].bytes, vec![0x40, 0x88, 0x1C]);
    assert_eq!(x86.encode_memory_op(3, 4, 0, AccessWidth::Word, AccessType::Other).unwrap_err(), EncodingError::InvalidFormat);
}
