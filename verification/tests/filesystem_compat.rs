use vm_cross_arch::error::VmError;
use vm_cross_arch::filesystem_compat::{
    DefaultFilesystemOperations, FileDescriptor, FileInfo, FileMode, FilesystemCompatibilityLayer, FilesystemOperations,
    OpenFlags,
};
use vm_cross_arch::ir::GuestArch;

#[test]
fn test_open_flags_from_posix() {
    let flags = OpenFlags::from_posix(0o2 | 0o100 | 0o1000);
    assert!(flags.read);
    assert!(flags.write);
    assert!(flags.create);
    assert!(flags.truncate);
}

#[test]
fn test_file_mode_from_posix() {
    let mode = FileMode::from_posix(0o755);
    assert!(mode.owner_read);
    assert!(mode.owner_write);
    assert!(mode.owner_exec);
    assert!(mode.group_read);
    assert!(!mode.group_write);
    assert!(mode.group_exec);
    assert!(mode.other_read);
    assert!(!mode.other_write);
    assert!(mode.other_exec);
}

#[test]
fn test_filesystem_open_flags() {
    let flags = OpenFlags::from_posix(0o2 | 0o100 | 0o1000);
    assert!(flags.read);
    assert!(flags.write);
    assert!(flags.create);
    assert!(flags.truncate);

    let posix_flags = flags.to_posix();
    assert_eq!(posix_flags & 0o2, 0o2);
    assert_eq!(posix_flags & 0o100, 0o100);
    assert_eq!(posix_flags & 0o1000, 0o1000);
}

#[test]
fn test_file_mode() {
    let mode = FileMode::from_posix(0o755);
    assert!(mode.owner_read);
    assert!(mode.owner_write);
    assert!(mode.owner_exec);
    assert!(mode.group_read);
    assert!(!mode.group_write);
    assert!(mode.group_exec);
    assert!(mode.other_read);
    assert!(!mode.other_write);
    assert!(mode.other_exec);

    let posix_mode = mode.to_posix();
    assert_eq!(posix_mode, 0o755);
}

#[test]
fn open_flags_read_only_and_write_only() {
    let ro = OpenFlags::from_posix(0);
    assert!(ro.read && !ro.write);
    assert_eq!(ro.to_posix(), 0);
    let wo = OpenFlags::from_posix(0o1);
    assert!(!wo.read && wo.write);
    assert_eq!(wo.to_posix(), 0o1);
}

#[test]
fn open_flags_round_trip_keeps_known_bits() {
    let all = 0o2 | 0o100 | 0o200 | 0o1000 | 0o2000 | 0o4000 | 0o4010000 | 0o200000 | 0o400000;
    let flags = OpenFlags::from_posix(all);
    assert_eq!(OpenFlags::from_posix(flags.to_posix()), flags);
}

#[test]
fn file_mode_round_trip_masks_permission_bits() {
    let mode = FileMode::from_posix(0o100644);
    assert_eq!(mode.to_posix(), 0o644);
    assert_eq!(FileMode::from_posix(mode.to_posix()), mode);
}

struct FakeFs {
    next: i32,
}

impl FilesystemOperations for FakeFs {
    fn open(&mut self, _path: &str, _flags: OpenFlags, _mode: FileMode) -> Result<FileDescriptor, VmError> {
        self.next += 1;
        Ok(self.next)
    }
    fn close(&mut self, _fd: FileDescriptor) -> Result<(), VmError> {
        Ok(())
    }
    fn read(&mut self, _fd: FileDescriptor, buf: &mut Vec<u8>) -> Result<usize, VmError> {
        buf.push(1);
        Ok(1)
    }
    fn write(&mut self, _fd: FileDescriptor, buf: &[u8]) -> Result<usize, VmError> {
        Ok(buf.len())
    }
    fn seek(&mut self, _fd: FileDescriptor, offset: i64, _whence: i32) -> Result<u64, VmError> {
        Ok(offset as u64)
    }
    fn stat(&mut self, path: &str) -> Result<FileInfo, VmError> {
        Ok(FileInfo {
            path: path.to_string(),
            fd: -1,
            flags: OpenFlags::default(),
            mode: FileMode::from_posix(0o644),
            size: 10,
            offset: 0,
        })
    }
    fn fstat(&mut self, _fd: FileDescriptor) -> Result<FileInfo, VmError> {
        Err(VmError::NotSupported { feature: "fstat".to_string(), module: "fake".to_string() })
    }
}

#[test]
fn test_path_conversion() {
    let layer = FilesystemCompatibilityLayer::new(
        GuestArch::X86_64,
        "/tmp/guest_root".to_string(),
        Box::new(DefaultFilesystemOperations),
    );

    let host_path = layer.convert_path("/etc/passwd");
    assert!(host_path.contains("tmp/guest_root"));
    assert!(host_path.contains("etc/passwd"));
}

#[test]
fn standard_descriptors_are_open() {
    let layer = FilesystemCompatibilityLayer::new(GuestArch::Arm64, "/r".to_string(), Box::new(DefaultFilesystemOperations));
    let out = layer.get_file_info(1).unwrap();
    assert_eq!(out.path, "/dev/stdout");
    assert!(out.flags.write && !out.flags.read);
    assert_eq!(out.mode.to_posix(), 0o666);
    let inp = layer.get_file_info(0).unwrap();
    assert!(inp.flags.read && !inp.flags.write);
    assert!(layer.get_file_info(3).is_none());
    assert_eq!(layer.convert_path("a/b"), "/r/a/b");
}

#[test]
fn default_operations_report_not_implemented() {
    let mut layer = FilesystemCompatibilityLayer::new(GuestArch::X86_64, "/r".to_string(), Box::new(DefaultFilesystemOperations));
    match layer.open("/x", 0, 0) {
        Err(VmError::NotImplemented { feature, module }) => {
            assert_eq!(feature, "DefaultFilesystemOperations::open");
            assert_eq!(module, "FilesystemCompatibilityLayer");
        },
        other => panic!("unexpected {:?}", other),
    }
    assert!(layer.close(1).is_ok());
    assert!(layer.get_file_info(1).is_some());
    assert!(layer.seek(1, 0, 0).is_err());
}

#[test]
fn opened_files_enter_and_leave_the_table() {
    let mut layer = FilesystemCompatibilityLayer::new(GuestArch::X86_64, "/root".to_string(), Box::new(FakeFs { next: 6 }));
    let fd = layer.open("/etc/hosts", 0o2 | 0o100, 0o600).unwrap();
    assert_eq!(fd, 7);
    let info = layer.get_file_info(7).unwrap();
    assert_eq!(info.path, "/root/etc/hosts");
    assert!(info.flags.read && info.flags.write && info.flags.create);
    assert_eq!(info.mode.to_posix(), 0o600);
    assert_eq!(layer.stat("/etc/hosts").unwrap().path, "/root/etc/hosts");
    assert!(layer.close(7).is_ok());
    assert!(layer.get_file_info(7).is_none());
    assert!(layer.close(2).is_ok());
    assert!(layer.get_file_info(2).is_some());
}

#[test]
fn test_filesystem_path_conversion() {
    let layer = FilesystemCompatibilityLayer::new(
        GuestArch::X86_64,
        "/tmp/guest_root".to_string(),
        Box::new(DefaultFilesystemOperations),
    );

    let host_path = layer.convert_path("/etc/passwd");
    assert!(host_path.contains("tmp/guest_root") || host_path.contains("etc/passwd"));

    let host_path2 = layer.convert_path("relative/path");
    assert!(host_path2.contains("tmp/guest_root") || host_path2.contains("relative/path"));
}

#[test]
fn host_answers_are_recorded_as_given() {
    let mut layer = FilesystemCompatibilityLayer::new(GuestArch::X86_64, "/r".to_string(), Box::new(DefaultFilesystemOperations));
    let flags = OpenFlags::from_posix(0o1);
    let mode = FileMode::from_posix(0o644);
    assert_eq!(layer.record_open("/r/log".to_string(), flags, mode, Ok(9)).unwrap(), 9);
    let info = layer.get_file_info(9).unwrap();
    assert_eq!(info.path, "/r/log");
    assert!(info.flags.write && !info.flags.read);
    assert_eq!(info.mode.to_posix(), 0o644);
    assert_eq!(info.size, 0);

    let refused = VmError::NotImplemented { feature: "x".to_string(), module: "y".to_string() };
    assert!(layer.record_open("/r/other".to_string(), flags, mode, Err(refused.clone())).is_err());
    assert!(layer.get_file_info(10).is_none());

    assert!(layer.record_close(9, Err(refused)).is_err());
    assert!(layer.get_file_info(9).is_some());
    assert!(layer.record_close(9, Ok(())).is_ok());
    assert!(layer.get_file_info(9).is_none());
    assert!(layer.record_close(0, Ok(())).is_ok());
    assert!(layer.get_file_info(0).is_some());
}
