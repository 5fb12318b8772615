//! POSIX open flags and file modes, converted between their bit encodings and
//! structured form, and a table of the guest's open files over a host
//! file system, with guest paths placed under a root directory.

use vstd::prelude::*;
use crate::error::VmError;
use crate::ir::GuestArch;
use crate::keyed::{get, has_key, lemma_pos, lemma_put, lemma_remove_key, pos, put, remove_key, unique};
use crate::text::text;

verus! {

/// File descriptor as seen by the guest.
pub type FileDescriptor = i32;

/// Structured form of the POSIX `open` flags.
#[derive(Debug, Clone, Copy, PartialEq, Eq)]
pub struct OpenFlags {
    pub read: bool,
    pub write: bool,
    pub create: bool,
    pub truncate: bool,
    pub append: bool,
    pub exclusive: bool,
    pub nonblock: bool,
    pub sync: bool,
    pub directory: bool,
    pub no_follow: bool,
}

pub open spec fn bit_set(x: u32, mask: u32) -> bool {
    x & mask != 0
}

/// The access mode field (`O_ACCMODE`) of a flags word.
pub open spec fn access_mode(flags: u32) -> u32 {
    flags & 3
}

/// What `OpenFlags::from_posix(flags)` produces.
pub open spec fn spec_open_flags(flags: u32) -> OpenFlags {
    OpenFlags {
        read: access_mode(flags) != 1,
        write: access_mode(flags) != 0,
        create: bit_set(flags, 0o100),
        truncate: bit_set(flags, 0o1000),
        append: bit_set(flags, 0o2000),
        exclusive: bit_set(flags, 0o400),
        nonblock: bit_set(flags, 0o4000),
        sync: bit_set(flags, 0o4010000),
        directory: bit_set(flags, 0o200000),
        no_follow: bit_set(flags, 0o400000),
    }
}

/// The POSIX flags word that `to_posix` produces for `f`.
pub open spec fn spec_open_flags_bits(f: OpenFlags) -> u32 {
    (if f.read && f.write { 0o2u32 } else if f.write { 0o1u32 } else { 0u32 })
        | (if f.create { 0o100u32 } else { 0 })
        | (if f.truncate { 0o1000u32 } else { 0 })
        | (if f.append { 0o2000u32 } else { 0 })
        | (if f.exclusive { 0o400u32 } else { 0 })
        | (if f.nonblock { 0o4000u32 } else { 0 })
        | (if f.sync { 0o4010000u32 } else { 0 })
        | (if f.directory { 0o200000u32 } else { 0 })
        | (if f.no_follow { 0o400000u32 } else { 0 })
}

impl OpenFlags {
    /// Decodes a POSIX `open` flags word. Access mode 0 is read-only, 1 is
    /// write-only, and 2 or 3 is read-write.
    pub fn from_posix(flags: u32) -> (r: Self)
        ensures
            r == spec_open_flags(flags),
    {
        let read = (flags & 0o3) != 0o1;
        let write = (flags & 0o3) != 0o0;
        OpenFlags {
            read,
            write,
            create: (flags & 0o100) != 0,
            truncate: (flags & 0o1000) != 0,
            append: (flags & 0o2000) != 0,
            exclusive: (flags & 0o400) != 0,
            nonblock: (flags & 0o4000) != 0,
            sync: (flags & 0o4010000) != 0,
            directory: (flags & 0o200000) != 0,
            no_follow: (flags & 0o400000) != 0,
        }
    }

    /// Encodes the flags as a POSIX `open` flags word.
    pub fn to_posix(&self) -> (r: u32)
        ensures
            r == spec_open_flags_bits(*self),
    {
        let acc: u32 = if self.read && self.write {
            0o2
        } else if self.write {
            0o1
        } else {
            0
        };
        let create: u32 = if self.create { 0o100 } else { 0 };
        let truncate: u32 = if self.truncate { 0o1000 } else { 0 };
        let append: u32 = if self.append { 0o2000 } else { 0 };
        let exclusive: u32 = if self.exclusive { 0o400 } else { 0 };
        let nonblock: u32 = if self.nonblock { 0o4000 } else { 0 };
        let sync: u32 = if self.sync { 0o4010000 } else { 0 };
        let directory: u32 = if self.directory { 0o200000 } else { 0 };
        let no_follow: u32 = if self.no_follow { 0o400000 } else { 0 };
        acc | create | truncate | append | exclusive | nonblock | sync | directory | no_follow
    }
}

impl Default for OpenFlags {
    /// Read-only, nothing else set.
    fn default() -> (f: Self)
        ensures
            f == (OpenFlags {
                read: true,
                write: false,
                create: false,
                truncate: false,
                append: false,
                exclusive: false,
                nonblock: false,
                sync: false,
                directory: false,
                no_follow: false,
            }),
    {
        OpenFlags {
            read: true,
            write: false,
            create: false,
            truncate: false,
            append: false,
            exclusive: false,
            nonblock: false,
            sync: false,
            directory: false,
            no_follow: false,
        }
    }
}

/// Converting structured flags to a POSIX word and back gives the same
/// flags, for every flag set that asks for read or write access (with
/// neither, the word says read-only and reading comes back set).
pub proof fn lemma_open_flags_round_trip(f: OpenFlags)
    requires
        f.read || f.write,
    ensures
        spec_open_flags(spec_open_flags_bits(f)) == f,
{
    let (r, w, c, t, a, e, n, s, d, nf) = (
        f.read, f.write, f.create, f.truncate, f.append, f.exclusive, f.nonblock, f.sync,
        f.directory, f.no_follow,
    );
    let x = spec_open_flags_bits(f);
    assert(
        ((x & 3) != 1) == r && ((x & 3) != 0) == w && (x & 0o100 != 0) == c
        && (x & 0o1000 != 0) == t && (x & 0o2000 != 0) == a && (x & 0o400 != 0) == e
        && (x & 0o4000 != 0) == n && (x & 0o4010000 != 0) == s && (x & 0o200000 != 0) == d
        && (x & 0o400000 != 0) == nf
    ) by (bit_vector)
        requires
            r || w,
            x == (if r && w { 0o2u32 } else if w { 0o1u32 } else { 0u32 })
                | (if c { 0o100u32 } else { 0 })
                | (if t { 0o1000u32 } else { 0 })
                | (if a { 0o2000u32 } else { 0 })
                | (if e { 0o400u32 } else { 0 })
                | (if n { 0o4000u32 } else { 0 })
                | (if s { 0o4010000u32 } else { 0 })
                | (if d { 0o200000u32 } else { 0 })
                | (if nf { 0o400000u32 } else { 0 }),
    ;
}

/// Structured form of a POSIX file mode (permission bits plus
/// set-user-id, set-group-id and sticky).
#[derive(Debug, Clone, Copy, PartialEq, Eq)]
pub struct FileMode {
    pub owner_read: bool,
    pub owner_write: bool,
    pub owner_exec: bool,
    pub group_read: bool,
    pub group_write: bool,
    pub group_exec: bool,
    pub other_read: bool,
    pub other_write: bool,
    pub other_exec: bool,
    pub setuid: bool,
    pub setgid: bool,
    pub sticky: bool,
}

/// What `FileMode::from_posix(mode)` produces.
pub open spec fn spec_file_mode(mode: u32) -> FileMode {
    FileMode {
        owner_read: bit_set(mode, 0o400),
        owner_write: bit_set(mode, 0o200),
        owner_exec: bit_set(mode, 0o100),
        group_read: bit_set(mode, 0o40),
        group_write: bit_set(mode, 0o20),
        group_exec: bit_set(mode, 0o10),
        other_read: bit_set(mode, 0o4),
        other_write: bit_set(mode, 0o2),
        other_exec: bit_set(mode, 0o1),
        setuid: bit_set(mode, 0o4000),
        setgid: bit_set(mode, 0o2000),
        sticky: bit_set(mode, 0o1000),
    }
}

/// The POSIX mode word that `to_posix` produces for `m`.
pub open spec fn spec_file_mode_bits(m: FileMode) -> u32 {
    (if m.owner_read { 0o400u32 } else { 0 })
        | (if m.owner_write { 0o200u32 } else { 0 })
        | (if m.owner_exec { 0o100u32 } else { 0 })
        | (if m.group_read { 0o40u32 } else { 0 })
        | (if m.group_write { 0o20u32 } else { 0 })
        | (if m.group_exec { 0o10u32 } else { 0 })
        | (if m.other_read { 0o4u32 } else { 0 })
        | (if m.other_write { 0o2u32 } else { 0 })
        | (if m.other_exec { 0o1u32 } else { 0 })
        | (if m.setuid { 0o4000u32 } else { 0 })
        | (if m.setgid { 0o2000u32 } else { 0 })
        | (if m.sticky { 0o1000u32 } else { 0 })
}

impl FileMode {
    /// Decodes the twelve permission and special bits of a POSIX mode.
    pub fn from_posix(mode: u32) -> (r: Self)
        ensures
            r == spec_file_mode(mode),
    {
        FileMode {
            owner_read: (mode & 0o400) != 0,
            owner_write: (mode & 0o200) != 0,
            owner_exec: (mode & 0o100) != 0,
            group_read: (mode & 0o40) != 0,
            group_write: (mode & 0o20) != 0,
            group_exec: (mode & 0o10) != 0,
            other_read: (mode & 0o4) != 0,
            other_write: (mode & 0o2) != 0,
            other_exec: (mode & 0o1) != 0,
            setuid: (mode & 0o4000) != 0,
            setgid: (mode & 0o2000) != 0,
            sticky: (mode & 0o1000) != 0,
        }
    }

    /// Encodes the mode as a POSIX mode word.
    pub fn to_posix(&self) -> (r: u32)
        ensures
            r == spec_file_mode_bits(*self),
    {
        let a: u32 = if self.owner_read { 0o400 } else { 0 };
        let b: u32 = if self.owner_write { 0o200 } else { 0 };
        let c: u32 = if self.owner_exec { 0o100 } else { 0 };
        let d: u32 = if self.group_read { 0o40 } else { 0 };
        let e: u32 = if self.group_write { 0o20 } else { 0 };
        let f: u32 = if self.group_exec { 0o10 } else { 0 };
        let g: u32 = if self.other_read { 0o4 } else { 0 };
        let h: u32 = if self.other_write { 0o2 } else { 0 };
        let i: u32 = if self.other_exec { 0o1 } else { 0 };
        let j: u32 = if self.setuid { 0o4000 } else { 0 };
        let k: u32 = if self.setgid { 0o2000 } else { 0 };
        let l: u32 = if self.sticky { 0o1000 } else { 0 };
        a | b | c | d | e | f | g | h | i | j | k | l
    }
}

/// Decoding a mode word and encoding it again keeps exactly its low twelve
/// bits (permissions, set-user-id, set-group-id, sticky).
pub proof fn lemma_file_mode_bits_round_trip(mode: u32)
    ensures
        spec_file_mode_bits(spec_file_mode(mode)) == mode & 0o7777,
{
    let m = spec_file_mode(mode);
    assert(
        ((if mode & 0o400 != 0 { 0o400u32 } else { 0 })
        | (if mode & 0o200 != 0 { 0o200u32 } else { 0 })
        | (if mode & 0o100 != 0 { 0o100u32 } else { 0 })
        | (if mode & 0o40 != 0 { 0o40u32 } else { 0 })
        | (if mode & 0o20 != 0 { 0o20u32 } else { 0 })
        | (if mode & 0o10 != 0 { 0o10u32 } else { 0 })
        | (if mode & 0o4 != 0 { 0o4u32 } else { 0 })
        | (if mode & 0o2 != 0 { 0o2u32 } else { 0 })
        | (if mode & 0o1 != 0 { 0o1u32 } else { 0 })
        | (if mode & 0o4000 != 0 { 0o4000u32 } else { 0 })
        | (if mode & 0o2000 != 0 { 0o2000u32 } else { 0 })
        | (if mode & 0o1000 != 0 { 0o1000u32 } else { 0 })) == mode & 0o7777
    ) by (bit_vector);
}

/// Encoding a structured mode and decoding the word gives the same mode.
pub proof fn lemma_file_mode_round_trip(m: FileMode)
    ensures
        spec_file_mode(spec_file_mode_bits(m)) == m,
{
    let (a, b, c, d, e, f, g, h, i, j, k, l) = (
        m.owner_read, m.owner_write, m.owner_exec, m.group_read, m.group_write, m.group_exec,
        m.other_read, m.other_write, m.other_exec, m.setuid, m.setgid, m.sticky,
    );
    let x = spec_file_mode_bits(m);
    assert(
        (x & 0o400 != 0) == a && (x & 0o200 != 0) == b && (x & 0o100 != 0) == c
        && (x & 0o40 != 0) == d && (x & 0o20 != 0) == e && (x & 0o10 != 0) == f
        && (x & 0o4 != 0) == g && (x & 0o2 != 0) == h && (x & 0o1 != 0) == i
        && (x & 0o4000 != 0) == j && (x & 0o2000 != 0) == k && (x & 0o1000 != 0) == l
    ) by (bit_vector)
        requires
            x == (if a { 0o400u32 } else { 0 }) | (if b { 0o200u32 } else { 0 })
                | (if c { 0o100u32 } else { 0 }) | (if d { 0o40u32 } else { 0 })
                | (if e { 0o20u32 } else { 0 }) | (if f { 0o10u32 } else { 0 })
                | (if g { 0o4u32 } else { 0 }) | (if h { 0o2u32 } else { 0 })
                | (if i { 0o1u32 } else { 0 }) | (if j { 0o4000u32 } else { 0 })
                | (if k { 0o2000u32 } else { 0 }) | (if l { 0o1000u32 } else { 0 }),
    ;
}

/// What `Path::strip_prefix("/")` leaves of the absolute path `p` (or `p`
/// itself where the prefix is missing), as text.
pub uninterp spec fn path_without_root(p: Seq<char>) -> Seq<char>;

/// What `Path::join` makes of `base` and `tail`, as text.
pub uninterp spec fn path_joined(base: Seq<char>, tail: Seq<char>) -> Seq<char>;

/// `std::path::Path::strip_prefix("/")` on `p`, falling back to `p` where
/// it fails; the result is claimed to depend on `p` alone.
#[verifier::external_body]
fn strip_root(p: &str) -> (r: String)
    ensures
        r@ == path_without_root(p@),
{
    let path = std::path::Path::new(p);
    path.strip_prefix("/").unwrap_or(path).to_string_lossy().into_owned()
}

/// `std::path::Path::join` of `base` and `tail`; the result is claimed to
/// depend on the two paths alone.
#[verifier::external_body]
fn join_path(base: &str, tail: &str) -> (r: String)
    ensures
        r@ == path_joined(base@, tail@),
{
    std::path::Path::new(base).join(tail).to_string_lossy().into_owned()
}

/// The host path of guest path `guest` under `root`: an absolute guest
/// path (one that starts with `/`) loses its root and is joined to `root`;
/// a relative one is joined as it is.
pub open spec fn host_path(root: Seq<char>, guest: Seq<char>) -> Seq<char> {
    if guest.len() > 0 && guest[0] == '/' {
        path_joined(root, path_without_root(guest))
    } else {
        path_joined(root, guest)
    }
}

/// An open file of the guest.
#[derive(Debug, Clone)]
pub struct FileInfo {
    pub path: String,
    pub fd: FileDescriptor,
    pub flags: OpenFlags,
    pub mode: FileMode,
    pub size: u64,
    pub offset: u64,
}

pub struct FileInfoView {
    pub path: Seq<char>,
    pub fd: FileDescriptor,
    pub flags: OpenFlags,
    pub mode: FileMode,
    pub size: u64,
    pub offset: u64,
}

impl View for FileInfo {
    type V = FileInfoView;

    open spec fn view(&self) -> FileInfoView {
        FileInfoView { path: self.path@, fd: self.fd, flags: self.flags, mode: self.mode, size: self.size, offset: self.offset }
    }
}

fn copy_info(f: &FileInfo) -> (c: FileInfo)
    ensures
        c@ == f@,
{
    FileInfo { path: f.path.clone(), fd: f.fd, flags: f.flags, mode: f.mode, size: f.size, offset: f.offset }
}

/// The operations of a host file system that the layer uses.
pub trait FilesystemOperations {
    fn open(&mut self, path: &str, flags: OpenFlags, mode: FileMode) -> Result<FileDescriptor, VmError>;

    fn close(&mut self, fd: FileDescriptor) -> Result<(), VmError>;

    fn read(&mut self, fd: FileDescriptor, buf: &mut Vec<u8>) -> Result<usize, VmError>;

    fn write(&mut self, fd: FileDescriptor, buf: &[u8]) -> Result<usize, VmError>;

    fn seek(&mut self, fd: FileDescriptor, offset: i64, whence: i32) -> Result<u64, VmError>;

    fn stat(&mut self, path: &str) -> Result<FileInfo, VmError>;

    fn fstat(&mut self, fd: FileDescriptor) -> Result<FileInfo, VmError>;
}

/// A file system that supports nothing but closing.
pub struct DefaultFilesystemOperations;

/// The `NotImplemented` error of operation `name` of the default file system.
fn not_implemented(name: &str) -> (e: VmError)
    ensures
        e matches VmError::NotImplemented { feature, module } && feature@ == "DefaultFilesystemOperations::"@ + name@
            && module@ == "FilesystemCompatibilityLayer"@,
{
    let mut feature = text("DefaultFilesystemOperations::");
    feature.append(name);
    VmError::NotImplemented { feature, module: text("FilesystemCompatibilityLayer") }
}

impl FilesystemOperations for DefaultFilesystemOperations {
    fn open(&mut self, path: &str, flags: OpenFlags, mode: FileMode) -> (r: Result<FileDescriptor, VmError>)
        ensures
            r matches Err(VmError::NotImplemented { feature, module }) && feature@ == "DefaultFilesystemOperations::"@
                + "open"@ && module@ == "FilesystemCompatibilityLayer"@,
    {
        Err(not_implemented("open"))
    }

    fn close(&mut self, fd: FileDescriptor) -> (r: Result<(), VmError>)
        ensures
            r is Ok,
    {
        Ok(())
    }

    fn read(&mut self, fd: FileDescriptor, buf: &mut Vec<u8>) -> (r: Result<usize, VmError>)
        ensures
            r matches Err(VmError::NotImplemented { feature, module }) && feature@ == "DefaultFilesystemOperations::"@
                + "read"@ && module@ == "FilesystemCompatibilityLayer"@,
            *final(buf) == *old(buf),
    {
        Err(not_implemented("read"))
    }

    fn write(&mut self, fd: FileDescriptor, buf: &[u8]) -> (r: Result<usize, VmError>)
        ensures
            r matches Err(VmError::NotImplemented { feature, module }) && feature@ == "DefaultFilesystemOperations::"@
                + "write"@ && module@ == "FilesystemCompatibilityLayer"@,
    {
        Err(not_implemented("write"))
    }

    fn seek(&mut self, fd: FileDescriptor, offset: i64, whence: i32) -> (r: Result<u64, VmError>)
        ensures
            r matches Err(VmError::NotImplemented { feature, module }) && feature@ == "DefaultFilesystemOperations::"@
                + "seek"@ && module@ == "FilesystemCompatibilityLayer"@,
    {
        Err(not_implemented("seek"))
    }

    fn stat(&mut self, path: &str) -> (r: Result<FileInfo, VmError>)
        ensures
            r matches Err(VmError::NotImplemented { feature, module }) && feature@ == "DefaultFilesystemOperations::"@
                + "stat"@ && module@ == "FilesystemCompatibilityLayer"@,
    {
        Err(not_implemented("stat"))
    }

    fn fstat(&mut self, fd: FileDescriptor) -> (r: Result<FileInfo, VmError>)
        ensures
            r matches Err(VmError::NotImplemented { feature, module }) && feature@ == "DefaultFilesystemOperations::"@
                + "fstat"@ && module@ == "FilesystemCompatibilityLayer"@,
    {
        Err(not_implemented("fstat"))
    }
}

/// The entry of a standard descriptor: `path`, descriptor `fd`, read-only
/// or write-only, mode 0o666, empty.
pub open spec fn std_entry(path: Seq<char>, fd: FileDescriptor, write: bool) -> FileInfoView {
    FileInfoView {
        path,
        fd,
        flags: OpenFlags { read: !write, write, ..default_flags() },
        mode: spec_file_mode(0o666),
        size: 0,
        offset: 0,
    }
}

/// The flags of `OpenFlags::default()`.
pub open spec fn default_flags() -> OpenFlags {
    OpenFlags {
        read: true,
        write: false,
        create: false,
        truncate: false,
        append: false,
        exclusive: false,
        nonblock: false,
        sync: false,
        directory: false,
        no_follow: false,
    }
}

/// Standard input, output and error.
pub open spec fn standard_fds() -> Seq<(FileDescriptor, FileInfoView)> {
    seq![
        (0i32, std_entry("/dev/stdin"@, 0, false)),
        (1i32, std_entry("/dev/stdout"@, 1, true)),
        (2i32, std_entry("/dev/stderr"@, 2, true)),
    ]
}

/// The guest's open files over a host file system.
pub struct FilesystemCompatibilityLayer {
    guest_arch: GuestArch,
    file_descriptors: Vec<(FileDescriptor, FileInfo)>,
    next_fd: FileDescriptor,
    fs_ops: Box<dyn FilesystemOperations>,
    root_path: String,
}

pub struct LayerView {
    pub guest_arch: GuestArch,
    /// (descriptor, file) in the order opened.
    pub fds: Seq<(FileDescriptor, FileInfoView)>,
    pub next_fd: FileDescriptor,
    pub root: Seq<char>,
}

pub open spec fn fds_view(v: Seq<(FileDescriptor, FileInfo)>) -> Seq<(FileDescriptor, FileInfoView)> {
    v.map_values(|e: (FileDescriptor, FileInfo)| (e.0, e.1@))
}

impl View for FilesystemCompatibilityLayer {
    type V = LayerView;

    closed spec fn view(&self) -> LayerView {
        LayerView { guest_arch: self.guest_arch, fds: fds_view(self.file_descriptors@), next_fd: self.next_fd, root: self.root_path@ }
    }
}

/// The position of `fd` in the table, where it has one.
fn find_fd(v: &Vec<(FileDescriptor, FileInfo)>, fd: FileDescriptor) -> (r: Option<usize>)
    requires
        unique(fds_view(v@)),
    ensures
        match r {
            Some(i) => i < v@.len() && has_key(fds_view(v@), fd) && pos(fds_view(v@), fd) == i,
            None => !has_key(fds_view(v@), fd),
        },
{
    let ghost t = fds_view(v@);
    let mut i: usize = 0;
    while i < v.len()
        invariant
            i <= v@.len(),
            t == fds_view(v@),
            unique(t),
            forall|j: int| 0 <= j < i ==> (#[trigger] t[j]).0 != fd,
        decreases v.len() - i,
    {
        assert(t[i as int].0 == v@[i as int].0);
        if v[i].0 == fd {
            proof {
                lemma_pos(t, i as int);
            }
            return Some(i);
        }
        i += 1;
    }
    None
}

impl FilesystemCompatibilityLayer {
    pub closed spec fn wf(&self) -> bool {
        unique(self@.fds)
    }

    /// A layer for `guest_arch` over `fs_ops`, with guest paths under
    /// `root_path` and the three standard descriptors open.
    pub fn new(guest_arch: GuestArch, root_path: String, fs_ops: Box<dyn FilesystemOperations>) -> (l: Self)
        ensures
            l.wf(),
            l@ == (LayerView { guest_arch, fds: standard_fds(), next_fd: 3, root: root_path@ }),
    {
        let mut layer = FilesystemCompatibilityLayer {
            guest_arch,
            file_descriptors: Vec::new(),
            next_fd: 3,
            fs_ops,
            root_path,
        };
        layer.init_standard_fds();
        layer
    }

    /// Opens the standard descriptors in an empty table.
    fn init_standard_fds(&mut self)
        requires
            old(self)@.fds.len() == 0,
        ensures
            final(self).wf(),
            final(self)@ == (LayerView { fds: standard_fds(), ..old(self)@ }),
    {
        let mode = FileMode::from_posix(0o666);
        let stdin = FileInfo {
            path: text("/dev/stdin"),
            fd: 0,
            flags: OpenFlags { read: true, write: false, ..OpenFlags::default() },
            mode,
            size: 0,
            offset: 0,
        };
        let stdout = FileInfo {
            path: text("/dev/stdout"),
            fd: 1,
            flags: OpenFlags { read: false, write: true, ..OpenFlags::default() },
            mode,
            size: 0,
            offset: 0,
        };
        let stderr = FileInfo {
            path: text("/dev/stderr"),
            fd: 2,
            flags: OpenFlags { read: false, write: true, ..OpenFlags::default() },
            mode,
            size: 0,
            offset: 0,
        };
        self.file_descriptors.push((0, stdin));
        self.file_descriptors.push((1, stdout));
        self.file_descriptors.push((2, stderr));
        assert(self@.fds =~= standard_fds());
    }

    /// The host path of `guest_path` (see `host_path`).
    pub fn convert_path(&self, guest_path: &str) -> (p: String)
        ensures
            p@ == host_path(self@.root, guest_path@),
    {
        if !guest_path.is_empty() && guest_path.get_char(0) == '/' {
            let rest = strip_root(guest_path);
            join_path(self.root_path.as_str(), rest.as_str())
        } else {
            join_path(self.root_path.as_str(), guest_path)
        }
    }

    /// Opens `guest_path` on the host: the file system is handed the host
    /// path of `guest_path` (`convert_path`) with the POSIX `flags` and
    /// `mode` as `OpenFlags::from_posix` and `FileMode::from_posix` read
    /// them, and its answer goes to `record_open`. Whether the host opens
    /// the file is the file system's to say.
    pub fn open(&mut self, guest_path: &str, flags: u32, mode: u32) -> (r: Result<FileDescriptor, VmError>)
        requires
            old(self).wf(),
        ensures
            final(self).wf(),
            match r {
                Ok(fd) => final(self)@ == (LayerView {
                    fds: put(
                        old(self)@.fds,
                        fd,
                        FileInfoView {
                            path: host_path(old(self)@.root, guest_path@),
                            fd,
                            flags: spec_open_flags(flags),
                            mode: spec_file_mode(mode),
                            size: 0,
                            offset: 0,
                        },
                    ),
                    ..old(self)@
                }),
                Err(_) => final(self)@ == old(self)@,
            },
    {
        let host = self.convert_path(guest_path);
        let open_flags = OpenFlags::from_posix(flags);
        let file_mode = FileMode::from_posix(mode);
        let outcome = self.fs_ops.open(host.as_str(), open_flags, file_mode);
        self.record_open(host, open_flags, file_mode, outcome)
    }

    /// Takes in the host's answer `outcome` to opening `host` with
    /// `open_flags` and `file_mode`, and returns it as it is: a descriptor
    /// enters the table (in place of an entry it already had) as an empty
    /// file at offset 0; an error leaves the table as it was.
    pub fn record_open(
        &mut self,
        host: String,
        open_flags: OpenFlags,
        file_mode: FileMode,
        outcome: Result<FileDescriptor, VmError>,
    ) -> (r: Result<FileDescriptor, VmError>)
        requires
            old(self).wf(),
        ensures
            final(self).wf(),
            r == outcome,
            match outcome {
                Ok(fd) => final(self)@ == (LayerView {
                    fds: put(
                        old(self)@.fds,
                        fd,
                        FileInfoView { path: host@, fd, flags: open_flags, mode: file_mode, size: 0, offset: 0 },
                    ),
                    ..old(self)@
                }),
                Err(_) => final(self)@ == old(self)@,
            },
    {
        let fd = match outcome {
            Ok(fd) => fd,
            Err(e) => {
                return Err(e);
            },
        };
        let info = FileInfo { path: host, fd, flags: open_flags, mode: file_mode, size: 0, offset: 0 };
        let ghost t = self@.fds;
        let ghost iv = info@;
        proof {
            lemma_put(t, fd, iv);
        }
        match find_fd(&self.file_descriptors, fd) {
            Some(i) => {
                self.file_descriptors.set(i, (fd, info));
                assert(self@.fds =~= put(t, fd, iv));
            },
            None => {
                self.file_descriptors.push((fd, info));
                assert(self@.fds =~= put(t, fd, iv));
            },
        }
        Ok(fd)
    }

    /// Closes `fd` on the host: the file system is handed `fd`, and its
    /// answer goes to `record_close`. Whether the host closes it is the
    /// file system's to say.
    pub fn close(&mut self, fd: FileDescriptor) -> (r: Result<(), VmError>)
        requires
            old(self).wf(),
        ensures
            final(self).wf(),
            r is Ok ==> final(self)@ == (LayerView {
                fds: if fd >= 3 {
                    remove_key(old(self)@.fds, fd)
                } else {
                    old(self)@.fds
                },
                ..old(self)@
            }),
            r is Err ==> final(self)@ == old(self)@,
    {
        let outcome = self.fs_ops.close(fd);
        self.record_close(fd, outcome)
    }

    /// Takes in the host's answer `outcome` to closing `fd`, and returns it
    /// as it is: where the host closed it, a descriptor other than the
    /// standard ones leaves the table; otherwise the table stays.
    pub fn record_close(&mut self, fd: FileDescriptor, outcome: Result<(), VmError>) -> (r: Result<(), VmError>)
        requires
            old(self).wf(),
        ensures
            final(self).wf(),
            r == outcome,
            final(self)@ == if outcome is Ok && fd >= 3 {
                LayerView { fds: remove_key(old(self)@.fds, fd), ..old(self)@ }
            } else {
                old(self)@
            },
    {
        let done = match outcome {
            Ok(done) => done,
            Err(e) => {
                return Err(e);
            },
        };
        if fd >= 3 {
            let ghost t = self@.fds;
            proof {
                lemma_remove_key(t, fd);
            }
            match find_fd(&self.file_descriptors, fd) {
                Some(i) => {
                    self.file_descriptors.remove(i);
                    assert(self@.fds =~= t.remove(i as int));
                },
                None => {},
            }
        }
        Ok(done)
    }

    /// Reads from `fd` on the host.
    pub fn read(&mut self, fd: FileDescriptor, buf: &mut Vec<u8>) -> (r: Result<usize, VmError>)
        ensures
            final(self)@ == old(self)@,
    {
        self.fs_ops.read(fd, buf)
    }

    /// Writes to `fd` on the host.
    pub fn write(&mut self, fd: FileDescriptor, buf: &[u8]) -> (r: Result<usize, VmError>)
        ensures
            final(self)@ == old(self)@,
    {
        self.fs_ops.write(fd, buf)
    }

    /// Moves the offset of `fd` on the host.
    pub fn seek(&mut self, fd: FileDescriptor, offset: i64, whence: i32) -> (r: Result<u64, VmError>)
        ensures
            final(self)@ == old(self)@,
    {
        self.fs_ops.seek(fd, offset, whence)
    }

    /// Asks the host about the file at the host path of `guest_path`.
    pub fn stat(&mut self, guest_path: &str) -> (r: Result<FileInfo, VmError>)
        ensures
            final(self)@ == old(self)@,
    {
        let host = self.convert_path(guest_path);
        self.fs_ops.stat(host.as_str())
    }

    /// Asks the host about `fd`.
    pub fn fstat(&mut self, fd: FileDescriptor) -> (r: Result<FileInfo, VmError>)
        ensures
            final(self)@ == old(self)@,
    {
        self.fs_ops.fstat(fd)
    }

    /// The table entry of `fd`.
    pub fn get_file_info(&self, fd: FileDescriptor) -> (r: Option<FileInfo>)
        requires
            self.wf(),
        ensures
            match r {
                Some(f) => get(self@.fds, fd) == Some(f@),
                None => get(self@.fds, fd) is None,
            },
    {
        match find_fd(&self.file_descriptors, fd) {
            Some(i) => {
                assert(self@.fds[i as int] == (self.file_descriptors@[i as int].0, self.file_descriptors@[i as int].1@));
                Some(copy_info(&self.file_descriptors[i].1))
            },
            None => None,
        }
    }
}

} // verus!
