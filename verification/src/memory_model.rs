//! Memory models of the guest architectures (byte order, alignment, page
//! size, address width) and the mapping between a guest and a host model.

use vstd::prelude::*;
use crate::ir::{GuestAddr, GuestArch};

verus! {

/// Byte order.
#[derive(Debug, Clone, Copy, PartialEq, Eq, Structural)]
pub enum Endianness {
    LittleEndian,
    BigEndian,
}

/// Alignment requirements, in bytes.
#[derive(Debug, Clone, Copy, PartialEq, Eq, Structural)]
pub struct Alignment {
    pub min: usize,
    pub recommended: usize,
}

/// The memory model of one architecture.
#[derive(Debug, Clone, Copy)]
pub struct MemoryModel {
    pub arch: GuestArch,
    pub endianness: Endianness,
    pub alignment: Alignment,
    pub page_size: u64,
    pub address_space_bits: u8,
}

/// The architectures that have a memory model: x86-64, ARM64 and RISC-V64.
pub open spec fn has_memory_model(arch: GuestArch) -> bool {
    arch != GuestArch::PowerPC64
}

/// The model of `arch`: little-endian, byte alignment with eight recommended,
/// 4 KiB pages, and 48-bit virtual addresses (39-bit Sv39 on RISC-V64).
pub open spec fn model_of(arch: GuestArch) -> MemoryModel {
    MemoryModel {
        arch,
        endianness: Endianness::LittleEndian,
        alignment: Alignment { min: 1, recommended: 8 },
        page_size: 4096,
        address_space_bits: if arch == GuestArch::Riscv64 { 39 } else { 48 },
    }
}

/// `addr` rounded up with the mask of `align`.
pub open spec fn aligned_up(addr: u64, align: u64) -> u64 {
    ((addr + align - 1) as u64) & !((align - 1) as u64)
}

impl MemoryModel {
    /// The model of `arch` (see `model_of`); PowerPC64 has none.
    pub fn new(arch: GuestArch) -> (m: Self)
        requires
            has_memory_model(arch),
        ensures
            m == model_of(arch),
    {
        let bits: u8 = match arch {
            GuestArch::Riscv64 => 39,
            _ => 48,
        };
        MemoryModel {
            arch,
            endianness: Endianness::LittleEndian,
            alignment: Alignment { min: 1, recommended: 8 },
            page_size: 4096,
            address_space_bits: bits,
        }
    }

    pub fn endianness(&self) -> (e: Endianness)
        ensures
            e == self.endianness,
    {
        self.endianness
    }

    pub fn alignment(&self) -> (a: Alignment)
        ensures
            a == self.alignment,
    {
        self.alignment
    }

    pub fn page_size(&self) -> (p: u64)
        ensures
            p == self.page_size,
    {
        self.page_size
    }

    pub fn address_space_bits(&self) -> (b: u8)
        ensures
            b == self.address_space_bits,
    {
        self.address_space_bits
    }

    /// Whether `addr` is a multiple of `alignment` (which must not be zero).
    pub fn is_aligned(&self, addr: u64, alignment: usize) -> (b: bool)
        requires
            alignment != 0,
        ensures
            b == (addr % (alignment as u64) == 0),
    {
        addr % (alignment as u64) == 0
    }

    /// Rounds `addr` up with the mask of `alignment`: for a power of two, the
    /// next multiple of it. A zero alignment, and an address so close to
    /// `u64::MAX` that the rounding overflows, are excluded.
    pub fn align_address(&self, addr: u64, alignment: usize) -> (r: u64)
        requires
            alignment >= 1,
            addr + alignment - 1 <= u64::MAX,
        ensures
            r == aligned_up(addr, alignment as u64),
    {
        let align = alignment as u64;
        (addr + (align - 1)) & !(align - 1)
    }

    /// Addresses are the same on every modelled architecture.
    pub fn translate_address(&self, _from_arch: GuestArch, addr: GuestAddr) -> (r: GuestAddr)
        ensures
            r == addr,
    {
        addr
    }
}

/// Rounding up to a power of two `2^k` gives the least multiple of it that
/// is not below the address.
pub proof fn lemma_align_up_power_of_two(addr: u64, k: u64)
    requires
        k < 64,
        addr + (1u64 << k) - 1 <= u64::MAX,
    ensures
        aligned_up(addr, 1u64 << k) % (1u64 << k) == 0,
        addr <= aligned_up(addr, 1u64 << k),
        aligned_up(addr, 1u64 << k) < addr + (1u64 << k),
{
    let a = 1u64 << k;
    let r = aligned_up(addr, a);
    assert(a >= 1) by (bit_vector)
        requires
            k < 64,
            a == 1u64 << k,
    ;
    let s = (addr + a - 1) as u64;
    assert(r == s & !((a - 1) as u64));
    assert(s & !((a - 1) as u64) == s - (s & ((a - 1) as u64)) && (s & ((a - 1) as u64)) < a && (s & !((a - 1) as u64))
        & ((a - 1) as u64) == 0) by (bit_vector)
        requires
            k < 64,
            a == 1u64 << k,
    ;
    assert(r & ((a - 1) as u64) == 0);
    vstd::bits::lemma_u64_pow2_no_overflow(k as nat);
    vstd::arithmetic::power2::lemma_pow2_pos(k as nat);
    vstd::bits::lemma_u64_shl_is_mul(1, k);
    assert(a == vstd::arithmetic::power2::pow2(k as nat));
    vstd::bits::lemma_u64_low_bits_mask_is_mod(r, k as nat);
    assert(vstd::bits::low_bits_mask(k as nat) == vstd::arithmetic::power2::pow2(k as nat) - 1);
}

/// The memory models of a guest and of the host.
pub struct MemoryModelMapper {
    pub guest_model: MemoryModel,
    pub host_model: MemoryModel,
}

impl MemoryModelMapper {
    pub fn new(guest_arch: GuestArch, host_arch: GuestArch) -> (m: Self)
        requires
            has_memory_model(guest_arch),
            has_memory_model(host_arch),
        ensures
            m.guest_model == model_of(guest_arch),
            m.host_model == model_of(host_arch),
    {
        MemoryModelMapper { guest_model: MemoryModel::new(guest_arch), host_model: MemoryModel::new(host_arch) }
    }

    /// Whether guest and host share a byte order.
    pub fn is_endianness_compatible(&self) -> (b: bool)
        ensures
            b == (self.guest_model.endianness == self.host_model.endianness),
    {
        self.guest_model.endianness() == self.host_model.endianness()
    }

    pub fn translate_address(&self, addr: GuestAddr) -> (r: GuestAddr)
        ensures
            r == addr,
    {
        self.guest_model.translate_address(self.guest_model.arch, addr)
    }

    /// Rounds a guest address up to the guest's recommended alignment.
    pub fn align_guest_address(&self, addr: u64) -> (r: u64)
        requires
            self.guest_model.alignment.recommended >= 1,
            addr + self.guest_model.alignment.recommended - 1 <= u64::MAX,
        ensures
            r == aligned_up(addr, self.guest_model.alignment.recommended as u64),
    {
        let alignment = self.guest_model.alignment().recommended;
        self.guest_model.align_address(addr, alignment)
    }

    pub fn guest_page_size(&self) -> (p: u64)
        ensures
            p == self.guest_model.page_size,
    {
        self.guest_model.page_size()
    }

    pub fn host_page_size(&self) -> (p: u64)
        ensures
            p == self.host_model.page_size,
    {
        self.host_model.page_size()
    }
}

/// Every pair of modelled architectures is byte-order compatible and has
/// the same page size.
pub proof fn lemma_models_compatible(guest: GuestArch, host: GuestArch)
    requires
        has_memory_model(guest),
        has_memory_model(host),
    ensures
        model_of(guest).endianness == model_of(host).endianness,
        model_of(guest).page_size == model_of(host).page_size,
{
}

} // verus!
