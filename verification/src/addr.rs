//! Physical and virtual addresses, frames and pages, through the `x86_64`
//! crate. Every call into the crate stands behind a wrapper that takes and
//! returns plain `u64` addresses; the wrappers' contracts state what the
//! crate's source computes.

use vstd::prelude::*;
use x86_64::structures::paging::{Page, PageTableIndex, PhysFrame, Size1GiB, Size2MiB, Size4KiB};
use x86_64::{PhysAddr, VirtAddr};

verus! {

/// Size of a 4 KiB page or frame.
pub const SIZE_4KIB: u64 = 0x1000;

/// Size of a 2 MiB page or frame.
pub const SIZE_2MIB: u64 = 0x20_0000;

/// Size of a 1 GiB page.
pub const SIZE_1GIB: u64 = 0x4000_0000;

/// Physical addresses have at most 52 bits.
pub const PHYS_ADDR_LIMIT: u64 = 0x10_0000_0000_0000;

/// Start of the upper half of the canonical virtual address space.
pub const UPPER_HALF_START: u64 = 0xFFFF_8000_0000_0000;

/// `a` rounded down to a multiple of `size`.
pub open spec fn align_down(a: int, size: int) -> int {
    a - a % size
}

/// `VirtAddr::new` accepts `a`: bits 48..64 are a copy of bit 47, or all zero.
pub open spec fn virt_convertible(a: u64) -> bool {
    a < 0x1_0000_0000_0000 || a >= UPPER_HALF_START
}

/// The canonical form of `a`: bits 48..64 replaced by copies of bit 47.
pub open spec fn sign_extend_48(a: u64) -> u64 {
    let low = a % 0x1_0000_0000_0000;
    if low < 0x8000_0000_0000 {
        low as u64
    } else {
        (low + 0xFFFF_0000_0000_0000) as u64
    }
}

/// `a` is a canonical virtual address.
pub open spec fn is_canonical(a: u64) -> bool {
    a < 0x8000_0000_0000 || a >= UPPER_HALF_START
}

/// The address of the page with the given table indices, before it is made
/// canonical.
pub open spec fn table_indices_addr(p4: u16, p3: u16, p2: u16, p1: u16) -> u64 {
    (p4 * 0x80_0000_0000 + p3 * 0x4000_0000 + p2 * 0x20_0000 + p1 * 0x1000) as u64
}

/// A canonical address is its own canonical form.
pub proof fn lemma_sign_extend_canonical(a: u64)
    requires
        is_canonical(a),
    ensures
        sign_extend_48(a) == a,
{
    if a >= UPPER_HALF_START {
        assert(a % 0x1_0000_0000_0000 == a - 0xFFFF_0000_0000_0000) by (nonlinear_arith)
            requires
                a >= 0xFFFF_8000_0000_0000,
                a < 0x1_0000_0000_0000_0000,
        ;
    }
}

/// The canonical form of any address is canonical, and a convertible address
/// that lies below 2^47 or in the upper half is unchanged by it.
pub proof fn lemma_sign_extend_facts(a: u64)
    ensures
        is_canonical(sign_extend_48(a)),
        a < 0x8000_0000_0000 ==> sign_extend_48(a) == a,
        0x8000_0000_0000 <= a < 0x1_0000_0000_0000 ==> sign_extend_48(a) == a
            + 0xFFFF_0000_0000_0000,
{
    if is_canonical(a) {
        lemma_sign_extend_canonical(a);
    }
}

/// Rounding a canonical address down to a multiple of a power-of-two size up
/// to 1 GiB keeps it canonical.
pub proof fn lemma_align_down_canonical(a: u64, size: u64)
    requires
        is_canonical(a),
        size == SIZE_4KIB || size == SIZE_2MIB || size == SIZE_1GIB,
    ensures
        is_canonical(align_down(a as int, size as int) as u64),
        0 <= align_down(a as int, size as int) <= a,
        align_down(a as int, size as int) % size as int == 0,
{
    let d = align_down(a as int, size as int);
    assert(0 <= (a as int) % (size as int) < size);
    assert(d % (size as int) == 0) by (nonlinear_arith)
        requires
            d == a - (a as int) % (size as int),
            size > 0,
    ;
    if a >= UPPER_HALF_START {
        assert(UPPER_HALF_START as int % size as int == 0);
        assert(d >= UPPER_HALF_START) by (nonlinear_arith)
            requires
                d == a - (a as int) % (size as int),
                d % (size as int) == 0,
                a >= UPPER_HALF_START,
                (UPPER_HALF_START as int) % (size as int) == 0,
                size > 0,
        ;
    }
}

/// `PhysAddr::try_new`: the address when it fits in 52 bits.
#[verifier::external_body]
pub(crate) fn phys_addr_checked(addr: u64) -> (r: Option<u64>)
    ensures
        r == (if addr < PHYS_ADDR_LIMIT { Some(addr) } else { None::<u64> }),
{
    match PhysAddr::try_new(addr) {
        Ok(p) => Some(p.as_u64()),
        Err(_) => None,
    }
}

/// `VirtAddr::new`: the canonical form of `addr`. The crate panics when bits
/// 48..64 are neither zero nor a copy of bit 47, so those inputs are left out.
#[verifier::external_body]
pub(crate) fn virt_addr_of(addr: u64) -> (r: u64)
    requires
        virt_convertible(addr),
    ensures
        r == sign_extend_48(addr),
{
    VirtAddr::new(addr).as_u64()
}

/// `PhysFrame::<Size4KiB>::containing_address`: the start of the 4 KiB frame
/// that holds `addr` (`PhysAddr::new` panics at 52 bits and above).
#[verifier::external_body]
pub(crate) fn frame_4kib_containing(addr: u64) -> (r: u64)
    requires
        addr < PHYS_ADDR_LIMIT,
    ensures
        r == align_down(addr as int, SIZE_4KIB as int),
{
    PhysFrame::<Size4KiB>::containing_address(PhysAddr::new(addr)).start_address().as_u64()
}

/// `PhysFrame::<Size2MiB>::containing_address`: the start of the 2 MiB frame
/// that holds `addr`.
#[verifier::external_body]
pub(crate) fn frame_2mib_containing(addr: u64) -> (r: u64)
    requires
        addr < PHYS_ADDR_LIMIT,
    ensures
        r == align_down(addr as int, SIZE_2MIB as int),
{
    PhysFrame::<Size2MiB>::containing_address(PhysAddr::new(addr)).start_address().as_u64()
}

/// `PhysFrame::<Size4KiB>::from_start_address`: the frame when `addr` is
/// 4 KiB aligned, given as its start address.
#[verifier::external_body]
pub(crate) fn frame_4kib_from_start(addr: u64) -> (r: Option<u64>)
    requires
        addr < PHYS_ADDR_LIMIT,
    ensures
        r == (if addr % SIZE_4KIB == 0 { Some(addr) } else { None::<u64> }),
{
    match PhysFrame::<Size4KiB>::from_start_address(PhysAddr::new(addr)) {
        Ok(f) => Some(f.start_address().as_u64()),
        Err(_) => None,
    }
}

/// `Page::<Size4KiB>::containing_address` of `VirtAddr::new(addr)`: the start
/// of the 4 KiB page that holds the canonical form of `addr`.
#[verifier::external_body]
pub(crate) fn page_4kib_containing(addr: u64) -> (r: u64)
    requires
        virt_convertible(addr),
    ensures
        r == align_down(sign_extend_48(addr) as int, SIZE_4KIB as int),
{
    Page::<Size4KiB>::containing_address(VirtAddr::new(addr)).start_address().as_u64()
}

/// `Page::<Size2MiB>::containing_address` of `VirtAddr::new(addr)`: the start
/// of the 2 MiB page that holds the canonical form of `addr`.
#[verifier::external_body]
pub(crate) fn page_2mib_containing(addr: u64) -> (r: u64)
    requires
        virt_convertible(addr),
    ensures
        r == align_down(sign_extend_48(addr) as int, SIZE_2MIB as int),
{
    Page::<Size2MiB>::containing_address(VirtAddr::new(addr)).start_address().as_u64()
}

/// `Page::from_page_table_indices`: the start of the 4 KiB page that the four
/// table indices select, made canonical. `PageTableIndex::new` panics at 512
/// and above.
#[verifier::external_body]
pub(crate) fn page_from_table_indices(p4: u16, p3: u16, p2: u16, p1: u16) -> (r: u64)
    requires
        p4 < 512,
        p3 < 512,
        p2 < 512,
        p1 < 512,
    ensures
        r == sign_extend_48(table_indices_addr(p4, p3, p2, p1)),
{
    Page::from_page_table_indices(
        PageTableIndex::new(p4),
        PageTableIndex::new(p3),
        PageTableIndex::new(p2),
        PageTableIndex::new(p1),
    ).start_address().as_u64()
}

/// `Page::<Size1GiB>::from_page_table_indices_1gib`: the start of the 1 GiB
/// page that the level 4 and level 3 indices select, made canonical.
#[verifier::external_body]
pub(crate) fn page_from_table_indices_1gib(p4: u16, p3: u16) -> (r: u64)
    requires
        p4 < 512,
        p3 < 512,
    ensures
        r == sign_extend_48(table_indices_addr(p4, p3, 0, 0)),
{
    Page::<Size1GiB>::from_page_table_indices_1gib(PageTableIndex::new(p4), PageTableIndex::new(p3))
        .start_address().as_u64()
}

/// A physical address that the bootloader's page tables map to the same
/// virtual address.
pub struct IdentityMappedAddr(u64);

impl View for IdentityMappedAddr {
    type V = u64;

    closed spec fn view(&self) -> u64 {
        self.0
    }
}

impl IdentityMappedAddr {
    #[verifier::type_invariant]
    closed spec fn inv(self) -> bool {
        self.0 < PHYS_ADDR_LIMIT
    }

    /// The address `addr`, when it is a valid physical address (below 2^52).
    pub fn new(addr: u64) -> (r: Option<IdentityMappedAddr>)
        ensures
            r is Some <==> addr < PHYS_ADDR_LIMIT,
            r matches Some(a) ==> a@ == addr,
    {
        match phys_addr_checked(addr) {
            Some(a) => Some(IdentityMappedAddr(a)),
            None => None,
        }
    }

    /// The physical address.
    pub fn phys(&self) -> (r: u64)
        ensures
            r == self@,
            r < PHYS_ADDR_LIMIT,
    {
        proof {
            use_type_invariant(self);
        }
        self.0
    }

    /// The physical address as a number.
    pub fn as_u64(&self) -> (r: u64)
        ensures
            r == self@,
            r < PHYS_ADDR_LIMIT,
    {
        self.phys()
    }

    /// The virtual address that maps to this physical address: the same
    /// number, made canonical. `VirtAddr::new` panics at 2^48 and above.
    pub fn virt(&self) -> (r: u64)
        requires
            self@ < 0x1_0000_0000_0000,
        ensures
            r == sign_extend_48(self@),
            self@ < 0x8000_0000_0000 ==> r == self@,
    {
        let a = self.phys();
        let r = virt_addr_of(a);
        assert(a < 0x8000_0000_0000 ==> a % 0x1_0000_0000_0000 == a);
        r
    }
}

} // verus!
