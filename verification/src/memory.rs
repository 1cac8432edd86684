//! The physical memory map that the bootloader hands to the kernel: frame
//! ranges, typed memory regions, the conversion between frame ranges and
//! ranges of 4 KiB frames, and the regions that the bootloader reserves for
//! itself before it allocates any frame.

use vstd::prelude::*;
use crate::addr::{
    align_down, frame_4kib_containing, frame_4kib_from_start, IdentityMappedAddr, PHYS_ADDR_LIMIT,
    SIZE_4KIB,
};

verus! {

/// Frames `start_frame_number..end_frame_number` (end exclusive) of 4 KiB
/// physical memory.
#[derive(Clone, Copy, Debug, PartialEq, Eq)]
pub struct FrameRange {
    pub start_frame_number: u64,
    pub end_frame_number: u64,
}

/// What a region of physical memory is used for.
#[derive(Clone, Copy, Debug, PartialEq, Eq)]
pub enum MemoryRegionType {
    /// Free memory.
    Usable,
    /// Memory the firmware reports as not usable.
    Reserved,
    /// The first frame, kept unused so that a null pointer never maps.
    FrameZero,
    /// The bootloader's own code and data.
    Bootloader,
    /// The kernel image.
    Kernel,
    /// Page tables.
    PageTable,
    /// The boot information handed to the kernel.
    BootInfo,
}

/// A range of physical memory with its use.
#[derive(Clone, Copy, Debug, PartialEq, Eq)]
pub struct MemoryRegion {
    pub range: FrameRange,
    pub region_type: MemoryRegionType,
}

/// A range of 4 KiB frames given by the start address of its first frame and
/// of the frame just past its end.
#[derive(Clone, Copy, Debug, PartialEq, Eq)]
pub struct PhysFrameSpan {
    pub start: u64,
    pub end: u64,
}

/// The frame range that holds the bytes `start_addr..end_addr`.
pub open spec fn frame_range_spec(start_addr: u64, end_addr: u64) -> FrameRange {
    FrameRange {
        start_frame_number: (start_addr / SIZE_4KIB) as u64,
        end_frame_number: ((end_addr - 1) / SIZE_4KIB as int + 1) as u64,
    }
}

impl FrameRange {
    /// The frames that hold the bytes `start_addr..end_addr`: from the frame
    /// of `start_addr` to the one after the frame of the last byte.
    pub fn new(start_addr: u64, end_addr: u64) -> (r: FrameRange)
        requires
            end_addr >= 1,
        ensures
            r == frame_range_spec(start_addr, end_addr),
            r.start_frame_number * 4096 <= start_addr < r.start_frame_number * 4096 + 4096,
            r.end_frame_number * 4096 - 4096 <= end_addr - 1 < r.end_frame_number * 4096,
    {
        proof {
            lemma_frame_range_covers(start_addr, end_addr);
        }
        let last_byte = end_addr - 1;
        FrameRange { start_frame_number: start_addr / SIZE_4KIB, end_frame_number: last_byte / SIZE_4KIB + 1 }
    }

    /// Physical address of the first frame.
    pub fn start_addr(&self) -> (r: u64)
        requires
            self.start_frame_number < 0x10_0000_0000_0000,
        ensures
            r == self.start_frame_number * SIZE_4KIB,
    {
        self.start_frame_number * SIZE_4KIB
    }

    /// Physical address just past the last frame.
    pub fn end_addr(&self) -> (r: u64)
        requires
            self.end_frame_number < 0x10_0000_0000_0000,
        ensures
            r == self.end_frame_number * SIZE_4KIB,
    {
        self.end_frame_number * SIZE_4KIB
    }
}

/// The frame range of a byte range holds every byte of it and no whole
/// frame more: its first frame holds the first byte and its last frame holds
/// the last byte.
pub proof fn lemma_frame_range_covers(start_addr: u64, end_addr: u64)
    requires
        end_addr >= 1,
    ensures
        ({
            let r = frame_range_spec(start_addr, end_addr);
            &&& r.start_frame_number * 4096 <= start_addr < r.start_frame_number * 4096 + 4096
            &&& r.end_frame_number * 4096 - 4096 <= end_addr - 1 < r.end_frame_number * 4096
        }),
{
    let r = frame_range_spec(start_addr, end_addr);
    let a = start_addr as int;
    let b = end_addr - 1;
    assert(r.start_frame_number == a / 4096);
    assert(r.end_frame_number == b / 4096 + 1);
    assert((a / 4096) * 4096 <= a < (a / 4096) * 4096 + 4096) by (nonlinear_arith)
        requires
            a >= 0,
    ;
    assert((b / 4096) * 4096 <= b < (b / 4096) * 4096 + 4096) by (nonlinear_arith)
        requires
            b >= 0,
    ;
}

/// The frame span with the same frames as `range`.
pub open spec fn frame_span_of(range: FrameRange) -> PhysFrameSpan {
    PhysFrameSpan {
        start: (range.start_frame_number * SIZE_4KIB) as u64,
        end: (range.end_frame_number * SIZE_4KIB) as u64,
    }
}

/// The frames of `range` as a span of 4 KiB frames. Both ends must be valid
/// physical addresses (below 2^52), as `PhysAddr::new` checks.
pub fn phys_frame_range(range: FrameRange) -> (r: PhysFrameSpan)
    requires
        range.start_frame_number < 0x100_0000_0000,
        range.end_frame_number < 0x100_0000_0000,
    ensures
        r == frame_span_of(range),
{
    let s = range.start_addr();
    let e = range.end_addr();
    assert(s % SIZE_4KIB == 0 && e % SIZE_4KIB == 0);
    let start = frame_4kib_from_start(s).unwrap();
    let end = frame_4kib_from_start(e).unwrap();
    PhysFrameSpan { start, end }
}

/// The frame range with the same frames as `span`.
pub open spec fn frame_range_of(span: PhysFrameSpan) -> FrameRange {
    frame_range_spec(span.start, span.end)
}

/// The frames of `span` as a frame range.
pub fn frame_range(span: PhysFrameSpan) -> (r: FrameRange)
    requires
        span.end >= 1,
    ensures
        r == frame_range_of(span),
{
    FrameRange::new(span.start, span.end)
}

/// Turning a frame range into a frame span and back gives the same range,
/// for every range whose ends are valid physical addresses and whose end is
/// not frame 0 (for which the conversion back would underflow).
pub proof fn lemma_frame_range_round_trip(range: FrameRange)
    requires
        range.start_frame_number < 0x100_0000_0000,
        1 <= range.end_frame_number < 0x100_0000_0000,
    ensures
        frame_range_of(frame_span_of(range)) == range,
{
    let s = range.start_frame_number;
    let e = range.end_frame_number;
    assert((s * 4096) / 4096 == s) by (nonlinear_arith);
    assert((e * 4096 - 1) / 4096 + 1 == e) by (nonlinear_arith)
        requires
            e >= 1,
    ;
}

/// Turning a span of aligned frames into a frame range and back gives the
/// same span, for every span whose end lies past frame 0 and below 2^52.
pub proof fn lemma_frame_span_round_trip(span: PhysFrameSpan)
    requires
        span.start % SIZE_4KIB == 0,
        span.end % SIZE_4KIB == 0,
        span.start < PHYS_ADDR_LIMIT,
        SIZE_4KIB <= span.end < PHYS_ADDR_LIMIT,
    ensures
        frame_span_of(frame_range_of(span)) == span,
{
    let s = span.start;
    let e = span.end;
    assert((s / 4096) * 4096 == s) by (nonlinear_arith)
        requires
            s % 4096 == 0,
    ;
    assert(((e - 1) / 4096 + 1) * 4096 == e) by (nonlinear_arith)
        requires
            e % 4096 == 0,
            e >= 4096,
    ;
}

/// The highest end address among `regions`, or `None` for an empty map.
pub fn max_phys_addr(regions: &Vec<MemoryRegion>) -> (r: Option<u64>)
    requires
        forall|i: int|
            0 <= i < regions@.len() ==> #[trigger] regions@[i].range.end_frame_number
                < 0x10_0000_0000_0000,
    ensures
        r is None <==> regions@.len() == 0,
        r matches Some(m) ==> (forall|i: int|
            0 <= i < regions@.len() ==> #[trigger] regions@[i].range.end_frame_number * SIZE_4KIB
                <= m) && (exists|i: int|
            0 <= i < regions@.len() && #[trigger] regions@[i].range.end_frame_number * SIZE_4KIB
                == m),
{
    let mut best: Option<u64> = None;
    let mut i: usize = 0;
    while i < regions.len()
        invariant
            i <= regions@.len(),
            forall|j: int|
                0 <= j < regions@.len() ==> #[trigger] regions@[j].range.end_frame_number
                    < 0x10_0000_0000_0000,
            best is None <==> i == 0,
            best matches Some(m) ==> (forall|j: int|
                0 <= j < i ==> #[trigger] regions@[j].range.end_frame_number * SIZE_4KIB <= m) && (
            exists|j: int|
                0 <= j < i && #[trigger] regions@[j].range.end_frame_number * SIZE_4KIB == m),
        decreases regions@.len() - i,
    {
        let end = regions[i].range.end_addr();
        best = match best {
            None => Some(end),
            Some(m) => if end > m {
                Some(end)
            } else {
                Some(m)
            },
        };
        i = i + 1;
    }
    best
}

/// The frames that hold the bytes `start..end` of physical memory, computed
/// as the bootloader does with the `x86_64` crate: the frame containing
/// `start` up to the frame after the one containing `end - 1`.
pub fn covering_frames(start: u64, end: u64) -> (r: FrameRange)
    requires
        start < PHYS_ADDR_LIMIT,
        1 <= end < PHYS_ADDR_LIMIT,
        align_down(end - 1, SIZE_4KIB as int) + SIZE_4KIB < PHYS_ADDR_LIMIT,
    ensures
        r.start_frame_number == start / SIZE_4KIB,
        r.end_frame_number == (end - 1) / SIZE_4KIB as int + 1,
        r.start_frame_number * SIZE_4KIB <= start,
        end <= r.end_frame_number * SIZE_4KIB,
{
    let first = frame_4kib_containing(start);
    let last = frame_4kib_containing(end - 1);
    let after = frame_4kib_containing(last + SIZE_4KIB);
    assert(after == last + SIZE_4KIB);
    let r = frame_range(PhysFrameSpan { start: first, end: after });
    assert(r.start_frame_number == start / SIZE_4KIB);
    assert(r.end_frame_number == (end - 1) / SIZE_4KIB as int + 1);
    r
}

/// The frames of `range` hold the bytes `start..end` and no whole frame
/// outside them: the first frame holds `start`, the last holds `end - 1`.
pub open spec fn covers(range: FrameRange, start: int, end: int) -> bool {
    &&& range.start_frame_number * 4096 <= start < range.start_frame_number * 4096 + 4096
    &&& range.end_frame_number * 4096 - 4096 <= end - 1 < range.end_frame_number * 4096
}

/// The regions that the bootloader marks as in use before it allocates any
/// frame, in the order it marks them: frame 0, the bootloader, the kernel
/// image (`kernel_size` bytes at `kernel_start`) and the page tables.
pub fn reserved_regions(
    bootloader_start: u64,
    bootloader_end: u64,
    kernel_start: &IdentityMappedAddr,
    kernel_size: u64,
    page_table_start: u64,
    page_table_end: u64,
) -> (r: Vec<MemoryRegion>)
    requires
        bootloader_start < PHYS_ADDR_LIMIT,
        1 <= bootloader_end < PHYS_ADDR_LIMIT,
        align_down(bootloader_end - 1, SIZE_4KIB as int) + SIZE_4KIB < PHYS_ADDR_LIMIT,
        1 <= kernel_start@ + kernel_size < PHYS_ADDR_LIMIT,
        align_down(kernel_start@ + kernel_size - 1, SIZE_4KIB as int) + SIZE_4KIB
            < PHYS_ADDR_LIMIT,
        page_table_start < PHYS_ADDR_LIMIT,
        1 <= page_table_end < PHYS_ADDR_LIMIT,
        align_down(page_table_end - 1, SIZE_4KIB as int) + SIZE_4KIB < PHYS_ADDR_LIMIT,
    ensures
        r@.len() == 4,
        r@[0] == (MemoryRegion {
            range: FrameRange { start_frame_number: 0, end_frame_number: 1 },
            region_type: MemoryRegionType::FrameZero,
        }),
        r@[1] == (MemoryRegion {
            range: frame_range_spec(bootloader_start, bootloader_end),
            region_type: MemoryRegionType::Bootloader,
        }),
        r@[2] == (MemoryRegion {
            range: frame_range_spec(kernel_start@, (kernel_start@ + kernel_size) as u64),
            region_type: MemoryRegionType::Kernel,
        }),
        r@[3] == (MemoryRegion {
            range: frame_range_spec(page_table_start, page_table_end),
            region_type: MemoryRegionType::PageTable,
        }),
        covers(r@[1].range, bootloader_start as int, bootloader_end as int),
        covers(r@[2].range, kernel_start@ as int, kernel_start@ + kernel_size),
        covers(r@[3].range, page_table_start as int, page_table_end as int),
{
    let zero = frame_4kib_from_start(0).unwrap();
    let one = frame_4kib_containing(zero + SIZE_4KIB);
    let zero_range = frame_range(PhysFrameSpan { start: zero, end: one });
    let boot_range = covering_frames(bootloader_start, bootloader_end);
    let k = kernel_start.phys();
    let kernel_range = covering_frames(k, k + kernel_size);
    let pt_range = covering_frames(page_table_start, page_table_end);
    proof {
        lemma_frame_range_covers(bootloader_start, bootloader_end);
        lemma_frame_range_covers(k, (k + kernel_size) as u64);
        lemma_frame_range_covers(page_table_start, page_table_end);
    }
    let mut r: Vec<MemoryRegion> = Vec::new();
    r.push(MemoryRegion { range: zero_range, region_type: MemoryRegionType::FrameZero });
    r.push(MemoryRegion { range: boot_range, region_type: MemoryRegionType::Bootloader });
    r.push(MemoryRegion { range: kernel_range, region_type: MemoryRegionType::Kernel });
    r.push(MemoryRegion { range: pt_range, region_type: MemoryRegionType::PageTable });
    r
}

} // verus!
