//! The virtual address layout that the long-mode stage sets up before it
//! jumps to the kernel: the recursive page table address, the pages of the
//! kernel image that are unmapped, the boot information page, the kernel
//! stack, and the mapping of all physical memory at an offset.

use vstd::prelude::*;
use crate::addr::{
    align_down, frame_2mib_containing, is_canonical, lemma_align_down_canonical,
    lemma_sign_extend_canonical, lemma_sign_extend_facts, page_2mib_containing, page_4kib_containing,
    page_from_table_indices, page_from_table_indices_1gib, sign_extend_48, table_indices_addr,
    virt_addr_of, virt_convertible, IdentityMappedAddr, PHYS_ADDR_LIMIT, SIZE_2MIB, SIZE_4KIB,
    UPPER_HALF_START,
};

verus! {

/// Index into the level 4 table for the address `a`.
pub open spec fn p4_index(a: u64) -> int {
    ((a / 0x80_0000_0000) % 512) as int
}

/// Index into the level 3 table for the address `a`.
pub open spec fn p3_index(a: u64) -> int {
    ((a / 0x4000_0000) % 512) as int
}

/// Index into the level 2 table for the address `a`.
pub open spec fn p2_index(a: u64) -> int {
    ((a / 0x20_0000) % 512) as int
}

/// Index into the level 1 table for the address `a`.
pub open spec fn p1_index(a: u64) -> int {
    ((a / 0x1000) % 512) as int
}

/// The virtual address at which the level 4 table itself appears once its
/// entry `recursive_index` points back to it: the page whose four table
/// indices all equal `recursive_index`.
pub fn recursive_page_table_addr(recursive_index: u16) -> (r: u64)
    requires
        recursive_index < 512,
    ensures
        r == sign_extend_48(
            table_indices_addr(recursive_index, recursive_index, recursive_index, recursive_index),
        ),
        p4_index(r) == recursive_index,
        p3_index(r) == recursive_index,
        p2_index(r) == recursive_index,
        p1_index(r) == recursive_index,
        r % 0x1000 == 0,
        is_canonical(r),
{
    let r = page_from_table_indices(recursive_index, recursive_index, recursive_index, recursive_index);
    proof {
        let i = recursive_index as u64;
        let a = table_indices_addr(recursive_index, recursive_index, recursive_index, recursive_index);
        lemma_sign_extend_facts(a);
        assert(a < 0x1_0000_0000_0000);
        assert(r == a || r == a + 0xFFFF_0000_0000_0000);
        assert((r >> 39u64) & 511 == i && (r >> 30u64) & 511 == i && (r >> 21u64) & 511 == i && (r
            >> 12u64) & 511 == i && r & 0xFFF == 0) by (bit_vector)
            requires
                i < 512,
                a == i * 0x80_0000_0000 + i * 0x4000_0000 + i * 0x20_0000 + i * 0x1000,
                r == a || r == a + 0xFFFF_0000_0000_0000,
        ;
        assert((r / 0x80_0000_0000) % 512 == i && (r / 0x4000_0000) % 512 == i && (r / 0x20_0000)
            % 512 == i && (r / 0x1000) % 512 == i && r % 0x1000 == 0) by (bit_vector)
            requires
                (r >> 39u64) & 511 == i,
                (r >> 30u64) & 511 == i,
                (r >> 21u64) & 511 == i,
                (r >> 12u64) & 511 == i,
                r & 0xFFF == 0,
        ;
    }
    r
}

/// The page that holds the boot information: the 4 KiB page of the
/// configured address, or else the first page of the free level 4 entry
/// `free_entry`.
pub fn boot_info_page(configured: Option<u64>, free_entry: u16) -> (r: u64)
    requires
        configured matches Some(a) ==> virt_convertible(a),
        configured is None ==> free_entry < 512,
    ensures
        r == match configured {
            Some(a) => align_down(sign_extend_48(a) as int, SIZE_4KIB as int) as u64,
            None => sign_extend_48(table_indices_addr(free_entry, 0, 0, 0)),
        },
        configured is None ==> p4_index(r) == free_entry && r % 0x80_0000_0000 == 0,
{
    match configured {
        Some(a) => page_4kib_containing(a),
        None => {
            let r = page_from_table_indices(free_entry, 0, 0, 0);
            proof {
                lemma_l4_entry_start(free_entry, r);
            }
            r
        },
    }
}

/// The start of level 4 entry `e`, made canonical, is aligned to the 512 GiB
/// that one entry spans, and its level 4 index is `e`.
proof fn lemma_l4_entry_start(e: u16, r: u64)
    requires
        e < 512,
        r == sign_extend_48(table_indices_addr(e, 0, 0, 0)),
    ensures
        p4_index(r) == e,
        r % 0x80_0000_0000 == 0,
{
    let a = table_indices_addr(e, 0, 0, 0);
    let i = e as u64;
    lemma_sign_extend_facts(a);
    assert(a == i * 0x80_0000_0000);
    assert(r == a || r == a + 0xFFFF_0000_0000_0000);
    assert((r / 0x80_0000_0000) % 512 == i && r % 0x80_0000_0000 == 0) by (bit_vector)
        requires
            i < 512,
            a == i * 0x80_0000_0000,
            r == a || r == a + 0xFFFF_0000_0000_0000,
    ;
}

/// The lowest page of the kernel stack: the 4 KiB page of the configured
/// address, or else the page right after the boot information page.
pub fn kernel_stack_page(configured: Option<u64>, boot_info_page: u64) -> (r: u64)
    requires
        configured matches Some(a) ==> virt_convertible(a),
        configured is None ==> boot_info_page + SIZE_4KIB <= u64::MAX && virt_convertible(
            (boot_info_page + SIZE_4KIB) as u64,
        ),
    ensures
        r == match configured {
            Some(a) => align_down(sign_extend_48(a) as int, SIZE_4KIB as int) as u64,
            None => align_down(
                sign_extend_48((boot_info_page + SIZE_4KIB) as u64) as int,
                SIZE_4KIB as int,
            ) as u64,
        },
{
    match configured {
        Some(a) => page_4kib_containing(a),
        None => page_4kib_containing(boot_info_page + SIZE_4KIB),
    }
}

/// The offset at which all physical memory is mapped: the configured one, or
/// else the start of the free level 4 entry `free_entry`, which requires all
/// physical memory to fit in one such entry (512 GiB).
pub fn physical_memory_offset(configured: Option<u64>, max_phys_addr: u64, free_entry: u16) -> (r:
    u64)
    requires
        configured is None ==> max_phys_addr < 0x1_0000_0000_0000int / 512 && free_entry < 512,
    ensures
        r == match configured {
            Some(o) => o,
            None => sign_extend_48(table_indices_addr(free_entry, 0, 0, 0)),
        },
        configured is None ==> p4_index(r) == free_entry && r % 0x80_0000_0000 == 0,
{
    match configured {
        Some(o) => o,
        None => {
            let r = page_from_table_indices_1gib(free_entry, 0);
            proof {
                lemma_l4_entry_start(free_entry, r);
            }
            r
        },
    }
}

/// One 2 MiB page mapped to one 2 MiB frame.
#[derive(Clone, Copy, Debug, PartialEq, Eq)]
pub struct PageMapping {
    pub page: u64,
    pub frame: u64,
}

/// `VirtAddr::new` accepts `f + offset` for every frame address `f` from 0
/// to `last_frame`.
pub open spec fn offset_window_valid(offset: u64, last_frame: int) -> bool {
    ||| offset + last_frame < 0x1_0000_0000_0000
    ||| (offset >= UPPER_HALF_START && offset + last_frame <= u64::MAX)
}

/// The mappings that make all physical memory up to `max_phys_addr`
/// reachable at `offset`: every 2 MiB frame from frame 0 to the frame of
/// `max_phys_addr`, each mapped at the 2 MiB page that holds the canonical
/// form of its address plus `offset`.
pub fn physical_memory_mappings(max_phys_addr: u64, offset: u64) -> (r: Vec<PageMapping>)
    requires
        align_down(max_phys_addr as int, SIZE_2MIB as int) + SIZE_2MIB < PHYS_ADDR_LIMIT,
        offset_window_valid(offset, align_down(max_phys_addr as int, SIZE_2MIB as int)),
    ensures
        r@.len() == max_phys_addr / SIZE_2MIB + 1,
        forall|i: int|
            0 <= i < r@.len() ==> #[trigger] r@[i].frame == i * SIZE_2MIB && r@[i].page
                == align_down(
                sign_extend_48((i * SIZE_2MIB + offset) as u64) as int,
                SIZE_2MIB as int,
            ),
        r@[r@.len() - 1].frame <= max_phys_addr < r@[r@.len() - 1].frame + SIZE_2MIB,
        offset % SIZE_2MIB == 0 && (offset + align_down(max_phys_addr as int, SIZE_2MIB as int)
            < 0x8000_0000_0000 || offset >= UPPER_HALF_START) ==> forall|i: int|
            0 <= i < r@.len() ==> #[trigger] r@[i].page == r@[i].frame + offset,
{
    let first = frame_2mib_containing(0);
    let last = frame_2mib_containing(max_phys_addr);
    let ghost n = max_phys_addr / SIZE_2MIB;
    assert(last == n * SIZE_2MIB) by (nonlinear_arith)
        requires
            last == max_phys_addr - max_phys_addr % 0x20_0000,
            n == max_phys_addr / 0x20_0000,
    ;
    let mut r: Vec<PageMapping> = Vec::new();
    let mut frame = first;
    assert(r@.len() * SIZE_2MIB == 0) by (nonlinear_arith)
        requires
            r@.len() == 0,
    ;
    while frame <= last
        invariant
            last == n * SIZE_2MIB,
            last + SIZE_2MIB < PHYS_ADDR_LIMIT,
            offset_window_valid(offset, last as int),
            frame == r@.len() * SIZE_2MIB,
            r@.len() <= n + 1,
            forall|i: int|
                0 <= i < r@.len() ==> #[trigger] r@[i].frame == i * SIZE_2MIB && r@[i].page
                    == align_down(
                    sign_extend_48((i * SIZE_2MIB + offset) as u64) as int,
                    SIZE_2MIB as int,
                ),
        decreases last + SIZE_2MIB - frame,
    {
        let page = page_2mib_containing(frame + offset);
        r.push(PageMapping { page, frame });
        assert((r@.len() - 1) * SIZE_2MIB + SIZE_2MIB == r@.len() * SIZE_2MIB) by (nonlinear_arith);
        frame = frame_2mib_containing(frame + SIZE_2MIB);
        assert(frame == r@.len() * SIZE_2MIB) by (nonlinear_arith)
            requires
                frame == (r@.len() * 0x20_0000) - (r@.len() * 0x20_0000) % 0x20_0000,
        ;
        assert(r@.len() <= n + 1) by (nonlinear_arith)
            requires
                (r@.len() - 1) * 0x20_0000 <= n * 0x20_0000,
        ;
    }
    assert(r@.len() == n + 1) by (nonlinear_arith)
        requires
            r@.len() * 0x20_0000 > n * 0x20_0000,
            r@.len() <= n + 1,
    ;
    assert(n * SIZE_2MIB <= max_phys_addr < n * SIZE_2MIB + SIZE_2MIB) by (nonlinear_arith)
        requires
            n == max_phys_addr / 0x20_0000,
    ;
    proof {
        if offset % SIZE_2MIB == 0 && (offset + last < 0x8000_0000_0000
            || offset >= UPPER_HALF_START) {
            assert forall|i: int| 0 <= i < r@.len() implies #[trigger] r@[i].page == r@[i].frame
                + offset by {
                let a = (i * SIZE_2MIB + offset) as u64;
                assert(i * SIZE_2MIB <= last) by (nonlinear_arith)
                    requires
                        i <= n,
                        last == n * 0x20_0000,
                ;
                lemma_sign_extend_canonical(a);
                assert((a as int) % (SIZE_2MIB as int) == 0) by (nonlinear_arith)
                    requires
                        a == i * 0x20_0000 + offset,
                        offset % 0x20_0000 == 0,
                ;
            }
        }
    }
    r
}

/// Start of the highest 2 MiB page of the address space.
pub const MAX_PAGE_2MIB: u64 = 0xFFFF_FFFF_FFE0_0000;

/// The 2 MiB page after page `p`, as `Page + 1` computes it: the page that
/// holds the canonical form of `p + 2 MiB`.
pub open spec fn next_page_2mib(p: u64) -> u64 {
    align_down(sign_extend_48((p + SIZE_2MIB) as u64) as int, SIZE_2MIB as int) as u64
}

/// The first 2 MiB page of the kernel image at the identity-mapped address
/// `k`.
pub open spec fn kernel_first_page(k: u64) -> u64 {
    align_down(sign_extend_48(k) as int, SIZE_2MIB as int) as u64
}

/// The 2 MiB page that holds the last byte of the `size` bytes of the kernel
/// image at the identity-mapped address `k`.
pub open spec fn kernel_last_page(k: u64, size: u64) -> u64 {
    let end = sign_extend_48((sign_extend_48(k) + size) as u64);
    align_down(sign_extend_48((end - 1) as u64) as int, SIZE_2MIB as int) as u64
}

/// The kernel image's addresses are valid for the computation of its pages:
/// `VirtAddr::new` accepts the start, the end, and the last byte, and the end
/// neither overflows nor is zero.
pub open spec fn kernel_image_addressable(k: u64, size: u64) -> bool {
    let v = sign_extend_48(k);
    let end = sign_extend_48((v + size) as u64);
    &&& k < 0x1_0000_0000_0000
    &&& v + size <= u64::MAX
    &&& virt_convertible((v + size) as u64)
    &&& end >= 1
    &&& virt_convertible((end - 1) as u64)
}

proof fn lemma_next_page_2mib(p: u64)
    requires
        is_canonical(p),
        p % SIZE_2MIB == 0,
        p < MAX_PAGE_2MIB,
    ensures
        virt_convertible((p + SIZE_2MIB) as u64),
        is_canonical(next_page_2mib(p)),
        next_page_2mib(p) % SIZE_2MIB == 0,
        next_page_2mib(p) > p,
        p + SIZE_2MIB < 0x8000_0000_0000 ==> next_page_2mib(p) == p + SIZE_2MIB,
{
    if p < 0x8000_0000_0000 {
        assert(p + SIZE_2MIB <= 0x8000_0000_0000) by (nonlinear_arith)
            requires
                p % 0x20_0000 == 0,
                p < 0x8000_0000_0000,
        ;
    } else {
        assert(p + SIZE_2MIB <= MAX_PAGE_2MIB) by (nonlinear_arith)
            requires
                p % 0x20_0000 == 0,
                p < 0xFFFF_FFFF_FFE0_0000,
        ;
    }
    let q = (p + SIZE_2MIB) as u64;
    lemma_sign_extend_facts(q);
    let c = sign_extend_48(q);
    assert(c % SIZE_2MIB == 0) by (nonlinear_arith)
        requires
            c == q || c == q + 0xFFFF_0000_0000_0000,
            q == p + 0x20_0000,
            p % 0x20_0000 == 0,
    ;
    assert(c == q || c == q + 0xFFFF_0000_0000_0000);
}

/// Byte address `b` lies in one of the 2 MiB `pages`.
pub open spec fn page_2mib_covers(pages: Seq<u64>, b: int) -> bool {
    exists|i: int| 0 <= i < pages.len() && #[trigger] pages[i] <= b < pages[i] + SIZE_2MIB
}

/// The 2 MiB pages that hold the kernel image (`kernel_size` bytes at the
/// identity-mapped `kernel_start`), which the bootloader unmaps before it
/// maps the kernel's segments: the inclusive page range from
/// [`kernel_first_page`] to [`kernel_last_page`], walked as the `x86_64`
/// crate walks it.
pub fn kernel_image_pages(kernel_start: &IdentityMappedAddr, kernel_size: u64) -> (r: Vec<u64>)
    requires
        kernel_image_addressable(kernel_start@, kernel_size),
    ensures
        r@.len() == 0 <==> kernel_first_page(kernel_start@) > kernel_last_page(
            kernel_start@,
            kernel_size,
        ),
        r@.len() > 0 ==> r@[0] == kernel_first_page(kernel_start@),
        forall|i: int|
            0 <= i < r@.len() - 1 ==> #[trigger] r@[i] < MAX_PAGE_2MIB && r@[i + 1]
                == next_page_2mib(r@[i]),
        forall|i: int|
            0 <= i < r@.len() ==> #[trigger] r@[i] <= kernel_last_page(kernel_start@, kernel_size),
        r@.len() > 0 ==> r@[r@.len() - 1] == MAX_PAGE_2MIB || next_page_2mib(r@[r@.len() - 1])
            > kernel_last_page(kernel_start@, kernel_size),
        kernel_start@ + kernel_size < 0x8000_0000_0000 ==> forall|b: int|
            kernel_start@ <= b < kernel_start@ + kernel_size ==> #[trigger] page_2mib_covers(r@, b),
{
    let ghost k = kernel_start@;
    let v = kernel_start.virt();
    let first = page_2mib_containing(v);
    let end = virt_addr_of(v + kernel_size);
    let last = page_2mib_containing(end - 1);
    proof {
        lemma_sign_extend_facts(k);
        lemma_sign_extend_canonical(v);
        lemma_align_down_canonical(v, SIZE_2MIB);
    }
    let ghost low = k + kernel_size < 0x8000_0000_0000;
    proof {
        if low {
            lemma_sign_extend_facts((v + kernel_size) as u64);
            lemma_sign_extend_facts((end - 1) as u64);
            assert(last <= end - 1);
        }
    }
    let mut pages: Vec<u64> = Vec::new();
    let mut page = first;
    assert(pages@.len() * SIZE_2MIB == 0) by (nonlinear_arith)
        requires
            pages@.len() == 0,
    ;
    let mut done = false;
    while !done && page <= last
        invariant
            first == kernel_first_page(k),
            last == kernel_last_page(k, kernel_size),
            is_canonical(page),
            page % SIZE_2MIB == 0,
            pages@.len() == 0 ==> page == first && !done,
            pages@.len() > 0 ==> pages@[0] == first,
            pages@.len() > 0 && !done ==> pages@[pages@.len() - 1] < MAX_PAGE_2MIB && page
                == next_page_2mib(pages@[pages@.len() - 1]),
            pages@.len() > 0 && !done ==> page > pages@[pages@.len() - 1],
            done ==> pages@.len() > 0 && pages@[pages@.len() - 1] == MAX_PAGE_2MIB,
            forall|i: int|
                0 <= i < pages@.len() - 1 ==> #[trigger] pages@[i] < MAX_PAGE_2MIB && pages@[i + 1]
                    == next_page_2mib(pages@[i]),
            forall|i: int| 0 <= i < pages@.len() ==> #[trigger] pages@[i] <= last,
            low ==> (page <= last ==> page == first + pages@.len() * SIZE_2MIB),
            low ==> forall|i: int|
                0 <= i < pages@.len() ==> #[trigger] pages@[i] == first + i * SIZE_2MIB,
            low ==> last < 0x8000_0000_0000,
        decreases (if done { 0int } else { 1int }), 0x1_0000_0000_0000_0000 - page,
    {
        let ghost prev = pages@;
        pages.push(page);
        proof {
            assert forall|i: int| 0 <= i < pages@.len() - 1 implies #[trigger] pages@[i]
                < MAX_PAGE_2MIB && pages@[i + 1] == next_page_2mib(pages@[i]) by {
                if i < prev.len() - 1 {
                    assert(pages@[i] == prev[i]);
                    assert(pages@[i + 1] == prev[i + 1]);
                } else {
                    assert(pages@[i] == prev[prev.len() - 1]);
                }
            }
        }
        if page < MAX_PAGE_2MIB {
            proof {
                lemma_next_page_2mib(page);
            }
            let ghost old_page = page;
            page = page_2mib_containing(page + SIZE_2MIB);
            proof {
                if low && page <= last {
                    assert(old_page + SIZE_2MIB < 0x8000_0000_0000);
                    assert(pages@.len() * SIZE_2MIB == (pages@.len() - 1) * SIZE_2MIB + SIZE_2MIB)
                        by (nonlinear_arith);
                }
            }
        } else {
            assert(page == MAX_PAGE_2MIB) by (nonlinear_arith)
                requires
                    page >= 0xFFFF_FFFF_FFE0_0000,
                    page % 0x20_0000 == 0,
                    page <= u64::MAX,
            ;
            done = true;
        }
    }
    proof {
        if low {
            assert(!done);
            assert forall|b: int| k <= b < k + kernel_size implies #[trigger] page_2mib_covers(
                pages@,
                b,
            ) by {
                lemma_kernel_byte_page(k, kernel_size, first, last, pages@, page, b);
            }
        }
    }
    pages
}

proof fn lemma_kernel_byte_page(
    k: u64,
    size: u64,
    first: u64,
    last: u64,
    pages: Seq<u64>,
    page: u64,
    b: int,
)
    requires
        k + size < 0x8000_0000_0000,
        k <= b < k + size,
        first == align_down(k as int, SIZE_2MIB as int),
        last == align_down(k + size - 1, SIZE_2MIB as int),
        page > last,
        pages.len() == 0 ==> page == first,
        pages.len() > 0 ==> page == next_page_2mib(pages[pages.len() - 1]),
        forall|i: int| 0 <= i < pages.len() ==> #[trigger] pages[i] == first + i * SIZE_2MIB,
    ensures
        page_2mib_covers(pages, b),
{
    let i = (b - first) / (SIZE_2MIB as int);
    assert(first <= k);
    assert(first <= b);
    assert(i * 0x20_0000 <= b - first < i * 0x20_0000 + 0x20_0000) by (nonlinear_arith)
        requires
            i == (b - first) / 0x20_0000,
            first <= b,
    ;
    assert(first % 0x20_0000 == 0) by (nonlinear_arith)
        requires
            first == k - k % 0x20_0000,
    ;
    assert(first + i * 0x20_0000 <= last) by (nonlinear_arith)
        requires
            first % 0x20_0000 == 0,
            first + i * 0x20_0000 <= b,
            b <= k + size - 1,
            last == (k + size - 1) - (k + size - 1) % 0x20_0000,
            i >= 0,
    ;
    if pages.len() == 0 {
        assert(false);
    } else {
        let n = pages.len() - 1;
        let p = pages[n];
        assert(p == first + n * SIZE_2MIB);
        assert(p + SIZE_2MIB > last) by {
            if p + SIZE_2MIB < 0x8000_0000_0000 {
                lemma_sign_extend_facts((p + SIZE_2MIB) as u64);
                assert((p + SIZE_2MIB) % (SIZE_2MIB as int) == 0) by (nonlinear_arith)
                    requires
                        p == first + n * 0x20_0000,
                        first % 0x20_0000 == 0,
                ;
            }
        }
        assert(i < pages.len()) by (nonlinear_arith)
            requires
                first + i * 0x20_0000 <= last,
                first + n * 0x20_0000 + 0x20_0000 > last,
                n == pages.len() - 1,
        ;
        assert(pages[i] <= b < pages[i] + SIZE_2MIB);
    }
}

} // verus!
