use simple_bootloader::addr::IdentityMappedAddr;
use simple_bootloader::layout::{
    boot_info_page, kernel_image_pages, kernel_stack_page, physical_memory_mappings,
    physical_memory_offset, recursive_page_table_addr, PageMapping,
};
use simple_bootloader::memory::{
    covering_frames, frame_range, max_phys_addr, phys_frame_range, reserved_regions, FrameRange,
    MemoryRegion, MemoryRegionType, PhysFrameSpan,
};

#[test]
fn identity_mapped_addr_needs_a_valid_physical_address() {
    assert!(IdentityMappedAddr::new(1 << 52).is_none());
    let a = IdentityMappedAddr::new(0x40_0000).unwrap();
    assert_eq!(a.phys(), 0x40_0000);
    assert_eq!(a.as_u64(), 0x40_0000);
    assert_eq!(a.virt(), 0x40_0000);
}

#[test]
fn identity_mapped_addr_above_2_pow_47_is_sign_extended() {
    let a = IdentityMappedAddr::new(0x8000_0000_1000).unwrap();
    assert_eq!(a.virt(), 0xffff_8000_0000_1000);
}

#[test]
fn frame_range_new_counts_whole_frames() {
    assert_eq!(FrameRange::new(0x1000, 0x3000), FrameRange { start_frame_number: 1, end_frame_number: 3 });
    assert_eq!(FrameRange::new(0x1001, 0x2001), FrameRange { start_frame_number: 1, end_frame_number: 3 });
    let r = FrameRange { start_frame_number: 2, end_frame_number: 5 };
    assert_eq!(r.start_addr(), 0x2000);
    assert_eq!(r.end_addr(), 0x5000);
}

#[test]
fn frame_range_and_phys_frame_range_undo_each_other() {
    let r = FrameRange { start_frame_number: 0x10, end_frame_number: 0x20 };
    let span = phys_frame_range(r);
    assert_eq!(span, PhysFrameSpan { start: 0x10000, end: 0x20000 });
    assert_eq!(frame_range(span), r);
    let span = PhysFrameSpan { start: 0x7000, end: 0x9000 };
    assert_eq!(phys_frame_range(frame_range(span)), span);
}

#[test]
fn max_phys_addr_is_the_highest_end() {
    let usable = |s, e| MemoryRegion {
        range: FrameRange { start_frame_number: s, end_frame_number: e },
        region_type: MemoryRegionType::Usable,
    };
    assert_eq!(max_phys_addr(&vec![]), None);
    let map = vec![usable(0, 0x9f), usable(0x100, 0x7fe0), usable(0xa0, 0xc0)];
    assert_eq!(max_phys_addr(&map), Some(0x7fe_0000));
}

#[test]
fn covering_frames_hold_every_byte() {
    assert_eq!(covering_frames(0x7e00, 0x9001), FrameRange { start_frame_number: 7, end_frame_number: 10 });
    assert_eq!(covering_frames(0x1000, 0x2000), FrameRange { start_frame_number: 1, end_frame_number: 2 });
}

#[test]
fn reserved_regions_of_the_standard_layout() {
    let kernel = IdentityMappedAddr::new(0x40_0000).unwrap();
    let r = reserved_regions(0x5000, 0x1_2345, &kernel, 0x2_1000, 0x1000, 0x5000);
    let region = |s, e, t| MemoryRegion { range: FrameRange { start_frame_number: s, end_frame_number: e }, region_type: t };
    assert_eq!(
        r,
        vec![
            region(0, 1, MemoryRegionType::FrameZero),
            region(5, 0x13, MemoryRegionType::Bootloader),
            region(0x400, 0x421, MemoryRegionType::Kernel),
            region(1, 5, MemoryRegionType::PageTable),
        ]
    );
}

#[test]
fn recursive_page_table_addr_repeats_the_index() {
    assert_eq!(recursive_page_table_addr(511), 0xffff_ffff_ffff_f000);
    assert_eq!(recursive_page_table_addr(1), 0x0000_0080_4020_1000);
    assert_eq!(recursive_page_table_addr(256), 0xffff_8040_2010_0000);
    for i in [0u16, 1, 255, 256, 300, 511] {
        let a = recursive_page_table_addr(i) as u64;
        assert_eq!((a >> 39) & 511, i as u64);
        assert_eq!((a >> 30) & 511, i as u64);
        assert_eq!((a >> 21) & 511, i as u64);
        assert_eq!((a >> 12) & 511, i as u64);
    }
}

#[test]
fn boot_info_page_from_config_or_free_entry() {
    assert_eq!(boot_info_page(Some(0x1234_5678), 0), 0x1234_5000);
    assert_eq!(boot_info_page(None, 3), 0x180_0000_0000);
    assert_eq!(boot_info_page(None, 300), 0xffff_9600_0000_0000);
}

#[test]
fn kernel_stack_page_follows_boot_info_page() {
    assert_eq!(kernel_stack_page(None, 0x180_0000_0000), 0x180_0000_1000);
    assert_eq!(kernel_stack_page(Some(0x7fff_0000_0fff), 0), 0x7fff_0000_0000);
    assert_eq!(kernel_stack_page(None, 0x7fff_ffff_f000), 0xffff_8000_0000_0000);
}

#[test]
fn physical_memory_offset_from_config_or_free_entry() {
    assert_eq!(physical_memory_offset(Some(0x5000_0000_0000), 0x1_0000_0000, 0), 0x5000_0000_0000);
    assert_eq!(physical_memory_offset(None, 0x1000_0000, 2), 0x100_0000_0000);
}

#[test]
fn physical_memory_is_mapped_at_the_offset() {
    let m = physical_memory_mappings(0x5f_ffff, 0x100_0000_0000);
    assert_eq!(
        m,
        vec![
            PageMapping { page: 0x100_0000_0000, frame: 0 },
            PageMapping { page: 0x100_0020_0000, frame: 0x20_0000 },
            PageMapping { page: 0x100_0040_0000, frame: 0x40_0000 },
        ]
    );
    let m = physical_memory_mappings(0x60_0000, 0xffff_8000_0000_0000);
    assert_eq!(m.len(), 4);
    assert!(m.iter().all(|p| p.page == p.frame + 0xffff_8000_0000_0000));
}

#[test]
fn kernel_image_pages_cover_the_image() {
    let k = IdentityMappedAddr::new(0x40_0000).unwrap();
    assert_eq!(kernel_image_pages(&k, 0x30_0000), vec![0x40_0000, 0x60_0000]);
    assert_eq!(kernel_image_pages(&k, 1), vec![0x40_0000]);
    let k = IdentityMappedAddr::new(0x5f_f000).unwrap();
    assert_eq!(kernel_image_pages(&k, 0x2000), vec![0x40_0000, 0x60_0000]);
    assert_eq!(kernel_image_pages(&k, 0), vec![0x40_0000]);
}
