use simple_bootloader::disk::{disk_ready, sector_command, sector_reads, PortWrite, SectorRead, SCRATCH, SECTSIZE};
use simple_bootloader::elf::{program_header_addresses, ElfHeader, ProgramHeader, SegmentLoad, ELF_MAGIC};
use simple_bootloader::vga::{vga_writes, VgaWrite, HELLO, LIGHT_CYAN};

#[test]
fn disk_ready_needs_ready_bit_and_no_busy_bit() {
    assert!(disk_ready(0x40));
    assert!(disk_ready(0x50));
    assert!(disk_ready(0x7f));
    assert!(!disk_ready(0x00));
    assert!(!disk_ready(0x80));
    assert!(!disk_ready(0xc0));
    assert!(!disk_ready(0xd0));
}

#[test]
fn sector_command_writes_lba28_request() {
    let cmd = sector_command(0x0123_4567);
    assert_eq!(
        cmd,
        vec![
            PortWrite { port: 0x1F2, value: 1 },
            PortWrite { port: 0x1F3, value: 0x67 },
            PortWrite { port: 0x1F4, value: 0x45 },
            PortWrite { port: 0x1F5, value: 0x23 },
            PortWrite { port: 0x1F6, value: 0xE1 },
            PortWrite { port: 0x1F7, value: 0x20 },
        ]
    );
}

#[test]
fn sector_command_bytes_give_back_the_sector() {
    for sector in [0u32, 1, 9, 0x00ff_ffff, 0x0abc_def0, 0x0fff_ffff] {
        let cmd = sector_command(sector);
        let back = cmd[1].value as u32
            | (cmd[2].value as u32) << 8
            | (cmd[3].value as u32) << 16
            | ((cmd[4].value & 0x0f) as u32) << 24;
        assert_eq!(back, sector);
        assert_eq!(cmd[4].value & 0xe0, 0xe0);
    }
}

#[test]
fn sector_reads_of_the_first_stage_header_read() {
    let (reads, end) = sector_reads(SCRATCH, SECTSIZE * 8, 0);
    assert_eq!(reads.len(), 8);
    for (i, r) in reads.iter().enumerate() {
        assert_eq!(*r, SectorRead { dst: 0x10000 + 512 * i as u32, sector: 1 + i as u32 });
    }
    assert_eq!(end, 0x11000);
}

#[test]
fn sector_reads_round_the_address_down() {
    let (reads, end) = sector_reads(0x10010, 16, 1024);
    assert_eq!(reads, vec![SectorRead { dst: 0x10000, sector: 3 }]);
    assert_eq!(end, 0x10200);
}

#[test]
fn sector_reads_cover_an_unaligned_span() {
    let (reads, end) = sector_reads(0x2100, 0x300, 0x600);
    assert_eq!(
        reads,
        vec![SectorRead { dst: 0x2000, sector: 4 }, SectorRead { dst: 0x2200, sector: 5 }]
    );
    assert_eq!(end, 0x2400);
    for b in 0x2100u32..0x2400 {
        assert!(reads.iter().any(|r| r.dst <= b && b < r.dst + 512));
    }
}

#[test]
fn sector_reads_of_nothing() {
    let (reads, end) = sector_reads(0x3000, 0, 0);
    assert!(reads.is_empty());
    assert_eq!(end, 0x3000);
    let (reads, end) = sector_reads(0x3004, 0, 0);
    assert_eq!(reads, vec![SectorRead { dst: 0x3000, sector: 1 }]);
    assert_eq!(end, 0x3200);
}

fn header_bytes() -> Vec<u8> {
    let mut b = vec![0u8; 64];
    b[0..4].copy_from_slice(&ELF_MAGIC);
    b[4] = 2;
    b[5] = 1;
    b[6] = 1;
    b[16..18].copy_from_slice(&2u16.to_le_bytes());
    b[18..20].copy_from_slice(&0x3eu16.to_le_bytes());
    b[20..24].copy_from_slice(&1u32.to_le_bytes());
    b[24..32].copy_from_slice(&0xffff_8000_0010_2030u64.to_le_bytes());
    b[32..40].copy_from_slice(&64u64.to_le_bytes());
    b[40..48].copy_from_slice(&0x1234u64.to_le_bytes());
    b[52..54].copy_from_slice(&64u16.to_le_bytes());
    b[54..56].copy_from_slice(&56u16.to_le_bytes());
    b[56..58].copy_from_slice(&3u16.to_le_bytes());
    b[58..60].copy_from_slice(&64u16.to_le_bytes());
    b[60..62].copy_from_slice(&7u16.to_le_bytes());
    b[62..64].copy_from_slice(&6u16.to_le_bytes());
    b
}

#[test]
fn elf_header_is_read_little_endian() {
    let b = header_bytes();
    let h = ElfHeader::from_bytes(&b).unwrap();
    assert_eq!(h.magic, ELF_MAGIC);
    assert_eq!(h.class, 2);
    assert_eq!(h.endianness, 1);
    assert_eq!(h.elftype, 2);
    assert_eq!(h.machine, 0x3e);
    assert_eq!(h.elf_version, 1);
    assert_eq!(h.entry, 0xffff_8000_0010_2030);
    assert_eq!(h.phoff, 64);
    assert_eq!(h.shoff, 0x1234);
    assert_eq!(h.ehsize, 64);
    assert_eq!(h.phentsize, 56);
    assert_eq!(h.phnum, 3);
    assert_eq!(h.shentsize, 64);
    assert_eq!(h.shnum, 7);
    assert_eq!(h.shstrndx, 6);
    assert!(h.has_elf_magic());
}

#[test]
fn elf_header_needs_64_bytes_and_the_magic() {
    let b = header_bytes();
    assert!(ElfHeader::from_bytes(&b[..63]).is_none());
    let mut bad = b.clone();
    bad[1] = b'e';
    let h = ElfHeader::from_bytes(&bad).unwrap();
    assert!(!h.has_elf_magic());
}

#[test]
fn program_header_is_read_little_endian() {
    let mut b = vec![0u8; 56];
    b[0..4].copy_from_slice(&1u32.to_le_bytes());
    b[4..8].copy_from_slice(&5u32.to_le_bytes());
    b[8..16].copy_from_slice(&0x1000u64.to_le_bytes());
    b[16..24].copy_from_slice(&0xffff_8000_0000_0000u64.to_le_bytes());
    b[24..32].copy_from_slice(&0x20_0000u64.to_le_bytes());
    b[32..40].copy_from_slice(&0x1_2345u64.to_le_bytes());
    b[40..48].copy_from_slice(&0x1_3000u64.to_le_bytes());
    b[48..56].copy_from_slice(&0x1000u64.to_le_bytes());
    let ph = ProgramHeader::from_bytes(&b).unwrap();
    assert_eq!(
        ph,
        ProgramHeader {
            p_type: 1,
            flags: 5,
            offset: 0x1000,
            vaddr: 0xffff_8000_0000_0000,
            paddr: 0x20_0000,
            filesz: 0x1_2345,
            memsz: 0x1_3000,
            align: 0x1000,
        }
    );
    assert!(ProgramHeader::from_bytes(&b[..55]).is_none());
}

#[test]
fn segment_load_cuts_to_32_bits() {
    let ph = ProgramHeader {
        p_type: 1,
        flags: 0,
        offset: 0x1_0000_2000,
        vaddr: 0,
        paddr: 0x2_0010_0000,
        filesz: 0,
        memsz: 0x3000,
        align: 0,
    };
    assert_eq!(ph.segment_load(), SegmentLoad { pa: 0x10_0000, count: 0x3000, offset: 0x2000 });
}

#[test]
fn program_header_walk_visits_every_entry() {
    let h = ElfHeader::from_bytes(&header_bytes()).unwrap();
    assert_eq!(program_header_addresses(0x10000, &h), vec![0x10040, 0x10078, 0x100b0]);
}

#[test]
fn program_header_walk_with_other_tables() {
    let mut h = ElfHeader::from_bytes(&header_bytes()).unwrap();
    h.phoff = 0x100;
    h.phnum = 4;
    h.phentsize = 0x40;
    assert_eq!(program_header_addresses(0, &h), vec![0x100, 0x140, 0x180, 0x1c0]);
    h.phnum = 0;
    assert!(program_header_addresses(u64::MAX, &h).is_empty());
    h.phnum = 1;
    h.phoff = 0;
    assert_eq!(program_header_addresses(u64::MAX, &h), vec![u64::MAX]);
}

#[test]
fn vga_writes_hello_in_light_cyan() {
    let w = vga_writes(&HELLO);
    assert_eq!(w.len(), 24);
    assert_eq!(w[0], VgaWrite { offset: 0, value: b'H' });
    assert_eq!(w[1], VgaWrite { offset: 1, value: LIGHT_CYAN });
    assert_eq!(w[22], VgaWrite { offset: 22, value: b'!' });
    assert_eq!(w[23], VgaWrite { offset: 23, value: 0xb });
    let text: Vec<u8> = w.iter().step_by(2).map(|v| v.value).collect();
    assert_eq!(text, b"Hello World!".to_vec());
}

#[test]
fn vga_writes_nothing_for_empty_text() {
    assert!(vga_writes(&[]).is_empty());
}
