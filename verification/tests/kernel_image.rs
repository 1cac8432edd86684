use simple_bootloader::elf::{ElfHeader, ProgramHeader};
use simple_bootloader::kernel_elf::{
    collect_segments, load_kernel_elf, ElfError, KernelImage, KernelElf, ProgramHeaderEntry, Segment,
    SegmentError, SegmentKind, MAX_SEGMENTS,
};

fn words_of(b: &[u8]) -> Vec<u64> {
    b.chunks(8)
        .map(|c| {
            let mut w = [0u8; 8];
            w[..c.len()].copy_from_slice(c);
            u64::from_le_bytes(w)
        })
        .collect()
}

fn load(b: &[u8]) -> Result<KernelElf, ElfError> {
    let words = words_of(b);
    let image = KernelImage::new(&words, b.len());
    assert_eq!(image.len(), b.len());
    assert!(image.elf_loadable());
    load_kernel_elf(&image)
}

fn put(b: &mut [u8], at: usize, bytes: &[u8]) {
    b[at..at + bytes.len()].copy_from_slice(bytes);
}

fn kernel_image(phnum: u16) -> Vec<u8> {
    let len = 64 + 56 * phnum as usize;
    let mut b = vec![0u8; len];
    put(&mut b, 0, &[0x7f, b'E', b'L', b'F', 2, 1, 1]);
    put(&mut b, 16, &2u16.to_le_bytes());
    put(&mut b, 18, &0x3eu16.to_le_bytes());
    put(&mut b, 20, &1u32.to_le_bytes());
    put(&mut b, 24, &0xffff_8000_0000_1000u64.to_le_bytes());
    put(&mut b, 32, &64u64.to_le_bytes());
    put(&mut b, 52, &64u16.to_le_bytes());
    put(&mut b, 54, &56u16.to_le_bytes());
    put(&mut b, 56, &phnum.to_le_bytes());
    for i in 0..phnum as usize {
        let at = 64 + 56 * i;
        let kind: u32 = if i == 1 { 7 } else { 1 };
        put(&mut b, at, &kind.to_le_bytes());
        put(&mut b, at + 4, &5u32.to_le_bytes());
        put(&mut b, at + 8, &(0x1000 * (i as u64 + 1)).to_le_bytes());
        put(&mut b, at + 16, &(0xffff_8000_0000_0000 + 0x1000 * i as u64).to_le_bytes());
        put(&mut b, at + 24, &(0x40_0000 + 0x1000 * i as u64).to_le_bytes());
        put(&mut b, at + 32, &0x800u64.to_le_bytes());
        put(&mut b, at + 40, &0x1000u64.to_le_bytes());
        put(&mut b, at + 48, &0x1000u64.to_le_bytes());
    }
    b
}

fn segment(i: u64, kind: SegmentKind) -> Segment {
    Segment {
        kind,
        flags: 5,
        offset: 0x1000 * (i + 1),
        virtual_addr: 0xffff_8000_0000_0000 + 0x1000 * i,
        physical_addr: 0x40_0000 + 0x1000 * i,
        file_size: 0x800,
        mem_size: 0x1000,
        align: 0x1000,
    }
}

#[test]
fn load_kernel_elf_reads_entry_and_program_headers() {
    let b = kernel_image(2);
    let k = load(&b).unwrap();
    assert_eq!(k.entry_point, 0xffff_8000_0000_1000);
    assert_eq!(
        k.headers,
        vec![ProgramHeaderEntry::Elf64(segment(0, SegmentKind::Load)), ProgramHeaderEntry::Elf64(segment(1, SegmentKind::Tls))]
    );
}

#[test]
fn load_kernel_elf_without_program_headers() {
    let b = kernel_image(0);
    let k = load(&b).unwrap();
    assert!(k.headers.is_empty());
}

#[test]
fn load_kernel_elf_refuses_a_file_without_magic() {
    let mut b = kernel_image(1);
    b[0] = 0;
    assert!(matches!(load(&b), Err(ElfError::Open(_))));
    assert!(matches!(load(&b[..10]), Err(ElfError::Open(_))));
}

#[test]
fn load_kernel_elf_refuses_an_insane_header() {
    let mut b = kernel_image(1);
    b[6] = 0;
    assert!(matches!(load(&b), Err(ElfError::SanityCheck(_))));
    let mut b = kernel_image(1);
    put(&mut b, 56, &3u16.to_le_bytes());
    assert!(matches!(load(&b), Err(ElfError::SanityCheck(_))));
}

#[test]
fn collect_segments_keeps_64_bit_headers_in_order() {
    let entries = vec![ProgramHeaderEntry::Elf64(segment(0, SegmentKind::Load)), ProgramHeaderEntry::Elf64(segment(1, SegmentKind::Tls))];
    let mut storage = [segment(9, SegmentKind::Null); MAX_SEGMENTS];
    let v = collect_segments(&entries, &mut storage).unwrap();
    assert_eq!(v.as_slice(), &[segment(0, SegmentKind::Load), segment(1, SegmentKind::Tls)]);
}

#[test]
fn collect_segments_refuses_32_bit_headers() {
    let entries = vec![ProgramHeaderEntry::Elf64(segment(0, SegmentKind::Load)), ProgramHeaderEntry::Elf32];
    let mut storage = [segment(9, SegmentKind::Null); MAX_SEGMENTS];
    assert!(matches!(collect_segments(&entries, &mut storage), Err(SegmentError::Elf32NotSupported)));
}

#[test]
fn collect_segments_holds_at_most_32() {
    let mut entries: Vec<ProgramHeaderEntry> = (0..32).map(|i| ProgramHeaderEntry::Elf64(segment(i, SegmentKind::Load))).collect();
    let mut storage = [segment(9, SegmentKind::Null); MAX_SEGMENTS];
    assert_eq!(collect_segments(&entries, &mut storage).unwrap().len(), 32);
    entries.push(ProgramHeaderEntry::Elf64(segment(32, SegmentKind::Load)));
    let mut storage = [segment(9, SegmentKind::Null); MAX_SEGMENTS];
    assert!(matches!(collect_segments(&entries, &mut storage), Err(SegmentError::TooManySegments)));
    entries.push(ProgramHeaderEntry::Elf32);
    let mut storage = [segment(9, SegmentKind::Null); MAX_SEGMENTS];
    assert!(matches!(collect_segments(&entries, &mut storage), Err(SegmentError::TooManySegments)));
}

#[test]
fn first_stage_header_and_elf_reader_agree() {
    let b = kernel_image(2);
    let h = ElfHeader::from_bytes(&b).unwrap();
    let k = load(&b).unwrap();
    assert!(h.has_elf_magic());
    assert_eq!(h.entry, k.entry_point);
    assert_eq!(h.phnum as usize, k.headers.len());
    for (i, e) in k.headers.iter().enumerate() {
        let at = h.phoff as usize + i * h.phentsize as usize;
        let ph = ProgramHeader::from_bytes(&b[at..]).unwrap();
        match e {
            ProgramHeaderEntry::Elf64(seg) => {
                assert_eq!(seg.physical_addr, ph.paddr);
                assert_eq!(seg.virtual_addr, ph.vaddr);
                assert_eq!(seg.mem_size, ph.memsz);
                assert_eq!(seg.file_size, ph.filesz);
                assert_eq!(seg.offset, ph.offset);
                assert_eq!(seg.flags, ph.flags);
                assert_eq!(seg.align, ph.align);
            }
            ProgramHeaderEntry::Elf32 => panic!("64-bit image"),
        }
    }
}

#[test]
fn elf_loadable_rejects_misaligned_program_headers() {
    let mut b = kernel_image(2);
    b.push(0);
    put(&mut b, 32, &65u64.to_le_bytes());
    let words = words_of(&b);
    assert!(!KernelImage::new(&words, b.len()).elf_loadable());
    let mut b = kernel_image(2);
    put(&mut b, 54, &60u16.to_le_bytes());
    b.extend_from_slice(&[0u8; 8]);
    let words = words_of(&b);
    assert!(!KernelImage::new(&words, b.len()).elf_loadable());
    let mut b = kernel_image(1);
    put(&mut b, 54, &60u16.to_le_bytes());
    b.extend_from_slice(&[0u8; 4]);
    let words = words_of(&b);
    assert!(KernelImage::new(&words, b.len()).elf_loadable());
}

#[test]
fn elf_loadable_rejects_short_program_header_entries() {
    let mut b = kernel_image(1);
    put(&mut b, 54, &48u16.to_le_bytes());
    let words = words_of(&b);
    assert!(!KernelImage::new(&words, b.len()).elf_loadable());
}

#[test]
fn elf_loadable_accepts_what_xmas_elf_refuses() {
    let mut b = kernel_image(1);
    b[0] = 0;
    let words = words_of(&b);
    assert!(KernelImage::new(&words, b.len()).elf_loadable());
}
