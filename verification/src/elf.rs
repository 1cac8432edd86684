//! The ELF structures that the first stage finds in memory after reading the
//! start of the kernel image, decoded from their in-memory bytes (the
//! `repr(C)` little-endian layout), and the walk over the program header
//! table that decides which segments are loaded.

use vstd::prelude::*;

verus! {

/// The four bytes every ELF file starts with.
pub const ELF_MAGIC: [u8; 4] = [0x7f, 0x45, 0x4c, 0x46];

/// Size of an [`ElfHeader`] in memory.
pub const ELF_HEADER_SIZE: usize = 64;

/// Size of a [`ProgramHeader`] in memory.
pub const PROGRAM_HEADER_SIZE: usize = 56;

/// Size of a [`SectionHeader`] in memory.
pub const SECTION_HEADER_SIZE: usize = 64;

/// The ELF magic as a sequence.
pub open spec fn elf_magic() -> Seq<u8> {
    seq![0x7fu8, 0x45u8, 0x4cu8, 0x46u8]
}

/// Little-endian value of the 2 bytes of `s` at `i`.
pub open spec fn le16(s: Seq<u8>, i: int) -> int {
    s[i] + 0x100 * s[i + 1]
}

/// Little-endian value of the 4 bytes of `s` at `i`.
pub open spec fn le32(s: Seq<u8>, i: int) -> int {
    le16(s, i) + 0x1_0000 * le16(s, i + 2)
}

/// Little-endian value of the 8 bytes of `s` at `i`.
pub open spec fn le64(s: Seq<u8>, i: int) -> int {
    le32(s, i) + 0x1_0000_0000 * le32(s, i + 4)
}

fn read_u16(bytes: &[u8], at: usize) -> (r: u16)
    requires
        at + 2 <= bytes@.len(),
    ensures
        r == le16(bytes@, at as int),
{
    bytes[at] as u16 + 0x100 * (bytes[at + 1] as u16)
}

fn read_u32(bytes: &[u8], at: usize) -> (r: u32)
    requires
        at + 4 <= bytes@.len(),
    ensures
        r == le32(bytes@, at as int),
{
    let _len: usize = bytes.len();
    let lo = read_u16(bytes, at);
    let hi = read_u16(bytes, at + 2);
    lo as u32 + 0x1_0000 * (hi as u32)
}

fn read_u64(bytes: &[u8], at: usize) -> (r: u64)
    requires
        at + 8 <= bytes@.len(),
    ensures
        r == le64(bytes@, at as int),
{
    let _len: usize = bytes.len();
    let lo = read_u32(bytes, at);
    let hi = read_u32(bytes, at + 4);
    lo as u64 + 0x1_0000_0000 * (hi as u64)
}

/// The ELF file header of a 64-bit image.
#[derive(Clone, Copy, Debug)]
pub struct ElfHeader {
    pub magic: [u8; 4],
    pub class: u8,
    pub endianness: u8,
    pub header_version: u8,
    pub abi: u8,
    pub abi_version: u8,
    pub unused: [u8; 7],
    pub elftype: u16,
    pub machine: u16,
    pub elf_version: u32,
    pub entry: u64,
    pub phoff: u64,
    pub shoff: u64,
    pub flags: u32,
    pub ehsize: u16,
    pub phentsize: u16,
    pub phnum: u16,
    pub shentsize: u16,
    pub shnum: u16,
    pub shstrndx: u16,
}

/// A program header (one loadable segment) of a 64-bit ELF image.
#[derive(Clone, Copy, Debug, PartialEq, Eq)]
pub struct ProgramHeader {
    pub p_type: u32,
    pub flags: u32,
    pub offset: u64,
    pub vaddr: u64,
    pub paddr: u64,
    pub filesz: u64,
    pub memsz: u64,
    pub align: u64,
}

/// A section header of a 64-bit ELF image.
#[derive(Clone, Copy, Debug, PartialEq, Eq)]
pub struct SectionHeader {
    pub name: u32,
    pub sh_type: u32,
    pub flags: u64,
    pub addr: u64,
    pub offset: u64,
    pub size: u64,
    pub link: u32,
    pub info: u32,
    pub addralign: u64,
    pub entsize: u64,
}

impl ElfHeader {
    /// The header holds the fields that the 64 bytes of `s` encode.
    pub open spec fn decodes(self, s: Seq<u8>) -> bool {
        &&& s.len() >= 64
        &&& self.magic@ == s.subrange(0, 4)
        &&& self.class == s[4]
        &&& self.endianness == s[5]
        &&& self.header_version == s[6]
        &&& self.abi == s[7]
        &&& self.abi_version == s[8]
        &&& self.unused@ == s.subrange(9, 16)
        &&& self.elftype == le16(s, 16)
        &&& self.machine == le16(s, 18)
        &&& self.elf_version == le32(s, 20)
        &&& self.entry == le64(s, 24)
        &&& self.phoff == le64(s, 32)
        &&& self.shoff == le64(s, 40)
        &&& self.flags == le32(s, 48)
        &&& self.ehsize == le16(s, 52)
        &&& self.phentsize == le16(s, 54)
        &&& self.phnum == le16(s, 56)
        &&& self.shentsize == le16(s, 58)
        &&& self.shnum == le16(s, 60)
        &&& self.shstrndx == le16(s, 62)
    }

    /// Reads the header from the bytes at its address; `None` when fewer than
    /// 64 bytes are given.
    pub fn from_bytes(bytes: &[u8]) -> (r: Option<ElfHeader>)
        ensures
            r is Some <==> bytes@.len() >= 64,
            r matches Some(h) ==> h.decodes(bytes@),
    {
        if bytes.len() < ELF_HEADER_SIZE {
            return None;
        }
        let magic = [bytes[0], bytes[1], bytes[2], bytes[3]];
        let unused = [bytes[9], bytes[10], bytes[11], bytes[12], bytes[13], bytes[14], bytes[15]];
        let h = ElfHeader {
            magic,
            class: bytes[4],
            endianness: bytes[5],
            header_version: bytes[6],
            abi: bytes[7],
            abi_version: bytes[8],
            unused,
            elftype: read_u16(bytes, 16),
            machine: read_u16(bytes, 18),
            elf_version: read_u32(bytes, 20),
            entry: read_u64(bytes, 24),
            phoff: read_u64(bytes, 32),
            shoff: read_u64(bytes, 40),
            flags: read_u32(bytes, 48),
            ehsize: read_u16(bytes, 52),
            phentsize: read_u16(bytes, 54),
            phnum: read_u16(bytes, 56),
            shentsize: read_u16(bytes, 58),
            shnum: read_u16(bytes, 60),
            shstrndx: read_u16(bytes, 62),
        };
        assert(h.magic@ =~= bytes@.subrange(0, 4));
        assert(h.unused@ =~= bytes@.subrange(9, 16));
        Some(h)
    }

    /// The header starts with the ELF magic.
    pub fn has_elf_magic(&self) -> (r: bool)
        ensures
            r == (self.magic@ == elf_magic()),
    {
        let r = self.magic[0] == ELF_MAGIC[0] && self.magic[1] == ELF_MAGIC[1] && self.magic[2]
            == ELF_MAGIC[2] && self.magic[3] == ELF_MAGIC[3];
        proof {
            if r {
                assert(self.magic@ =~= elf_magic());
            } else {
                assert(self.magic@ != elf_magic()) by {
                    if self.magic@ == elf_magic() {
                        assert(self.magic@[0] == elf_magic()[0]);
                        assert(self.magic@[1] == elf_magic()[1]);
                        assert(self.magic@[2] == elf_magic()[2]);
                        assert(self.magic@[3] == elf_magic()[3]);
                    }
                }
            }
        }
        r
    }
}

/// The addresses of the program headers of the ELF header `header` found at
/// `elf_addr`: one per entry of the table, entry `k` at
/// `elf_addr + phoff + k * phentsize`.
pub fn program_header_addresses(elf_addr: u64, header: &ElfHeader) -> (r: Vec<u64>)
    requires
        header.phnum > 0 ==> elf_addr + header.phoff + (header.phnum - 1) * header.phentsize
            <= u64::MAX,
    ensures
        r@.len() == header.phnum,
        forall|k: int|
            #![trigger r@[k]]
            0 <= k < r@.len() ==> r@[k] == elf_addr + header.phoff + k * header.phentsize,
{
    let n = header.phnum;
    let step = header.phentsize as u64;
    let mut r: Vec<u64> = Vec::new();
    if n == 0 {
        return r;
    }
    let ghost start = elf_addr + header.phoff;
    assert(elf_addr + header.phoff <= u64::MAX) by (nonlinear_arith)
        requires
            elf_addr + header.phoff + (n - 1) * header.phentsize <= u64::MAX,
            n >= 1,
    ;
    let mut ph = elf_addr + header.phoff;
    let mut k: u16 = 0;
    assert(k * step == 0) by (nonlinear_arith)
        requires
            k == 0,
    ;
    while k < n
        invariant
            n == header.phnum,
            n >= 1,
            step == header.phentsize,
            start == elf_addr + header.phoff,
            start + (n - 1) * step <= u64::MAX,
            k <= n,
            r@.len() == k,
            k < n ==> ph == start + k * step,
            forall|j: int| #![trigger r@[j]] 0 <= j < r@.len() ==> r@[j] == start + j * step,
        decreases n - k,
    {
        r.push(ph);
        if k + 1 < n {
            assert(start + (k + 1) * step <= start + (n - 1) * step) by (nonlinear_arith)
                requires
                    k + 1 <= n - 1,
                    step >= 0,
            ;
            assert((k + 1) * step == k * step + step) by (nonlinear_arith);
            ph = ph + step;
        }
        k = k + 1;
    }
    r
}

/// The read that loads one segment: its physical address, its size in memory
/// and its offset in the image, each cut to 32 bits.
#[derive(Clone, Copy, Debug, PartialEq, Eq)]
pub struct SegmentLoad {
    pub pa: u32,
    pub count: u32,
    pub offset: u32,
}

impl ProgramHeader {
    /// The segment read that the first stage issues for this header.
    pub fn segment_load(&self) -> (r: SegmentLoad)
        ensures
            r.pa == self.paddr % 0x1_0000_0000,
            r.count == self.memsz % 0x1_0000_0000,
            r.offset == self.offset % 0x1_0000_0000,
    {
        let (paddr, memsz, offset) = (self.paddr, self.memsz, self.offset);
        let (pa, count, off) = (paddr as u32, memsz as u32, offset as u32);
        assert(pa == paddr % 0x1_0000_0000 && count == memsz % 0x1_0000_0000 && off == offset
            % 0x1_0000_0000) by (bit_vector)
            requires
                pa == paddr as u32,
                count == memsz as u32,
                off == offset as u32,
        ;
        SegmentLoad { pa, count, offset: off }
    }

    /// The header holds the fields that the 56 bytes of `s` encode.
    pub open spec fn decodes(self, s: Seq<u8>) -> bool {
        &&& s.len() >= 56
        &&& self.p_type == le32(s, 0)
        &&& self.flags == le32(s, 4)
        &&& self.offset == le64(s, 8)
        &&& self.vaddr == le64(s, 16)
        &&& self.paddr == le64(s, 24)
        &&& self.filesz == le64(s, 32)
        &&& self.memsz == le64(s, 40)
        &&& self.align == le64(s, 48)
    }

    /// Reads a program header from the bytes at its address; `None` when fewer
    /// than 56 bytes are given.
    pub fn from_bytes(bytes: &[u8]) -> (r: Option<ProgramHeader>)
        ensures
            r is Some <==> bytes@.len() >= 56,
            r matches Some(h) ==> h.decodes(bytes@),
    {
        if bytes.len() < PROGRAM_HEADER_SIZE {
            return None;
        }
        Some(
            ProgramHeader {
                p_type: read_u32(bytes, 0),
                flags: read_u32(bytes, 4),
                offset: read_u64(bytes, 8),
                vaddr: read_u64(bytes, 16),
                paddr: read_u64(bytes, 24),
                filesz: read_u64(bytes, 32),
                memsz: read_u64(bytes, 40),
                align: read_u64(bytes, 48),
            },
        )
    }
}

} // verus!
