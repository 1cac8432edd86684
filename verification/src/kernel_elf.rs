//! Loading the kernel image: opening it with `xmas_elf`, checking it, reading
//! its entry point and program headers, and collecting the 64-bit segments
//! into a fixed-capacity vector from `fixedvec`.

use vstd::prelude::*;
use fixedvec::{ErrorKind, FixedVec};
use xmas_elf::program::{ProgramHeader as XProgramHeader, Type};
use xmas_elf::ElfFile;
use crate::elf::{elf_magic, le16, le32, le64, ElfHeader, ProgramHeader};

verus! {

#[verifier::external_type_specification]
#[verifier::external_body]
pub struct ExElfFile<'a>(ElfFile<'a>);

#[verifier::external_type_specification]
#[verifier::external_body]
#[verifier::reject_recursive_types(T)]
pub struct ExFixedVec<'a, T: 'a + Copy>(FixedVec<'a, T>);

#[verifier::external_type_specification]
#[verifier::external_body]
pub struct ExErrorKind(ErrorKind);

// ---------------------------------------------------------------------------
// The ELF header fields that xmas_elf reads, by class.

/// The image declares 64-bit objects (class 2); class 1 is 32-bit.
pub open spec fn elf_is64(s: Seq<u8>) -> bool {
    s[4] == 2
}

/// `ElfFile::new` accepts the bytes: the magic, a known class, and room for
/// the header of that class.
pub open spec fn elf_opens(s: Seq<u8>) -> bool {
    &&& s.len() >= 16
    &&& s.subrange(0, 4) == elf_magic()
    &&& ((s[4] == 1 && s.len() >= 52) || (s[4] == 2 && s.len() >= 64))
}

/// Entry point address.
pub open spec fn elf_entry(s: Seq<u8>) -> int {
    if elf_is64(s) {
        le64(s, 24)
    } else {
        le32(s, 24)
    }
}

/// Offset of the program header table.
pub open spec fn elf_ph_offset(s: Seq<u8>) -> int {
    if elf_is64(s) {
        le64(s, 32)
    } else {
        le32(s, 28)
    }
}

/// Offset of the section header table.
pub open spec fn elf_sh_offset(s: Seq<u8>) -> int {
    if elf_is64(s) {
        le64(s, 40)
    } else {
        le32(s, 32)
    }
}

/// Declared size of the whole ELF header.
pub open spec fn elf_header_size(s: Seq<u8>) -> int {
    if elf_is64(s) {
        le16(s, 52)
    } else {
        le16(s, 40)
    }
}

/// Size of one program header table entry.
pub open spec fn elf_ph_entsize(s: Seq<u8>) -> int {
    if elf_is64(s) {
        le16(s, 54)
    } else {
        le16(s, 42)
    }
}

/// Number of program header table entries.
pub open spec fn elf_ph_count(s: Seq<u8>) -> int {
    if elf_is64(s) {
        le16(s, 56)
    } else {
        le16(s, 44)
    }
}

/// Size of one section header table entry.
pub open spec fn elf_sh_entsize(s: Seq<u8>) -> int {
    if elf_is64(s) {
        le16(s, 58)
    } else {
        le16(s, 46)
    }
}

/// Number of section header table entries.
pub open spec fn elf_sh_count(s: Seq<u8>) -> int {
    if elf_is64(s) {
        le16(s, 60)
    } else {
        le16(s, 48)
    }
}

/// End of the program header table as `sanity_check` computes it.
pub open spec fn elf_ph_table_end(s: Seq<u8>) -> int {
    elf_ph_offset(s) + elf_ph_entsize(s) * elf_ph_count(s)
}

/// End of the section header table as `sanity_check` computes it.
pub open spec fn elf_sh_table_end(s: Seq<u8>) -> int {
    elf_sh_offset(s) + elf_sh_entsize(s) * elf_sh_count(s)
}

/// The checks of `sanity_check` before the table bounds: the declared header
/// size matches the class, and the version and data format are set.
pub open spec fn elf_header_fields_sane(s: Seq<u8>) -> bool {
    &&& elf_header_size(s) == (if elf_is64(s) {
        64int
    } else {
        52int
    })
    &&& s[6] != 0
    &&& s[5] != 0
}

/// `sanity_check` accepts an opened image: its header fields are sane and
/// both header tables end within the image.
pub open spec fn elf_sane(s: Seq<u8>) -> bool {
    &&& elf_header_fields_sane(s)
    &&& elf_ph_table_end(s) <= s.len()
    &&& elf_sh_table_end(s) <= s.len()
}

/// `sanity_check` computes its table bounds in `u64` without overflow, for
/// the bounds it gets to.
pub open spec fn elf_sanity_check_defined(s: Seq<u8>) -> bool {
    elf_header_fields_sane(s) ==> elf_ph_table_end(s) <= u64::MAX && (elf_ph_table_end(s)
        <= s.len() ==> elf_sh_table_end(s) <= u64::MAX)
}

/// `ElfFile::program_header(index)` finds an entry: the index is below the
/// count and the table has an offset and an entry size.
pub open spec fn elf_has_program_header(s: Seq<u8>, index: int) -> bool {
    index < elf_ph_count(s) && elf_ph_offset(s) > 0 && elf_ph_entsize(s) > 0
}

/// Offset of program header `index`.
pub open spec fn elf_ph_start(s: Seq<u8>, index: int) -> int {
    elf_ph_offset(s) + index * elf_ph_entsize(s)
}

/// Alignment that `xmas_elf` demands of a program header in memory: 8 bytes
/// for a 64-bit image, 4 for a 32-bit one.
pub open spec fn elf_ph_align(s: Seq<u8>) -> int {
    if elf_is64(s) {
        8
    } else {
        4
    }
}

/// Size of a program header of the image's class.
pub open spec fn elf_ph_min_size(s: Seq<u8>) -> int {
    if elf_is64(s) {
        56
    } else {
        32
    }
}

/// Reading program header `index` of an image that starts 8-byte aligned
/// does not panic: the entry stays in the image, is large enough for a
/// header of the image's class, and starts at an offset aligned for it.
pub open spec fn elf_program_header_readable(s: Seq<u8>, index: int) -> bool {
    elf_has_program_header(s, index) ==> {
        &&& elf_ph_start(s, index) + elf_ph_entsize(s) <= s.len()
        &&& elf_ph_entsize(s) >= elf_ph_min_size(s)
        &&& elf_ph_start(s, index) % elf_ph_align(s) == 0
    }
}

// ---------------------------------------------------------------------------
// Program headers as the library sees them.

#[verifier::external_type_specification]
pub struct ExType(Type);

/// The segment type that `get_type` gives for the raw type number `t`, or
/// `None` for a number that no range covers (`Err` in the crate).
pub open spec fn segment_type_of(t: int) -> Option<Type> {
    if t == 0 {
        Some(Type::Null)
    } else if t == 1 {
        Some(Type::Load)
    } else if t == 2 {
        Some(Type::Dynamic)
    } else if t == 3 {
        Some(Type::Interp)
    } else if t == 4 {
        Some(Type::Note)
    } else if t == 5 {
        Some(Type::ShLib)
    } else if t == 6 {
        Some(Type::Phdr)
    } else if t == 7 {
        Some(Type::Tls)
    } else if t == 0x6474_e552 {
        Some(Type::GnuRelro)
    } else if 0x6000_0000 <= t <= 0x6fff_ffff {
        Some(Type::OsSpecific(t as u32))
    } else if 0x7000_0000 <= t <= 0x7fff_ffff {
        Some(Type::ProcessorSpecific(t as u32))
    } else {
        None
    }
}

/// The type of a segment.
#[derive(Clone, Copy, Debug, PartialEq, Eq)]
pub enum SegmentKind {
    Null,
    Load,
    Dynamic,
    Interp,
    Note,
    ShLib,
    Phdr,
    Tls,
    GnuRelro,
    OsSpecific(u32),
    ProcessorSpecific(u32),
    /// A type number outside every defined range.
    Invalid,
}

/// The segment kind of the raw type number `t`.
pub open spec fn segment_kind_of(t: int) -> SegmentKind {
    match segment_type_of(t) {
        Some(ty) => kind_of_type(ty),
        None => SegmentKind::Invalid,
    }
}

/// Every type number gets the segment kind that the ELF numbering gives it:
/// 0 null, 1 loadable, 2 dynamic, 3 interpreter, 4 note, 5 reserved (ShLib),
/// 6 program header table, 7 thread-local template, 0x6474e552 GNU RELRO,
/// the rest of 0x60000000..=0x6fffffff OS-specific and
/// 0x70000000..=0x7fffffff processor-specific with the number kept, and no
/// other number has a kind.
pub proof fn lemma_segment_kind_numbering(t: int)
    requires
        0 <= t <= u32::MAX,
    ensures
        (segment_kind_of(t) == SegmentKind::Null) <==> t == 0,
        (segment_kind_of(t) == SegmentKind::Load) <==> t == 1,
        (segment_kind_of(t) == SegmentKind::Dynamic) <==> t == 2,
        (segment_kind_of(t) == SegmentKind::Interp) <==> t == 3,
        (segment_kind_of(t) == SegmentKind::Note) <==> t == 4,
        (segment_kind_of(t) == SegmentKind::ShLib) <==> t == 5,
        (segment_kind_of(t) == SegmentKind::Phdr) <==> t == 6,
        (segment_kind_of(t) == SegmentKind::Tls) <==> t == 7,
        (segment_kind_of(t) == SegmentKind::GnuRelro) <==> t == 0x6474_e552,
        segment_kind_of(t) is OsSpecific <==> (0x6000_0000 <= t <= 0x6fff_ffff && t != 0x6474_e552),
        segment_kind_of(t) matches SegmentKind::OsSpecific(n) ==> n == t,
        segment_kind_of(t) is ProcessorSpecific <==> 0x7000_0000 <= t <= 0x7fff_ffff,
        segment_kind_of(t) matches SegmentKind::ProcessorSpecific(n) ==> n == t,
        segment_kind_of(t) is Invalid <==> (8 <= t < 0x6000_0000 || 0x8000_0000 <= t),
{
}

/// The segment kind that corresponds to `xmas_elf`'s segment type.
pub open spec fn kind_of_type(ty: Type) -> SegmentKind {
    match ty {
        Type::Null => SegmentKind::Null,
        Type::Load => SegmentKind::Load,
        Type::Dynamic => SegmentKind::Dynamic,
        Type::Interp => SegmentKind::Interp,
        Type::Note => SegmentKind::Note,
        Type::ShLib => SegmentKind::ShLib,
        Type::Phdr => SegmentKind::Phdr,
        Type::Tls => SegmentKind::Tls,
        Type::GnuRelro => SegmentKind::GnuRelro,
        Type::OsSpecific(t) => SegmentKind::OsSpecific(t),
        Type::ProcessorSpecific(t) => SegmentKind::ProcessorSpecific(t),
    }
}

/// The kind of a segment from the type that `get_type` returned.
fn segment_kind(kind: Result<Type, &'static str>) -> (r: SegmentKind)
    ensures
        r == match kind {
            Ok(ty) => kind_of_type(ty),
            Err(_) => SegmentKind::Invalid,
        },
{
    match kind {
        Ok(Type::Null) => SegmentKind::Null,
        Ok(Type::Load) => SegmentKind::Load,
        Ok(Type::Dynamic) => SegmentKind::Dynamic,
        Ok(Type::Interp) => SegmentKind::Interp,
        Ok(Type::Note) => SegmentKind::Note,
        Ok(Type::ShLib) => SegmentKind::ShLib,
        Ok(Type::Phdr) => SegmentKind::Phdr,
        Ok(Type::Tls) => SegmentKind::Tls,
        Ok(Type::GnuRelro) => SegmentKind::GnuRelro,
        Ok(Type::OsSpecific(t)) => SegmentKind::OsSpecific(t),
        Ok(Type::ProcessorSpecific(t)) => SegmentKind::ProcessorSpecific(t),
        Err(_) => SegmentKind::Invalid,
    }
}

/// A 64-bit program header as `xmas_elf` hands it out.
struct ElfSegment {
    kind: Result<Type, &'static str>,
    flags: u32,
    offset: u64,
    virtual_addr: u64,
    physical_addr: u64,
    file_size: u64,
    mem_size: u64,
    align: u64,
}

/// A program header as `xmas_elf` hands it out: a 64-bit one, or the mark of
/// a 32-bit one.
enum ElfEntry {
    Elf64(ElfSegment),
    Elf32,
}

impl ElfSegment {
    /// The segment holds the fields of the 64-bit program header at offset
    /// `at` of `s`, its type as `get_type` classifies the type number.
    spec fn decodes_at(self, s: Seq<u8>, at: int) -> bool {
        &&& (match segment_type_of(le32(s, at)) {
            Some(t) => self.kind == Ok::<Type, &'static str>(t),
            None => self.kind is Err,
        })
        &&& self.flags == le32(s, at + 4)
        &&& self.offset == le64(s, at + 8)
        &&& self.virtual_addr == le64(s, at + 16)
        &&& self.physical_addr == le64(s, at + 24)
        &&& self.file_size == le64(s, at + 32)
        &&& self.mem_size == le64(s, at + 40)
        &&& self.align == le64(s, at + 48)
    }
}

/// A program header of a 64-bit kernel image.
#[derive(Clone, Copy, Debug, PartialEq, Eq)]
pub struct Segment {
    pub kind: SegmentKind,
    pub flags: u32,
    pub offset: u64,
    pub virtual_addr: u64,
    pub physical_addr: u64,
    pub file_size: u64,
    pub mem_size: u64,
    pub align: u64,
}

impl Segment {
    /// The segment holds the fields of the 64-bit program header at offset
    /// `at` of `s`.
    pub open spec fn decodes_at(self, s: Seq<u8>, at: int) -> bool {
        &&& self.kind == segment_kind_of(le32(s, at))
        &&& self.flags == le32(s, at + 4)
        &&& self.offset == le64(s, at + 8)
        &&& self.virtual_addr == le64(s, at + 16)
        &&& self.physical_addr == le64(s, at + 24)
        &&& self.file_size == le64(s, at + 32)
        &&& self.mem_size == le64(s, at + 40)
        &&& self.align == le64(s, at + 48)
    }
}

/// A program header as the ELF reader reports it: a 64-bit one, or the mark
/// of a 32-bit one.
#[derive(Clone, Copy, Debug, PartialEq, Eq)]
pub enum ProgramHeaderEntry {
    Elf64(Segment),
    Elf32,
}

// ---------------------------------------------------------------------------
// xmas_elf

/// Why `xmas_elf` refuses the kernel image.
#[derive(Clone, Copy, Debug, PartialEq, Eq)]
pub enum ElfError {
    /// `ElfFile::new` failed, with its message.
    Open(&'static str),
    /// `sanity_check` failed, with its message.
    SanityCheck(&'static str),
}

/// Multiplier of byte `k` (0..8) in a little-endian 64-bit word.
pub open spec fn byte_weight(k: int) -> int {
    if k == 0 {
        1
    } else if k == 1 {
        0x100
    } else if k == 2 {
        0x1_0000
    } else if k == 3 {
        0x100_0000
    } else if k == 4 {
        0x1_0000_0000
    } else if k == 5 {
        0x100_0000_0000
    } else if k == 6 {
        0x1_0000_0000_0000
    } else {
        0x100_0000_0000_0000
    }
}

/// The bytes of `words` in memory order on the little-endian x86_64.
pub open spec fn words_bytes(words: Seq<u64>) -> Seq<u8> {
    Seq::new(
        (8 * words.len()) as nat,
        |i: int| ((words[i / 8] as int / byte_weight(i % 8)) % 0x100) as u8,
    )
}

/// The kernel image in memory: the first `len` bytes of a run of 64-bit
/// words. Holding the image as words keeps its start 8-byte aligned, which
/// `xmas_elf` relies on when it reads headers in place.
pub struct KernelImage<'a> {
    words: &'a [u64],
    len: usize,
}

impl<'a> View for KernelImage<'a> {
    type V = Seq<u8>;

    closed spec fn view(&self) -> Seq<u8> {
        words_bytes(self.words@).take(self.len as int)
    }
}

impl<'a> KernelImage<'a> {
    #[verifier::type_invariant]
    closed spec fn inv(self) -> bool {
        self.len <= 8 * self.words@.len()
    }

    /// The image made of the first `len` bytes of `words`.
    pub fn new(words: &'a [u64], len: usize) -> (r: KernelImage<'a>)
        requires
            len <= 8 * words@.len(),
        ensures
            r@ == words_bytes(words@).take(len as int),
    {
        KernelImage { words, len }
    }

    /// Number of bytes in the image.
    pub fn len(&self) -> (r: usize)
        ensures
            r == self@.len(),
    {
        proof {
            use_type_invariant(self);
        }
        self.len
    }

    /// Byte `k` of the image.
    fn byte(&self, k: usize) -> (r: u8)
        requires
            k < self@.len(),
        ensures
            r == self@[k as int],
    {
        proof {
            use_type_invariant(self);
        }
        let w = self.words[k / 8];
        let j = k % 8;
        let weight: u64 = if j == 0 {
            1
        } else if j == 1 {
            0x100
        } else if j == 2 {
            0x1_0000
        } else if j == 3 {
            0x100_0000
        } else if j == 4 {
            0x1_0000_0000
        } else if j == 5 {
            0x100_0000_0000
        } else if j == 6 {
            0x1_0000_0000_0000
        } else {
            0x100_0000_0000_0000
        };
        ((w / weight) % 0x100) as u8
    }

    fn le16(&self, at: usize) -> (r: u16)
        requires
            at + 2 <= self@.len(),
        ensures
            r == le16(self@, at as int),
    {
        let _n: usize = self.len();
        self.byte(at) as u16 + 0x100 * (self.byte(at + 1) as u16)
    }

    fn le32(&self, at: usize) -> (r: u32)
        requires
            at + 4 <= self@.len(),
        ensures
            r == le32(self@, at as int),
    {
        let _n: usize = self.len();
        self.le16(at) as u32 + 0x1_0000 * (self.le16(at + 2) as u32)
    }

    fn le64(&self, at: usize) -> (r: u64)
        requires
            at + 8 <= self@.len(),
        ensures
            r == le64(self@, at as int),
    {
        let _n: usize = self.len();
        self.le32(at) as u64 + 0x1_0000_0000 * (self.le32(at + 4) as u64)
    }

    /// `xmas_elf` opens the image: [`elf_opens`].
    fn elf_opens(&self) -> (r: bool)
        ensures
            r == elf_opens(self@),
    {
        let n = self.len();
        if n < 16 {
            return false;
        }
        let magic = self.byte(0) == 0x7f && self.byte(1) == 0x45 && self.byte(2) == 0x4c
            && self.byte(3) == 0x46;
        proof {
            let s = self@;
            if magic {
                assert(s.subrange(0, 4) =~= elf_magic());
            } else if s.subrange(0, 4) == elf_magic() {
                assert(s.subrange(0, 4)[0] == s[0] && s.subrange(0, 4)[1] == s[1]
                    && s.subrange(0, 4)[2] == s[2] && s.subrange(0, 4)[3] == s[3]);
            }
        }
        let class = self.byte(4);
        magic && ((class == 1 && n >= 52) || (class == 2 && n >= 64))
    }

    /// Loading the image makes no panic inside `xmas_elf`: [`elf_loadable`].
    /// Test this before [`load_kernel_elf`].
    pub fn elf_loadable(&self) -> (r: bool)
        ensures
            r == elf_loadable(self@),
    {
        if !self.elf_opens() {
            return true;
        }
        let ghost s = self@;
        let is64 = self.byte(4) == 2;
        let n = self.len() as u128;
        let (hsize, ph_off, ph_ent, ph_cnt, sh_off, sh_ent, sh_cnt) = if is64 {
            (
                self.le16(52),
                self.le64(32),
                self.le16(54),
                self.le16(56),
                self.le64(40),
                self.le16(58),
                self.le16(60),
            )
        } else {
            (
                self.le16(40),
                self.le32(28) as u64,
                self.le16(42),
                self.le16(44),
                self.le32(32) as u64,
                self.le16(46),
                self.le16(48),
            )
        };
        let fields_sane = hsize == (if is64 { 64u16 } else { 52u16 }) && self.byte(6) != 0
            && self.byte(5) != 0;
        assert(ph_ent as u128 * ph_cnt as u128 <= 0xFFFF * 0xFFFF) by (nonlinear_arith)
            requires
                ph_ent <= 0xFFFF,
                ph_cnt <= 0xFFFF,
        ;
        assert(sh_ent as u128 * sh_cnt as u128 <= 0xFFFF * 0xFFFF) by (nonlinear_arith)
            requires
                sh_ent <= 0xFFFF,
                sh_cnt <= 0xFFFF,
        ;
        let ph_end = ph_off as u128 + ph_ent as u128 * ph_cnt as u128;
        let sh_end = sh_off as u128 + sh_ent as u128 * sh_cnt as u128;
        let defined = !fields_sane || (ph_end <= u64::MAX as u128 && (ph_end > n || sh_end
            <= u64::MAX as u128));
        let sane = fields_sane && ph_end <= n && sh_end <= n;
        let align: u64 = if is64 { 8 } else { 4 };
        let min: u16 = if is64 { 56 } else { 32 };
        let aligned = ph_off % align == 0 && (ph_cnt == 1 || ph_ent as u64 % align == 0);
        let readable = !(sane && ph_off > 0 && ph_ent > 0 && ph_cnt > 0) || (ph_ent >= min
            && aligned);
        proof {
            assert(ph_end == elf_ph_table_end(s)) by (nonlinear_arith)
                requires
                    ph_end == ph_off + ph_ent * ph_cnt,
                    ph_off == elf_ph_offset(s),
                    ph_ent == elf_ph_entsize(s),
                    ph_cnt == elf_ph_count(s),
                    elf_ph_table_end(s) == elf_ph_offset(s) + elf_ph_entsize(s) * elf_ph_count(
                        s,
                    ),
            ;
            assert(sh_end == elf_sh_table_end(s)) by (nonlinear_arith)
                requires
                    sh_end == sh_off + sh_ent * sh_cnt,
                    sh_off == elf_sh_offset(s),
                    sh_ent == elf_sh_entsize(s),
                    sh_cnt == elf_sh_count(s),
                    elf_sh_table_end(s) == elf_sh_offset(s) + elf_sh_entsize(s) * elf_sh_count(
                        s,
                    ),
            ;
            if ph_cnt > 0 {
                lemma_ph_starts_aligned(s);
            }
        }
        defined && readable
    }
}

/// The starts of the program headers are all aligned exactly when the first
/// one is, and the second one too when there is one.
proof fn lemma_ph_starts_aligned(s: Seq<u8>)
    requires
        elf_ph_count(s) > 0,
    ensures
        (forall|i: int| 0 <= i < elf_ph_count(s) ==> #[trigger] elf_ph_start(s, i) % elf_ph_align(s)
            == 0) <==> (elf_ph_offset(s) % elf_ph_align(s) == 0 && (elf_ph_count(s) == 1
            || elf_ph_entsize(s) % elf_ph_align(s) == 0)),
{
    let a = elf_ph_align(s);
    let off = elf_ph_offset(s);
    let ent = elf_ph_entsize(s);
    assert(a > 0);
    if off % a == 0 && (elf_ph_count(s) == 1 || ent % a == 0) {
        assert forall|i: int| 0 <= i < elf_ph_count(s) implies #[trigger] elf_ph_start(s, i) % a
            == 0 by {
            if elf_ph_count(s) == 1 {
                assert(i == 0);
                assert(elf_ph_start(s, i) == off);
            } else {
                lemma_aligned_sum(off, ent, i, a);
            }
        }
    }
    if forall|i: int| 0 <= i < elf_ph_count(s) ==> #[trigger] elf_ph_start(s, i) % a == 0 {
        assert(elf_ph_start(s, 0) % a == 0);
        assert(elf_ph_start(s, 0) == off);
        if elf_ph_count(s) > 1 {
            assert(elf_ph_start(s, 1) % a == 0);
            assert(elf_ph_start(s, 1) == off + ent);
            lemma_aligned_difference(off, ent, a);
        }
    }
}

proof fn lemma_aligned_sum(off: int, ent: int, i: int, a: int)
    requires
        a > 0,
        off % a == 0,
        ent % a == 0,
    ensures
        (off + i * ent) % a == 0,
{
    vstd::arithmetic::div_mod::lemma_fundamental_div_mod(off, a);
    vstd::arithmetic::div_mod::lemma_fundamental_div_mod(ent, a);
    let m = off / a;
    let k = ent / a;
    assert(off + i * ent == a * (m + i * k)) by (nonlinear_arith)
        requires
            off == a * m,
            ent == a * k,
    ;
    vstd::arithmetic::div_mod::lemma_mod_multiples_basic(m + i * k, a);
    assert(a * (m + i * k) == (m + i * k) * a) by (nonlinear_arith);
}

proof fn lemma_aligned_difference(off: int, ent: int, a: int)
    requires
        a > 0,
        off % a == 0,
        (off + ent) % a == 0,
    ensures
        ent % a == 0,
{
    vstd::arithmetic::div_mod::lemma_fundamental_div_mod(off, a);
    vstd::arithmetic::div_mod::lemma_fundamental_div_mod(off + ent, a);
    let m = off / a;
    let k = (off + ent) / a;
    assert(ent == (k - m) * a) by (nonlinear_arith)
        requires
            off == a * m,
            off + ent == a * k,
    ;
    vstd::arithmetic::div_mod::lemma_mod_multiples_basic(k - m, a);
}

/// The kernel image opened by `xmas_elf`, with the bytes it was opened from.
/// Only [`open_elf`] makes one, from the bytes of a [`KernelImage`], so
/// `file` is always `ElfFile::new(bytes)` and `bytes` starts 8-byte aligned.
struct ElfImage<'a> {
    bytes: &'a [u8],
    file: ElfFile<'a>,
}

impl<'a> View for ElfImage<'a> {
    type V = Seq<u8>;

    closed spec fn view(&self) -> Seq<u8> {
        self.bytes@
    }
}

/// `ElfFile::new` on the bytes of `image`, viewed in place through
/// `bytemuck::cast_slice`: opens the image when [`elf_opens`] holds. The
/// bytes start where the image's words start, so they are 8-byte aligned,
/// as the `zero` crate asserts when it reads the header.
#[verifier::external_body]
fn open_elf<'a>(image: &KernelImage<'a>) -> (r: Result<ElfImage<'a>, ElfError>)
    ensures
        r is Ok <==> elf_opens(image@),
        r matches Ok(e) ==> e@ == image@,
        r matches Err(e) ==> e is Open,
{
    let bytes: &'a [u8] = &bytemuck::cast_slice::<u64, u8>(image.words)[..image.len];
    match ElfFile::new(bytes) {
        Ok(file) => Ok(ElfImage { bytes, file }),
        Err(msg) => Err(ElfError::Open(msg)),
    }
}

/// `xmas_elf::header::sanity_check`: succeeds exactly when [`elf_sane`]
/// holds. It computes the table ends in `u64` and panics on overflow, so
/// those inputs are left out.
#[verifier::external_body]
fn elf_sanity_check(image: &ElfImage) -> (r: Result<(), ElfError>)
    requires
        elf_opens(image@),
        elf_sanity_check_defined(image@),
    ensures
        r is Ok <==> elf_sane(image@),
        r matches Err(e) ==> e is SanityCheck,
{
    match xmas_elf::header::sanity_check(&image.file) {
        Ok(()) => Ok(()),
        Err(msg) => Err(ElfError::SanityCheck(msg)),
    }
}

/// `HeaderPt2::entry_point`: the entry point field of the header.
#[verifier::external_body]
fn elf_entry_point(image: &ElfImage) -> (r: u64)
    requires
        elf_opens(image@),
    ensures
        r == elf_entry(image@),
{
    image.file.header.pt2.entry_point()
}

/// `HeaderPt2::ph_count`: the number of program headers.
#[verifier::external_body]
fn elf_program_header_count(image: &ElfImage) -> (r: u16)
    requires
        elf_opens(image@),
    ensures
        r == elf_ph_count(image@),
{
    image.file.header.pt2.ph_count()
}

/// `ElfFile::program_header`: program header `index`, `None` when the file
/// has no such entry (`Err` in the crate). A 64-bit header comes with the
/// fields of the entry's bytes and the type `get_type` gives; a 32-bit one is
/// only marked. The crate panics when the entry lies outside the image, is
/// smaller than a header, or is not aligned for one (the image itself starts
/// 8-byte aligned), so those inputs are left out.
#[verifier::external_body]
fn elf_program_header(image: &ElfImage, index: u16) -> (r: Option<ElfEntry>)
    requires
        elf_opens(image@),
        elf_program_header_readable(image@, index as int),
    ensures
        r is Some <==> elf_has_program_header(image@, index as int),
        r matches Some(e) ==> (if elf_is64(image@) {
            e matches ElfEntry::Elf64(seg) && seg.decodes_at(
                image@,
                elf_ph_start(image@, index as int),
            )
        } else {
            e is Elf32
        }),
{
    match image.file.program_header(index) {
        Ok(XProgramHeader::Ph64(h)) => Some(ElfEntry::Elf64(ElfSegment {
            kind: h.get_type(),
            flags: h.flags.0,
            offset: h.offset,
            virtual_addr: h.virtual_addr,
            physical_addr: h.physical_addr,
            file_size: h.file_size,
            mem_size: h.mem_size,
            align: h.align,
        })),
        Ok(XProgramHeader::Ph32(_)) => Some(ElfEntry::Elf32),
        Err(_) => None,
    }
}

/// The library's form of a 64-bit program header that `xmas_elf` handed out.
spec fn segment_from(seg: ElfSegment) -> Segment {
    Segment {
        kind: match seg.kind {
            Ok(ty) => kind_of_type(ty),
            Err(_) => SegmentKind::Invalid,
        },
        flags: seg.flags,
        offset: seg.offset,
        virtual_addr: seg.virtual_addr,
        physical_addr: seg.physical_addr,
        file_size: seg.file_size,
        mem_size: seg.mem_size,
        align: seg.align,
    }
}

/// The library's form of a program header that `xmas_elf` handed out.
fn entry_of(e: ElfEntry) -> (r: ProgramHeaderEntry)
    ensures
        r == match e {
            ElfEntry::Elf64(seg) => ProgramHeaderEntry::Elf64(segment_from(seg)),
            ElfEntry::Elf32 => ProgramHeaderEntry::Elf32,
        },
{
    match e {
        ElfEntry::Elf64(seg) => ProgramHeaderEntry::Elf64(
            Segment {
                kind: segment_kind(seg.kind),
                flags: seg.flags,
                offset: seg.offset,
                virtual_addr: seg.virtual_addr,
                physical_addr: seg.physical_addr,
                file_size: seg.file_size,
                mem_size: seg.mem_size,
                align: seg.align,
            },
        ),
        ElfEntry::Elf32 => ProgramHeaderEntry::Elf32,
    }
}

/// The kernel image can be loaded without a panic inside `xmas_elf`: the
/// sanity check's arithmetic does not overflow, and, once the image is
/// opened and sane, every program header it reads lies inside the image, is
/// large enough for a header of the image's class, and is aligned for it.
pub open spec fn elf_loadable(s: Seq<u8>) -> bool {
    elf_opens(s) ==> {
        &&& elf_sanity_check_defined(s)
        &&& elf_sane(s) && elf_ph_offset(s) > 0 && elf_ph_entsize(s) > 0 && elf_ph_count(s) > 0
            ==> {
            &&& elf_ph_entsize(s) >= elf_ph_min_size(s)
            &&& forall|i: int|
                0 <= i < elf_ph_count(s) ==> #[trigger] elf_ph_start(s, i) % elf_ph_align(s) == 0
        }
    }
}

/// The program headers of an opened, sane image, in table order.
pub open spec fn elf_program_headers_ok(s: Seq<u8>, headers: Seq<ProgramHeaderEntry>) -> bool {
    &&& headers.len() == (if elf_ph_offset(s) > 0 && elf_ph_entsize(s) > 0 {
        elf_ph_count(s)
    } else {
        0
    })
    &&& forall|i: int|
        0 <= i < headers.len() ==> (if elf_is64(s) {
            #[trigger] headers[i] matches ProgramHeaderEntry::Elf64(seg) && seg.decodes_at(
                s,
                elf_ph_start(s, i),
            )
        } else {
            headers[i] is Elf32
        })
}

/// What the bootloader reads from the kernel image: its entry point and its
/// program headers.
pub struct KernelElf {
    pub entry_point: u64,
    pub headers: Vec<ProgramHeaderEntry>,
}

/// Opens the kernel image, checks it, and reads its entry point and its
/// program headers (walking the table as `program_iter` does: up to the
/// count, stopping at the first index the file has no header for).
pub fn load_kernel_elf(image: &KernelImage) -> (r: Result<KernelElf, ElfError>)
    requires
        elf_loadable(image@),
    ensures
        r is Ok <==> elf_opens(image@) && elf_sane(image@),
        r matches Err(e) ==> (e is Open <==> !elf_opens(image@)),
        r matches Ok(k) ==> k.entry_point == elf_entry(image@) && elf_program_headers_ok(
            image@,
            k.headers@,
        ),
{
    let elf = open_elf(image)?;
    elf_sanity_check(&elf)?;
    let entry_point = elf_entry_point(&elf);
    let count = elf_program_header_count(&elf);
    let ghost s = elf@;
    let mut headers: Vec<ProgramHeaderEntry> = Vec::new();
    let mut index: u16 = 0;
    while index < count
        invariant
            s == elf@,
            s == image@,
            elf_opens(s),
            elf_sane(s),
            elf_loadable(s),
            count == elf_ph_count(s),
            index <= count,
            headers@.len() == index,
            index > 0 ==> elf_ph_offset(s) > 0 && elf_ph_entsize(s) > 0,
            forall|i: int|
                0 <= i < headers@.len() ==> (if elf_is64(s) {
                    #[trigger] headers@[i] matches ProgramHeaderEntry::Elf64(seg)
                        && seg.decodes_at(s, elf_ph_start(s, i))
                } else {
                    headers@[i] is Elf32
                }),
        ensures
            headers@.len() == (if elf_ph_offset(s) > 0 && elf_ph_entsize(s) > 0 {
                elf_ph_count(s)
            } else {
                0
            }),
        decreases count - index,
    {
        proof {
            if elf_has_program_header(s, index as int) {
                assert(elf_ph_start(s, index as int) + elf_ph_entsize(s) <= elf_ph_table_end(s))
                    by (nonlinear_arith)
                    requires
                        index < elf_ph_count(s),
                        elf_ph_entsize(s) > 0,
                        elf_ph_start(s, index as int) == elf_ph_offset(s) + index
                            * elf_ph_entsize(s),
                        elf_ph_table_end(s) == elf_ph_offset(s) + elf_ph_entsize(s)
                            * elf_ph_count(s),
                ;
                assert(elf_ph_start(s, index as int) % elf_ph_align(s) == 0);
            }
        }
        match elf_program_header(&elf, index) {
            Some(e) => {
                let h = entry_of(e);
                headers.push(h);
            },
            None => {
                break ;
            },
        }
        index = index + 1;
    }
    Ok(KernelElf { entry_point, headers })
}

/// The first stage's ELF header and `xmas_elf` read the same values from a
/// 64-bit image that `xmas_elf` opens: the magic, the entry point, and the
/// program header table's offset, entry size and count. The identification
/// bytes land in their `e_ident` fields (class, data, version, OS ABI, ABI
/// version are bytes 4 to 8), so the version and data format that the
/// sanity check requires to be set are the header's.
pub proof fn lemma_elf_header_agrees(s: Seq<u8>, h: ElfHeader)
    requires
        h.decodes(s),
        elf_opens(s),
        elf_is64(s),
    ensures
        h.magic@ == elf_magic(),
        h.class == 2,
        h.class == s[4],
        h.endianness == s[5],
        h.header_version == s[6],
        h.abi == s[7],
        h.abi_version == s[8],
        elf_header_fields_sane(s) ==> h.header_version != 0 && h.endianness != 0,
        h.entry == elf_entry(s),
        h.phoff == elf_ph_offset(s),
        h.phentsize == elf_ph_entsize(s),
        h.phnum == elf_ph_count(s),
        h.ehsize == elf_header_size(s),
        h.shoff == elf_sh_offset(s),
        h.shentsize == elf_sh_entsize(s),
        h.shnum == elf_sh_count(s),
{
}

/// A 64-bit program header read by the first stage and the segment that
/// `xmas_elf` reads from the same bytes hold the same addresses, sizes,
/// offset, flags and alignment, and the segment's type is the
/// classification of the header's type number.
pub proof fn lemma_segment_agrees(s: Seq<u8>, at: int, seg: Segment, ph: ProgramHeader)
    requires
        0 <= at,
        at + 56 <= s.len(),
        seg.decodes_at(s, at),
        ph.decodes(s.subrange(at, s.len() as int)),
    ensures
        seg.offset == ph.offset,
        seg.virtual_addr == ph.vaddr,
        seg.physical_addr == ph.paddr,
        seg.file_size == ph.filesz,
        seg.mem_size == ph.memsz,
        seg.align == ph.align,
        seg.flags == ph.flags,
        seg.kind == segment_kind_of(ph.p_type as int),
{
    let t = s.subrange(at, s.len() as int);
    assert forall|k: int| 0 <= k < 56 implies #[trigger] t[k] == s[at + k] by {}
    assert(t[0] == s[at] && t[1] == s[at + 1] && t[2] == s[at + 2] && t[3] == s[at + 3]);
}

// ---------------------------------------------------------------------------
// fixedvec

/// What a fixed vector of segments holds, in order.
pub uninterp spec fn segment_vec_items(v: FixedVec<'_, Segment>) -> Seq<Segment>;

/// How many segments a fixed vector can hold.
pub uninterp spec fn segment_vec_capacity(v: FixedVec<'_, Segment>) -> nat;

/// `FixedVec::new`: an empty vector whose capacity is the length of `memory`.
#[verifier::external_body]
fn segment_vec_new<'a>(memory: &'a mut [Segment]) -> (r: FixedVec<'a, Segment>)
    ensures
        segment_vec_items(r) == Seq::<Segment>::empty(),
        segment_vec_capacity(r) == old(memory)@.len(),
{
    FixedVec::new(memory)
}

/// `FixedVec::push`: appends `value` when the vector has room, else fails
/// with `ErrorKind::NoSpace` and leaves it unchanged.
#[verifier::external_body]
fn segment_vec_push(v: &mut FixedVec<'_, Segment>, value: Segment) -> (r: Result<(), ErrorKind>)
    ensures
        segment_vec_capacity(*final(v)) == segment_vec_capacity(*old(v)),
        segment_vec_items(*old(v)).len() < segment_vec_capacity(*old(v)) ==> r is Ok
            && segment_vec_items(*final(v)) == segment_vec_items(*old(v)).push(value),
        segment_vec_items(*old(v)).len() >= segment_vec_capacity(*old(v)) ==> r is Err
            && segment_vec_items(*final(v)) == segment_vec_items(*old(v)),
{
    v.push(value)
}

/// The largest number of program headers the bootloader accepts.
pub const MAX_SEGMENTS: usize = 32;

/// Why the program headers of the kernel cannot be kept.
#[derive(Clone, Copy, Debug, PartialEq, Eq)]
pub enum SegmentError {
    /// More than [`MAX_SEGMENTS`] program headers.
    TooManySegments,
    /// A 32-bit program header: only 64-bit kernels are supported.
    Elf32NotSupported,
}

/// The first `n` entries are all 64-bit headers.
pub open spec fn all_elf64(entries: Seq<ProgramHeaderEntry>, n: int) -> bool {
    forall|i: int| 0 <= i < n ==> #[trigger] entries[i] is Elf64
}

/// The segments of `entries`, in order (all of them are 64-bit headers where
/// this is used).
pub open spec fn elf64_segments(entries: Seq<ProgramHeaderEntry>) -> Seq<Segment> {
    entries.map_values(|e: ProgramHeaderEntry| e->Elf64_0)
}

/// The segments of a run of 64-bit headers are those headers' segments,
/// unchanged and in order.
pub proof fn lemma_elf64_segments_unchanged(entries: Seq<ProgramHeaderEntry>)
    requires
        all_elf64(entries, entries.len() as int),
    ensures
        elf64_segments(entries).len() == entries.len(),
        forall|i: int|
            0 <= i < entries.len() ==> entries[i] == ProgramHeaderEntry::Elf64(
                #[trigger] elf64_segments(entries)[i],
            ),
{
    assert forall|i: int| 0 <= i < entries.len() implies entries[i] == ProgramHeaderEntry::Elf64(
        #[trigger] elf64_segments(entries)[i],
    ) by {
        assert(entries[i] is Elf64);
    }
}

/// Collects the program headers into a fixed vector over `storage`, which
/// has room for exactly [`MAX_SEGMENTS`] segments. The headers are taken in
/// order; the first one that is 32-bit, or a 33rd one, stops the collection
/// with an error.
pub fn collect_segments<'a>(entries: &Vec<ProgramHeaderEntry>, storage: &'a mut [Segment]) -> (r:
    Result<FixedVec<'a, Segment>, SegmentError>)
    requires
        old(storage)@.len() == MAX_SEGMENTS,
    ensures
        r is Ok <==> entries@.len() <= MAX_SEGMENTS && all_elf64(entries@, entries@.len() as int),
        r == Err::<FixedVec<'a, Segment>, SegmentError>(SegmentError::TooManySegments) <==> (
        entries@.len() > MAX_SEGMENTS && all_elf64(entries@, MAX_SEGMENTS + 1)),
        r matches Ok(v) ==> segment_vec_items(v) == elf64_segments(entries@)
            && segment_vec_capacity(v) == MAX_SEGMENTS,
        r matches Ok(v) ==> segment_vec_items(v).len() == entries@.len() && forall|i: int|
            0 <= i < entries@.len() ==> entries@[i] == ProgramHeaderEntry::Elf64(
                #[trigger] segment_vec_items(v)[i],
            ),
{
    let mut v = segment_vec_new(storage);
    let mut i: usize = 0;
    while i < entries.len()
        invariant
            i <= entries@.len(),
            i <= MAX_SEGMENTS,
            segment_vec_capacity(v) == MAX_SEGMENTS,
            all_elf64(entries@, i as int),
            segment_vec_items(v) == elf64_segments(entries@.subrange(0, i as int)),
        decreases entries@.len() - i,
    {
        match entries[i] {
            ProgramHeaderEntry::Elf64(h) => {
                match segment_vec_push(&mut v, h) {
                    Ok(()) => {},
                    Err(_) => {
                        return Err(SegmentError::TooManySegments);
                    },
                }
            },
            ProgramHeaderEntry::Elf32 => {
                return Err(SegmentError::Elf32NotSupported);
            },
        }
        assert(entries@.subrange(0, i + 1) =~= entries@.subrange(0, i as int).push(
            entries@[i as int],
        ));
        assert(elf64_segments(entries@.subrange(0, i + 1)) =~= elf64_segments(
            entries@.subrange(0, i as int),
        ).push(entries@[i as int]->Elf64_0));
        i = i + 1;
    }
    assert(entries@.subrange(0, i as int) =~= entries@);
    proof {
        lemma_elf64_segments_unchanged(entries@);
    }
    Ok(v)
}

} // verus!
