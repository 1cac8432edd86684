//! Reading the boot disk through the primary ATA controller: which sectors a
//! segment read touches, the port writes of one sector request, and the status
//! test of the wait loop.

use vstd::prelude::*;

verus! {

/// Size of a disk sector in bytes.
pub const SECTSIZE: u32 = 512;

/// Physical address where the first stage reads the start of the kernel image.
pub const SCRATCH: u32 = 0x10000;

/// Number of 32-bit words that one sector transfer reads from the data port.
pub const SECTOR_WORDS: u32 = 128;

/// One sector transfer of a segment read: the sector number on disk and the
/// physical address that receives it.
#[derive(Clone, Copy, Debug, PartialEq, Eq)]
pub struct SectorRead {
    pub dst: u32,
    pub sector: u32,
}

/// One byte written to an I/O port.
#[derive(Clone, Copy, Debug, PartialEq, Eq)]
pub struct PortWrite {
    pub port: u32,
    pub value: u8,
}

/// The start of the sector-sized block that holds `pa`.
pub open spec fn sector_floor(pa: int) -> int {
    pa - pa % 512
}

/// The disk is ready for a command when the busy bit (7) is clear and the
/// ready bit (6) is set.
pub open spec fn status_ready(status: u8) -> bool {
    64 <= status < 128
}

/// Tests the status byte read from port 0x1F7: `status & 0xC0 == 0x40`.
pub fn disk_ready(status: u8) -> (r: bool)
    ensures
        r == status_ready(status),
{
    let r = status & 0xC0 == 0x40;
    assert(r == (64 <= status < 128)) by (bit_vector)
        requires
            r == (status & 0xC0 == 0x40),
    ;
    r
}

/// Byte `k` (0 = least significant) of the little-endian encoding of `v`.
pub open spec fn byte_of(v: u32, k: int) -> int {
    let v = v as int;
    if k == 0 {
        v % 0x100
    } else if k == 1 {
        (v / 0x100) % 0x100
    } else if k == 2 {
        (v / 0x1_0000) % 0x100
    } else {
        v / 0x100_0000
    }
}

/// The sector number that a command sets up, read back from the four address
/// bytes it writes: the low 24 bits from ports 0x1F3..0x1F5 and bits 24..27
/// from the low nibble of the drive/head register.
pub open spec fn commanded_sector(cmd: Seq<PortWrite>) -> int {
    cmd[1].value + 0x100 * cmd[2].value + 0x1_0000 * cmd[3].value + 0x100_0000 * (
    cmd[4].value % 16)
}

/// The six port writes that ask the controller for one sector in LBA mode:
/// sector count 1, the three low bytes of the sector number, the drive/head
/// register (`0xE0` with the top bits of the number), and the read command
/// `0x20`.
pub fn sector_command(sector: u32) -> (r: Vec<PortWrite>)
    ensures
        r@.len() == 6,
        r@[0] == (PortWrite { port: 0x1F2, value: 1 }),
        r@[1].port == 0x1F3 && r@[1].value == byte_of(sector, 0),
        r@[2].port == 0x1F4 && r@[2].value == byte_of(sector, 1),
        r@[3].port == 0x1F5 && r@[3].value == byte_of(sector, 2),
        r@[4].port == 0x1F6 && r@[4].value == (((sector >> 24u32) | 0xE0u32) as u8),
        r@[5] == (PortWrite { port: 0x1F7, value: 0x20 }),
        sector < 0x1000_0000 ==> commanded_sector(r@) == sector,
        r@[4].value / 32 == 7,
{
    let b0 = sector as u8;
    let b1 = (sector >> 8u32) as u8;
    let b2 = (sector >> 16u32) as u8;
    let b3 = ((sector >> 24u32) | 0xE0u32) as u8;
    assert(b0 == sector % 0x100 && b1 == (sector / 0x100) % 0x100 && b2 == (sector / 0x1_0000)
        % 0x100) by (bit_vector)
        requires
            b0 == sector as u8,
            b1 == (sector >> 8u32) as u8,
            b2 == (sector >> 16u32) as u8,
    ;
    assert(b3 / 32 == 7 && (sector < 0x1000_0000 ==> b3 % 16 == sector / 0x100_0000))
        by (bit_vector)
        requires
            b3 == ((sector >> 24u32) | 0xE0u32) as u8,
    ;
    let mut r: Vec<PortWrite> = Vec::new();
    r.push(PortWrite { port: 0x1F2, value: 1 });
    r.push(PortWrite { port: 0x1F3, value: b0 });
    r.push(PortWrite { port: 0x1F4, value: b1 });
    r.push(PortWrite { port: 0x1F5, value: b2 });
    r.push(PortWrite { port: 0x1F6, value: b3 });
    r.push(PortWrite { port: 0x1F7, value: 0x20 });
    r
}

/// Byte address `b` lands in one of the sectors that `reads` transfers.
pub open spec fn sector_covers(reads: Seq<SectorRead>, b: int) -> bool {
    exists|i: int| 0 <= i < reads.len() && #[trigger] reads[i].dst <= b < reads[i].dst + 512
}

/// The sector transfers of one segment read: `count` bytes for physical
/// address `pa`, starting at byte `offset` of the image, which begins at disk
/// sector 1. The address is first rounded down to a sector boundary, then one
/// sector is read per 512 bytes while the address is below `pa + count`.
/// The second result is the address after the last transfer, which the
/// caller's variable holds when the read is done.
pub fn sector_reads(pa: u32, count: u32, offset: u32) -> (r: (Vec<SectorRead>, u32))
    requires
        pa + count <= 0xFFFF_FE00,
    ensures
        forall|i: int|
            #![trigger r.0@[i]]
            0 <= i < r.0@.len() ==> r.0@[i].dst == sector_floor(pa as int) + 512 * i
                && r.0@[i].sector == offset / 512 + 1 + i,
        r.0@.len() > 0 ==> sector_floor(pa as int) + 512 * (r.0@.len() - 1) < pa + count,
        sector_floor(pa as int) + 512 * r.0@.len() >= pa + count,
        r.1 == sector_floor(pa as int) + 512 * r.0@.len(),
        forall|b: int| pa <= b < pa + count ==> #[trigger] sector_covers(r.0@, b),
{
    let end = pa + count;
    let mut cur = pa & !(SECTSIZE - 1);
    assert(cur == pa - pa % 512) by (bit_vector)
        requires
            cur == pa & !511u32,
    ;
    let mut sector = offset / SECTSIZE + 1;
    let mut reads: Vec<SectorRead> = Vec::new();
    while cur < end
        invariant
            end == pa + count,
            end <= 0xFFFF_FE00,
            cur == sector_floor(pa as int) + 512 * reads@.len(),
            sector == offset / 512 + 1 + reads@.len(),
            reads@.len() > 0 ==> sector_floor(pa as int) + 512 * (reads@.len() - 1) < end,
            forall|i: int|
                #![trigger reads@[i]]
                0 <= i < reads@.len() ==> reads@[i].dst == sector_floor(pa as int) + 512 * i
                    && reads@[i].sector == offset / 512 + 1 + i,
        decreases end + 512 - cur,
    {
        reads.push(SectorRead { dst: cur, sector });
        cur = cur + SECTSIZE;
        sector = sector + 1;
    }
    proof {
        assert forall|b: int| pa <= b < pa + count implies #[trigger] sector_covers(reads@, b) by {
            let base = sector_floor(pa as int);
            let i = (b - base) / 512;
            assert(base <= b);
            assert(0 <= i);
            assert(i * 512 <= b - base < i * 512 + 512) by (nonlinear_arith)
                requires
                    i == (b - base) / 512,
                    base <= b,
            ;
            assert(i < reads@.len()) by (nonlinear_arith)
                requires
                    i * 512 <= b - base,
                    b < base + 512 * reads@.len(),
            ;
            assert(reads@[i].dst == base + 512 * i);
        }
    }
    (reads, cur)
}

} // verus!
