//! The demo kernel's greeting: the byte writes into the VGA text buffer at
//! physical address 0xb8000 that show a string in light cyan.

use vstd::prelude::*;

verus! {

/// Physical address of the VGA text buffer.
pub const VGA_BUFFER: usize = 0xb8000;

/// Attribute byte for light cyan text on black.
pub const LIGHT_CYAN: u8 = 0xb;

/// The text the demo kernel prints: `Hello World!`.
pub const HELLO: [u8; 12] = [0x48, 0x65, 0x6c, 0x6c, 0x6f, 0x20, 0x57, 0x6f, 0x72, 0x6c, 0x64, 0x21];

/// One byte written at `offset` bytes from the start of the VGA buffer.
#[derive(Clone, Copy, Debug, PartialEq, Eq)]
pub struct VgaWrite {
    pub offset: isize,
    pub value: u8,
}

/// The writes that put `text` at the top left of the screen: for the `i`-th
/// byte, the character at offset `2 * i`, then the attribute at `2 * i + 1`.
pub fn vga_writes(text: &[u8]) -> (r: Vec<VgaWrite>)
    requires
        2 * text@.len() + 1 <= isize::MAX,
    ensures
        r@.len() == 2 * text@.len(),
        forall|i: int|
            0 <= i < text@.len() ==> #[trigger] r@[2 * i] == (VgaWrite {
                offset: (2 * i) as isize,
                value: text@[i],
            }) && r@[2 * i + 1] == (VgaWrite { offset: (2 * i + 1) as isize, value: LIGHT_CYAN }),
{
    let mut r: Vec<VgaWrite> = Vec::new();
    let mut i: usize = 0;
    while i < text.len()
        invariant
            2 * text@.len() + 1 <= isize::MAX,
            i <= text@.len(),
            r@.len() == 2 * i,
            forall|j: int|
                0 <= j < i ==> #[trigger] r@[2 * j] == (VgaWrite {
                    offset: (2 * j) as isize,
                    value: text@[j],
                }) && r@[2 * j + 1] == (VgaWrite {
                    offset: (2 * j + 1) as isize,
                    value: LIGHT_CYAN,
                }),
        decreases text@.len() - i,
    {
        let ghost prev = r@;
        let at = i as isize * 2;
        r.push(VgaWrite { offset: at, value: text[i] });
        r.push(VgaWrite { offset: at + 1, value: LIGHT_CYAN });
        proof {
            assert forall|j: int| 0 <= j < i + 1 implies #[trigger] r@[2 * j] == (VgaWrite {
                offset: (2 * j) as isize,
                value: text@[j],
            }) && r@[2 * j + 1] == (VgaWrite { offset: (2 * j + 1) as isize, value: LIGHT_CYAN }) by {
                if j < i {
                    assert(r@[2 * j] == prev[2 * j]);
                    assert(r@[2 * j + 1] == prev[2 * j + 1]);
                }
            }
        }
        i = i + 1;
    }
    r
}

} // verus!
