# simple_bootloader

The verified core of a BIOS bootloader for x86_64 and of its demo kernel.

- `src/disk.rs`: sector reads of the first stage over the ATA controller.
- `src/elf.rs`: the ELF header and program headers the first stage reads,
  and its walk over the program header table.
- `src/vga.rs`: the demo kernel's text output.
- `src/addr.rs`: addresses, frames and pages through the `x86_64` crate.
- `src/memory.rs`: frame ranges and the regions reserved at boot.
- `src/layout.rs`: the kernel address space set up by the long-mode stage.
- `src/kernel_elf.rs`: reading the kernel with `xmas_elf` in place (held as
  8-byte aligned words and viewed as bytes through `bytemuck`) and keeping
  its segments in a `fixedvec` vector.
- `app/`: the port I/O, raw memory access, control registers and jumps that
  carry out what the library computes.
