//! Verified core of a BIOS x86_64 bootloader: the disk-sector arithmetic of the
//! first stage, the ELF structures it reads, the VGA text output of the demo
//! kernel, and the address and frame computations of the long-mode stage.

pub mod addr;
pub mod disk;
pub mod elf;
pub mod kernel_elf;
pub mod layout;
pub mod memory;
pub mod vga;
