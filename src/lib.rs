//! Core of a minimal kernel: the descriptor tables and the answer to each
//! exception, a bump frame allocator over the boot memory map, a four-level
//! page table reached through the physical-memory offset, a text-mode screen
//! driver, the test harness exit protocol, and the order of start-up.

pub mod frame_alloc;
pub mod vga;
pub mod harness;
pub mod paging;
pub mod interrupts;
pub mod boot;
