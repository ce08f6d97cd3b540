//! Memory subsystem of a 32-bit kernel: physical frame allocation, two-level
//! page tables, a first-fit heap allocator, a spin mutex and a write-once cell.
//!
//! Every item is stated over a mathematical model and proved by Verus.

use vstd::prelude::*;

pub mod frame_allocator;
pub mod heap_allocator;
pub mod memory_manager;
pub mod paging;
pub mod runtime_static;
pub mod spin_mutex;

verus! {

/// Size in bytes of one physical frame.
pub const FRAME_SIZE: usize = 4096;

/// Size in bytes of one virtual page.
pub const PAGE_SIZE: usize = 4096;

/// Number of entries in a page directory or a page table.
pub const ENTRIES_PER_PAGE: usize = 1024;

/// Failures of the memory subsystem.
#[derive(Clone, Copy, Debug, PartialEq, Eq, Structural)]
pub enum MemoryError {
    /// No physical frame, or no heap space, is left.
    OutOfMemory,
    /// The page-table entry to fill is already present.
    AlreadyMapped,
    /// A heap block was freed with a size or alignment other than its own, or
    /// was never handed out.
    CorruptFree,
    /// No gap of the heap can hold the requested block.
    AllocImpossible,
}

} // verus!
