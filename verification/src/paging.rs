//! Page arithmetic and mapping permissions.

use vstd::prelude::*;

verus! {

/// The size of a page.
pub const PAGE_SIZE_4K: usize = 4096;

/// The page that an address lies in: `ax_memory_addr::align_down_4k` clears
/// the twelve low bits.
pub assume_specification[ ax_memory_addr::align_down_4k ](addr: usize) -> (r: usize)
    ensures
        r == addr - addr % 4096,
;

/// The first page boundary that is not below an address:
/// `ax_memory_addr::align_up_4k` adds a page, which must not overflow, takes
/// one away and clears the twelve low bits.
pub assume_specification[ ax_memory_addr::align_up_4k ](addr: usize) -> (r: usize)
    requires
        addr + 4096 <= usize::MAX,
    ensures
        r == (addr + 4095) - (addr + 4095) % 4096,
;

/// The offset of an address in its page: `ax_memory_addr::align_offset_4k`
/// keeps the twelve low bits.
pub assume_specification[ ax_memory_addr::align_offset_4k ](addr: usize) -> (r: usize)
    ensures
        r == addr % 4096,
;

/// The permissions of a mapping.
#[derive(Debug, Clone, Copy, PartialEq, Eq, Structural)]
pub struct MappingFlags {
    /// Loads are allowed.
    pub read: bool,
    /// Stores are allowed.
    pub write: bool,
    /// Instruction fetches are allowed.
    pub execute: bool,
    /// User code may use the mapping.
    pub user: bool,
}

} // verus!
