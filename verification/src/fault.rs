use vstd::prelude::*;

verus! {

/// A guest programming error caught by the allocator.
///
/// Every variant is fatal for the guest: the host is expected to abort the
/// process after reporting it.
#[derive(Clone, Copy, PartialEq, Eq, Structural, Debug)]
pub enum Fault {
    /// `free` was called with an address that is not the start of any live
    /// allocation (an invalid or already freed pointer).
    InvalidFree { start: u32 },
    /// More frees than allocations were observed.
    OverFree,
    /// A canary byte was overwritten. `offset` is the absolute linear-memory
    /// offset of the first corrupted byte; `base` is the page-aligned start
    /// of the reserved region it belongs to.
    Corruption { offset: u32, base: u32 },
}

} // verus!
