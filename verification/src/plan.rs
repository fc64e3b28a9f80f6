use vstd::prelude::*;

verus! {

/// A page-protection level the host applies to a region of linear memory.
#[derive(Clone, Copy, PartialEq, Eq, Structural, Debug)]
pub enum Prot {
    ReadWrite,
    ReadOnly,
    NoAccess,
}

/// A byte range of the guest's linear memory.
#[derive(Clone, Copy, PartialEq, Eq, Structural, Debug)]
pub struct Region {
    pub offset: u64,
    pub len: u64,
}

/// A protection change the host must apply: `prot` over `region`.
#[derive(Clone, Copy, PartialEq, Eq, Structural, Debug)]
pub struct ProtRegion {
    pub region: Region,
    pub prot: Prot,
}

/// A byte stamp the host must apply: `len` copies of `byte` at `offset`.
#[derive(Clone, Copy, PartialEq, Eq, Structural, Debug)]
pub struct Fill {
    pub offset: u64,
    pub len: u64,
    pub byte: u8,
}

/// Everything the host must do to linear memory after a successful `malloc`:
/// map the reserved run read/write, stamp junk into the user region and
/// canary bytes into the slack before it.
#[derive(Clone, Copy, PartialEq, Eq, Structural, Debug)]
pub struct MallocPlan {
    /// Address returned to the guest.
    pub start: u32,
    /// The reserved run `[offset, offset + rounded_size)`, to become
    /// readable and writable.
    pub map_rw: ProtRegion,
    /// The user region `[start, start + size)`, stamped with the junk byte.
    pub junk_fill: Fill,
    /// The canary slack `[offset, start)`, empty when the request was an
    /// exact multiple of the page size.
    pub canary_fill: Fill,
}

/// The protection layout the host establishes before invoking the guest
/// entrypoint: a read-only prologue up to the heap base, nothing accessible
/// beyond it.
#[derive(Clone, Copy, PartialEq, Eq, Structural, Debug)]
pub struct StartupPlan {
    pub read_only: ProtRegion,
    pub unmapped: ProtRegion,
}

/// The counters reported when the guest terminates.
#[derive(Clone, Copy, PartialEq, Eq, Structural, Debug)]
pub struct Summary {
    pub alloc_count: u64,
    pub leaked: u64,
    pub alloc_total_usage: u64,
}

/// Linear memory after the host performs one `Fill`: `fill.byte` over
/// `[fill.offset, fill.offset + fill.len)`, every other byte unchanged.
pub open spec fn apply_fill(mem: Seq<u8>, fill: Fill) -> Seq<u8> {
    Seq::new(mem.len(), |k: int| if fill.offset <= k < fill.offset + fill.len {
        fill.byte
    } else {
        mem[k]
    })
}

} // verus!
