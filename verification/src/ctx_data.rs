use crate::config::RuntimeConfig;
use vstd::prelude::*;

verus! {

/// One live reservation inside the guest's linear memory.
///
/// The reserved region is `[offset, offset + rounded_size)`; the user region
/// handed to the guest is its tail `[start, start + size)`, and the canary
/// slack, if any, is the head `[offset, start)`.
#[derive(Clone, Copy, PartialEq, Eq, Structural, Debug)]
pub struct Allocation {
    /// Page-aligned start of the reserved region.
    pub offset: u32,
    /// Address returned to the guest.
    pub start: u32,
    /// Bytes the guest asked for.
    pub size: u32,
    /// Bytes reserved: `size` rounded up to a multiple of the page size.
    pub rounded_size: u32,
}

/// The smallest multiple of `page` that is at least `size` (for `size >= 1`;
/// `0` for `size == 0`).
pub open spec fn round_up_to_page(size: int, page: int) -> int {
    ((size - 1) / page + 1) * page
}

impl Allocation {
    /// Geometry every record must satisfy (spec data-model invariants).
    pub open spec fn wf(self, page_size: int) -> bool {
        &&& 1 <= self.size
        &&& self.offset as int % page_size == 0
        &&& self.rounded_size as int % page_size == 0
        &&& page_size <= self.rounded_size
        &&& self.size <= self.rounded_size
        &&& self.rounded_size - self.size < page_size
        &&& self.offset <= self.start
        &&& self.start + self.size == self.offset + self.rounded_size
    }

    /// First byte past the reserved region.
    pub open spec fn end(self) -> int {
        self.offset + self.rounded_size
    }
}

/// Mathematical snapshot of an allocator: what the executable state means.
#[verifier::ext_equal]
pub struct StateModel {
    pub heap_offset: int,
    pub page_size: int,
    pub allocs: Seq<Allocation>,
    pub canary: u8,
    pub junk: u8,
    pub canary_check_on_alloc: bool,
    pub alloc_count: int,
    pub free_count: int,
    pub alloc_total_usage: int,
}

impl StateModel {
    /// Allocator-wide invariant, maintained by every transition.
    pub open spec fn wf(self) -> bool {
        &&& 1 <= self.page_size <= u32::MAX
        &&& 0 <= self.heap_offset <= u32::MAX
        &&& self.heap_offset % self.page_size == 0
        &&& self.canary == 0xd0u8
        &&& self.junk == 0xdbu8
        &&& forall|i: int|
            0 <= i < self.allocs.len() ==> (#[trigger] self.allocs[i]).wf(self.page_size)
        &&& forall|i: int|
            0 <= i < self.allocs.len() ==> (#[trigger] self.allocs[i]).end() + self.page_size
                <= self.heap_offset
        &&& forall|i: int, j: int|
            0 <= i < j < self.allocs.len() ==> (#[trigger] self.allocs[i]).end() + self.page_size
                <= (#[trigger] self.allocs[j]).offset
        &&& 0 <= self.free_count
        &&& self.alloc_count == self.free_count + self.allocs.len()
        &&& 2 * self.alloc_count <= self.heap_offset
        &&& 0 <= self.alloc_total_usage <= self.heap_offset
    }
}

/// Per-instance allocator state, attached to a guest instance at its first
/// host-import call and dropped with it.
pub struct CtxData {
    /// Next byte of linear memory not yet committed to an allocation or guard.
    pub heap_offset: u32,
    /// OS page size, queried once per instance by the host.
    pub page_size: u32,
    /// Live allocations, in increasing address order.
    pub allocations: Vec<Allocation>,
    /// Byte stamped into round-up slack.
    pub canary: u8,
    /// Byte stamped into freshly allocated user memory.
    pub junk: u8,
    /// Whether every `malloc` starts with a full canary sweep.
    pub canary_check_on_alloc: bool,
    /// Total `malloc` calls that succeeded.
    pub alloc_count: u64,
    /// Total `free` calls that succeeded.
    pub free_count: u64,
    /// Sum of all requested sizes, monotonic.
    pub alloc_total_usage: u64,
}

impl View for CtxData {
    type V = StateModel;

    open spec fn view(&self) -> StateModel {
        StateModel {
            heap_offset: self.heap_offset as int,
            page_size: self.page_size as int,
            allocs: self.allocations@,
            canary: self.canary,
            junk: self.junk,
            canary_check_on_alloc: self.canary_check_on_alloc,
            alloc_count: self.alloc_count as int,
            free_count: self.free_count as int,
            alloc_total_usage: self.alloc_total_usage as int,
        }
    }
}

/// The allocator state right after construction: an empty index and a heap
/// offset at the first page boundary at or above `heap_base`.
pub open spec fn initial_state(heap_base: int, page_size: int, canary_check_on_alloc: bool) -> StateModel {
    StateModel {
        heap_offset: round_up_to_page(heap_base, page_size),
        page_size: page_size,
        allocs: Seq::empty(),
        canary: 0xd0u8,
        junk: 0xdbu8,
        canary_check_on_alloc: canary_check_on_alloc,
        alloc_count: 0,
        free_count: 0,
        alloc_total_usage: 0,
    }
}

/// Rounding up to a page boundary lands on a multiple of the page size, at
/// or above the argument and less than one page above it.
pub proof fn lemma_round_up_props(size: int, page: int)
    requires
        0 <= size,
        1 <= page,
    ensures
        round_up_to_page(size, page) % page == 0,
        size <= round_up_to_page(size, page),
        round_up_to_page(size, page) < size + page,
        size >= 1 ==> page <= round_up_to_page(size, page),
        size == 0 ==> round_up_to_page(size, page) == 0,
{
    let q = (size - 1) / page;
    let r = (size - 1) % page;
    vstd::arithmetic::div_mod::lemma_fundamental_div_mod(size - 1, page);
    vstd::arithmetic::div_mod::lemma_mod_multiples_basic(q + 1, page);
    assert(size - 1 == page * q + r);
    if size == 0 {
        assert(-1 == page * q + r);
        assert(0 <= r < page) by {
            vstd::arithmetic::div_mod::lemma_mod_bound(size - 1, page);
        }
        assert(page * q == -1 - r);
        assert(q == -1) by (nonlinear_arith)
            requires page * q == -1 - r, 0 <= r < page, 1 <= page;
        assert((q + 1) * page == 0) by (nonlinear_arith)
            requires q == -1;
        assert(round_up_to_page(size, page) == (q + 1) * page);
        assert(0int % page == 0) by (nonlinear_arith)
            requires 1 <= page;
    } else {
        assert(0 <= r < page) by {
            vstd::arithmetic::div_mod::lemma_mod_bound(size - 1, page);
        }
        assert((q + 1) * page == page * q + page) by (nonlinear_arith);
        assert(round_up_to_page(size, page) == size - 1 - r + page);
        assert(size <= size - 1 - r + page && size - 1 - r + page < size + page);
        assert(0 <= q) by (nonlinear_arith)
            requires page * q + r == size - 1, 0 <= size - 1, 0 <= r < page, 1 <= page;
        assert(page <= (q + 1) * page) by (nonlinear_arith)
            requires 0 <= q, 1 <= page;
    }
}

/// The sum of two multiples of a positive modulus is again a multiple.
pub proof fn lemma_mod_sum_zero(a: int, b: int, p: int)
    requires
        1 <= p,
        a % p == 0,
        b % p == 0,
    ensures
        (a + b) % p == 0,
{
    vstd::arithmetic::div_mod::lemma_add_mod_noop(a, b, p);
    assert(0int % p == 0) by (nonlinear_arith)
        requires 1 <= p;
}

/// Distinct live allocations have strictly increasing `start` addresses, so
/// the `start` key determines the record.
pub proof fn lemma_starts_increase(s: StateModel, i: int, j: int)
    requires
        s.wf(),
        0 <= i < j < s.allocs.len(),
    ensures
        s.allocs[i].start < s.allocs[j].start,
{
    assert(s.allocs[i].wf(s.page_size));
    assert(s.allocs[j].wf(s.page_size));
    assert(s.allocs[i].end() + s.page_size <= s.allocs[j].offset);
}

/// Data-model geometry of every live record: the reserved region ends where
/// the user region ends, and the reserved size is a positive multiple of the
/// page size exceeding the requested size by less than one page.
pub proof fn law_records_geometry(s: StateModel)
    requires
        s.wf(),
    ensures
        forall|i: int| 0 <= i < s.allocs.len() ==> {
            let a = #[trigger] s.allocs[i];
            &&& a.offset + a.rounded_size == a.start + a.size
            &&& s.page_size <= a.rounded_size
            &&& a.rounded_size as int % s.page_size == 0
            &&& 0 <= a.rounded_size - a.size < s.page_size
        },
{
    assert forall|i: int| 0 <= i < s.allocs.len() implies {
        let a = #[trigger] s.allocs[i];
        &&& a.offset + a.rounded_size == a.start + a.size
        &&& s.page_size <= a.rounded_size
        &&& a.rounded_size as int % s.page_size == 0
        &&& 0 <= a.rounded_size - a.size < s.page_size
    } by {
        assert(s.allocs[i].wf(s.page_size));
    }
}

/// The allocator never records more frees than allocations.
pub proof fn law_counters(s: StateModel)
    requires
        s.wf(),
    ensures
        s.alloc_count >= s.free_count,
{
}

/// Distinct live allocations occupy disjoint reserved ranges, separated by
/// at least one guard page.
pub proof fn law_disjoint(s: StateModel)
    requires
        s.wf(),
    ensures
        forall|i: int, j: int| 0 <= i < s.allocs.len() && 0 <= j < s.allocs.len() && i != j ==> {
            let a = #[trigger] s.allocs[i];
            let b = #[trigger] s.allocs[j];
            a.offset + a.rounded_size + s.page_size <= b.offset
                || b.offset + b.rounded_size + s.page_size <= a.offset
        },
{
    assert forall|i: int, j: int|
        0 <= i < s.allocs.len() && 0 <= j < s.allocs.len() && i != j implies {
        let a = #[trigger] s.allocs[i];
        let b = #[trigger] s.allocs[j];
        a.offset + a.rounded_size + s.page_size <= b.offset
            || b.offset + b.rounded_size + s.page_size <= a.offset
    } by {
        if i < j {
            assert(s.allocs[i].end() + s.page_size <= s.allocs[j].offset);
        } else {
            assert(s.allocs[j].end() + s.page_size <= s.allocs[i].offset);
        }
    }
}

impl CtxData {
    /// Builds the allocator for one guest instance from the process-wide
    /// configuration snapshot and the OS page size the host queried.
    pub fn new(runtime_config: RuntimeConfig, page_size: u32) -> (r: Self)
        requires
            1 <= page_size,
            round_up_to_page(runtime_config.heap_base as int, page_size as int) <= u32::MAX,
        ensures
            r@ == initial_state(
                runtime_config.heap_base as int,
                page_size as int,
                runtime_config.canary_check_on_alloc,
            ),
            r@.wf(),
    {
        proof {
            lemma_round_up_props(runtime_config.heap_base as int, page_size as int);
        }
        let heap_offset: u32 = if runtime_config.heap_base == 0 {
            0
        } else {
            let q: u64 = (runtime_config.heap_base as u64 - 1) / page_size as u64;
            let rounded: u64 = (q + 1) * page_size as u64;
            proof {
                assert(rounded == round_up_to_page(
                    runtime_config.heap_base as int,
                    page_size as int,
                ));
            }
            rounded as u32
        };
        let r = CtxData {
            heap_offset,
            page_size,
            allocations: Vec::new(),
            canary: 0xd0,
            junk: 0xdb,
            canary_check_on_alloc: runtime_config.canary_check_on_alloc,
            alloc_count: 0,
            free_count: 0,
            alloc_total_usage: 0,
        };
        proof {
            assert(r@ =~= initial_state(
                runtime_config.heap_base as int,
                page_size as int,
                runtime_config.canary_check_on_alloc,
            ));
        }
        r
    }
}

} // verus!
