use crate::canary::{canaries_check, canary_check, slack_ok, sweep_ok};
use crate::ctx_data::{
    initial_state, lemma_mod_sum_zero, lemma_round_up_props, lemma_starts_increase,
    round_up_to_page, Allocation, CtxData, StateModel,
};
use crate::fault::Fault;
use crate::plan::{apply_fill, Fill, MallocPlan, Prot, ProtRegion, Region, StartupPlan, Summary};
use vstd::prelude::*;

verus! {

/// `malloc(size)` can run: the request is a positive 32-bit count, and the
/// reserved run plus its guard page still fit both the 32-bit address space
/// and the instance's linear memory.
pub open spec fn can_malloc(s: StateModel, size: int, mem_len: int) -> bool {
    &&& 1 <= size <= u32::MAX
    &&& s.heap_offset + round_up_to_page(size, s.page_size) + s.page_size <= u32::MAX
    &&& s.heap_offset + round_up_to_page(size, s.page_size) <= mem_len
}

/// The address `malloc(size)` hands to the guest: the reserved run's end
/// minus the requested size.
pub open spec fn malloc_start(s: StateModel, size: int) -> int {
    s.heap_offset + round_up_to_page(size, s.page_size) - size
}

/// The reserved run `malloc(size)` maps read/write.
pub open spec fn malloc_region(s: StateModel, size: int) -> Region {
    Region { offset: s.heap_offset as u64, len: round_up_to_page(size, s.page_size) as u64 }
}

/// The junk stamp over the user region of a fresh allocation.
pub open spec fn malloc_junk_fill(s: StateModel, size: int) -> Fill {
    Fill { offset: malloc_start(s, size) as u64, len: size as u64, byte: s.junk }
}

/// The canary stamp over the slack of a fresh allocation (empty when the
/// request was an exact multiple of the page size).
pub open spec fn malloc_canary_fill(s: StateModel, size: int) -> Fill {
    Fill {
        offset: s.heap_offset as u64,
        len: (round_up_to_page(size, s.page_size) - size) as u64,
        byte: s.canary,
    }
}

/// The allocator state after a successful `malloc(size)`: the fresh record
/// is appended, the heap advances past the reserved run and one guard page,
/// and the counters grow.
pub open spec fn spec_malloc(s: StateModel, size: int) -> StateModel {
    let rounded = round_up_to_page(size, s.page_size);
    let offset = s.heap_offset;
    StateModel {
        heap_offset: offset + rounded + s.page_size,
        allocs: s.allocs.push(
            Allocation {
                offset: offset as u32,
                start: (offset + rounded - size) as u32,
                size: size as u32,
                rounded_size: rounded as u32,
            },
        ),
        alloc_count: s.alloc_count + 1,
        alloc_total_usage: s.alloc_total_usage + size,
        ..s
    }
}

/// The allocator state after `free` removes the record at index `i`.
pub open spec fn spec_free(s: StateModel, i: int) -> StateModel {
    StateModel { allocs: s.allocs.remove(i), free_count: s.free_count + 1, ..s }
}

/// A successful `malloc` preserves the allocator invariant.
pub proof fn lemma_spec_malloc_wf(s: StateModel, size: int)
    requires
        s.wf(),
        1 <= size <= u32::MAX,
        s.heap_offset + round_up_to_page(size, s.page_size) + s.page_size <= u32::MAX,
    ensures
        spec_malloc(s, size).wf(),
        spec_malloc(s, size).allocs.last().wf(s.page_size),
        spec_malloc(s, size).allocs.last().offset == s.heap_offset,
        spec_malloc(s, size).allocs.last().start == malloc_start(s, size),
{
    let rounded = round_up_to_page(size, s.page_size);
    let offset = s.heap_offset;
    let s1 = spec_malloc(s, size);
    let a = s1.allocs.last();
    lemma_round_up_props(size, s.page_size);
    assert(0 <= offset + rounded - size <= u32::MAX);
    assert(a.offset == offset && a.start == offset + rounded - size && a.size == size
        && a.rounded_size == rounded);
    assert(s1.heap_offset % s.page_size == 0) by {
        vstd::arithmetic::div_mod::lemma_mod_self_0(s.page_size);
        lemma_mod_sum_zero(offset, rounded, s.page_size);
        lemma_mod_sum_zero(offset + rounded, s.page_size, s.page_size);
    }
    assert(a.wf(s.page_size));
    assert forall|i: int| 0 <= i < s1.allocs.len() implies (#[trigger] s1.allocs[i]).wf(
        s1.page_size,
    ) by {
        if i < s.allocs.len() {
            assert(s.allocs[i].wf(s.page_size));
        }
    }
    assert forall|i: int| 0 <= i < s1.allocs.len() implies (#[trigger] s1.allocs[i]).end()
        + s1.page_size <= s1.heap_offset by {
        if i < s.allocs.len() {
            assert(s.allocs[i].end() + s.page_size <= s.heap_offset);
        }
    }
    assert forall|i: int, j: int| 0 <= i < j < s1.allocs.len() implies (#[trigger] s1.allocs[i]).end()
        + s1.page_size <= (#[trigger] s1.allocs[j]).offset by {
        if j < s.allocs.len() {
            assert(s.allocs[i].end() + s.page_size <= s.allocs[j].offset);
        } else {
            assert(s.allocs[i].end() + s.page_size <= s.heap_offset);
        }
    }
}

/// Removing a record under `free` preserves the allocator invariant.
pub proof fn lemma_spec_free_wf(s: StateModel, i: int)
    requires
        s.wf(),
        0 <= i < s.allocs.len(),
    ensures
        spec_free(s, i).wf(),
{
    let s1 = spec_free(s, i);
    assert forall|j: int| 0 <= j < s1.allocs.len() implies (#[trigger] s1.allocs[j]).wf(
        s1.page_size,
    ) && s1.allocs[j].end() + s1.page_size <= s1.heap_offset by {
        if j < i {
            assert(s1.allocs[j] == s.allocs[j]);
            assert(s.allocs[j].wf(s.page_size));
            assert(s.allocs[j].end() + s.page_size <= s.heap_offset);
        } else {
            assert(s1.allocs[j] == s.allocs[j + 1]);
            assert(s.allocs[j + 1].wf(s.page_size));
            assert(s.allocs[j + 1].end() + s.page_size <= s.heap_offset);
        }
    }
    assert forall|j: int, k: int| 0 <= j < k < s1.allocs.len() implies (#[trigger] s1.allocs[j]).end()
        + s1.page_size <= (#[trigger] s1.allocs[k]).offset by {
        let j0 = if j < i { j } else { j + 1 };
        let k0 = if k < i { k } else { k + 1 };
        assert(s1.allocs[j] == s.allocs[j0]);
        assert(s1.allocs[k] == s.allocs[k0]);
        assert(s.allocs[j0].end() + s.page_size <= s.allocs[k0].offset);
    }
}

/// Looks up a live record by the address handed to the guest.
fn find_allocation(allocations: &Vec<Allocation>, start: u32) -> (r: Option<usize>)
    ensures
        r matches Some(i) ==> i < allocations@.len() && allocations@[i as int].start == start,
        r is None ==> forall|i: int|
            0 <= i < allocations@.len() ==> (#[trigger] allocations@[i]).start != start,
{
    let n = allocations.len();
    let mut i: usize = 0;
    while i < n
        invariant
            0 <= i <= n,
            n == allocations@.len(),
            forall|j: int| 0 <= j < i ==> (#[trigger] allocations@[j]).start != start,
        decreases n - i,
    {
        if allocations[i].start == start {
            return Some(i);
        }
        i = i + 1;
    }
    None
}

/// `malloc(size)` can run against this allocator and a linear memory of
/// `mem_len` bytes.
pub fn can_malloc_now(ctx: &CtxData, size: u32, mem_len: usize) -> (b: bool)
    requires
        ctx@.wf(),
    ensures
        b == can_malloc(ctx@, size as int, mem_len as int),
{
    if size == 0 {
        return false;
    }
    proof {
        lemma_round_up_props(size as int, ctx@.page_size);
    }
    let page = ctx.page_size as u64;
    let rounded: u64 = ((size as u64 - 1) / page + 1) * page;
    let end_guard: u64 = ctx.heap_offset as u64 + rounded + page;
    end_guard <= u32::MAX as u64 && ctx.heap_offset as u64 + rounded <= mem_len as u64
}

/// The `malloc(size)` host import as a state transition.
///
/// On success it returns the address for the guest together with the memory
/// work the host must now perform: map the reserved run read/write, stamp
/// junk over the user region and canary bytes over the slack. When the
/// allocator was configured to sweep on every `malloc`, a corrupted canary
/// is reported instead and the state is left untouched.
pub fn malloc(size: u32, ctx: &mut CtxData, mem: &[u8]) -> (r: Result<MallocPlan, Fault>)
    requires
        old(ctx)@.wf(),
        can_malloc(old(ctx)@, size as int, mem@.len() as int),
    ensures
        final(ctx)@.wf(),
        final(ctx)@.heap_offset >= old(ctx)@.heap_offset,
        r is Ok <==> (!old(ctx)@.canary_check_on_alloc || sweep_ok(old(ctx)@, mem@)),
        r matches Ok(plan) ==> final(ctx)@ == spec_malloc(old(ctx)@, size as int)
            && plan.start == malloc_start(old(ctx)@, size as int)
            && plan.map_rw == (ProtRegion {
            region: malloc_region(old(ctx)@, size as int),
            prot: Prot::ReadWrite,
        })
            && plan.junk_fill == malloc_junk_fill(old(ctx)@, size as int)
            && plan.canary_fill == malloc_canary_fill(old(ctx)@, size as int),
        r matches Err(f) ==> final(ctx)@ == old(ctx)@ && old(ctx)@.canary_check_on_alloc
            && (f matches Fault::Corruption { offset, base }
            && (exists|i: int| 0 <= i < old(ctx)@.allocs.len()
                && (#[trigger] old(ctx)@.allocs[i]).offset == base
                && old(ctx)@.allocs[i].offset <= offset < old(ctx)@.allocs[i].start
                && mem@[offset as int] != old(ctx)@.canary)),
{
    proof {
        lemma_round_up_props(size as int, old(ctx)@.page_size);
        assert forall|i: int| 0 <= i < ctx@.allocs.len() implies (#[trigger] ctx@.allocs[i]).start
            <= mem@.len() by {
            assert(ctx@.allocs[i].wf(ctx@.page_size));
            assert(ctx@.allocs[i].end() + ctx@.page_size <= ctx@.heap_offset);
        }
    }
    if ctx.canary_check_on_alloc {
        match canaries_check(&ctx.allocations, ctx.canary, mem) {
            Err(f) => {
                return Err(f);
            },
            Ok(()) => {},
        }
    }
    let page_size = ctx.page_size;
    let offset = ctx.heap_offset;
    let rounded64: u64 = ((size as u64 - 1) / page_size as u64 + 1) * page_size as u64;
    let rounded_size: u32 = rounded64 as u32;
    let end: u32 = offset + rounded_size;
    let start: u32 = end - size;
    let a = Allocation { offset, start, size, rounded_size };
    ctx.allocations.push(a);
    ctx.heap_offset = end + page_size;
    ctx.alloc_count = ctx.alloc_count + 1;
    ctx.alloc_total_usage = ctx.alloc_total_usage + size as u64;
    proof {
        lemma_spec_malloc_wf(old(ctx)@, size as int);
        assert(ctx@ =~= spec_malloc(old(ctx)@, size as int));
    }
    Ok(
        MallocPlan {
            start,
            map_rw: ProtRegion {
                region: Region { offset: offset as u64, len: rounded_size as u64 },
                prot: Prot::ReadWrite,
            },
            junk_fill: Fill { offset: start as u64, len: size as u64, byte: ctx.junk },
            canary_fill: Fill {
                offset: offset as u64,
                len: (rounded_size - size) as u64,
                byte: ctx.canary,
            },
        },
    )
}

/// The `free(start)` host import as a state transition.
///
/// When `start` is the address of a live allocation whose canary slack is
/// intact, the record is removed and the host must unmap the pages the
/// reservation occupied, so any later guest access to them traps. An unknown
/// address or a corrupted canary is reported with the state left untouched.
pub fn free(start: u32, ctx: &mut CtxData, mem: &[u8]) -> (r: Result<ProtRegion, Fault>)
    requires
        old(ctx)@.wf(),
        old(ctx)@.heap_offset <= mem@.len(),
    ensures
        final(ctx)@.wf(),
        final(ctx)@.heap_offset == old(ctx)@.heap_offset,
        (forall|i: int|
            0 <= i < old(ctx)@.allocs.len() ==> (#[trigger] old(ctx)@.allocs[i]).start != start)
            ==> r == Err::<ProtRegion, Fault>(Fault::InvalidFree { start }) && final(ctx)@ == old(
            ctx,
        )@,
        forall|i: int|
            0 <= i < old(ctx)@.allocs.len() && (#[trigger] old(ctx)@.allocs[i]).start == start
                ==> {
                let a = old(ctx)@.allocs[i];
                &&& (slack_ok(a, mem@, old(ctx)@.canary) ==> r == Ok::<ProtRegion, Fault>(
                    ProtRegion {
                        region: Region { offset: a.offset as u64, len: a.rounded_size as u64 },
                        prot: Prot::NoAccess,
                    },
                ) && final(ctx)@ == spec_free(old(ctx)@, i))
                &&& (!slack_ok(a, mem@, old(ctx)@.canary) ==> final(ctx)@ == old(ctx)@ && (r matches Err(
                    f,
                ) && (f matches Fault::Corruption { offset, base } && base == a.offset && a.offset
                    <= offset < a.start && mem@[offset as int] != old(ctx)@.canary)))
            },
{
    proof {
        assert forall|i: int| 0 <= i < ctx@.allocs.len() implies (#[trigger] ctx@.allocs[i]).start
            <= mem@.len() by {
            assert(ctx@.allocs[i].wf(ctx@.page_size));
            assert(ctx@.allocs[i].end() + ctx@.page_size <= ctx@.heap_offset);
        }
    }
    match find_allocation(&ctx.allocations, start) {
        None => Err(Fault::InvalidFree { start }),
        Some(i) => {
            proof {
                assert forall|j: int|
                    0 <= j < old(ctx)@.allocs.len() && (#[trigger] old(ctx)@.allocs[j]).start
                        == start implies j == i as int by {
                    if j < i as int {
                        lemma_starts_increase(old(ctx)@, j, i as int);
                    } else if j > i as int {
                        lemma_starts_increase(old(ctx)@, i as int, j);
                    }
                }
                assert(ctx@.allocs[i as int].wf(ctx@.page_size));
            }
            let a = ctx.allocations[i];
            match canary_check(&a, ctx.canary, mem) {
                Err(f) => Err(f),
                Ok(()) => {
                    ctx.allocations.remove(i);
                    ctx.free_count = ctx.free_count + 1;
                    proof {
                        lemma_spec_free_wf(old(ctx)@, i as int);
                        assert(ctx@ =~= spec_free(old(ctx)@, i as int));
                    }
                    Ok(
                        ProtRegion {
                            region: Region {
                                offset: a.offset as u64,
                                len: a.rounded_size as u64,
                            },
                            prot: Prot::NoAccess,
                        },
                    )
                },
            }
        },
    }
}

/// The `terminate` host import: a full canary sweep, then the counter
/// summary the host reports on the diagnostic stream. The allocator state is
/// only read; the host is expected to restore the whole linear memory to
/// read/write afterwards.
pub fn terminate(ctx: &CtxData, mem: &[u8]) -> (r: Result<Summary, Fault>)
    requires
        ctx@.wf(),
        ctx@.heap_offset <= mem@.len(),
    ensures
        r is Ok <==> sweep_ok(ctx@, mem@),
        r matches Ok(s) ==> s.alloc_count == ctx@.alloc_count && s.leaked == ctx@.alloc_count
            - ctx@.free_count && s.alloc_total_usage == ctx@.alloc_total_usage,
        r matches Err(f) ==> f matches Fault::Corruption { offset, base }
            && (exists|i: int| 0 <= i < ctx@.allocs.len()
                && (#[trigger] ctx@.allocs[i]).offset == base
                && ctx@.allocs[i].offset <= offset < ctx@.allocs[i].start
                && mem@[offset as int] != ctx@.canary),
{
    proof {
        assert forall|i: int| 0 <= i < ctx@.allocs.len() implies (#[trigger] ctx@.allocs[i]).start
            <= mem@.len() by {
            assert(ctx@.allocs[i].wf(ctx@.page_size));
            assert(ctx@.allocs[i].end() + ctx@.page_size <= ctx@.heap_offset);
        }
    }
    match canaries_check(&ctx.allocations, ctx.canary, mem) {
        Err(f) => Err(f),
        Ok(()) => Ok(
            Summary {
                alloc_count: ctx.alloc_count,
                leaked: ctx.alloc_count - ctx.free_count,
                alloc_total_usage: ctx.alloc_total_usage,
            },
        ),
    }
}

/// The protection layout established before the guest entrypoint runs: the
/// prologue `[0, heap_offset)` becomes read-only, everything above it is
/// unmapped, and the heap then starts one guard page higher.
pub fn startup(ctx: &mut CtxData, mem_len: u64) -> (r: StartupPlan)
    requires
        old(ctx)@.wf(),
        old(ctx)@.heap_offset + old(ctx)@.page_size <= u32::MAX,
        old(ctx)@.heap_offset <= mem_len,
    ensures
        final(ctx)@.wf(),
        final(ctx)@ == (StateModel {
            heap_offset: old(ctx)@.heap_offset + old(ctx)@.page_size,
            ..old(ctx)@
        }),
        r.read_only == (ProtRegion {
            region: Region { offset: 0, len: old(ctx)@.heap_offset as u64 },
            prot: Prot::ReadOnly,
        }),
        r.unmapped == (ProtRegion {
            region: Region {
                offset: old(ctx)@.heap_offset as u64,
                len: (mem_len - old(ctx)@.heap_offset) as u64,
            },
            prot: Prot::NoAccess,
        }),
{
    let heap_offset = ctx.heap_offset;
    ctx.heap_offset = heap_offset + ctx.page_size;
    proof {
        vstd::arithmetic::div_mod::lemma_mod_self_0(old(ctx)@.page_size);
        lemma_mod_sum_zero(old(ctx)@.heap_offset, old(ctx)@.page_size, old(ctx)@.page_size);
        assert(ctx@ =~= StateModel {
            heap_offset: old(ctx)@.heap_offset + old(ctx)@.page_size,
            ..old(ctx)@
        });
    }
    StartupPlan {
        read_only: ProtRegion {
            region: Region { offset: 0, len: heap_offset as u64 },
            prot: Prot::ReadOnly,
        },
        unmapped: ProtRegion {
            region: Region { offset: heap_offset as u64, len: mem_len - heap_offset as u64 },
            prot: Prot::NoAccess,
        },
    }
}

/// Allocating and then freeing the fresh record returns the counters to
/// exactly one more allocation, one more free, and the requested size added
/// to the running usage total, with the live index back to what it was.
pub proof fn law_roundtrip(s: StateModel, size: int)
    requires
        s.wf(),
        1 <= size <= u32::MAX,
        s.heap_offset + round_up_to_page(size, s.page_size) + s.page_size <= u32::MAX,
    ensures
        ({
            let s1 = spec_malloc(s, size);
            let s2 = spec_free(s1, s1.allocs.len() - 1);
            &&& s2.alloc_count == s.alloc_count + 1
            &&& s2.free_count == s.free_count + 1
            &&& s2.alloc_total_usage == s.alloc_total_usage + size
            &&& s2.allocs == s.allocs
            &&& s2.heap_offset == s1.heap_offset
            &&& s2.wf()
        }),
{
    let s1 = spec_malloc(s, size);
    let s2 = spec_free(s1, s1.allocs.len() - 1);
    lemma_spec_malloc_wf(s, size);
    lemma_spec_free_wf(s1, s1.allocs.len() - 1);
    assert(s2.allocs =~= s.allocs);
}

/// The heap cursor never moves backwards: `malloc` only advances it and
/// `free` leaves it where it was, so it is non-decreasing across any run of
/// host-import calls.
pub proof fn law_heap_monotonic(s: StateModel, size: int, i: int)
    requires
        s.wf(),
    ensures
        1 <= size ==> spec_malloc(s, size).heap_offset >= s.heap_offset,
        0 <= i < s.allocs.len() ==> spec_free(s, i).heap_offset == s.heap_offset,
{
    if 1 <= size {
        lemma_round_up_props(size, s.page_size);
    }
}

/// A fresh allocator has nothing to sweep: the sweep passes over any memory.
pub proof fn law_initial_sweep(heap_base: int, page_size: int, c: bool, mem: Seq<u8>)
    ensures
        sweep_ok(initial_state(heap_base, page_size, c), mem),
{
}

/// A `malloc` whose junk and canary stamps have been applied to memory
/// leaves every live canary slack intact — the new one just stamped, and the
/// old ones untouched because the fresh reservation lies entirely above
/// them. A sweep after an undisturbed `malloc` therefore always passes.
pub proof fn law_malloc_keeps_sweep(s: StateModel, size: int, mem: Seq<u8>)
    requires
        s.wf(),
        can_malloc(s, size, mem.len() as int),
        sweep_ok(s, mem),
    ensures
        sweep_ok(
            spec_malloc(s, size),
            apply_fill(apply_fill(mem, malloc_junk_fill(s, size)), malloc_canary_fill(s, size)),
        ),
{
    let s1 = spec_malloc(s, size);
    let mem1 = apply_fill(mem, malloc_junk_fill(s, size));
    let mem2 = apply_fill(mem1, malloc_canary_fill(s, size));
    lemma_round_up_props(size, s.page_size);
    lemma_spec_malloc_wf(s, size);
    assert forall|i: int| 0 <= i < s1.allocs.len() implies slack_ok(
        #[trigger] s1.allocs[i],
        mem2,
        s1.canary,
    ) by {
        if i < s.allocs.len() {
            let a = s.allocs[i];
            assert(a.wf(s.page_size));
            assert(a.end() + s.page_size <= s.heap_offset);
            assert(slack_ok(a, mem, s.canary));
            assert forall|k: int| a.offset <= k < a.start implies mem2[k] == s1.canary by {
                assert(k < s.heap_offset);
                assert(mem2[k] == mem1[k] && mem1[k] == mem[k]);
                assert(mem[k] == s.canary);
            }
        } else {
            let a = s1.allocs[i];
            assert(a.start == malloc_start(s, size));
            assert forall|k: int| a.offset <= k < a.start implies mem2[k] == s1.canary by {
                assert(s.heap_offset <= k < s.heap_offset + round_up_to_page(size, s.page_size)
                    - size);
            }
        }
    }
}

/// Freeing a record can only shrink what a sweep inspects: a sweep that
/// passed before the `free` still passes after it, over unchanged memory.
pub proof fn law_free_keeps_sweep(s: StateModel, i: int, mem: Seq<u8>)
    requires
        s.wf(),
        0 <= i < s.allocs.len(),
        sweep_ok(s, mem),
    ensures
        sweep_ok(spec_free(s, i), mem),
{
    let s1 = spec_free(s, i);
    assert forall|j: int| 0 <= j < s1.allocs.len() implies slack_ok(
        #[trigger] s1.allocs[j],
        mem,
        s1.canary,
    ) by {
        if j < i {
            assert(s1.allocs[j] == s.allocs[j]);
            assert(slack_ok(s.allocs[j], mem, s.canary));
        } else {
            assert(s1.allocs[j] == s.allocs[j + 1]);
            assert(slack_ok(s.allocs[j + 1], mem, s.canary));
        }
    }
}

} // verus!
