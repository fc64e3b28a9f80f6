use crate::ctx_data::{Allocation, StateModel};
use crate::fault::Fault;
use vstd::prelude::*;

verus! {

/// The canary slack of `a` is intact in `mem`: every byte of `[offset,
/// start)` still holds the canary value.
pub open spec fn slack_ok(a: Allocation, mem: Seq<u8>, canary: u8) -> bool {
    forall|k: int| a.offset <= k < a.start ==> mem[k] == canary
}

/// Every live allocation's canary slack is intact in `mem`.
pub open spec fn sweep_ok(s: StateModel, mem: Seq<u8>) -> bool {
    forall|i: int| 0 <= i < s.allocs.len() ==> slack_ok(#[trigger] s.allocs[i], mem, s.canary)
}

/// Inspects the trailing slack of one allocation: succeeds exactly when
/// every slack byte equals the canary value, and otherwise reports the
/// absolute offset of the first corrupted byte.
pub fn canary_check(allocation: &Allocation, canary: u8, mem: &[u8]) -> (r: Result<(), Fault>)
    requires
        allocation.offset <= allocation.start,
        allocation.start <= mem@.len(),
    ensures
        r is Ok <==> slack_ok(*allocation, mem@, canary),
        r matches Err(f) ==> f matches Fault::Corruption { offset, base }
            && base == allocation.offset
            && allocation.offset <= offset < allocation.start
            && mem@[offset as int] != canary
            && (forall|k: int| allocation.offset <= k < offset ==> mem@[k] == canary),
{
    let mut i: u32 = allocation.offset;
    while i < allocation.start
        invariant
            allocation.offset <= i <= allocation.start,
            allocation.start <= mem@.len(),
            forall|k: int| allocation.offset <= k < i ==> mem@[k] == canary,
        decreases allocation.start - i,
    {
        if mem[i as usize] != canary {
            return Err(Fault::Corruption { offset: i, base: allocation.offset });
        }
        i = i + 1;
    }
    Ok(())
}

/// Sweeps the canary slack of every allocation in `allocations`: succeeds
/// exactly when every slack byte of every record is intact, and otherwise
/// reports the first corrupted byte of some record.
pub fn canaries_check(allocations: &Vec<Allocation>, canary: u8, mem: &[u8]) -> (r: Result<
    (),
    Fault,
>)
    requires
        forall|i: int| 0 <= i < allocations@.len() ==> (#[trigger] allocations@[i]).offset
            <= allocations@[i].start,
        forall|i: int| 0 <= i < allocations@.len() ==> (#[trigger] allocations@[i]).start
            <= mem@.len(),
    ensures
        r is Ok <==> (forall|i: int|
            0 <= i < allocations@.len() ==> slack_ok(#[trigger] allocations@[i], mem@, canary)),
        r matches Err(f) ==> f matches Fault::Corruption { offset, base }
            && (exists|i: int| 0 <= i < allocations@.len()
                && (#[trigger] allocations@[i]).offset == base
                && allocations@[i].offset <= offset < allocations@[i].start
                && mem@[offset as int] != canary),
{
    let n = allocations.len();
    let mut i: usize = 0;
    while i < n
        invariant
            0 <= i <= n,
            n == allocations@.len(),
            forall|j: int| 0 <= j < allocations@.len() ==> (#[trigger] allocations@[j]).offset
                <= allocations@[j].start,
            forall|j: int| 0 <= j < allocations@.len() ==> (#[trigger] allocations@[j]).start
                <= mem@.len(),
            forall|j: int| 0 <= j < i ==> slack_ok(#[trigger] allocations@[j], mem@, canary),
        decreases n - i,
    {
        match canary_check(&allocations[i], canary, mem) {
            Err(f) => {
                return Err(f);
            },
            Ok(()) => {},
        }
        i = i + 1;
    }
    Ok(())
}

} // verus!
