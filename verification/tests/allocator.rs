use was::config::RuntimeConfig;
use was::ctx_data::CtxData;
use was::fault::Fault;
use was::imports::{can_malloc_now, free, malloc, startup, terminate};
use was::plan::{Fill, Prot};

const MEM_LEN: usize = 0x40000;

fn fresh(heap_base: u32, page_size: u32, canary_check_on_alloc: bool) -> (CtxData, Vec<u8>) {
    let rc = RuntimeConfig { heap_base, canary_check_on_alloc };
    let ctx = CtxData::new(rc, page_size);
    (ctx, vec![0u8; MEM_LEN])
}

fn apply(mem: &mut [u8], fill: &Fill) {
    for k in 0..fill.len {
        mem[(fill.offset + k) as usize] = fill.byte;
    }
}

fn do_malloc(ctx: &mut CtxData, mem: &mut [u8], size: u32) -> u32 {
    assert!(can_malloc_now(ctx, size, mem.len()));
    let plan = malloc(size, ctx, mem).expect("sweep failed");
    apply(mem, &plan.junk_fill);
    apply(mem, &plan.canary_fill);
    plan.start
}

#[test]
fn clean_run_counters() {
    let (mut ctx, mut mem) = fresh(65536, 4096, false);
    startup(&mut ctx, MEM_LEN as u64);
    assert_eq!(ctx.heap_offset, 69632);
    let p = do_malloc(&mut ctx, &mut mem, 100);
    assert_eq!(p, 73628);
    let r = free(p, &mut ctx, &mem).expect("free failed");
    assert_eq!(r.region.offset, 69632);
    assert_eq!(r.region.len, 4096);
    assert_eq!(r.prot, Prot::NoAccess);
    let s = terminate(&ctx, &mem).expect("sweep failed");
    assert_eq!(s.alloc_count, 1);
    assert_eq!(s.leaked, 0);
    assert_eq!(s.alloc_total_usage, 100);
}

#[test]
fn leak_reported() {
    let (mut ctx, mut mem) = fresh(65536, 4096, false);
    startup(&mut ctx, MEM_LEN as u64);
    do_malloc(&mut ctx, &mut mem, 8);
    let s = terminate(&ctx, &mem).expect("sweep failed");
    assert_eq!(s.alloc_count, 1);
    assert_eq!(s.leaked, 1);
    assert_eq!(s.alloc_total_usage, 8);
}

#[test]
fn invalid_free_rejected() {
    let (mut ctx, mem) = fresh(65536, 4096, false);
    let r = free(123, &mut ctx, &mem);
    assert_eq!(r, Err(Fault::InvalidFree { start: 123 }));
    assert_eq!(ctx.free_count, 0);
}

#[test]
fn double_free_rejected() {
    let (mut ctx, mut mem) = fresh(65536, 4096, false);
    startup(&mut ctx, MEM_LEN as u64);
    let p = do_malloc(&mut ctx, &mut mem, 16);
    free(p, &mut ctx, &mem).expect("first free failed");
    let r = free(p, &mut ctx, &mem);
    assert_eq!(r, Err(Fault::InvalidFree { start: p }));
    assert_eq!(ctx.alloc_count, 1);
    assert_eq!(ctx.free_count, 1);
}

#[test]
fn backward_overflow_caught_by_canary() {
    let (mut ctx, mut mem) = fresh(65536, 4096, false);
    startup(&mut ctx, MEM_LEN as u64);
    let p = do_malloc(&mut ctx, &mut mem, 5);
    let base = p - (4096 - 5);
    // One stray write just before the user region overwrites a canary byte.
    mem[(p - 1) as usize] = 0;
    let r = free(p, &mut ctx, &mem);
    assert_eq!(r, Err(Fault::Corruption { offset: p - 1, base }));
    // The record stays live: the state was left untouched.
    assert_eq!(ctx.allocations.len(), 1);
}

#[test]
fn sweep_on_alloc_catches_corruption() {
    let (mut ctx, mut mem) = fresh(65536, 4096, true);
    startup(&mut ctx, MEM_LEN as u64);
    let p = do_malloc(&mut ctx, &mut mem, 5);
    let heap_before = ctx.heap_offset;
    mem[(p - 3) as usize] = 0xff;
    let r = malloc(10, &mut ctx, &mem);
    assert!(matches!(r, Err(Fault::Corruption { .. })));
    assert_eq!(ctx.heap_offset, heap_before);
    assert_eq!(ctx.alloc_count, 1);
}

#[test]
fn sweep_passes_when_undisturbed() {
    let (mut ctx, mut mem) = fresh(65536, 4096, true);
    startup(&mut ctx, MEM_LEN as u64);
    do_malloc(&mut ctx, &mut mem, 5);
    // No guest write since the last malloc: the sweep on the next malloc
    // and on terminate both pass.
    do_malloc(&mut ctx, &mut mem, 7);
    assert!(terminate(&ctx, &mem).is_ok());
}

#[test]
fn exact_page_has_no_slack() {
    let (mut ctx, mut mem) = fresh(65536, 4096, false);
    startup(&mut ctx, MEM_LEN as u64);
    assert!(can_malloc_now(&ctx, 4096, mem.len()));
    let plan = malloc(4096, &mut ctx, &mem).unwrap();
    assert_eq!(plan.canary_fill.len, 0);
    assert_eq!(plan.start, 69632);
    apply(&mut mem, &plan.junk_fill);
    // The sweep has nothing to inspect for this allocation.
    assert!(terminate(&ctx, &mem).is_ok());
}

#[test]
fn one_byte_request_fills_a_page() {
    let (mut ctx, mut mem) = fresh(65536, 4096, false);
    startup(&mut ctx, MEM_LEN as u64);
    assert!(can_malloc_now(&ctx, 1, mem.len()));
    let plan = malloc(1, &mut ctx, &mem).unwrap();
    let a = ctx.allocations[0];
    assert_eq!(a.rounded_size, 4096);
    assert_eq!(plan.canary_fill.len, 4095);
    apply(&mut mem, &plan.junk_fill);
    apply(&mut mem, &plan.canary_fill);
    assert!(free(plan.start, &mut ctx, &mem).is_ok());
}

#[test]
fn page_plus_one_request_fills_two_pages() {
    let (mut ctx, mut mem) = fresh(65536, 4096, false);
    startup(&mut ctx, MEM_LEN as u64);
    assert!(can_malloc_now(&ctx, 4097, mem.len()));
    let plan = malloc(4097, &mut ctx, &mem).unwrap();
    let a = ctx.allocations[0];
    assert_eq!(a.rounded_size, 8192);
    assert_eq!(plan.canary_fill.len, 4095);
    apply(&mut mem, &plan.junk_fill);
    apply(&mut mem, &plan.canary_fill);
    assert!(free(plan.start, &mut ctx, &mem).is_ok());
}

#[test]
fn interleaved_calls_empty_the_index_mid_run() {
    let (mut ctx, mut mem) = fresh(65536, 4096, false);
    startup(&mut ctx, MEM_LEN as u64);
    let p1 = do_malloc(&mut ctx, &mut mem, 10);
    free(p1, &mut ctx, &mem).expect("free failed");
    assert!(ctx.allocations.is_empty());
    let p2 = do_malloc(&mut ctx, &mut mem, 20);
    free(p2, &mut ctx, &mem).expect("free failed");
    assert!(ctx.allocations.is_empty());
    let s = terminate(&ctx, &mem).unwrap();
    assert_eq!(s.alloc_count, 2);
    assert_eq!(s.leaked, 0);
    assert_eq!(s.alloc_total_usage, 30);
}

#[test]
fn roundtrip_restores_counters() {
    let (mut ctx, mut mem) = fresh(65536, 4096, false);
    startup(&mut ctx, MEM_LEN as u64);
    do_malloc(&mut ctx, &mut mem, 40);
    let (a0, f0, u0) = (ctx.alloc_count, ctx.free_count, ctx.alloc_total_usage);
    let p = do_malloc(&mut ctx, &mut mem, 33);
    free(p, &mut ctx, &mem).expect("free failed");
    assert_eq!(ctx.alloc_count, a0 + 1);
    assert_eq!(ctx.free_count, f0 + 1);
    assert_eq!(ctx.alloc_total_usage, u0 + 33);
}

#[test]
fn neighbours_are_separated_by_a_guard_page() {
    let (mut ctx, mut mem) = fresh(65536, 4096, false);
    startup(&mut ctx, MEM_LEN as u64);
    do_malloc(&mut ctx, &mut mem, 100);
    do_malloc(&mut ctx, &mut mem, 100);
    let a = ctx.allocations[0];
    let b = ctx.allocations[1];
    assert!(a.offset + a.rounded_size + ctx.page_size <= b.offset);
    // The mapped run of the first allocation ends right where its guard
    // page begins; a write one byte past the user region lands on it.
    assert_eq!(a.start + a.size, a.offset + a.rounded_size);
    assert_eq!(b.offset, a.offset + a.rounded_size + ctx.page_size);
}

#[test]
fn page_size_is_not_assumed_4096() {
    let (mut ctx, mut mem) = fresh(70000, 16384, false);
    assert_eq!(ctx.heap_offset, 81920);
    startup(&mut ctx, MEM_LEN as u64);
    assert_eq!(ctx.heap_offset, 98304);
    let p = do_malloc(&mut ctx, &mut mem, 100);
    let a = ctx.allocations[0];
    assert_eq!(a.rounded_size, 16384);
    assert_eq!(p, 98304 + 16384 - 100);
    assert!(free(p, &mut ctx, &mem).is_ok());
}

#[test]
fn heap_base_zero_rounds_to_zero() {
    let rc = RuntimeConfig { heap_base: 0, canary_check_on_alloc: false };
    let ctx = CtxData::new(rc, 4096);
    assert_eq!(ctx.heap_offset, 0);
}

#[test]
fn junk_and_canary_fills_cover_the_reserved_run() {
    let (mut ctx, mut mem) = fresh(65536, 4096, false);
    startup(&mut ctx, MEM_LEN as u64);
    assert!(can_malloc_now(&ctx, 5, mem.len()));
    let plan = malloc(5, &mut ctx, &mem).unwrap();
    apply(&mut mem, &plan.junk_fill);
    apply(&mut mem, &plan.canary_fill);
    let a = ctx.allocations[0];
    for k in a.offset..a.start {
        assert_eq!(mem[k as usize], 0xd0);
    }
    for k in a.start..a.start + a.size {
        assert_eq!(mem[k as usize], 0xdb);
    }
}

#[test]
fn startup_seals_prologue_and_heap() {
    let (mut ctx, _mem) = fresh(65536, 4096, false);
    let plan = startup(&mut ctx, MEM_LEN as u64);
    assert_eq!(plan.read_only.region.offset, 0);
    assert_eq!(plan.read_only.region.len, 65536);
    assert_eq!(plan.read_only.prot, Prot::ReadOnly);
    assert_eq!(plan.unmapped.region.offset, 65536);
    assert_eq!(plan.unmapped.region.len, MEM_LEN as u64 - 65536);
    assert_eq!(plan.unmapped.prot, Prot::NoAccess);
    assert_eq!(ctx.heap_offset, 69632);
}

#[test]
fn heap_offset_never_decreases() {
    let (mut ctx, mut mem) = fresh(65536, 4096, false);
    startup(&mut ctx, MEM_LEN as u64);
    let mut last = ctx.heap_offset;
    for size in [1u32, 4096, 17, 4097] {
        let p = do_malloc(&mut ctx, &mut mem, size);
        assert!(ctx.heap_offset >= last);
        last = ctx.heap_offset;
        free(p, &mut ctx, &mem).expect("free failed");
        assert_eq!(ctx.heap_offset, last);
    }
}
