use ease::freelist::FreeBlockList;

const HEAP_BASE: usize = 0x1_0000;

fn make_allocator(size: usize) -> FreeBlockList {
    let mut a = FreeBlockList::new();
    a.init(HEAP_BASE, size);
    a
}

#[test]
fn basic_alloc_dealloc() {
    let mut a = make_allocator(4096);
    let p1 = a.allocate(8, 8);
    let p2 = a.allocate(8, 8);
    assert!(p1.is_some());
    assert!(p2.is_some());
    assert_ne!(p1, p2);
    assert!(p2.unwrap() > p1.unwrap());
    a.deallocate(p1.unwrap(), 8);
    a.deallocate(p2.unwrap(), 8);
}

#[test]
fn zero_size_alloc_round_trips() {
    let mut a = make_allocator(4096);
    let p = a.allocate(0, 8);
    assert!(p.is_some(), "zero-size alloc returned null");
    assert_eq!(p.unwrap() % 8, 0, "zero-size pointer not aligned to requested alignment");
    a.deallocate(p.unwrap(), 0);
    let q = a.allocate(64, 8);
    assert!(q.is_some(), "real alloc after zero-size alloc failed");
    a.deallocate(q.unwrap(), 64);
}

#[test]
fn alloc_returns_unique_writable_memory() {
    let mut a = make_allocator(4096);
    let mut ptrs = Vec::new();
    for _ in 0..8 {
        let p = a.allocate(64, 8).expect("block");
        ptrs.push(p);
    }
    for i in 0..ptrs.len() {
        for j in 0..ptrs.len() {
            if i != j {
                assert!(ptrs[i] + 64 <= ptrs[j] || ptrs[j] + 64 <= ptrs[i], "blocks overlap");
            }
        }
    }
    for p in ptrs {
        a.deallocate(p, 64);
    }
}

#[test]
fn alloc_until_oom_then_recover() {
    let mut a = make_allocator(1024);
    let mut allocations = Vec::new();
    while let Some(p) = a.allocate(64, 8) {
        allocations.push(p);
    }
    assert!(!allocations.is_empty(), "did not allocate even one block");
    for &p in &allocations {
        a.deallocate(p, 64);
    }
    let p = a.allocate(64, 8);
    assert!(p.is_some(), "could not allocate after freeing all blocks");
    a.deallocate(p.unwrap(), 64);
}

#[test]
fn coalesce_all_three_orders() {
    for free_order in &[[0, 1, 2], [2, 1, 0], [1, 0, 2], [1, 2, 0]] {
        let mut a = make_allocator(4096);
        let p = [a.allocate(64, 8), a.allocate(64, 8), a.allocate(64, 8)];
        assert!(p.iter().all(|p| p.is_some()));
        for &i in free_order {
            a.deallocate(p[i].unwrap(), 64);
        }
        let bp = a.allocate(2048, 8);
        assert!(bp.is_some(), "coalesce failed for free order {:?}", free_order);
        a.deallocate(bp.unwrap(), 2048);
    }
}

#[test]
fn high_alignment_padding() {
    let mut a = make_allocator(8192);
    let small = a.allocate(8, 8);
    assert!(small.is_some());
    let big = a.allocate(64, 4096);
    assert!(big.is_some(), "high-alignment alloc failed");
    assert_eq!(big.unwrap() % 4096, 0, "alignment not honoured");
    a.deallocate(big.unwrap(), 64);
    a.deallocate(small.unwrap(), 8);
    let full = a.allocate(4096, 8);
    assert!(full.is_some(), "padding block did not coalesce with surrounding free space");
    a.deallocate(full.unwrap(), 4096);
}

#[test]
fn fragmentation_pattern() {
    let mut a = make_allocator(4096);
    let mut ps = Vec::new();
    for _ in 0..16 {
        if let Some(p) = a.allocate(32, 8) {
            ps.push(p);
        }
    }
    for (i, &p) in ps.iter().enumerate() {
        if i % 2 == 0 {
            a.deallocate(p, 32);
        }
    }
    for (i, &p) in ps.iter().enumerate() {
        if i % 2 == 1 {
            a.deallocate(p, 32);
        }
    }
    let bp = a.allocate(1024, 8);
    assert!(bp.is_some(), "fragmented heap did not consolidate");
    a.deallocate(bp.unwrap(), 1024);
}

#[test]
fn allocation_too_large_is_refused() {
    let mut a = make_allocator(1024);
    assert_eq!(a.allocate(2048, 8), None);
    assert!(a.allocate(512, 8).is_some());
}
