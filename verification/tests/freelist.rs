use stabby_abi::allocation::allocators::freelist_alloc::{FreelistAlloc, SLOT_SIZE};
use stabby_abi::allocation::{IAlloc, Layout};

fn layout(size: usize) -> Layout {
    Layout { size, align: 8 }
}

#[test]
fn starts_without_memory() {
    let mut a = FreelistAlloc::new();
    assert_eq!(a.region_end(), None);
    assert_eq!(a.allocate(layout(16)), 0);
    assert_eq!(FreelistAlloc::block_size(layout(16)), Some(16 + SLOT_SIZE));
    assert_eq!(FreelistAlloc::block_size(layout(13)), Some(16 + SLOT_SIZE));
    assert_eq!(FreelistAlloc::block_size(layout(usize::MAX)), None);
}

#[test]
fn regions_must_be_aligned_and_vacant() {
    let mut a = FreelistAlloc::new();
    assert!(!a.add_region(4096 + 4, 4096));
    assert!(!a.add_region(4096, 4095));
    assert!(!a.add_region(4096, 8));
    assert!(a.add_region(4096, 4096));
    assert_eq!(a.region_end(), Some(8192));
    assert!(!a.add_region(4096 + 1024, 4096));
    assert!(a.add_region(8192, 4096));
}

#[test]
fn allocations_do_not_overlap() {
    let mut a = FreelistAlloc::new();
    assert!(a.add_region(0x10000, 4096));
    let mut blocks = Vec::new();
    for size in [8usize, 24, 100, 7, 64] {
        let p = a.allocate(layout(size));
        assert_ne!(p, 0);
        assert_eq!(p % 8, 0);
        blocks.push((p, size));
    }
    for (i, &(p, s)) in blocks.iter().enumerate() {
        for &(q, t) in &blocks[i + 1..] {
            assert!(p + s <= q - SLOT_SIZE || q + t <= p - SLOT_SIZE);
        }
    }
}

#[test]
fn first_fit_and_reuse_after_free() {
    let mut a = FreelistAlloc::new();
    assert!(a.add_region(0x10000, 256));
    let p = a.allocate(layout(64));
    assert_eq!(p, 0x10000 + SLOT_SIZE);
    let q = a.allocate(layout(64));
    assert_eq!(q, p + 64 + SLOT_SIZE);
    // A block is only picked if it holds the request and a header besides.
    assert_eq!(a.allocate(layout(64)), 0);
    a.free(p);
    let r = a.allocate(layout(32));
    assert_eq!(r, p);
    assert_eq!(a.allocate(layout(0)), 0);
    assert_eq!(a.allocate(layout(1 << 20)), 0);
}

#[test]
fn freeing_an_unknown_pointer_changes_nothing() {
    let mut a = FreelistAlloc::new();
    assert!(a.add_region(0x10000, 256));
    let p = a.allocate(layout(64));
    a.free(p + 8);
    a.free(0);
    let q = a.allocate(layout(64));
    assert_ne!(q, 0);
    assert_ne!(q, p);
}

#[test]
fn realloc_grows_in_place_or_moves() {
    let mut a = FreelistAlloc::new();
    assert!(a.add_region(0x10000, 4096));
    let p = a.allocate(layout(32));
    assert_eq!(a.realloc(p, layout(32), 16), p);
    let grown = a.realloc(p, layout(32), 200);
    assert_eq!(grown, p);
    let q = a.allocate(layout(16));
    let moved = a.realloc(p, layout(200), 1000);
    assert_ne!(moved, 0);
    assert_ne!(moved, p);
    assert!(moved > q);
    assert_eq!(a.realloc(p, layout(200), 8), 0);
    assert_eq!(a.realloc(moved, layout(1000), 0), 0);
    assert_eq!(a.realloc(moved, layout(1000), 1 << 20), 0);
}

#[test]
fn realloc_absorbs_a_run_of_free_blocks() {
    let mut a = FreelistAlloc::new();
    assert!(a.add_region(0x10000, 4096));
    let p = a.allocate(layout(32));
    let q = a.allocate(layout(32));
    let r = a.allocate(layout(32));
    let s = a.allocate(layout(32));
    assert_eq!(q, p + 32 + SLOT_SIZE);
    a.free(q);
    a.free(r);
    // The two freed blocks right after `p` are absorbed in turn.
    assert_eq!(a.realloc(p, layout(32), 32 + 2 * (32 + SLOT_SIZE)), p);
    // `s` was left where it was.
    assert_eq!(a.realloc(s, layout(32), 16), s);
}

#[test]
fn realloc_moves_when_in_place_growth_fails() {
    let mut a = FreelistAlloc::new();
    assert!(a.add_region(0x10000, 1024));
    let p = a.allocate(layout(64));
    let q = a.allocate(layout(64));
    let moved = a.realloc(p, layout(64), 256);
    assert_ne!(moved, 0);
    assert_ne!(moved, p);
    // `q` stays handed out, and no block is handed out at `p` any more.
    assert_eq!(a.realloc(q, layout(64), 8), q);
    assert_eq!(a.realloc(p, layout(64), 8), 0);
}

#[test]
fn a_region_mapped_after_the_last_block_lets_it_grow_in_place() {
    let mut a = FreelistAlloc::new();
    assert!(a.add_region(0x10000, 160));
    let p = a.allocate(layout(96));
    assert_eq!(p, 0x10000 + SLOT_SIZE);
    assert_eq!(a.block_end(p), Some(0x10000 + 160));
    assert_eq!(a.block_end(p), a.region_end());
    assert_eq!(a.block_end(p + 8), None);
    assert_eq!(a.realloc(p, layout(96), 200), 0);
    assert!(a.add_region(0x10000 + 160, 4096));
    assert_eq!(a.realloc(p, layout(96), 200), p);
}

#[test]
fn alignments_beyond_eight_bytes_are_refused() {
    let mut a = FreelistAlloc::new();
    assert!(a.add_region(0x10000, 4096));
    assert_eq!(a.allocate(Layout { size: 16, align: 16 }), 0);
    assert_eq!(a.allocate(Layout { size: 16, align: 3 }), 0);
    let p = a.allocate(Layout { size: 16, align: 4 });
    assert_ne!(p, 0);
    assert_eq!(p % 4, 0);
    assert_eq!(a.realloc(p, Layout { size: 16, align: 16 }, 8), 0);
    assert_eq!(a.realloc(p, Layout { size: 16, align: 4 }, 8), p);
}

#[test]
fn a_vector_in_the_free_list_gives_its_block_back() {
    let mut a = FreelistAlloc::new();
    assert!(a.add_region(0x10000, 4096));
    let mut v: stabby_abi::allocation::vec::Vec<u64, FreelistAlloc> = stabby_abi::allocation::vec::Vec::new_in(a);
    for i in 0..10u64 {
        v.try_push(i).unwrap();
    }
    let a = v.release();
    // The vector's block, at the start of the region, is no longer handed out.
    assert_eq!(a.block_end(0x10000 + SLOT_SIZE), None);
}

#[test]
fn growth_is_requested_only_for_the_block_that_ends_the_last_region() {
    let mut a = FreelistAlloc::new();
    assert!(a.add_region(0x10000, 160 + 96));
    let p = a.allocate(layout(96));
    let q = a.allocate(layout(64));
    assert_ne!(q, 0);
    assert_eq!(a.growth_request(p, 200), None);
    assert_eq!(a.growth_request(q, 200), Some(200 + SLOT_SIZE));
    assert_eq!(a.growth_request(q + 8, 200), None);
}
