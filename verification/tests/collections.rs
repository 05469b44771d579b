use rand::Rng;
use stabby_abi::allocation::boxed::{Box, BoxedSlice};
use stabby_abi::allocation::single_or_vec::SingleOrVec;
use stabby_abi::allocation::string::{BoxedStr, String};
use stabby_abi::allocation::vec::Vec;
use stabby_abi::allocation::{AllocPtr, AllocationError, IAlloc, Layout};

/// Hands out increasing addresses from a fixed budget of bytes.
#[derive(Debug, Clone, Default)]
struct BumpAlloc {
    used: usize,
    budget: usize,
}

const BASE: usize = 0x1000;

impl BumpAlloc {
    fn with_budget(budget: usize) -> Self {
        BumpAlloc { used: 0, budget }
    }
}

impl IAlloc for BumpAlloc {
    fn allocate(&mut self, layout: Layout) -> usize {
        if layout.size == 0 {
            return 0;
        }
        let align = layout.align.max(1);
        let start = (BASE + self.used + align - 1) / align * align;
        let end = start + layout.size;
        if end - BASE > self.budget {
            return 0;
        }
        self.used = end - BASE;
        start
    }
    fn free(&mut self, _ptr: usize) {}
}

/// A bump allocator with a large budget.
#[derive(Debug, Clone)]
struct Roomy(BumpAlloc);

impl Default for Roomy {
    fn default() -> Self {
        Roomy(BumpAlloc::with_budget(1 << 30))
    }
}

impl IAlloc for Roomy {
    fn allocate(&mut self, layout: Layout) -> usize {
        self.0.allocate(layout)
    }
    fn free(&mut self, ptr: usize) {
        self.0.free(ptr)
    }
}

#[test]
fn test() {
    const LEN: usize = 20;
    let mut std = std::vec::Vec::with_capacity(LEN);
    let mut new: SingleOrVec<u8, Roomy> = SingleOrVec::new();
    let mut capacity: SingleOrVec<u8, Roomy> = SingleOrVec::try_with_capacity(LEN).unwrap();
    let mut rng = rand::thread_rng();
    let n: u8 = rng.gen();
    new.try_push(n).unwrap();
    capacity.try_push(n).unwrap();
    std.push(n);
    assert!(new.is_single());
    assert!(!capacity.is_single());
    for _ in 0..LEN {
        let n: u8 = rng.gen();
        new.try_push(n).unwrap();
        capacity.try_push(n).unwrap();
        std.push(n);
    }
    assert_eq!(new.as_slice(), std.as_slice());
    assert_eq!(new.as_slice(), capacity.as_slice());
    let clone = new.try_clone().unwrap();
    assert_eq!(new.as_slice(), clone.as_slice());
}

#[test]
fn single_or_vec_clone_keeps_inline_value_inline() {
    let mut v: SingleOrVec<u8, Roomy> = SingleOrVec::new();
    v.try_push(9).unwrap();
    let c = v.try_clone().unwrap();
    assert!(c.is_single());
    assert_eq!(c.as_slice(), &[9]);
    let empty: SingleOrVec<u8, BumpAlloc> = SingleOrVec::new_in(BumpAlloc::with_budget(0));
    let e = empty.try_clone().unwrap();
    assert!(e.is_empty());
}

#[test]
fn single_or_vec_keeps_first_value_inline() {
    let mut v: SingleOrVec<u32, Roomy> = SingleOrVec::new();
    assert_eq!(v.len(), 0);
    assert!(v.is_empty());
    assert_eq!(v.capacity(), 0);
    v.try_push(7).unwrap();
    assert!(v.is_single());
    assert_eq!(v.as_slice(), &[7]);
    assert_eq!(v.capacity(), 1);
    assert_eq!(v.remaining_capacity(), 0);
    v.try_push(8).unwrap();
    assert!(!v.is_single());
    assert_eq!(v.capacity(), 8);
    assert_eq!(v.as_slice(), &[7, 8]);
    v.truncate(0);
    assert!(!v.is_single());
    assert!(v.is_empty());
}

#[test]
fn single_or_vec_failed_growth_keeps_contents() {
    let mut v: SingleOrVec<u64, BumpAlloc> = SingleOrVec::new_in(BumpAlloc::with_budget(0));
    v.try_push(1).unwrap();
    assert_eq!(v.try_push(2), Err(2));
    assert!(v.is_single());
    assert_eq!(v.as_slice(), &[1]);
    assert_eq!(v.try_reserve(4), Err(AllocationError()));
    assert_eq!(v.as_slice(), &[1]);
}

#[test]
fn single_or_vec_never_returns_inline() {
    let mut v: SingleOrVec<u32, Roomy> = SingleOrVec::new();
    v.try_push(1).unwrap();
    v.try_push(2).unwrap();
    let first = v.capacity();
    assert!(first >= 2);
    v.truncate(1);
    assert!(!v.is_single());
    assert!(v.capacity() >= first);
    v.truncate(0);
    v.try_reserve(1).unwrap();
    assert!(!v.is_single());
    v.try_push(3).unwrap();
    assert!(!v.is_single());
    assert!(v.capacity() >= first);
    assert!(v.capacity() >= v.len());
    assert_eq!(v.as_slice(), &[3]);
}

#[test]
fn single_or_vec_reserve_from_single() {
    let mut v: SingleOrVec<u16, Roomy> = SingleOrVec::new();
    v.try_push(3).unwrap();
    let c = v.try_reserve(4).unwrap();
    assert_eq!(c.get(), 5);
    assert!(!v.is_single());
    assert_eq!(v.as_slice(), &[3]);
    assert_eq!(v.capacity(), 5);
}

#[test]
fn vec_push_pop_and_remove() {
    let mut v: Vec<u32, Roomy> = Vec::new();
    for i in 0..10u32 {
        v.try_push(i).unwrap();
    }
    assert_eq!(v.len(), 10);
    assert_eq!(v.pop(), Some(9));
    assert_eq!(v.remove(0), Some(0));
    assert_eq!(v.remove(100), None);
    assert_eq!(v.swap_remove(0), Some(1));
    assert_eq!(v.as_slice(), &[8, 2, 3, 4, 5, 6, 7]);
    v.swap(0, 6);
    assert_eq!(v.as_slice(), &[7, 2, 3, 4, 5, 6, 8]);
    v.truncate(2);
    assert_eq!(v.as_slice(), &[7, 2]);
}

#[test]
fn vec_first_growth_and_reserve() {
    let mut v: Vec<u64, Roomy> = Vec::new();
    assert_eq!(v.capacity(), 0);
    v.try_push(1).unwrap();
    // 1024 / 8 is more than 8, so the first allocation holds 8 elements.
    assert_eq!(v.capacity(), 8);
    let c = v.try_reserve(20).unwrap();
    assert_eq!(c.get(), 21);
    assert_eq!(v.capacity(), 21);
    let c = v.try_reserve(3).unwrap();
    assert_eq!(c.get(), 21);
    assert!(v.try_reserve(usize::MAX).is_err());
    assert_eq!(v.as_slice(), &[1]);
}

#[test]
fn vec_failed_allocation_gives_value_back() {
    let mut v: Vec<u64, BumpAlloc> = Vec::new_in(BumpAlloc::with_budget(0));
    assert_eq!(v.try_push(5), Err(5));
    assert!(v.is_empty());
    assert!(Vec::<u8, BumpAlloc>::try_with_capacity_in(4, BumpAlloc::with_budget(0)).is_err());
}

#[test]
fn vec_drain_and_copy_extend() {
    let mut v: Vec<u8, Roomy> = Vec::new();
    v.try_copy_extend(&[1, 2, 3, 4, 5]).unwrap();
    let mut d = v.drain(1..3);
    assert_eq!(d.len(), 2);
    assert_eq!(d.next(), Some(2));
    d.stop(&mut v);
    assert_eq!(v.as_slice(), &[1, 3, 4, 5]);
    assert!(v.try_drain(3..9).is_none());
    let d = v.try_drain(0..2).unwrap();
    let mut d = d.double_ended();
    assert_eq!(d.next_back(), Some(3));
    assert_eq!(d.next(), Some(1));
    assert_eq!(d.next(), None);
    assert_eq!(v.as_slice(), &[4, 5]);
    assert_eq!(v.write(&[6, 7]), Ok(2));
    let mut it = v.into_iter();
    assert_eq!(it.next(), Some(4));
}

#[test]
fn boxed_slice_round_trip() {
    let mut v: Vec<u32, Roomy> = Vec::new();
    v.try_reserve(3).unwrap();
    v.try_push(1).unwrap();
    let mut b: BoxedSlice<u32, Roomy> = v.into();
    assert_eq!(b.len(), 1);
    assert!(!b.is_empty());
    b.try_push(2).unwrap();
    b.try_push(3).unwrap();
    assert_eq!(b.try_push(4), Err(4));
    assert_eq!(b.as_slice(), &[1, 2, 3]);
    let v: Vec<u32, Roomy> = b.into();
    assert_eq!(v.capacity(), 3);
    assert_eq!(v.as_slice(), &[1, 2, 3]);
}

#[test]
fn box_holds_value() {
    let b = Box::try_new_in(41u32, Roomy::default()).ok().unwrap();
    assert_eq!(*b.as_ref(), 41);
    assert_eq!(Box::into_inner(b), 41);
    let failed = Box::try_new_in(1u8, BumpAlloc::with_budget(0));
    assert!(matches!(failed, Err((1, _))));
}

#[test]
fn string_concat_and_utf8() {
    let mut s: String<Roomy> = String::new();
    s.try_concat("héllo").unwrap();
    s.try_concat(" wörld").unwrap();
    assert_eq!(s.as_str(), "héllo wörld");
    let bytes: Vec<u8, Roomy> = s.into();
    assert_eq!(bytes.len(), "héllo wörld".len());
    let s: String<Roomy> = String::try_from(bytes).unwrap();
    let b: BoxedStr<Roomy> = s.into();
    assert_eq!(b.as_str(), "héllo wörld");
    let back: String<Roomy> = b.into();
    assert_eq!(back.as_str(), "héllo wörld");

    let mut invalid: Vec<u8, Roomy> = Vec::new();
    invalid.try_copy_extend(&[0x66, 0xff, 0x6f]).unwrap();
    assert!(String::<Roomy>::try_from(invalid).is_err());
}

#[test]
fn string_concat_failure_keeps_contents() {
    let mut s: String<BumpAlloc> = String::new_in(BumpAlloc::with_budget(0));
    assert_eq!(s.try_concat("abc"), Err(AllocationError()));
    assert_eq!(s.as_str(), "");
    assert_eq!(AllocationError().to_string(), "AllocationError");
}

#[test]
fn layouts() {
    let l = Layout::of::<u64>();
    assert_eq!((l.size, l.align), (8, 8));
    let a = Layout::array::<u32>(5).unwrap();
    assert_eq!((a.size, a.align), (20, 4));
    assert!(Layout::array::<u64>(usize::MAX).is_none());
    let c = Layout { size: 3, align: 1 }.concat(Layout { size: 8, align: 8 });
    assert_eq!((c.size, c.align), (16, 8));
    assert_eq!(Layout { size: 0, align: 8 }.next_matching(17), 24);
    let f = Layout { size: 5, align: 2 }.for_alloc();
    assert_eq!((f.size, f.align), (8, 8));
}

#[test]
fn drain_then_stop_restores_vector() {
    let mut v: Vec<u8, Roomy> = Vec::new();
    v.try_copy_extend(&[9, 8, 7, 6, 5]).unwrap();
    let d = v.drain(1..4);
    assert_eq!(v.as_slice(), &[9, 5]);
    d.stop(&mut v);
    assert_eq!(v.as_slice(), &[9, 8, 7, 6, 5]);
}

#[test]
fn mutable_slices_write_through() {
    let mut v: Vec<u8, Roomy> = Vec::new();
    v.try_copy_extend(&[1, 2, 3]).unwrap();
    v.as_slice_mut()[1] = 20;
    assert_eq!(v.as_slice(), &[1, 20, 3]);
    let mut b: BoxedSlice<u8, Roomy> = v.into();
    b.as_slice_mut()[0] = 10;
    assert_eq!(b.as_slice(), &[10, 20, 3]);
    let v: Vec<u8, Roomy> = b.into();
    assert_eq!(v.iter().copied().sum::<u8>(), 33);
}

#[test]
fn data_pointer_follows_prefix() {
    assert!(AllocPtr::<u64, Roomy>::from_prefix(0).is_none());
    let skip = AllocPtr::<u64, Roomy>::prefix_skip();
    assert_eq!(AllocPtr::<u64, Roomy>::from_prefix(0x1000).unwrap().ptr, 0x1000 + skip);
    assert!(AllocPtr::<u64, Roomy>::from_prefix(usize::MAX).is_none());
}

#[test]
fn vec_clone_is_independent() {
    let mut v: Vec<u32, Roomy> = Vec::new();
    for i in 0..5u32 {
        v.try_push(i).unwrap();
    }
    let c = v.try_clone().unwrap();
    v.try_push(9).unwrap();
    assert_eq!(c.as_slice(), &[0, 1, 2, 3, 4]);
    assert_eq!(v.as_slice(), &[0, 1, 2, 3, 4, 9]);
}

/// A bump allocator that records the addresses it is asked to free.
#[derive(Debug, Clone, Default)]
struct Recorder {
    bump: BumpAlloc,
    freed: std::vec::Vec<usize>,
    handed: std::vec::Vec<usize>,
}

impl IAlloc for Recorder {
    fn allocate(&mut self, layout: Layout) -> usize {
        if self.bump.budget == 0 {
            self.bump.budget = 1 << 20;
        }
        let p = self.bump.allocate(layout);
        if p != 0 {
            self.handed.push(p);
        }
        p
    }
    fn free(&mut self, ptr: usize) {
        self.freed.push(ptr)
    }
}

#[test]
fn containers_return_their_allocation() {
    let mut v: Vec<u32, Recorder> = Vec::new_in(Recorder::default());
    for i in 0..20u32 {
        v.try_push(i).unwrap();
    }
    let alloc = v.release();
    let last = *alloc.handed.last().unwrap();
    assert!(alloc.freed.contains(&last));

    let empty: Vec<u32, Recorder> = Vec::new_in(Recorder::default());
    let alloc = empty.release();
    assert!(alloc.freed.is_empty());

    let b = match Box::try_new_in(5u64, Recorder::default()) {
        Ok(b) => b,
        Err(_) => panic!("allocation failed"),
    };
    let (value, alloc) = Box::release(b);
    assert_eq!(value, 5);
    assert_eq!(alloc.freed, alloc.handed);

    let mut s: SingleOrVec<u8, Recorder> = SingleOrVec::new_in(Recorder::default());
    s.try_push(1).unwrap();
    let alloc = s.release();
    assert!(alloc.handed.is_empty() && alloc.freed.is_empty());
    let mut s: SingleOrVec<u8, Recorder> = SingleOrVec::new_in(Recorder::default());
    s.try_push(1).unwrap();
    s.try_push(2).unwrap();
    let alloc = s.release();
    assert_eq!(alloc.freed, vec![*alloc.handed.last().unwrap()]);

    let mut t: String<Recorder> = String::new_in(Recorder::default());
    t.try_concat("hello").unwrap();
    let alloc = t.release();
    assert_eq!(alloc.freed.len(), 1);
}

#[test]
fn arrays_are_allocated_with_the_prefix_alignment() {
    let mut alloc = Recorder::default();
    let p: AllocPtr<u64, Recorder> = AllocPtr::alloc_array(&mut alloc, 3).unwrap();
    let prefix = alloc.handed[0];
    assert_eq!(prefix % core::mem::align_of::<u64>().max(core::mem::align_of::<usize>()), 0);
    assert!(p.ptr > prefix);
}

#[test]
fn clones_of_non_copy_elements() {
    let mut v: Vec<std::string::String, Roomy> = Vec::new();
    v.try_push(std::string::String::from("a")).unwrap();
    v.try_push(std::string::String::from("b")).unwrap();
    let c = v.try_clone().unwrap();
    assert_eq!(c.as_slice(), v.as_slice());
    let mut s: SingleOrVec<std::string::String, Roomy> = SingleOrVec::new();
    s.try_push(std::string::String::from("x")).unwrap();
    let t = s.try_clone().unwrap();
    assert!(t.is_single());
    assert_eq!(t.as_slice(), s.as_slice());
}
