//! A free-list based allocator over an address space.
//!
//! Memory is described by address: every block, free or handed out, starts with
//! a header of [`SLOT_SIZE`] bytes, described by a [`Slot`], followed by the
//! bytes that the block offers. Free blocks are kept in a list ordered by
//! decreasing address. The pages the allocator carves blocks from are handed to
//! it by its owner through [`FreelistAlloc::add_region`].
use crate::allocation::{next_multiple, lemma_next_multiple, IAlloc, Layout};
use vstd::prelude::*;

verus! {

/// The size of a block's header.
pub const SLOT_SIZE: usize = 32;

/// The alignment of a block's header, and of the bytes that follow it.
pub const SLOT_ALIGN: usize = 8;

/// The header of a block.
#[derive(Clone, Copy, Debug)]
pub struct Slot {
    /// The number of bytes that follow the header.
    pub size: usize,
    /// The first address of the block's memory.
    pub start: usize,
    /// The address of the header.
    pub addr: usize,
    /// The alignment of the header.
    pub align: usize,
}

impl Slot {
    /// The address right after the block.
    pub open spec fn spec_end(self) -> int {
        self.addr + SLOT_SIZE + self.size
    }

    /// The header sits at the start of the block, both are aligned to
    /// [`SLOT_ALIGN`], the size is a multiple of it, and the block lies in the
    /// address space.
    pub open spec fn wf(self) -> bool {
        &&& self.start == self.addr
        &&& self.addr % 8 == 0
        &&& self.size % 8 == 0
        &&& self.spec_end() <= usize::MAX
    }

    /// `self` lies within `other`.
    pub open spec fn within(self, other: Slot) -> bool {
        other.start <= self.start && self.spec_end() <= other.spec_end()
    }

    /// The size of the block, header included.
    pub fn full_size(&self) -> (r: usize)
        requires
            self.wf(),
        ensures
            r == SLOT_SIZE + self.size,
    {
        SLOT_SIZE + self.size
    }

    /// The first address of the block's memory.
    pub fn start(&self) -> (r: usize)
        ensures
            r == self.start,
    {
        self.start
    }

    /// The address right after the block.
    pub fn end(&self) -> (r: usize)
        requires
            self.spec_end() <= usize::MAX,
        ensures
            r == self.spec_end(),
    {
        self.addr + SLOT_SIZE + self.size
    }

    /// Moves the header to the first address at or after the block's start that
    /// is a multiple of `target_align`, keeping the end of the block.
    pub fn shift(self, target_align: usize) -> (r: Slot)
        requires
            target_align > 0,
            self.addr >= self.start,
            self.spec_end() <= usize::MAX,
            next_multiple(self.start as int, target_align as int) + SLOT_SIZE <= self.spec_end(),
        ensures
            r.start == self.start,
            r.addr == next_multiple(self.start as int, target_align as int),
            r.spec_end() == self.spec_end(),
            r.align == target_align,
    {
        let addr = Layout { size: 0, align: target_align }.next_matching(self.start);
        let end = self.end();
        Slot { size: end - addr - SLOT_SIZE, start: self.start, addr, align: target_align }
    }

    /// Shrinks the block to its first `at` bytes, header included, and returns
    /// the rest as a new block, if the block holds more than `at` bytes after
    /// its header.
    pub fn split(&mut self, at: usize) -> (r: Option<Slot>)
        requires
            old(self).wf(),
            at >= SLOT_SIZE,
            at % 8 == 0,
        ensures
            old(self).size > at ==> {
                &&& r matches Some(rest) && rest == Slot {
                    size: (old(self).size - at) as usize,
                    start: (old(self).addr + at) as usize,
                    addr: (old(self).addr + at) as usize,
                    align: SLOT_ALIGN,
                }
                &&& *final(self) == Slot { size: (at - SLOT_SIZE) as usize, ..*old(self) }
            },
            old(self).size <= at ==> r is None && *final(self) == *old(self),
    {
        let size = self.size;
        if size > at {
            self.size = at - SLOT_SIZE;
            let start = self.addr + at;
            Some(Slot { size: size - at, start, addr: start, align: SLOT_ALIGN })
        } else {
            None
        }
    }
}

/// Two blocks share no address.
pub open spec fn disjoint(a: Slot, b: Slot) -> bool {
    a.spec_end() <= b.start || b.spec_end() <= a.start
}

/// The free list: well formed blocks, each lying entirely below the previous one.
pub open spec fn sorted_free(s: Seq<Slot>) -> bool {
    &&& forall|i: int| 0 <= i < s.len() ==> (#[trigger] s[i]).wf()
    &&& forall|i: int, j: int| 0 <= i < j < s.len() ==> (#[trigger] s[j]).spec_end() <= (#[trigger] s[i]).start
}

/// Well formed blocks that pairwise share no address.
pub open spec fn pairwise_disjoint(s: Seq<Slot>) -> bool {
    &&& forall|i: int| 0 <= i < s.len() ==> (#[trigger] s[i]).wf()
    &&& forall|i: int, j: int|
        0 <= i < s.len() && 0 <= j < s.len() && i != j ==> disjoint(#[trigger] s[i], #[trigger] s[j])
}

/// `x` shares no address with any block of `s`.
pub open spec fn disjoint_from(x: Slot, s: Seq<Slot>) -> bool {
    forall|i: int| 0 <= i < s.len() ==> disjoint(x, #[trigger] s[i])
}

/// No block of `a` shares an address with a block of `b`.
pub open spec fn cross_disjoint(a: Seq<Slot>, b: Seq<Slot>) -> bool {
    forall|i: int, j: int| 0 <= i < a.len() && 0 <= j < b.len() ==> disjoint(#[trigger] a[i], #[trigger] b[j])
}

/// `x` lies within some block of `b`.
pub open spec fn lies_in(x: Slot, b: Seq<Slot>) -> bool {
    exists|i: int| 0 <= i < b.len() && x.within(#[trigger] b[i])
}

/// Every block of `a` lies within some block of `b`.
pub open spec fn covered_by(a: Seq<Slot>, b: Seq<Slot>) -> bool {
    forall|k: int| 0 <= k < a.len() ==> lies_in(#[trigger] a[k], b)
}

/// The end of the run of free blocks that begins with `free[i]`, each block of
/// the run starting where the one before it ends. The list being by decreasing
/// address, the block after `free[i]` is `free[i - 1]`.
pub open spec fn run_end(free: Seq<Slot>, i: int) -> int
    decreases i,
{
    if 0 < i < free.len() && free[i - 1].start == free[i].spec_end() {
        run_end(free, i - 1)
    } else {
        free[i].spec_end()
    }
}

/// How far a block that ends at `end` can grow in place: to the end of the run
/// of free blocks that begins at `end`, or not at all if no free block begins there.
pub open spec fn reach(free: Seq<Slot>, end: int) -> int {
    if exists|i: int| 0 <= i < free.len() && (#[trigger] free[i]).start == end {
        run_end(free, choose|i: int| 0 <= i < free.len() && (#[trigger] free[i]).start == end)
    } else {
        end
    }
}

/// In the free list, the block that begins at `end`, if there is one, is `free[i]`.
proof fn lemma_reach_at(free: Seq<Slot>, end: int, i: int)
    requires
        sorted_free(free),
        0 <= i < free.len(),
        free[i].start == end,
    ensures
        reach(free, end) == run_end(free, i),
{
    let j = choose|j: int| 0 <= j < free.len() && (#[trigger] free[j]).start == end;
    assert(0 <= j < free.len() && free[j].start == end);
    if j < i {
        assert(free[i].spec_end() <= free[j].start);
    } else if i < j {
        assert(free[j].spec_end() <= free[i].start);
    }
}

/// Removing a block of the free list leaves the runs of the blocks above it.
proof fn lemma_run_end_remove(free: Seq<Slot>, i: int, j: int)
    requires
        0 <= j < i < free.len(),
    ensures
        run_end(free.remove(i), j) == run_end(free, j),
    decreases j,
{
    let g = free.remove(i);
    assert(g[j] == free[j]);
    if j > 0 {
        assert(g[j - 1] == free[j - 1]);
        lemma_run_end_remove(free, i, j - 1);
    }
}

/// Absorbing the free block `free[i]`, which begins where a block ends, into that
/// block leaves how far it can grow unchanged.
proof fn lemma_reach_absorb(free: Seq<Slot>, i: int)
    requires
        sorted_free(free),
        sorted_free(free.remove(i)),
        0 <= i < free.len(),
    ensures
        reach(free.remove(i), free[i].spec_end()) == run_end(free, i),
{
    let g = free.remove(i);
    let e = free[i].spec_end();
    if i > 0 && free[i - 1].start == e {
        assert(g[i - 1] == free[i - 1]);
        lemma_reach_at(g, e, i - 1);
        lemma_run_end_remove(free, i, i - 1);
    } else {
        assert forall|j: int| 0 <= j < g.len() implies (#[trigger] g[j]).start != e by {
            if j < i {
                assert(g[j] == free[j]);
                if j < i - 1 {
                    assert(free[i - 1].spec_end() <= free[j].start);
                }
                assert(free[i].spec_end() <= free[i - 1].start);
            } else {
                assert(g[j] == free[j + 1]);
                assert(free[j + 1].spec_end() <= free[i].start);
            }
        }
    }
}

/// `within` chains.
proof fn lemma_covered_by_trans(a: Seq<Slot>, b: Seq<Slot>, c: Seq<Slot>)
    requires
        covered_by(a, b),
        covered_by(b, c),
    ensures
        covered_by(a, c),
{
    assert forall|k: int| 0 <= k < a.len() implies lies_in(#[trigger] a[k], c) by {
        let x = a[k];
        assert(lies_in(x, b));
        let m = choose|m: int| 0 <= m < b.len() && x.within(#[trigger] b[m]);
        let y = b[m];
        assert(lies_in(y, c));
        let j = choose|j: int| 0 <= j < c.len() && y.within(#[trigger] c[j]);
        assert(x.within(c[j]));
    }
}

/// Every block lies within itself.
proof fn lemma_covered_by_refl(a: Seq<Slot>)
    ensures
        covered_by(a, a),
{
    assert forall|k: int| 0 <= k < a.len() implies lies_in(#[trigger] a[k], a) by {
        assert(a[k].within(a[k]));
    }
}

/// Growing `slot` over the free block `free[i]` that begins where it ends keeps
/// every block within one: the others stay, and both lie within the grown block.
proof fn lemma_absorb_covered(free: Seq<Slot>, slot: Slot, i: int, grown: Slot)
    requires
        0 <= i < free.len(),
        free[i].wf(),
        free[i].start == slot.spec_end(),
        slot.start <= slot.addr,
        grown.start == slot.start,
        grown.spec_end() == free[i].spec_end(),
    ensures
        covered_by(free.push(slot), free.remove(i).push(grown)),
{
    let a = free.push(slot);
    let g = free.remove(i);
    let b = g.push(grown);
    assert forall|k: int| 0 <= k < a.len() implies lies_in(#[trigger] a[k], b) by {
        if k == i || k == free.len() {
            assert(b[g.len() as int] == grown);
            assert(a[k].within(b[g.len() as int]));
        } else if k < i {
            assert(a[k].within(b[k]));
        } else {
            assert(a[k].within(b[k - 1]));
        }
    }
}

/// A well formed block that lies within another has no more bytes than it.
proof fn lemma_within_size(a: Slot, b: Slot)
    requires
        a.wf(),
        b.wf(),
        a.within(b),
    ensures
        a.size <= b.size,
{
}

/// Where the free blocks and a smaller block are covered by other blocks, a free
/// block of `size` bytes or more still has one of them within a free block.
proof fn lemma_large_block_kept(free0: Seq<Slot>, slot0: Slot, free1: Seq<Slot>, slot1: Slot, size: int)
    requires
        covered_by(free0.push(slot0), free1.push(slot1)),
        forall|k: int| 0 <= k < free0.len() ==> (#[trigger] free0[k]).wf(),
        forall|k: int| 0 <= k < free1.len() ==> (#[trigger] free1[k]).wf(),
        slot1.wf(),
        slot1.size < size,
    ensures
        (exists|k: int| 0 <= k < free0.len() && (#[trigger] free0[k]).size >= size) ==> exists|k: int|
            0 <= k < free1.len() && (#[trigger] free1[k]).size >= size,
{
    if exists|k: int| 0 <= k < free0.len() && (#[trigger] free0[k]).size >= size {
        let k = choose|k: int| 0 <= k < free0.len() && (#[trigger] free0[k]).size >= size;
        let big = free0[k];
        let c = free1.push(slot1);
        assert(free0.push(slot0)[k] == big);
        assert(lies_in(big, c));
        let j = choose|j: int| 0 <= j < c.len() && big.within(#[trigger] c[j]);
        if j == free1.len() {
            assert(c[j] == slot1);
            lemma_within_size(big, slot1);
        } else {
            assert(c[j] == free1[j]);
            lemma_within_size(big, free1[j]);
        }
    }
}

/// The blocks of the allocator: the free ones and those handed out.
struct Blocks {
    /// The free blocks, by decreasing address.
    free: std::vec::Vec<Slot>,
    /// The blocks handed out.
    used: std::vec::Vec<Slot>,
}

impl Blocks {
    /// The free list is sorted and disjoint, the blocks handed out are disjoint,
    /// and no free block overlaps a block handed out.
    spec fn inv(&self) -> bool {
        &&& sorted_free(self.free@)
        &&& pairwise_disjoint(self.used@)
        &&& cross_disjoint(self.free@, self.used@)
    }

    /// No blocks.
    fn new() -> (r: Self)
        ensures
            r.inv(),
            r.free@ == Seq::<Slot>::empty(),
            r.used@ == Seq::<Slot>::empty(),
    {
        Blocks { free: std::vec::Vec::new(), used: std::vec::Vec::new() }
    }

    /// Returns `slot` to the free list, merging it into the free block right
    /// below it if that block ends where `slot` starts.
    fn insert(&mut self, slot: Slot)
        requires
            old(self).inv(),
            slot.wf(),
            disjoint_from(slot, old(self).free@),
            disjoint_from(slot, old(self).used@),
        ensures
            final(self).inv(),
            final(self).used@ == old(self).used@,
            covered_by(old(self).free@, final(self).free@),
            covered_by(seq![slot], final(self).free@),
            final(self).free@.len() >= old(self).free@.len(),
    {
        let ghost f = self.free@;
        proof {
            lemma_next_multiple(slot.start as int, 8);
        }
        let shifted = slot.shift(8);
        assert(shifted.start == slot.start && shifted.spec_end() == slot.spec_end());
        let mut i: usize = 0;
        while i < self.free.len()
            invariant
                self.inv(),
                self.free@ == f,
                f == old(self).free@,
                self.used@ == old(self).used@,
                shifted.wf(),
                shifted.start == slot.start,
                shifted.spec_end() == slot.spec_end(),
                disjoint_from(shifted, f),
                disjoint_from(shifted, old(self).used@),
                i <= f.len(),
                forall|k: int| 0 <= k < i ==> shifted.spec_end() <= (#[trigger] f[k]).start,
            ensures
                i <= f.len(),
                i < f.len() ==> f[i as int].addr < shifted.addr,
            decreases f.len() - i,
        {
            let h = self.free[i];
            if h.addr < shifted.addr {
                if h.end() == shifted.start {
                    let merged = Slot { size: h.size + shifted.full_size(), ..h };
                    proof {
                        assert(merged.wf());
                        assert(merged.spec_end() == shifted.spec_end());
                    }
                    self.free.set(i, merged);
                    proof {
                        let g = self.free@;
                        assert(g == f.update(i as int, merged));
                        assert forall|a: int, b: int| 0 <= a < b < g.len() implies (#[trigger] g[b]).spec_end()
                            <= (#[trigger] g[a]).start by {
                            if a == i {
                                assert(disjoint(shifted, f[b]));
                            } else if b == i {
                            }
                        }
                        assert forall|a: int, b: int| 0 <= a < g.len() && 0 <= b < self.used@.len() implies disjoint(
                            #[trigger] g[a],
                            #[trigger] self.used@[b],
                        ) by {
                            if a == i {
                                assert(disjoint(shifted, self.used@[b]));
                                assert(disjoint(f[a], self.used@[b]));
                            }
                        }
                        assert forall|k: int| 0 <= k < f.len() implies lies_in(#[trigger] f[k], g) by {
                            assert(f[k].within(g[k]));
                        }
                        assert(slot.within(merged));
                        assert(seq![slot][0].within(g[i as int]));
                    }
                    return ;
                }
                break;
            }
            proof {
                assert(disjoint(shifted, f[i as int]));
            }
            i = i + 1;
        }
        self.free.insert(i, shifted);
        proof {
            let g = self.free@;
            assert(g == f.insert(i as int, shifted));
            assert forall|a: int, b: int| 0 <= a < b < g.len() implies (#[trigger] g[b]).spec_end() <= (
            #[trigger] g[a]).start by {
                if b == i {
                } else if a == i {
                    assert(disjoint(shifted, f[b - 1]));
                    assert(f[b - 1].addr < shifted.addr) by {
                        if i < f.len() {
                            assert(f[i as int].addr < shifted.addr);
                            if b - 1 > i {
                                assert(f[b - 1].spec_end() <= f[i as int].start);
                            }
                        }
                    }
                }
            }
            assert forall|a: int, b: int| 0 <= a < g.len() && 0 <= b < self.used@.len() implies disjoint(
                #[trigger] g[a],
                #[trigger] self.used@[b],
            ) by {
                if a == i {
                    assert(disjoint(shifted, self.used@[b]));
                } else if a < i {
                    assert(disjoint(f[a], self.used@[b]));
                } else {
                    assert(disjoint(f[a - 1], self.used@[b]));
                }
            }
            assert forall|k: int| 0 <= k < f.len() implies lies_in(#[trigger] f[k], g) by {
                if k < i {
                    assert(f[k].within(g[k]));
                } else {
                    assert(f[k].within(g[k + 1]));
                }
            }
            assert(seq![slot][0].within(g[i as int]));
        }
    }

    /// The first free block that has at least `size` bytes after its header.
    fn select_slot(&self, size: usize) -> (r: Option<usize>)
        ensures
            match r {
                Some(i) => {
                    &&& i < self.free@.len()
                    &&& self.free@[i as int].size >= size
                    &&& forall|k: int| 0 <= k < i ==> (#[trigger] self.free@[k]).size < size
                },
                None => forall|k: int| 0 <= k < self.free@.len() ==> (#[trigger] self.free@[k]).size < size,
            },
    {
        let mut i: usize = 0;
        while i < self.free.len()
            invariant
                i <= self.free@.len(),
                forall|k: int| 0 <= k < i ==> (#[trigger] self.free@[k]).size < size,
            decreases self.free@.len() - i,
        {
            if self.free[i].size >= size {
                return Some(i);
            }
            i = i + 1;
        }
        None
    }

    /// Takes the first free block with at least `req` bytes after its header,
    /// keeping its first `req` bytes, header included, and leaving the rest free.
    #[verifier::spinoff_prover]
    #[verifier::rlimit(40)]
    fn take(&mut self, req: usize) -> (r: Option<Slot>)
        requires
            old(self).inv(),
            req >= SLOT_SIZE,
            req % 8 == 0,
        ensures
            final(self).inv(),
            final(self).used@ == old(self).used@,
            r is Some <==> exists|k: int| 0 <= k < old(self).free@.len() && (#[trigger] old(self).free@[k]).size >= req,
            r is None ==> final(self).free@ == old(self).free@,
            r matches Some(s) ==> {
                &&& s.wf()
                &&& s.size >= req - SLOT_SIZE
                &&& disjoint_from(s, final(self).free@)
                &&& disjoint_from(s, final(self).used@)
                &&& exists|i: int|
                    0 <= i < old(self).free@.len() && (forall|k: int| 0 <= k < i ==> (#[trigger] old(self).free@[k]).size < req)
                        && s.addr == (#[trigger] old(self).free@[i]).addr && s.within(old(self).free@[i])
                        && old(self).free@[i].size >= req
                &&& forall|k: int|
                    0 <= k < old(self).free@.len() ==> lies_in(#[trigger] old(self).free@[k], final(self).free@)
                        || old(self).free@[k].addr == s.addr
            },
    {
        let ghost f = self.free@;
        match self.select_slot(req) {
            None => None,
            Some(i) => {
                assert(f[i as int].size >= req);
                let mut slot = self.free.remove(i);
                let ghost g = self.free@;
                assert(g == f.remove(i as int));
                let rest = slot.split(req);
                proof {
                    assert(slot.wf());
                    assert forall|a: int, b: int| 0 <= a < b < g.len() implies (#[trigger] g[b]).spec_end()
                        <= (#[trigger] g[a]).start by {
                        let aa = if a < i { a } else { a + 1 };
                        let bb = if b < i { b } else { b + 1 };
                        assert(f[bb].spec_end() <= f[aa].start);
                    }
                    assert forall|a: int, b: int| 0 <= a < g.len() && 0 <= b < self.used@.len() implies disjoint(
                        #[trigger] g[a],
                        #[trigger] self.used@[b],
                    ) by {
                        let aa = if a < i { a } else { a + 1 };
                        assert(disjoint(f[aa], self.used@[b]));
                    }
                    assert forall|a: int| 0 <= a < g.len() implies disjoint(slot, #[trigger] g[a]) by {
                        let aa = if a < i { a } else { a + 1 };
                        if aa < i {
                            assert(f[i as int].spec_end() <= f[aa].start);
                        } else {
                            assert(f[aa].spec_end() <= f[i as int].start);
                        }
                    }
                    assert forall|b: int| 0 <= b < self.used@.len() implies disjoint(slot, #[trigger] self.used@[b]) by {
                        assert(disjoint(f[i as int], self.used@[b]));
                    }
                }
                match rest {
                    Some(rest) => {
                        self.free.insert(i, rest);
                        proof {
                            let h = self.free@;
                            assert(h == g.insert(i as int, rest));
                            assert(rest.wf()) by {
                                assert((f[i as int].addr + req) % 8 == 0);
                                assert((f[i as int].size - req) % 8 == 0);
                            }
                            assert forall|a: int, b: int| 0 <= a < b < h.len() implies (#[trigger] h[b]).spec_end()
                                <= (#[trigger] h[a]).start by {
                                if a == i {
                                    assert(f[b].spec_end() <= f[i as int].start);
                                } else if b == i {
                                    assert(f[i as int].spec_end() <= f[a].start);
                                } else {
                                    let aa = if a < i { a } else { a - 1 };
                                    let bb = if b < i { b } else { b - 1 };
                                    assert(g[bb].spec_end() <= g[aa].start);
                                }
                            }
                            assert forall|a: int, b: int| 0 <= a < h.len() && 0 <= b < self.used@.len() implies disjoint(
                                #[trigger] h[a],
                                #[trigger] self.used@[b],
                            ) by {
                                if a == i {
                                    assert(disjoint(f[i as int], self.used@[b]));
                                } else {
                                    let aa = if a < i { a } else { a - 1 };
                                    assert(disjoint(g[aa], self.used@[b]));
                                }
                            }
                            assert forall|a: int| 0 <= a < h.len() implies disjoint(slot, #[trigger] h[a]) by {
                                if a != i {
                                    let aa = if a < i { a } else { a - 1 };
                                    assert(disjoint(slot, g[aa]));
                                }
                            }
                        }
                    },
                    None => {},
                }
                proof {
                    let h = self.free@;
                    assert forall|k: int| 0 <= k < f.len() implies lies_in(#[trigger] f[k], h) || f[k].addr == slot.addr by {
                        if k < i {
                            assert(h[k] == f[k]);
                            assert(f[k].within(h[k]));
                        } else if k > i {
                            if rest is Some {
                                assert(h[k] == f[k]);
                                assert(f[k].within(h[k]));
                            } else {
                                assert(h[k - 1] == f[k]);
                                assert(f[k].within(h[k - 1]));
                            }
                        }
                    }
                }
                Some(slot)
            },
        }
    }

    /// The position of the block handed out whose header is at `addr`.
    fn find_used(&self, addr: usize) -> (r: Option<usize>)
        ensures
            match r {
                Some(u) => u < self.used@.len() && self.used@[u as int].addr == addr,
                None => forall|k: int| 0 <= k < self.used@.len() ==> (#[trigger] self.used@[k]).addr != addr,
            },
    {
        let mut i: usize = 0;
        while i < self.used.len()
            invariant
                i <= self.used@.len(),
                forall|k: int| 0 <= k < i ==> (#[trigger] self.used@[k]).addr != addr,
            decreases self.used@.len() - i,
        {
            if self.used[i].addr == addr {
                return Some(i);
            }
            i = i + 1;
        }
        None
    }

    /// Whether `slot` shares no address with any block.
    fn is_vacant(&self, slot: Slot) -> (r: bool)
        ensures
            r == (disjoint_from(slot, self.free@) && disjoint_from(slot, self.used@)),
    {
        let mut i: usize = 0;
        while i < self.free.len()
            invariant
                i <= self.free@.len(),
                forall|k: int| 0 <= k < i ==> disjoint(slot, #[trigger] self.free@[k]),
            decreases self.free@.len() - i,
        {
            let h = self.free[i];
            if !(slot.addr as u128 + SLOT_SIZE as u128 + slot.size as u128 <= h.start as u128
                || h.addr as u128 + SLOT_SIZE as u128 + h.size as u128 <= slot.start as u128) {
                return false;
            }
            i = i + 1;
        }
        let mut j: usize = 0;
        while j < self.used.len()
            invariant
                j <= self.used@.len(),
                disjoint_from(slot, self.free@),
                forall|k: int| 0 <= k < j ==> disjoint(slot, #[trigger] self.used@[k]),
            decreases self.used@.len() - j,
        {
            let h = self.used[j];
            if !(slot.addr as u128 + SLOT_SIZE as u128 + slot.size as u128 <= h.start as u128
                || h.addr as u128 + SLOT_SIZE as u128 + h.size as u128 <= slot.start as u128) {
                return false;
            }
            j = j + 1;
        }
        true
    }

    /// Grows the block handed out at position `u` in place until it has at least
    /// `new_size` bytes after its header, by absorbing the free blocks that
    /// follow it. A remainder past `new_size` (rounded up to [`SLOT_ALIGN`]) is
    /// left free.
    ///
    /// # Errors
    /// Returns `Err(())` if the free blocks right after the block don't make it
    /// large enough; the blocks absorbed so far stay part of it.
    #[verifier::spinoff_prover]
    #[verifier::rlimit(90)]
    fn try_extend(&mut self, u: usize, new_size: usize) -> (r: Result<(), ()>)
        requires
            old(self).inv(),
            u < old(self).used@.len(),
            next_multiple(new_size as int, 8) + SLOT_SIZE <= usize::MAX,
        ensures
            final(self).inv(),
            final(self).used@.len() == old(self).used@.len(),
            forall|k: int| 0 <= k < old(self).used@.len() && k != u ==> final(self).used@[k] == old(self).used@[k],
            final(self).used@[u as int].addr == old(self).used@[u as int].addr,
            final(self).used@[u as int].size >= old(self).used@[u as int].size,
            r is Ok <==> final(self).used@[u as int].size >= new_size,
            reach(old(self).free@, old(self).used@[u as int].spec_end()) >= old(self).used@[u as int].addr + SLOT_SIZE
                + new_size ==> r is Ok,
            r is Err ==> covered_by(
                old(self).free@.push(old(self).used@[u as int]),
                final(self).free@.push(final(self).used@[u as int]),
            ),
    {
        proof {
            lemma_next_multiple(new_size as int, 8);
        }
        let ghost reach0 = reach(old(self).free@, old(self).used@[u as int].spec_end());
        let ghost before = old(self).free@.push(old(self).used@[u as int]);
        proof {
            lemma_covered_by_refl(before);
        }
        let target = Layout { size: 0, align: SLOT_ALIGN }.next_matching(new_size);
        let at = target + SLOT_SIZE;
        loop
            invariant
                self.inv(),
                reach0 == reach(old(self).free@, old(self).used@[u as int].spec_end()),
                before == old(self).free@.push(old(self).used@[u as int]),
                self.used@[u as int].size >= new_size || reach(self.free@, self.used@[u as int].spec_end()) == reach0,
                covered_by(before, self.free@.push(self.used@[u as int])),
                u < self.used@.len(),
                self.used@.len() == old(self).used@.len(),
                forall|k: int| 0 <= k < old(self).used@.len() && k != u ==> self.used@[k] == old(self).used@[k],
                self.used@[u as int].addr == old(self).used@[u as int].addr,
                self.used@[u as int].size >= old(self).used@[u as int].size,
                target >= new_size,
                target % 8 == 0,
                at == target + SLOT_SIZE,
            decreases self.free@.len(),
        {
            let slot = self.used[u];
            if slot.size >= new_size {
                return Ok(());
            }
            let slot_end = slot.end();
            let mut i: usize = 0;
            loop
                invariant
                    self.inv(),
                    u < self.used@.len(),
                    self.used@.len() == old(self).used@.len(),
                    forall|k: int| 0 <= k < old(self).used@.len() && k != u ==> self.used@[k] == old(self).used@[k],
                    self.used@[u as int].addr == old(self).used@[u as int].addr,
                    self.used@[u as int].size >= old(self).used@[u as int].size,
                    slot.size < new_size,
                    i <= self.free@.len(),
                    slot == self.used@[u as int],
                    slot_end == slot.spec_end(),
                    forall|k: int| 0 <= k < i ==> (#[trigger] self.free@[k]).start > slot_end,
                    reach0 == reach(old(self).free@, old(self).used@[u as int].spec_end()),
                    before == old(self).free@.push(old(self).used@[u as int]),
                    reach(self.free@, slot_end as int) == reach0,
                    covered_by(before, self.free@.push(self.used@[u as int])),
                ensures
                    i < self.free@.len(),
                    self.free@[i as int].start == slot_end,
                decreases self.free@.len() - i,
            {
                if i >= self.free.len() {
                    proof {
                        assert(!exists|k: int| 0 <= k < self.free@.len() && (#[trigger] self.free@[k]).start == slot_end);
                    }
                    return Err(());
                }
                let h = self.free[i];
                if h.start < slot_end {
                    proof {
                        let f = self.free@;
                        assert forall|k: int| 0 <= k < f.len() implies (#[trigger] f[k]).start != slot_end by {
                            if k > i {
                                assert(f[k].spec_end() <= f[i as int].start);
                            }
                        }
                    }
                    return Err(());
                }
                if h.start == slot_end {
                    break;
                }
                i = i + 1;
            }
            let ghost f = self.free@;
            let ghost us = self.used@;
            let ext = self.free.remove(i);
            let mut grown = Slot { size: slot.size + ext.full_size(), ..slot };
            let ghost whole = grown;
            proof {
                let g = self.free@;
                assert(g == f.remove(i as int));
                assert(grown.wf());
                assert(grown.spec_end() == ext.spec_end());
                assert forall|a: int, b: int| 0 <= a < b < g.len() implies (#[trigger] g[b]).spec_end()
                    <= (#[trigger] g[a]).start by {
                    let aa = if a < i { a } else { a + 1 };
                    let bb = if b < i { b } else { b + 1 };
                    assert(f[bb].spec_end() <= f[aa].start);
                }
                assert forall|a: int, b: int| 0 <= a < g.len() && 0 <= b < us.len() implies disjoint(
                    #[trigger] g[a],
                    #[trigger] us[b],
                ) by {
                    let aa = if a < i { a } else { a + 1 };
                    assert(disjoint(f[aa], us[b]));
                }
                assert forall|a: int| 0 <= a < g.len() implies disjoint(grown, #[trigger] g[a]) by {
                    let aa = if a < i { a } else { a + 1 };
                    assert(disjoint(slot, f[aa]));
                    if aa < i {
                        assert(f[i as int].spec_end() <= f[aa].start);
                    } else {
                        assert(f[aa].spec_end() <= f[i as int].start);
                    }
                }
                assert forall|b: int| 0 <= b < us.len() && b != u implies disjoint(grown, #[trigger] us[b]) by {
                    assert(disjoint(slot, us[b]));
                    assert(disjoint(f[i as int], us[b]));
                    assert(disjoint(us[u as int], us[b]));
                }
            }
            match grown.split(at) {
                Some(rest) => {
                    self.free.insert(i, rest);
                    self.used.set(u, grown);
                    proof {
                        let g = f.remove(i as int);
                        let h = self.free@;
                        assert(h == g.insert(i as int, rest));
                        assert(rest.addr > ext.addr);
                        assert(rest.wf()) by {
                            assert((slot.addr + at) % 8 == 0);
                            assert((whole.size - at) % 8 == 0);
                        }
                        assert forall|a: int, b: int| 0 <= a < b < h.len() implies (#[trigger] h[b]).spec_end()
                            <= (#[trigger] h[a]).start by {
                            if a == i {
                                assert(f[b].spec_end() <= f[i as int].start);
                            } else if b == i {
                                assert(f[i as int].spec_end() <= f[a].start);
                            } else {
                                let aa = if a < i { a } else { a - 1 };
                                let bb = if b < i { b } else { b - 1 };
                                assert(g[bb].spec_end() <= g[aa].start);
                            }
                        }
                        assert forall|a: int, b: int| 0 <= a < h.len() && 0 <= b < self.used@.len() implies disjoint(
                            #[trigger] h[a],
                            #[trigger] self.used@[b],
                        ) by {
                            if a == i {
                                if b != u {
                                    assert(disjoint(f[i as int], us[b]));
                                }
                            } else {
                                let aa = if a < i { a } else { a - 1 };
                                if b != u {
                                    assert(disjoint(g[aa], us[b]));
                                } else {
                                    assert(disjoint(whole, g[aa]));
                                }
                            }
                        }
                        assert forall|a: int, b: int|
                            0 <= a < self.used@.len() && 0 <= b < self.used@.len() && a != b implies disjoint(
                            #[trigger] self.used@[a],
                            #[trigger] self.used@[b],
                        ) by {
                            if a == u {
                                assert(disjoint(whole, us[b]));
                            } else if b == u {
                                assert(disjoint(whole, us[a]));
                            } else {
                                assert(disjoint(us[a], us[b]));
                            }
                        }
                    }
                    return Ok(());
                },
                None => {
                    self.used.set(u, grown);
                    proof {
                        let g = self.free@;
                        lemma_absorb_covered(f, slot, i as int, grown);
                        lemma_covered_by_trans(before, f.push(slot), g.push(grown));
                        assert forall|a: int, b: int| 0 <= a < g.len() && 0 <= b < self.used@.len() implies disjoint(
                            #[trigger] g[a],
                            #[trigger] self.used@[b],
                        ) by {
                            if b != u {
                                let aa = if a < i { a } else { a + 1 };
                                assert(disjoint(f[aa], us[b]));
                            }
                        }
                        assert forall|a: int, b: int|
                            0 <= a < self.used@.len() && 0 <= b < self.used@.len() && a != b implies disjoint(
                            #[trigger] self.used@[a],
                            #[trigger] self.used@[b],
                        ) by {
                            if a == u {
                                assert(disjoint(whole, us[b]));
                            } else if b == u {
                                assert(disjoint(whole, us[a]));
                            } else {
                                assert(disjoint(us[a], us[b]));
                            }
                        }
                        lemma_reach_at(f, slot_end as int, i as int);
                        lemma_reach_absorb(f, i as int);
                    }
                },
            }
        }
    }
}

/// The size of the block, header included, that holds `size` bytes.
pub open spec fn spec_block_size(size: int) -> int {
    next_multiple(size, 8) + SLOT_SIZE
}

/// The block of `free` that starts at `addr` is the first one, in list order,
/// with at least `size` bytes: the one a first-fit allocation takes.
#[verifier::opaque]
pub open spec fn first_fit(free: Seq<Slot>, addr: usize, size: int) -> bool {
    exists|i: int|
        0 <= i < free.len() && (#[trigger] free[i]).addr == addr && free[i].size >= size && forall|k: int|
            0 <= k < i ==> (#[trigger] free[k]).size < size
}

/// A free-list based allocator.
///
/// It starts without memory: its owner maps pages and hands them over with
/// [`FreelistAlloc::add_region`], typically when [`IAlloc::allocate`] returned 0.
pub struct FreelistAlloc {
    /// The free blocks and the blocks handed out.
    blocks: Blocks,
    /// The end of the last region handed over.
    end: Option<usize>,
}

impl FreelistAlloc {
    #[verifier::type_invariant]
    spec fn consistent(self) -> bool {
        self.blocks.inv()
    }

    /// The free blocks, by decreasing address.
    pub closed spec fn free_blocks(&self) -> Seq<Slot> {
        self.blocks.free@
    }

    /// The blocks handed out.
    pub closed spec fn used_blocks(&self) -> Seq<Slot> {
        self.blocks.used@
    }

    /// The end of the last region handed over.
    pub closed spec fn spec_region_end(&self) -> Option<usize> {
        self.end
    }

    /// The blocks handed out share no address with one another nor with a free
    /// block, and the free list is ordered by decreasing address, its blocks
    /// sharing no address either. Every operation keeps this.
    pub open spec fn blocks_disjoint(&self) -> bool {
        &&& pairwise_disjoint(self.used_blocks())
        &&& sorted_free(self.free_blocks())
        &&& cross_disjoint(self.free_blocks(), self.used_blocks())
    }

    /// An allocator without memory.
    pub fn new() -> (r: Self)
        ensures
            r.blocks_disjoint(),
            r.free_blocks() == Seq::<Slot>::empty(),
            r.used_blocks() == Seq::<Slot>::empty(),
            r.spec_region_end() is None,
    {
        FreelistAlloc { blocks: Blocks::new(), end: None }
    }

    /// The end of the block handed out at `ptr`, if there is one: when it is the
    /// end of the last region, a region mapped right after lets the block grow in place.
    pub fn block_end(&self, ptr: usize) -> (r: Option<usize>)
        ensures
            r is Some <==> exists|v: int|
                0 <= v < self.used_blocks().len() && (#[trigger] self.used_blocks()[v]).addr + SLOT_SIZE == ptr,
            r matches Some(e) ==> exists|v: int|
                0 <= v < self.used_blocks().len() && (#[trigger] self.used_blocks()[v]).addr + SLOT_SIZE == ptr
                    && self.used_blocks()[v].spec_end() == e,
    {
        proof {
            use_type_invariant(self);
        }
        if ptr < SLOT_SIZE {
            proof {
                assert forall|v: int| 0 <= v < self.used_blocks().len() implies (#[trigger] self.used_blocks()[v]).addr
                    + SLOT_SIZE != ptr by {}
            }
            return None;
        }
        match self.blocks.find_used(ptr - SLOT_SIZE) {
            Some(u) => {
                proof {
                    assert(self.blocks.used@[u as int].wf());
                    assert(self.used_blocks()[u as int].addr + SLOT_SIZE == ptr);
                }
                Some(self.blocks.used[u].end())
            },
            None => {
                proof {
                    assert forall|v: int| 0 <= v < self.used_blocks().len() implies (#[trigger] self.used_blocks()[v]).addr
                        + SLOT_SIZE != ptr by {
                        assert(self.blocks.used@[v].addr != ptr - SLOT_SIZE);
                    }
                }
                None
            },
        }
    }

    /// The size of the region to map right after the last region so that the
    /// block handed out at `ptr` can grow in place to `new_size` bytes: `Some`
    /// exactly when that block ends the last region and such a block can exist.
    pub fn growth_request(&self, ptr: usize, new_size: usize) -> (r: Option<usize>)
        ensures
            r is Some <==> {
                &&& new_size <= usize::MAX - 64
                &&& self.spec_region_end() is Some
                &&& exists|v: int|
                    0 <= v < self.used_blocks().len() && (#[trigger] self.used_blocks()[v]).addr + SLOT_SIZE == ptr
                        && self.used_blocks()[v].spec_end() == self.spec_region_end()->0
            },
            r matches Some(n) ==> n == spec_block_size(new_size as int),
    {
        let end = match self.block_end(ptr) {
            None => return None,
            Some(e) => e,
        };
        match self.end {
            Some(region_end) => {
                if end != region_end {
                    proof {
                        use_type_invariant(self);
                        assert forall|v: int|
                            0 <= v < self.used_blocks().len() && (#[trigger] self.used_blocks()[v]).addr + SLOT_SIZE
                                == ptr implies self.used_blocks()[v].spec_end() != region_end by {
                            let w = choose|w: int|
                                0 <= w < self.used_blocks().len() && (#[trigger] self.used_blocks()[w]).addr + SLOT_SIZE
                                    == ptr && self.used_blocks()[w].spec_end() == end;
                            if v != w {
                                assert(disjoint(self.used_blocks()[v], self.used_blocks()[w]));
                            }
                        }
                    }
                    return None;
                }
                Self::block_size(Layout { size: new_size, align: SLOT_ALIGN })
            },
            None => None,
        }
    }

    /// The end of the last region handed over, where the next one would best be mapped.
    pub fn region_end(&self) -> (r: Option<usize>)
        ensures
            r == self.spec_region_end(),
    {
        self.end
    }

    /// The size of the block, header included, that an allocation of `layout`
    /// takes: the size of the region to map when [`IAlloc::allocate`] found no
    /// free block large enough. `None` if no block can hold it.
    pub fn block_size(layout: Layout) -> (r: Option<usize>)
        ensures
            layout.size <= usize::MAX - 64 ==> r == Some(spec_block_size(layout.size as int) as usize),
            layout.size > usize::MAX - 64 ==> r is None,
    {
        if layout.size > usize::MAX - 64 {
            return None;
        }
        proof {
            lemma_next_multiple(layout.size as int, 8);
        }
        let size = Layout { size: 0, align: SLOT_ALIGN }.next_matching(layout.size);
        Some(size + SLOT_SIZE)
    }

    /// Hands the `size` bytes at `start` over to the allocator, as one free block.
    ///
    /// Returns `false`, changing nothing, unless `start` and `size` are multiples
    /// of [`SLOT_ALIGN`], the region holds at least a header, lies in the address
    /// space, and shares no address with the allocator's blocks.
    pub fn add_region(&mut self, start: usize, size: usize) -> (r: bool)
        ensures
            final(self).blocks_disjoint(),
            r == {
                &&& start % 8 == 0
                &&& size % 8 == 0
                &&& size >= SLOT_SIZE
                &&& start + size <= usize::MAX
                &&& disjoint_from(
                    Slot { size: (size - SLOT_SIZE) as usize, start, addr: start, align: SLOT_ALIGN },
                    old(self).free_blocks(),
                )
                &&& disjoint_from(
                    Slot { size: (size - SLOT_SIZE) as usize, start, addr: start, align: SLOT_ALIGN },
                    old(self).used_blocks(),
                )
            },
            final(self).used_blocks() == old(self).used_blocks(),
            r ==> {
                &&& final(self).spec_region_end() == Some((start + size) as usize)
                &&& covered_by(old(self).free_blocks(), final(self).free_blocks())
                &&& covered_by(
                    seq![Slot { size: (size - SLOT_SIZE) as usize, start, addr: start, align: SLOT_ALIGN }],
                    final(self).free_blocks(),
                )
            },
            !r ==> final(self).free_blocks() == old(self).free_blocks() && final(self).spec_region_end()
                == old(self).spec_region_end(),
    {
        proof {
            use_type_invariant(&*self);
        }
        if start % 8 != 0 || size % 8 != 0 || size < SLOT_SIZE || start > usize::MAX - size {
            return false;
        }
        let slot = Slot { size: size - SLOT_SIZE, start, addr: start, align: SLOT_ALIGN };
        if !self.blocks.is_vacant(slot) {
            return false;
        }
        let mut blocks = Blocks::new();
        core::mem::swap(&mut blocks, &mut self.blocks);
        blocks.insert(slot);
        self.blocks = blocks;
        self.end = Some(slot.end());
        proof {
            use_type_invariant(&*self);
        }
        true
    }
}

impl Default for FreelistAlloc {
    fn default() -> (r: Self)
        ensures
            r.blocks_disjoint(),
            r.free_blocks() == Seq::<Slot>::empty(),
            r.used_blocks() == Seq::<Slot>::empty(),
            r.spec_region_end() is None,
    {
        FreelistAlloc::new()
    }
}

/// A block of `used` begins at `ptr - SLOT_SIZE` and has at least `size` bytes
/// after its header.
pub open spec fn holds_in(used: Seq<Slot>, ptr: usize, size: nat) -> bool {
    exists|v: int| 0 <= v < used.len() && (#[trigger] used[v]).addr + SLOT_SIZE == ptr && used[v].size >= size
}

/// When the blocks of `a` other than the one at `ptr` are all in `b`, and, if
/// `keep_ptr`, the one at `ptr` stays at its place in `b` with no fewer bytes,
/// `b` holds every allocation that `a` held, but maybe the one at `ptr`.
proof fn lemma_holds_kept(a: Seq<Slot>, b: Seq<Slot>, ptr: usize, keep_ptr: bool)
    requires
        forall|v: int| 0 <= v < a.len() && (#[trigger] a[v]).addr + SLOT_SIZE != ptr ==> b.contains(a[v]),
        keep_ptr ==> forall|v: int|
            0 <= v < a.len() && (#[trigger] a[v]).addr + SLOT_SIZE == ptr ==> v < b.len() && b[v].addr == a[v].addr
                && b[v].size >= a[v].size,
    ensures
        forall|p: usize, size: nat| (p != ptr || keep_ptr) && holds_in(a, p, size) ==> #[trigger] holds_in(b, p, size),
{
    assert forall|p: usize, size: nat| (p != ptr || keep_ptr) && holds_in(a, p, size) implies #[trigger] holds_in(
        b,
        p,
        size,
    ) by {
        let v = choose|v: int| 0 <= v < a.len() && (#[trigger] a[v]).addr + SLOT_SIZE == p && a[v].size >= size;
        if p != ptr {
            assert(b.contains(a[v]));
            let w = choose|w: int| 0 <= w < b.len() && b[w] == a[v];
            assert(b[w].addr + SLOT_SIZE == p);
        } else {
            assert(b[v].addr + SLOT_SIZE == p);
        }
    }
}

/// The alignments that blocks placed on 8-byte boundaries respect; the
/// allocator refuses the others.
pub open spec fn spec_slot_align_ok(align: usize) -> bool {
    align == 0 || align == 1 || align == 2 || align == 4 || align == 8
}

/// Whether blocks placed on 8-byte boundaries respect `align`.
pub fn slot_align_ok(align: usize) -> (r: bool)
    ensures
        r == spec_slot_align_ok(align),
{
    align == 0 || align == 1 || align == 2 || align == 4 || align == 8
}

/// The alignments the allocator serves are exactly the ones that divide 8, and
/// no alignment (0): an allocation aligned to 1, 2, 4 or 8 is served like any
/// other, and only a larger alignment, or one that does not divide 8, is refused.
pub proof fn lemma_served_alignments(align: usize)
    ensures
        spec_slot_align_ok(align) <==> (align == 0 || 8int % (align as int) == 0),
{
    if align > 8 {
        assert(8int % (align as int) == 8) by (nonlinear_arith)
            requires
                align > 8,
        ;
    } else if align > 0 {
        assert(8int % 1int == 0);
        assert(8int % 2int == 0);
        assert(8int % 3int == 2);
        assert(8int % 4int == 0);
        assert(8int % 5int == 3);
        assert(8int % 6int == 2);
        assert(8int % 7int == 1);
        assert(8int % 8int == 0);
    }
}

/// An address on an 8-byte boundary respects every alignment that divides 8.
proof fn lemma_aligned(r: int, align: usize)
    requires
        r >= 0,
        r % 8 == 0,
        spec_slot_align_ok(align),
        align > 0,
    ensures
        r % (align as int) == 0,
{
    if align == 2 {
        assert(r % 2 == 0) by (nonlinear_arith)
            requires
                r % 8 == 0,
                r >= 0,
        ;
    } else if align == 4 {
        assert(r % 4 == 0) by (nonlinear_arith)
            requires
                r % 8 == 0,
                r >= 0,
        ;
    }
}

impl IAlloc for FreelistAlloc {
    /// A block handed out begins at `ptr - SLOT_SIZE` and has at least `size`
    /// bytes after its header.
    open spec fn holds(&self, ptr: usize, size: nat) -> bool {
        holds_in(self.used_blocks(), ptr, size)
    }

    /// No block handed out begins at `ptr - SLOT_SIZE`.
    open spec fn released(&self, ptr: usize) -> bool {
        forall|v: int| 0 <= v < self.used_blocks().len() ==> (#[trigger] self.used_blocks()[v]).addr + SLOT_SIZE != ptr
    }

    /// The request is not empty, fits, asks for an alignment that divides 8, and
    /// some free block holds it with its header.
    open spec fn can_allocate(&self, layout: Layout) -> bool {
        &&& layout.size > 0
        &&& layout.size <= usize::MAX - 64
        &&& spec_slot_align_ok(layout.align)
        &&& exists|k: int|
            0 <= k < self.free_blocks().len() && (#[trigger] self.free_blocks()[k]).size >= spec_block_size(
                layout.size as int,
            )
    }

    /// Hands out the first free block large enough for `layout`, keeping the rest
    /// of that block free. The address returned follows the block's header.
    fn allocate(&mut self, layout: Layout) -> (r: usize)
        ensures
            final(self).blocks_disjoint(),
            r != 0 <==> {
                &&& layout.size > 0
                &&& layout.size <= usize::MAX - 64
                &&& spec_slot_align_ok(layout.align)
                &&& exists|k: int|
                    0 <= k < old(self).free_blocks().len() && (#[trigger] old(self).free_blocks()[k]).size
                        >= spec_block_size(layout.size as int)
            },
            r == 0 ==> final(self).free_blocks() == old(self).free_blocks() && final(self).used_blocks()
                == old(self).used_blocks(),
            r != 0 ==> {
                let s = final(self).used_blocks().last();
                &&& final(self).used_blocks() == old(self).used_blocks().push(s)
                &&& r == s.addr + SLOT_SIZE
                &&& r % 8 == 0
                &&& s.size >= layout.size
                &&& disjoint_from(s, old(self).used_blocks())
                &&& disjoint_from(s, final(self).free_blocks())
                &&& forall|k: int|
                    0 <= k < old(self).free_blocks().len() ==> lies_in(
                        #[trigger] old(self).free_blocks()[k],
                        final(self).free_blocks(),
                    ) || old(self).free_blocks()[k].addr == s.addr
                &&& first_fit(old(self).free_blocks(), s.addr, spec_block_size(layout.size as int))
            },
            final(self).spec_region_end() == old(self).spec_region_end(),
    {
        let r = self.allocate_block(layout);
        proof {
            if r != 0 {
                let v = self.used_blocks().len() - 1;
                assert(self.used_blocks()[v].addr + SLOT_SIZE == r);
                if layout.align > 0 {
                    lemma_aligned(r as int, layout.align);
                }
            }
            assert forall|p: usize, size: nat| old(self).holds(p, size) implies #[trigger] self.holds(p, size) by {
                let ou = old(self).used_blocks();
                let v = choose|v: int| 0 <= v < ou.len() && (#[trigger] ou[v]).addr + SLOT_SIZE == p && ou[v].size >= size;
                assert(self.used_blocks()[v] == ou[v]);
            }
        }
        r
    }

    /// Returns the block handed out at `ptr` to the free list. Does nothing if no
    /// block was handed out at `ptr`.
    fn free(&mut self, ptr: usize)
        ensures
            final(self).blocks_disjoint(),
            final(self).spec_region_end() == old(self).spec_region_end(),
            forall|u: int|
                0 <= u < old(self).used_blocks().len() && (#[trigger] old(self).used_blocks()[u]).addr + SLOT_SIZE
                    == ptr ==> {
                    &&& final(self).used_blocks() == old(self).used_blocks().remove(u)
                    &&& covered_by(seq![old(self).used_blocks()[u]], final(self).free_blocks())
                    &&& covered_by(old(self).free_blocks(), final(self).free_blocks())
                },
            (forall|u: int|
                0 <= u < old(self).used_blocks().len() ==> (#[trigger] old(self).used_blocks()[u]).addr + SLOT_SIZE
                    != ptr) ==> final(self).used_blocks() == old(self).used_blocks() && final(self).free_blocks()
                == old(self).free_blocks(),
    {
        self.free_block(ptr);
    }

    /// Grows the block at `ptr` in place if the free blocks right after it allow,
    /// otherwise moves it to a new block and frees the old one.
    ///
    /// Returns 0, leaving the block at `ptr` handed out, if `new_size` is 0, if no
    /// block was handed out at `ptr`, or if no free block was large enough.
    fn realloc(&mut self, ptr: usize, prev_layout: Layout, new_size: usize) -> (r: usize)
        ensures
            r != 0 ==> r + new_size <= usize::MAX,
            r != 0 && prev_layout.align > 0 ==> r % prev_layout.align == 0,
            r == 0 ==> forall|u: int|
                0 <= u < old(self).used_blocks().len() && (#[trigger] old(self).used_blocks()[u]).addr + SLOT_SIZE
                    == ptr ==> u < final(self).used_blocks().len() && final(self).used_blocks()[u].addr == old(
                    self,
                ).used_blocks()[u].addr && final(self).used_blocks()[u].size >= old(self).used_blocks()[u].size,
            final(self).blocks_disjoint(),
            r != 0 ==> {
                &&& r % 8 == 0
                &&& exists|v: int|
                    0 <= v < final(self).used_blocks().len() && (#[trigger] final(self).used_blocks()[v]).addr
                        + SLOT_SIZE == r && final(self).used_blocks()[v].size >= new_size
            },
            r != 0 && r != ptr ==> forall|v: int|
                0 <= v < final(self).used_blocks().len() ==> (#[trigger] final(self).used_blocks()[v]).addr
                    + SLOT_SIZE != ptr,
            r == 0 ==> forall|u: int|
                0 <= u < old(self).used_blocks().len() && (#[trigger] old(self).used_blocks()[u]).addr + SLOT_SIZE
                    == ptr ==> exists|v: int|
                    0 <= v < final(self).used_blocks().len() && (#[trigger] final(self).used_blocks()[v]).addr
                        == old(self).used_blocks()[u].addr,
            forall|u: int|
                0 <= u < old(self).used_blocks().len() && (#[trigger] old(self).used_blocks()[u]).addr + SLOT_SIZE
                    == ptr && old(self).used_blocks()[u].size >= new_size && 0 < new_size <= usize::MAX - 64
                    && spec_slot_align_ok(prev_layout.align) ==> r == ptr,
            (forall|u: int|
                0 <= u < old(self).used_blocks().len() ==> (#[trigger] old(self).used_blocks()[u]).addr + SLOT_SIZE
                    != ptr) ==> r == 0,
            forall|u: int|
                0 <= u < old(self).used_blocks().len() && (#[trigger] old(self).used_blocks()[u]).addr + SLOT_SIZE
                    == ptr && 0 < new_size <= usize::MAX - 64 && spec_slot_align_ok(prev_layout.align) ==> {
                    &&& reach(old(self).free_blocks(), old(self).used_blocks()[u].spec_end()) >= ptr + new_size ==> r
                        == ptr
                    &&& (exists|k: int|
                        0 <= k < old(self).free_blocks().len() && (#[trigger] old(self).free_blocks()[k]).size
                            >= spec_block_size(new_size as int)) ==> r != 0
                },
            forall|v: int|
                0 <= v < old(self).used_blocks().len() && (#[trigger] old(self).used_blocks()[v]).addr + SLOT_SIZE
                    != ptr ==> final(self).used_blocks().contains(old(self).used_blocks()[v]),
            r == 0 ==> forall|u: int|
                0 <= u < old(self).used_blocks().len() && (#[trigger] old(self).used_blocks()[u]).addr + SLOT_SIZE
                    == ptr ==> u < final(self).used_blocks().len() && covered_by(
                    old(self).free_blocks().push(old(self).used_blocks()[u]),
                    final(self).free_blocks().push(final(self).used_blocks()[u]),
                ),
    {
        let r = self.realloc_blocks(ptr, prev_layout, new_size);
        proof {
            use_type_invariant(&*self);
            lemma_holds_kept(old(self).used_blocks(), self.used_blocks(), ptr, r == 0);
        }
        r
    }
}

impl FreelistAlloc {
    /// The work of [`IAlloc::allocate`].
    fn allocate_block(&mut self, layout: Layout) -> (r: usize)
        ensures
            final(self).blocks_disjoint(),
            r != 0 <==> {
                &&& layout.size > 0
                &&& layout.size <= usize::MAX - 64
                &&& spec_slot_align_ok(layout.align)
                &&& exists|k: int|
                    0 <= k < old(self).free_blocks().len() && (#[trigger] old(self).free_blocks()[k]).size
                        >= spec_block_size(layout.size as int)
            },
            r == 0 ==> final(self).free_blocks() == old(self).free_blocks() && final(self).used_blocks()
                == old(self).used_blocks(),
            r != 0 ==> {
                let s = final(self).used_blocks().last();
                &&& final(self).used_blocks() == old(self).used_blocks().push(s)
                &&& r == s.addr + SLOT_SIZE
                &&& r % 8 == 0
                &&& s.size >= layout.size
                &&& disjoint_from(s, old(self).used_blocks())
                &&& disjoint_from(s, final(self).free_blocks())
                &&& forall|k: int|
                    0 <= k < old(self).free_blocks().len() ==> lies_in(
                        #[trigger] old(self).free_blocks()[k],
                        final(self).free_blocks(),
                    ) || old(self).free_blocks()[k].addr == s.addr
                &&& first_fit(old(self).free_blocks(), s.addr, spec_block_size(layout.size as int))
            },
            final(self).spec_region_end() == old(self).spec_region_end(),
    {
        proof {
            use_type_invariant(&*self);
        }
        if layout.size == 0 || layout.size > usize::MAX - 64 || !slot_align_ok(layout.align) {
            return 0;
        }
        proof {
            lemma_next_multiple(layout.size as int, 8);
            lemma_next_multiple(next_multiple(layout.size as int, 8), 8);
        }
        let l = layout.for_alloc();
        let req = l.concat(Layout { size: SLOT_SIZE, align: SLOT_ALIGN });
        assert(req.size == spec_block_size(layout.size as int));
        let mut blocks = Blocks::new();
        core::mem::swap(&mut blocks, &mut self.blocks);
        let ghost f0 = blocks.free@;
        assert(f0 == old(self).free_blocks());
        let r = match blocks.take(req.size) {
            Some(s) => {
                proof {
                    let k = choose|k: int| 0 <= k < f0.len() && (#[trigger] f0[k]).size >= req.size;
                    assert(old(self).free_blocks()[k].size >= spec_block_size(layout.size as int));
                    reveal(first_fit);
                }
                let ghost used = blocks.used@;
                blocks.used.push(s);
                proof {
                    let g = blocks.used@;
                    assert(g == used.push(s));
                    assert forall|a: int, b: int| 0 <= a < g.len() && 0 <= b < g.len() && a != b implies disjoint(
                        #[trigger] g[a],
                        #[trigger] g[b],
                    ) by {
                        if a == used.len() {
                            assert(disjoint(s, used[b]));
                        } else if b == used.len() {
                            assert(disjoint(s, used[a]));
                        }
                    }
                    assert forall|a: int, b: int| 0 <= a < blocks.free@.len() && 0 <= b < g.len() implies disjoint(
                        #[trigger] blocks.free@[a],
                        #[trigger] g[b],
                    ) by {
                        if b == used.len() {
                            assert(disjoint(s, blocks.free@[a]));
                        }
                    }
                    assert(s.addr % 8 == 0 && (s.addr + SLOT_SIZE) % 8 == 0);
                }
                s.addr + SLOT_SIZE
            },
            None => 0,
        };
        self.blocks = blocks;
        proof {
            use_type_invariant(&*self);
        }
        r
    }

    /// The work of [`IAlloc::free`].
    fn free_block(&mut self, ptr: usize)
        ensures
            final(self).released(ptr),
            forall|p: usize, size: nat| p != ptr && old(self).holds(p, size) ==> #[trigger] final(self).holds(p, size),
            final(self).blocks_disjoint(),
            final(self).spec_region_end() == old(self).spec_region_end(),
            forall|u: int|
                0 <= u < old(self).used_blocks().len() && (#[trigger] old(self).used_blocks()[u]).addr + SLOT_SIZE
                    == ptr ==> {
                    &&& final(self).used_blocks() == old(self).used_blocks().remove(u)
                    &&& covered_by(seq![old(self).used_blocks()[u]], final(self).free_blocks())
                    &&& covered_by(old(self).free_blocks(), final(self).free_blocks())
                },
            (forall|u: int|
                0 <= u < old(self).used_blocks().len() ==> (#[trigger] old(self).used_blocks()[u]).addr + SLOT_SIZE
                    != ptr) ==> final(self).used_blocks() == old(self).used_blocks() && final(self).free_blocks()
                == old(self).free_blocks(),
    {
        proof {
            use_type_invariant(&*self);
        }
        if ptr < SLOT_SIZE {
            return ;
        }
        let ghost mut removed: Option<int> = None;
        let mut blocks = Blocks::new();
        core::mem::swap(&mut blocks, &mut self.blocks);
        match blocks.find_used(ptr - SLOT_SIZE) {
            None => {},
            Some(u) => {
                let ghost used = blocks.used@;
                let ghost free = blocks.free@;
                let s = blocks.used.remove(u);
                proof {
                    let g = blocks.used@;
                    assert(g == used.remove(u as int));
                    assert forall|a: int, b: int| 0 <= a < g.len() && 0 <= b < g.len() && a != b implies disjoint(
                        #[trigger] g[a],
                        #[trigger] g[b],
                    ) by {
                        let aa = if a < u { a } else { a + 1 };
                        let bb = if b < u { b } else { b + 1 };
                        assert(disjoint(used[aa], used[bb]));
                    }
                    assert forall|a: int, b: int| 0 <= a < free.len() && 0 <= b < g.len() implies disjoint(
                        #[trigger] free[a],
                        #[trigger] g[b],
                    ) by {
                        let bb = if b < u { b } else { b + 1 };
                        assert(disjoint(free[a], used[bb]));
                    }
                    assert forall|a: int| 0 <= a < free.len() implies disjoint(s, #[trigger] free[a]) by {
                        assert(disjoint(free[a], used[u as int]));
                    }
                    assert forall|b: int| 0 <= b < g.len() implies disjoint(s, #[trigger] g[b]) by {
                        let bb = if b < u { b } else { b + 1 };
                        assert(disjoint(used[u as int], used[bb]));
                    }
                    assert forall|v: int| 0 <= v < used.len() && (#[trigger] used[v]).addr + SLOT_SIZE == ptr implies v
                        == u by {
                        if v != u {
                            assert(disjoint(used[v], used[u as int]));
                        }
                    }
                }
                blocks.insert(s);
                proof {
                    removed = Some(u as int);
                    assert(blocks.used@ == used.remove(u as int));
                    assert(used == old(self).used_blocks());
                }
            },
        }
        self.blocks = blocks;
        proof {
            use_type_invariant(&*self);
            let ou = old(self).used_blocks();
            let fin = self.used_blocks();
            assert(removed matches Some(u) ==> 0 <= u < ou.len() && ou[u].addr + SLOT_SIZE == ptr && fin == ou.remove(u));
            assert(removed is None ==> fin == ou);
            assert forall|p: usize, size: nat| p != ptr && old(self).holds(p, size) implies #[trigger] self.holds(p, size) by {
                let v = choose|v: int| 0 <= v < ou.len() && (#[trigger] ou[v]).addr + SLOT_SIZE == p && ou[v].size >= size;
                match removed {
                    Some(u) => {
                        let vv = if v < u { v } else { v - 1 };
                        assert(fin[vv] == ou[v]);
                    },
                    None => {
                        assert(fin[v] == ou[v]);
                    },
                }
            }
        }
    }

    /// The work of [`IAlloc::realloc`]: grows in place, or moves.
    #[verifier::spinoff_prover]
    #[verifier::rlimit(100)]
    fn realloc_blocks(&mut self, ptr: usize, prev_layout: Layout, new_size: usize) -> (r: usize)
        ensures
            r != 0 ==> r + new_size <= usize::MAX,
            r != 0 && prev_layout.align > 0 ==> r % prev_layout.align == 0,
            r == 0 ==> forall|u: int|
                0 <= u < old(self).used_blocks().len() && (#[trigger] old(self).used_blocks()[u]).addr + SLOT_SIZE
                    == ptr ==> u < final(self).used_blocks().len() && final(self).used_blocks()[u].addr == old(
                    self,
                ).used_blocks()[u].addr && final(self).used_blocks()[u].size >= old(self).used_blocks()[u].size,
            final(self).blocks_disjoint(),
            r != 0 ==> {
                &&& r % 8 == 0
                &&& exists|v: int|
                    0 <= v < final(self).used_blocks().len() && (#[trigger] final(self).used_blocks()[v]).addr
                        + SLOT_SIZE == r && final(self).used_blocks()[v].size >= new_size
            },
            r != 0 && r != ptr ==> forall|v: int|
                0 <= v < final(self).used_blocks().len() ==> (#[trigger] final(self).used_blocks()[v]).addr
                    + SLOT_SIZE != ptr,
            r == 0 ==> forall|u: int|
                0 <= u < old(self).used_blocks().len() && (#[trigger] old(self).used_blocks()[u]).addr + SLOT_SIZE
                    == ptr ==> exists|v: int|
                    0 <= v < final(self).used_blocks().len() && (#[trigger] final(self).used_blocks()[v]).addr
                        == old(self).used_blocks()[u].addr,
            forall|u: int|
                0 <= u < old(self).used_blocks().len() && (#[trigger] old(self).used_blocks()[u]).addr + SLOT_SIZE
                    == ptr && old(self).used_blocks()[u].size >= new_size && 0 < new_size <= usize::MAX - 64
                    && spec_slot_align_ok(prev_layout.align) ==> r == ptr,
            (forall|u: int|
                0 <= u < old(self).used_blocks().len() ==> (#[trigger] old(self).used_blocks()[u]).addr + SLOT_SIZE
                    != ptr) ==> r == 0,
            forall|u: int|
                0 <= u < old(self).used_blocks().len() && (#[trigger] old(self).used_blocks()[u]).addr + SLOT_SIZE
                    == ptr && 0 < new_size <= usize::MAX - 64 && spec_slot_align_ok(prev_layout.align) ==> {
                    &&& reach(old(self).free_blocks(), old(self).used_blocks()[u].spec_end()) >= ptr + new_size ==> r
                        == ptr
                    &&& (exists|k: int|
                        0 <= k < old(self).free_blocks().len() && (#[trigger] old(self).free_blocks()[k]).size
                            >= spec_block_size(new_size as int)) ==> r != 0
                },
            forall|v: int|
                0 <= v < old(self).used_blocks().len() && (#[trigger] old(self).used_blocks()[v]).addr + SLOT_SIZE
                    != ptr ==> final(self).used_blocks().contains(old(self).used_blocks()[v]),
            r == 0 ==> forall|u: int|
                0 <= u < old(self).used_blocks().len() && (#[trigger] old(self).used_blocks()[u]).addr + SLOT_SIZE
                    == ptr ==> u < final(self).used_blocks().len() && covered_by(
                    old(self).free_blocks().push(old(self).used_blocks()[u]),
                    final(self).free_blocks().push(final(self).used_blocks()[u]),
                ),
    {
        proof {
            use_type_invariant(&*self);
        }
        proof {
            assert forall|u: int| 0 <= u < old(self).used_blocks().len() implies covered_by(
                #[trigger] old(self).free_blocks().push(old(self).used_blocks()[u]),
                old(self).free_blocks().push(old(self).used_blocks()[u]),
            ) by {
                lemma_covered_by_refl(old(self).free_blocks().push(old(self).used_blocks()[u]));
            }
        }
        if new_size == 0 || ptr < SLOT_SIZE || new_size > usize::MAX - 64 || !slot_align_ok(prev_layout.align) {
            return 0;
        }
        proof {
            lemma_next_multiple(new_size as int, 8);
        }
        let mut blocks = Blocks::new();
        core::mem::swap(&mut blocks, &mut self.blocks);
        let u = match blocks.find_used(ptr - SLOT_SIZE) {
            None => {
                self.blocks = blocks;
                proof {
                    use_type_invariant(&*self);
                }
                return 0;
            },
            Some(u) => u,
        };
        let ghost used = blocks.used@;
        proof {
            assert(old(self).used_blocks()[u as int].addr + SLOT_SIZE == ptr);
            assert forall|v: int| 0 <= v < used.len() && (#[trigger] used[v]).addr + SLOT_SIZE == ptr implies v == u by {
                if v != u {
                    assert(disjoint(used[v], used[u as int]));
                }
            }
        }
        let ghost free0 = blocks.free@;
        let extended = blocks.try_extend(u, new_size);
        self.blocks = blocks;
        match extended {
            Ok(()) => {
                proof {
                    use_type_invariant(&*self);
                    assert(self.used_blocks()[u as int].addr + SLOT_SIZE == ptr);
                    assert(ptr % 8 == 0);
                    assert forall|v: int|
                        0 <= v < used.len() && (#[trigger] used[v]).addr + SLOT_SIZE != ptr implies self.used_blocks().contains(
                        used[v],
                    ) by {
                        assert(self.used_blocks()[v] == used[v]);
                    }
                }
                ptr
            },
            Err(()) => {
                let ghost mid = self.used_blocks();
                assert(mid[u as int].addr + SLOT_SIZE == ptr);
                proof {
                    use_type_invariant(&*self);
                    lemma_large_block_kept(free0, used[u as int], self.free_blocks(), mid[u as int], spec_block_size(new_size as int));
                }
                let p = self.allocate_block(Layout { size: new_size, align: prev_layout.align });
                if p != 0 {
                    let ghost after = self.used_blocks();
                    proof {
                        use_type_invariant(&*self);
                        assert(after == mid.push(after.last()));
                        assert(after[u as int] == mid[u as int]);
                        assert(after[after.len() - 1].addr + SLOT_SIZE == p);
                        assert forall|v: int| 0 <= v < after.len() && (#[trigger] after[v]).addr + SLOT_SIZE == ptr implies v
                            == u by {
                            if v != u {
                                assert(disjoint(after[v], after[u as int]));
                            }
                        }
                    }
                    self.free_block(ptr);
                    proof {
                        let fin = self.used_blocks();
                        assert(fin == after.remove(u as int));
                        assert(fin[fin.len() - 1] == after[after.len() - 1]);
                        assert forall|v: int| 0 <= v < fin.len() implies (#[trigger] fin[v]).addr + SLOT_SIZE != ptr by {
                            let vv = if v < u { v } else { v + 1 };
                            assert(fin[v] == after[vv]);
                        }
                        assert forall|v: int|
                            0 <= v < used.len() && (#[trigger] used[v]).addr + SLOT_SIZE != ptr implies fin.contains(
                            used[v],
                        ) by {
                            let vv = if v < u { v } else { v - 1 };
                            assert(fin[vv] == after[v]);
                            assert(after[v] == mid[v]);
                        }
                    }
                } else {
                    proof {
                        assert(self.used_blocks()[u as int].addr + SLOT_SIZE == ptr);
                        assert forall|v: int|
                            0 <= v < used.len() && (#[trigger] used[v]).addr + SLOT_SIZE != ptr implies self.used_blocks().contains(
                            used[v],
                        ) by {
                            assert(self.used_blocks()[v] == used[v]);
                        }
                    }
                }
                p
            },
        }
    }
}

} // verus!
