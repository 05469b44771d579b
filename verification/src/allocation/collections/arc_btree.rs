//! A B-tree set (and a map built on it) whose nodes are rebuilt along the
//! path of every insertion.
use vstd::prelude::*;

verus! {

/// Items stored in an [`ArcBTreeSet`]: they are ordered by an integer key.
pub trait BTreeKey {
    /// The key by which the item is ordered and found.
    spec fn spec_key(&self) -> u64;

    /// Returns the key of the item.
    fn key(&self) -> (k: u64)
        ensures
            k == self.spec_key(),
    ;
}

impl BTreeKey for u64 {
    open spec fn spec_key(&self) -> u64 {
        *self
    }

    fn key(&self) -> (k: u64) {
        *self
    }
}

/// An entry of a node: a value, and the subtree of the values smaller than it.
pub struct ArcBTreeSetEntry<T> {
    /// The subtree of the values smaller than `value`.
    pub smaller: Option<ArcBTreeSetNode<T>>,
    /// The value.
    pub value: T,
}

/// The contents of a node.
pub struct ArcBTreeSetNodeInner<T> {
    /// The entries, in increasing order.
    pub entries: Vec<ArcBTreeSetEntry<T>>,
    /// The subtree of the values greater than every entry.
    pub greater: Option<ArcBTreeSetNode<T>>,
}

/// A node of the tree, owning its contents.
pub struct ArcBTreeSetNode<T>(pub Box<ArcBTreeSetNodeInner<T>>);

/// The in-order sequence of the values of a node.
pub open spec fn node_view<T>(n: ArcBTreeSetNodeInner<T>) -> Seq<T>
    decreases n,
{
    entries_view(n.entries@) + opt_view(n.greater)
}

/// The in-order sequence of the values of a run of entries.
pub open spec fn entries_view<T>(es: Seq<ArcBTreeSetEntry<T>>) -> Seq<T>
    decreases es,
{
    if es.len() == 0 {
        Seq::empty()
    } else {
        entries_view(es.subrange(0, es.len() - 1)) + opt_view(es[es.len() - 1].smaller) + seq![
            es[es.len() - 1].value,
        ]
    }
}

/// The in-order sequence of the values of an optional subtree.
pub open spec fn opt_view<T>(o: Option<ArcBTreeSetNode<T>>) -> Seq<T>
    decreases o,
{
    match o {
        Some(b) => node_view(*b.0),
        None => Seq::empty(),
    }
}

/// What a single entry contributes to the view.
pub open spec fn entry_view<T>(e: ArcBTreeSetEntry<T>) -> Seq<T> {
    opt_view(e.smaller) + seq![e.value]
}

/// The keys of the sequence strictly increase.
pub open spec fn sorted_by_key<T: BTreeKey>(s: Seq<T>) -> bool {
    forall|i: int, j: int| 0 <= i < j < s.len() ==> s[i].spec_key() < s[j].spec_key()
}

/// Some item of the sequence has key `k`.
pub open spec fn has_key<T: BTreeKey>(s: Seq<T>, k: u64) -> bool {
    exists|i: int| 0 <= i < s.len() && s[i].spec_key() == k
}

/// `p` splits `s` into the items whose key is below `k` and the others.
pub open spec fn splits_at<T: BTreeKey>(s: Seq<T>, k: u64, p: int) -> bool {
    &&& 0 <= p <= s.len()
    &&& forall|i: int| 0 <= i < p ==> s[i].spec_key() < k
    &&& forall|i: int| p <= i < s.len() ==> s[i].spec_key() >= k
}

/// The number of items whose key is below `k`, in a sorted sequence.
pub open spec fn lower_bound<T: BTreeKey>(s: Seq<T>, k: u64) -> int {
    choose|p: int| splits_at(s, k, p)
}

/// `s` with `v` inserted at index `p`.
pub open spec fn insert_at<T>(s: Seq<T>, p: int, v: T) -> Seq<T> {
    s.subrange(0, p) + seq![v] + s.subrange(p, s.len() as int)
}

/// What inserting `v` into the sorted sequence `s` gives: `v` replaces the item
/// with its key if there is one, and is placed in order otherwise.
pub open spec fn insert_sorted<T: BTreeKey>(s: Seq<T>, v: T) -> Seq<T> {
    if has_key(s, v.spec_key()) {
        s.update(lower_bound(s, v.spec_key()), v)
    } else {
        insert_at(s, lower_bound(s, v.spec_key()), v)
    }
}

proof fn lemma_entries_view_concat<T>(a: Seq<ArcBTreeSetEntry<T>>, b: Seq<ArcBTreeSetEntry<T>>)
    ensures
        entries_view(a + b) == entries_view(a) + entries_view(b),
    decreases b.len(),
{
    if b.len() == 0 {
        assert(a + b =~= a);
        assert(entries_view(a) + entries_view(b) =~= entries_view(a));
    } else {
        let ab = a + b;
        let b1 = b.subrange(0, b.len() - 1);
        assert(ab.subrange(0, ab.len() - 1) =~= a + b1);
        assert(ab[ab.len() - 1] == b[b.len() - 1]);
        lemma_entries_view_concat(a, b1);
        assert(entries_view(ab) =~= entries_view(a) + entries_view(b));
    }
}

proof fn lemma_entries_view_single<T>(e: ArcBTreeSetEntry<T>)
    ensures
        entries_view(seq![e]) == entry_view(e),
{
    let s = seq![e];
    assert(s.subrange(0, 0).len() == 0);
    assert(entries_view(s.subrange(0, 0)) == Seq::<T>::empty());
    assert(s[0] == e);
    assert(entries_view(s) =~= entry_view(e));
}

/// The view of a run of entries, cut at entry `i`.
proof fn lemma_entries_view_split<T>(es: Seq<ArcBTreeSetEntry<T>>, i: int)
    requires
        0 <= i < es.len(),
    ensures
        entries_view(es) == entries_view(es.subrange(0, i)) + entry_view(es[i]) + entries_view(
            es.subrange(i + 1, es.len() as int),
        ),
{
    let a = es.subrange(0, i);
    let c = es.subrange(i + 1, es.len() as int);
    assert(es =~= a + seq![es[i]] + c);
    lemma_entries_view_concat(a + seq![es[i]], c);
    lemma_entries_view_concat(a, seq![es[i]]);
    lemma_entries_view_single(es[i]);
}

proof fn lemma_sorted_subrange<T: BTreeKey>(s: Seq<T>, a: int, b: int)
    requires
        sorted_by_key(s),
        0 <= a <= b <= s.len(),
    ensures
        sorted_by_key(s.subrange(a, b)),
{
}

/// In a sorted sequence only one split point exists, and it is the lower bound.
proof fn lemma_lower_bound_is<T: BTreeKey>(s: Seq<T>, k: u64, p: int)
    requires
        splits_at(s, k, p),
    ensures
        lower_bound(s, k) == p,
{
    let q = lower_bound(s, k);
    assert(splits_at(s, k, q));
    if q < p {
        assert(s[q].spec_key() < k);
    } else if q > p {
        assert(s[p].spec_key() < k);
    }
}

/// Sorted sequences always have a lower bound; when the key is present it is its index.
proof fn lemma_lower_bound_exists<T: BTreeKey>(s: Seq<T>, k: u64)
    requires
        sorted_by_key(s),
    ensures
        splits_at(s, k, lower_bound(s, k)),
        has_key(s, k) ==> s[lower_bound(s, k)].spec_key() == k,
    decreases s.len(),
{
    if s.len() == 0 {
        assert(splits_at(s, k, 0));
    } else {
        let t = s.subrange(0, s.len() - 1);
        lemma_lower_bound_exists(t, k);
        let q = lower_bound(t, k);
        if s[s.len() - 1].spec_key() < k {
            assert(splits_at(s, k, s.len() as int));
        } else {
            assert(splits_at(s, k, q)) by {
                assert forall|i: int| q <= i < s.len() implies s[i].spec_key() >= k by {
                    if i < s.len() - 1 {
                        assert(s[i] == t[i]);
                    }
                }
                assert forall|i: int| 0 <= i < q implies s[i].spec_key() < k by {
                    assert(s[i] == t[i]);
                }
            }
        }
    }
    let p = lower_bound(s, k);
    if has_key(s, k) {
        let j = choose|j: int| 0 <= j < s.len() && s[j].spec_key() == k;
        if j > p {
            assert(s[p].spec_key() < s[j].spec_key());
        }
    }
}

/// Inserting an absent key at its lower bound keeps the sequence sorted.
pub proof fn lemma_insert_at_lower_bound_sorted<T: BTreeKey>(s: Seq<T>, v: T)
    requires
        sorted_by_key(s),
        !has_key(s, v.spec_key()),
    ensures
        sorted_by_key(insert_at(s, lower_bound(s, v.spec_key()), v)),
        insert_at(s, lower_bound(s, v.spec_key()), v).len() == s.len() + 1,
{
    let k = v.spec_key();
    lemma_lower_bound_exists(s, k);
    let p = lower_bound(s, k);
    let r = insert_at(s, p, v);
    assert(r.len() == s.len() + 1);
    assert forall|i: int, j: int| 0 <= i < j < r.len() implies r[i].spec_key() < r[j].spec_key() by {
        if j < p {
            assert(r[i] == s[i] && r[j] == s[j]);
        } else if j == p {
            assert(r[i] == s[i] && r[j] == v);
        } else if i < p {
            assert(r[i] == s[i] && r[j] == s[j - 1]);
            assert(s[j - 1].spec_key() != k);
        } else if i == p {
            assert(r[i] == v && r[j] == s[j - 1]);
            assert(s[j - 1].spec_key() != k);
        } else {
            assert(r[i] == s[i - 1] && r[j] == s[j - 1]);
        }
    }
}

/// Replacing an item by one with the same key keeps the sequence sorted.
pub proof fn lemma_update_same_key_sorted<T: BTreeKey>(s: Seq<T>, p: int, v: T)
    requires
        sorted_by_key(s),
        0 <= p < s.len(),
        s[p].spec_key() == v.spec_key(),
    ensures
        sorted_by_key(s.update(p, v)),
{
    let r = s.update(p, v);
    assert forall|i: int, j: int| 0 <= i < j < r.len() implies r[i].spec_key() < r[j].spec_key() by {
        assert(r[i].spec_key() == s[i].spec_key());
        assert(r[j].spec_key() == s[j].spec_key());
    }
}

/// The result of inserting into a sorted sequence is sorted.
pub proof fn lemma_insert_sorted_sorted<T: BTreeKey>(s: Seq<T>, v: T)
    requires
        sorted_by_key(s),
    ensures
        sorted_by_key(insert_sorted(s, v)),
{
    let k = v.spec_key();
    lemma_lower_bound_exists(s, k);
    if has_key(s, k) {
        lemma_update_same_key_sorted(s, lower_bound(s, k), v);
    } else {
        lemma_insert_at_lower_bound_sorted(s, v);
    }
}

/// When the items of a sorted sequence that lie outside a middle run are below
/// or above `k`, finding and inserting `k` only concerns the middle run.
proof fn lemma_lower_bound_middle<T: BTreeKey>(a: Seq<T>, m: Seq<T>, c: Seq<T>, k: u64, v: T)
    requires
        sorted_by_key(a + m + c),
        forall|j: int| 0 <= j < a.len() ==> a[j].spec_key() < k,
        forall|j: int| 0 <= j < c.len() ==> c[j].spec_key() > k,
    ensures
        sorted_by_key(m),
        has_key(a + m + c, k) <==> has_key(m, k),
        lower_bound(a + m + c, k) == a.len() + lower_bound(m, k),
        0 <= lower_bound(m, k) <= m.len(),
        insert_at(a + m + c, a.len() + lower_bound(m, k), v) == a + insert_at(m, lower_bound(m, k), v) + c,
        has_key(m, k) ==> lower_bound(m, k) < m.len() && (a + m + c).update(a.len() + lower_bound(m, k), v) == a + m.update(lower_bound(m, k), v) + c,
        has_key(m, k) ==> (a + m + c)[a.len() + lower_bound(m, k)] == m[lower_bound(m, k)],
{
    let s = a + m + c;
    assert(m =~= s.subrange(a.len() as int, (a.len() + m.len()) as int));
    lemma_sorted_subrange(s, a.len() as int, (a.len() + m.len()) as int);
    lemma_lower_bound_exists(m, k);
    let q = lower_bound(m, k);
    let p = a.len() + q;
    assert(splits_at(s, k, p)) by {
        assert forall|j: int| 0 <= j < p implies s[j].spec_key() < k by {
            if j < a.len() {
                assert(s[j] == a[j]);
            } else {
                assert(s[j] == m[j - a.len()]);
            }
        }
        assert forall|j: int| p <= j < s.len() implies s[j].spec_key() >= k by {
            if j < a.len() + m.len() {
                assert(s[j] == m[j - a.len()]);
            } else {
                assert(s[j] == c[j - a.len() - m.len()]);
            }
        }
    }
    lemma_lower_bound_is(s, k, p);
    if has_key(s, k) {
        let j = choose|j: int| 0 <= j < s.len() && s[j].spec_key() == k;
        if j < a.len() {
            assert(s[j] == a[j]);
        } else if j < a.len() + m.len() {
            assert(s[j] == m[j - a.len()]);
        } else {
            assert(s[j] == c[j - a.len() - m.len()]);
        }
    }
    if has_key(m, k) {
        let j = choose|j: int| 0 <= j < m.len() && m[j].spec_key() == k;
        assert(s[j + a.len()] == m[j]);
        assert(s.update(p, v) =~= a + m.update(q, v) + c);
    }
    assert(insert_at(s, p, v) =~= a + insert_at(m, q, v) + c);
}

/// The view of a node, cut at its entry `i`.
proof fn lemma_node_view_at<T>(n: ArcBTreeSetNodeInner<T>, i: int)
    requires
        0 <= i < n.entries@.len(),
    ensures
        node_view(n) == entries_view(n.entries@.subrange(0, i)) + (opt_view(n.entries@[i].smaller)
            + (seq![n.entries@[i].value] + entries_view(n.entries@.subrange(i + 1, n.entries@.len() as int))
            + opt_view(n.greater))),
{
    lemma_entries_view_split(n.entries@, i);
    assert(node_view(n) =~= entries_view(n.entries@.subrange(0, i)) + (opt_view(n.entries@[i].smaller)
        + (seq![n.entries@[i].value] + entries_view(n.entries@.subrange(i + 1, n.entries@.len() as int))
        + opt_view(n.greater))));
}

/// A node without subtrees.
pub open spec fn is_leaf<T>(n: ArcBTreeSetNodeInner<T>) -> bool {
    &&& n.greater is None
    &&& forall|j: int| 0 <= j < n.entries@.len() ==> (#[trigger] n.entries@[j]).smaller is None
}

/// The shape of a B-tree of height `h`: every node holds at least one and fewer
/// than `limit` entries, and every subtree of a node of height `h + 1` is there
/// and has height `h`, so that all leaves lie at the same depth.
pub open spec fn shaped<T>(n: ArcBTreeSetNodeInner<T>, h: nat, limit: nat) -> bool
    decreases n, 2nat,
{
    &&& 1 <= n.entries@.len() < limit
    &&& kids_shaped(n, h, limit)
}

/// The subtrees of a node of height `h` have the shape of B-trees of height
/// `h - 1`; a node of height 0 is a leaf.
pub open spec fn kids_shaped<T>(n: ArcBTreeSetNodeInner<T>, h: nat, limit: nat) -> bool
    decreases n, 1nat,
{
    if h == 0 {
        is_leaf(n)
    } else {
        &&& opt_shaped(n.greater, (h - 1) as nat, limit)
        &&& forall|j: int|
            0 <= j < n.entries@.len() ==> opt_shaped((#[trigger] n.entries@[j]).smaller, (h - 1) as nat, limit)
    }
}

/// A subtree that is there and has the shape of a B-tree of height `h`.
pub open spec fn opt_shaped<T>(o: Option<ArcBTreeSetNode<T>>, h: nat, limit: nat) -> bool
    decreases o, 0nat,
{
    match o {
        Some(c) => shaped(*c.0, h, limit),
        None => false,
    }
}

/// What a subtree handed to a node of height `h` must be: absent at height 0,
/// of height `h - 1` above.
pub open spec fn fits_at<T>(o: Option<ArcBTreeSetNode<T>>, h: nat, limit: nat) -> bool {
    if h == 0 {
        o is None
    } else {
        opt_shaped(o, (h - 1) as nat, limit)
    }
}

/// An insertion into a node of height `h` leaves it of height `h`, and so is the
/// right half it split off, if it split.
pub open spec fn shape_kept<T>(
    before: ArcBTreeSetNodeInner<T>,
    h: nat,
    limit: nat,
    r: Result<(ArcBTreeSetNode<T>, T), Option<T>>,
    after: ArcBTreeSetNodeInner<T>,
) -> bool {
    shaped(before, h, limit) ==> shaped(after, h, limit) && (r matches Ok((right, _)) ==> shaped(*right.0, h, limit))
}

/// Giving entry `i` of a node of height `h > 0` another subtree of height `h - 1`
/// keeps the shape of its subtrees.
proof fn lemma_kids_replace<T>(
    old_n: ArcBTreeSetNodeInner<T>,
    new_n: ArcBTreeSetNodeInner<T>,
    i: int,
    h: nat,
    limit: nat,
)
    requires
        kids_shaped(old_n, h, limit),
        h > 0,
        0 <= i < old_n.entries@.len(),
        new_n.entries@.len() == old_n.entries@.len(),
        forall|j: int| 0 <= j < old_n.entries@.len() && j != i ==> new_n.entries@[j] == old_n.entries@[j],
        opt_shaped(new_n.entries@[i].smaller, (h - 1) as nat, limit),
        opt_shaped(new_n.greater, (h - 1) as nat, limit),
    ensures
        kids_shaped(new_n, h, limit),
{
    assert forall|j: int| 0 <= j < new_n.entries@.len() implies opt_shaped(
        (#[trigger] new_n.entries@[j]).smaller,
        (h - 1) as nat,
        limit,
    ) by {
        if j != i {
            assert(new_n.entries@[j] == old_n.entries@[j]);
        }
    }
}

/// A node that got one more entry, whose subtrees are those of the node and the
/// subtree `greater` that fits at its height, keeps its subtrees' shape.
proof fn lemma_kids_grow<T>(
    old_n: ArcBTreeSetNodeInner<T>,
    new_n: ArcBTreeSetNodeInner<T>,
    greater: Option<ArcBTreeSetNode<T>>,
    h: nat,
    limit: nat,
)
    requires
        kids_shaped(old_n, h, limit),
        fits_at(greater, h, limit),
        h == 0 ==> new_n.greater is None,
        h > 0 ==> opt_shaped(new_n.greater, (h - 1) as nat, limit),
        forall|j: int|
            0 <= j < new_n.entries@.len() ==> (#[trigger] new_n.entries@[j]).smaller == greater || exists|k: int|
                0 <= k < old_n.entries@.len() && new_n.entries@[j].smaller == (#[trigger] old_n.entries@[k]).smaller
                    || new_n.entries@[j].smaller == old_n.greater,
    ensures
        kids_shaped(new_n, h, limit),
{
    if h == 0 {
        assert forall|j: int| 0 <= j < new_n.entries@.len() implies (#[trigger] new_n.entries@[j]).smaller is None by {
            if new_n.entries@[j].smaller != greater && new_n.entries@[j].smaller != old_n.greater {
                let k = choose|k: int|
                    0 <= k < old_n.entries@.len() && new_n.entries@[j].smaller == (#[trigger] old_n.entries@[k]).smaller;
            }
        }
    } else {
        assert forall|j: int| 0 <= j < new_n.entries@.len() implies opt_shaped(
            (#[trigger] new_n.entries@[j]).smaller,
            (h - 1) as nat,
            limit,
        ) by {
            if new_n.entries@[j].smaller != greater && new_n.entries@[j].smaller != old_n.greater {
                let k = choose|k: int|
                    0 <= k < old_n.entries@.len() && new_n.entries@[j].smaller == (#[trigger] old_n.entries@[k]).smaller;
            }
        }
    }
}

/// How an insertion that reached a node of `before` entries changes its number
/// of entries, `after`: the node splits only when one more entry makes
/// `SPLIT_LIMIT` of them, into halves of `SPLIT_LIMIT / 2` and
/// `SPLIT_LIMIT - SPLIT_LIMIT / 2 - 1` entries; otherwise it keeps its entries,
/// or takes one more while staying below `SPLIT_LIMIT`.
pub open spec fn entry_count_after<T>(
    before: nat,
    limit: nat,
    r: Result<(ArcBTreeSetNode<T>, T), Option<T>>,
    after: nat,
) -> bool {
    match r {
        Ok((right, _)) => {
            &&& before + 1 == limit
            &&& after == limit / 2
            &&& right.0.entries@.len() == limit - limit / 2 - 1
        },
        Err(_) => after == before || (after == before + 1 && after != limit),
    }
}

/// An insertion into a leaf leaves leaves: the node and, if it split, its right half.
pub open spec fn leaf_kept<T>(
    before: ArcBTreeSetNodeInner<T>,
    r: Result<(ArcBTreeSetNode<T>, T), Option<T>>,
    after: ArcBTreeSetNodeInner<T>,
) -> bool {
    is_leaf(before) ==> is_leaf(after) && (r matches Ok((right, _)) ==> is_leaf(*right.0))
}

impl<T: BTreeKey> ArcBTreeSetNodeInner<T> {
    /// The in-order sequence of the values of this node.
    pub open spec fn spec_view(&self) -> Seq<T> {
        node_view(*self)
    }

    /// Splits the node in two around its middle entry once it holds `SPLIT_LIMIT`
    /// entries; returns the right half and the middle value.
    fn split<const SPLIT_LIMIT: usize>(&mut self) -> (r: Option<(ArcBTreeSetNode<T>, T)>)
        requires
            SPLIT_LIMIT % 2 == 1,
        ensures
            match r {
                None => *final(self) == *old(self) && old(self).entries@.len() != SPLIT_LIMIT,
                Some((right, pivot)) => {
                    &&& old(self).entries@.len() == SPLIT_LIMIT
                    &&& node_view(*old(self)) == node_view(*final(self)) + seq![pivot] + node_view(*right.0)
                    &&& final(self).entries@.len() == SPLIT_LIMIT / 2
                    &&& right.0.entries@.len() == SPLIT_LIMIT - SPLIT_LIMIT / 2 - 1
                    &&& is_leaf(*old(self)) ==> is_leaf(*final(self)) && is_leaf(*right.0)
                    &&& forall|h: nat|
                        #[trigger] kids_shaped(*old(self), h, SPLIT_LIMIT as nat) ==> kids_shaped(
                            *final(self),
                            h,
                            SPLIT_LIMIT as nat,
                        ) && kids_shaped(*right.0, h, SPLIT_LIMIT as nat)
                },
            },
    {
        if self.entries.len() == SPLIT_LIMIT {
            let ghost old_self = *self;
            let mid = SPLIT_LIMIT / 2;
            let mut tail = self.entries.split_off(mid);
            let pivot_entry = tail.remove(0);
            let old_greater = self.greater.take();
            let right = ArcBTreeSetNodeInner { entries: tail, greater: old_greater };
            let ArcBTreeSetEntry { smaller, value } = pivot_entry;
            self.greater = smaller;
            proof {
                let es = old_self.entries@;
                lemma_entries_view_split(es, mid as int);
                assert(self.entries@ =~= es.subrange(0, mid as int));
                assert(right.entries@ =~= es.subrange(mid + 1, es.len() as int));
                assert(node_view(old_self) =~= node_view(*self) + seq![value] + node_view(right));
                assert forall|h: nat| #[trigger] kids_shaped(old_self, h, SPLIT_LIMIT as nat) implies kids_shaped(
                    *self,
                    h,
                    SPLIT_LIMIT as nat,
                ) && kids_shaped(right, h, SPLIT_LIMIT as nat) by {
                    if h > 0 {
                        assert(opt_shaped(es[mid as int].smaller, (h - 1) as nat, SPLIT_LIMIT as nat));
                        assert forall|j: int| 0 <= j < right.entries@.len() implies opt_shaped(
                            (#[trigger] right.entries@[j]).smaller,
                            (h - 1) as nat,
                            SPLIT_LIMIT as nat,
                        ) by {
                            assert(right.entries@[j] == es[mid + 1 + j]);
                        }
                        assert forall|j: int| 0 <= j < self.entries@.len() implies opt_shaped(
                            (#[trigger] self.entries@[j]).smaller,
                            (h - 1) as nat,
                            SPLIT_LIMIT as nat,
                        ) by {
                            assert(self.entries@[j] == es[j]);
                        }
                    }
                }
            }
            Some((ArcBTreeSetNode(Box::new(right)), value))
        } else {
            None
        }
    }

    /// Inserts `value` as entry `i`, with the smaller subtree of the former entry
    /// `i`; the former entry `i` keeps its value and gets `greater` as its smaller
    /// subtree. Splits the node if it is full.
    #[verifier::spinoff_prover]
    #[verifier::rlimit(40)]
    fn insert<const SPLIT_LIMIT: usize>(
        &mut self,
        i: usize,
        value: T,
        greater: Option<ArcBTreeSetNode<T>>,
    ) -> (r: Option<(ArcBTreeSetNode<T>, T)>)
        requires
            i < old(self).entries@.len(),
            SPLIT_LIMIT % 2 == 1,
        ensures
            ({
                let es = old(self).entries@;
                let combined = entries_view(es.subrange(0, i as int)) + (opt_view(es[i as int].smaller)
                    + (seq![value] + opt_view(greater) + (seq![es[i as int].value] + entries_view(
                    es.subrange(i + 1, es.len() as int)) + opt_view(old(self).greater))));
                match r {
                    None => node_view(*final(self)) == combined,
                    Some((right, pivot)) => node_view(*final(self)) + seq![pivot] + node_view(*right.0)
                        == combined,
                }
            }),
            match r {
                None => final(self).entries@.len() == old(self).entries@.len() + 1 && final(self).entries@.len() != SPLIT_LIMIT,
                Some((right, _)) => {
                    &&& old(self).entries@.len() + 1 == SPLIT_LIMIT
                    &&& final(self).entries@.len() == SPLIT_LIMIT / 2
                    &&& right.0.entries@.len() == SPLIT_LIMIT - SPLIT_LIMIT / 2 - 1
                },
            },
            is_leaf(*old(self)) && greater is None ==> is_leaf(*final(self)) && (r matches Some((right, _))
                ==> is_leaf(*right.0)),
            forall|h: nat|
                #![trigger kids_shaped(*old(self), h, SPLIT_LIMIT as nat)]
                kids_shaped(*old(self), h, SPLIT_LIMIT as nat) && fits_at(greater, h, SPLIT_LIMIT as nat) ==> {
                    &&& kids_shaped(*final(self), h, SPLIT_LIMIT as nat)
                    &&& r matches Some((right, _)) ==> kids_shaped(*right.0, h, SPLIT_LIMIT as nat)
                },
    {
        let ghost es = self.entries@;
        let ghost g0 = greater;
        let old_entry = self.entries.remove(i);
        let ArcBTreeSetEntry { smaller, value: vi } = old_entry;
        self.entries.insert(i, ArcBTreeSetEntry { smaller: greater, value: vi });
        self.entries.insert(i, ArcBTreeSetEntry { smaller, value });
        proof {
            let ne = self.entries@;
            lemma_entries_view_split(ne, i as int);
            lemma_entries_view_split(ne.subrange(i + 1, ne.len() as int), 0);
            assert(ne.subrange(0, i as int) =~= es.subrange(0, i as int));
            assert(ne.subrange(i + 1, ne.len() as int).subrange(0, 0).len() == 0);
            assert(ne.subrange(i + 1, ne.len() as int).subrange(1, ne.len() - i - 1) =~= es.subrange(i + 1, es.len() as int));
            assert(node_view(*self) =~= entries_view(es.subrange(0, i as int)) + (opt_view(es[i as int].smaller)
                + (seq![value] + opt_view(greater) + (seq![es[i as int].value] + entries_view(
                es.subrange(i + 1, es.len() as int)) + opt_view(self.greater)))));
            assert forall|j: int| 0 <= j < ne.len() implies (#[trigger] ne[j]).smaller == g0 || exists|k: int|
                0 <= k < es.len() && ne[j].smaller == (#[trigger] es[k]).smaller || ne[j].smaller == old(self).greater by {
                if j < i {
                    assert(ne[j] == es[j]);
                } else if j == i {
                    assert(ne[j].smaller == es[i as int].smaller);
                } else if j > i + 1 {
                    assert(ne[j] == es[j - 1]);
                }
            }
            assert forall|h: nat|
                #![trigger kids_shaped(*old(self), h, SPLIT_LIMIT as nat)]
                kids_shaped(*old(self), h, SPLIT_LIMIT as nat) && fits_at(g0, h, SPLIT_LIMIT as nat) implies kids_shaped(
                *self,
                h,
                SPLIT_LIMIT as nat,
            ) by {
                lemma_kids_grow(*old(self), *self, g0, h, SPLIT_LIMIT as nat);
            }
        }
        self.split::<SPLIT_LIMIT>()
    }

    /// Appends `value` as the last entry, with the former greater subtree as its
    /// smaller subtree, and makes `greater` the greater subtree. Splits the node if
    /// it is full.
    fn push<const SPLIT_LIMIT: usize>(&mut self, value: T, greater: Option<ArcBTreeSetNode<T>>) -> (r:
        Option<(ArcBTreeSetNode<T>, T)>)
        requires
            SPLIT_LIMIT % 2 == 1,
        ensures
            ({
                let combined = node_view(*old(self)) + seq![value] + opt_view(greater);
                match r {
                    None => node_view(*final(self)) == combined,
                    Some((right, pivot)) => node_view(*final(self)) + seq![pivot] + node_view(*right.0)
                        == combined,
                }
            }),
            match r {
                None => final(self).entries@.len() == old(self).entries@.len() + 1 && final(self).entries@.len() != SPLIT_LIMIT,
                Some((right, _)) => {
                    &&& old(self).entries@.len() + 1 == SPLIT_LIMIT
                    &&& final(self).entries@.len() == SPLIT_LIMIT / 2
                    &&& right.0.entries@.len() == SPLIT_LIMIT - SPLIT_LIMIT / 2 - 1
                },
            },
            is_leaf(*old(self)) && greater is None ==> is_leaf(*final(self)) && (r matches Some((right, _))
                ==> is_leaf(*right.0)),
            forall|h: nat|
                #![trigger kids_shaped(*old(self), h, SPLIT_LIMIT as nat)]
                kids_shaped(*old(self), h, SPLIT_LIMIT as nat) && fits_at(greater, h, SPLIT_LIMIT as nat) ==> {
                    &&& kids_shaped(*final(self), h, SPLIT_LIMIT as nat)
                    &&& r matches Some((right, _)) ==> kids_shaped(*right.0, h, SPLIT_LIMIT as nat)
                },
    {
        let ghost es = self.entries@;
        let ghost g0 = greater;
        let old_greater = self.greater.take();
        self.entries.push(ArcBTreeSetEntry { smaller: old_greater, value });
        self.greater = greater;
        proof {
            let ne = self.entries@;
            lemma_entries_view_split(ne, es.len() as int);
            assert(ne.subrange(0, es.len() as int) =~= es);
            assert(ne.subrange((es.len() + 1) as int, ne.len() as int).len() == 0);
            assert(node_view(*self) =~= node_view(*old(self)) + seq![value] + opt_view(greater));
            assert forall|j: int| 0 <= j < ne.len() implies (#[trigger] ne[j]).smaller == g0 || exists|k: int|
                0 <= k < es.len() && ne[j].smaller == (#[trigger] es[k]).smaller || ne[j].smaller == old(self).greater by {
                if j < es.len() {
                    assert(ne[j] == es[j]);
                }
            }
            assert forall|h: nat|
                #![trigger kids_shaped(*old(self), h, SPLIT_LIMIT as nat)]
                kids_shaped(*old(self), h, SPLIT_LIMIT as nat) && fits_at(g0, h, SPLIT_LIMIT as nat) implies kids_shaped(
                *self,
                h,
                SPLIT_LIMIT as nat,
            ) by {
                lemma_kids_grow(*old(self), *self, g0, h, SPLIT_LIMIT as nat);
            }
        }
        self.split::<SPLIT_LIMIT>()
    }
}

/// Every key of an in-order view sits between the keys of its neighbours: the
/// keys of the items before entry `i`'s value are below it.
proof fn lemma_prefix_step<T: BTreeKey>(n: ArcBTreeSetNodeInner<T>, i: int, k: u64)
    requires
        0 <= i < n.entries@.len(),
        sorted_by_key(node_view(n)),
        n.entries@[i].value.spec_key() < k,
        forall|j: int| 0 <= j < entries_view(n.entries@.subrange(0, i)).len() ==> node_view(n)[j].spec_key() < k,
    ensures
        forall|j: int| 0 <= j < entries_view(n.entries@.subrange(0, i + 1)).len() ==> node_view(n)[j].spec_key() < k,
{
    let es = n.entries@;
    let v = node_view(n);
    lemma_node_view_at(n, i);
    let pre = entries_view(es.subrange(0, i));
    let sm = opt_view(es[i].smaller);
    let p: int = (pre.len() + sm.len()) as int;
    assert(v[p] == es[i].value);
    lemma_entries_view_concat(es.subrange(0, i), seq![es[i]]);
    lemma_entries_view_single(es[i]);
    assert(es.subrange(0, i + 1) =~= es.subrange(0, i) + seq![es[i]]);
    assert forall|j: int| 0 <= j < entries_view(es.subrange(0, i + 1)).len() implies v[j].spec_key() < k by {
        if j >= pre.len() && j < p {
            assert(v[j].spec_key() < v[p].spec_key());
        }
    }
}

/// A measure of a node: the number of nodes and values under it.
pub open spec fn node_size<T>(n: ArcBTreeSetNodeInner<T>) -> nat
    decreases n,
{
    1 + entries_size(n.entries@) + opt_size(n.greater)
}

/// The number of nodes and values under a run of entries.
pub open spec fn entries_size<T>(es: Seq<ArcBTreeSetEntry<T>>) -> nat
    decreases es,
{
    if es.len() == 0 {
        0
    } else {
        entries_size(es.subrange(0, es.len() - 1)) + opt_size(es[es.len() - 1].smaller) + 1
    }
}

/// The number of nodes and values under an optional subtree.
pub open spec fn opt_size<T>(o: Option<ArcBTreeSetNode<T>>) -> nat
    decreases o,
{
    match o {
        Some(b) => node_size(*b.0),
        None => 0,
    }
}

proof fn lemma_entries_size_bound<T>(es: Seq<ArcBTreeSetEntry<T>>, i: int)
    requires
        0 <= i < es.len(),
    ensures
        opt_size(es[i].smaller) < entries_size(es),
    decreases es.len(),
{
    if i < es.len() - 1 {
        let t = es.subrange(0, es.len() - 1);
        assert(t[i] == es[i]);
        lemma_entries_size_bound(t, i);
    }
}

/// What an insertion into a node of view `s` must give, `after` being the view
/// of the node afterwards.
pub open spec fn insert_result<T: BTreeKey>(
    s: Seq<T>,
    value: T,
    r: Result<(ArcBTreeSetNode<T>, T), Option<T>>,
    after: Seq<T>,
) -> bool {
    let k = value.spec_key();
    let lb = lower_bound(s, k);
    match r {
        Err(Some(previous)) => {
            &&& has_key(s, k)
            &&& previous == s[lb]
            &&& after == s.update(lb, value)
        },
        Err(None) => !has_key(s, k) && after == insert_at(s, lb, value),
        Ok((right, pivot)) => {
            &&& !has_key(s, k)
            &&& after + seq![pivot] + node_view(*right.0) == insert_at(s, lb, value)
        },
    }
}

/// The facts about the view of a node around entry `i` that an insertion of key
/// `k` at that entry relies on.
proof fn lemma_entry_slot<T: BTreeKey>(n: ArcBTreeSetNodeInner<T>, i: int, k: u64)
    requires
        0 <= i < n.entries@.len(),
        sorted_by_key(node_view(n)),
        forall|j: int| 0 <= j < entries_view(n.entries@.subrange(0, i)).len() ==> node_view(n)[j].spec_key() < k,
        n.entries@[i].value.spec_key() >= k,
    ensures
        ({
            let es = n.entries@;
            let pre = entries_view(es.subrange(0, i));
            let sm = opt_view(es[i].smaller);
            let vi = es[i].value;
            let c = entries_view(es.subrange(i + 1, es.len() as int)) + opt_view(n.greater);
            let s = node_view(n);
            &&& s == pre + sm + (seq![vi] + c)
            &&& forall|j: int| 0 <= j < pre.len() ==> pre[j].spec_key() < k
            &&& forall|j: int| 0 <= j < sm.len() ==> sm[j].spec_key() < vi.spec_key()
            &&& forall|j: int| 0 <= j < c.len() ==> c[j].spec_key() > vi.spec_key()
        }),
{
    let es = n.entries@;
    let pre = entries_view(es.subrange(0, i));
    let sm = opt_view(es[i].smaller);
    let vi = es[i].value;
    let c = entries_view(es.subrange(i + 1, es.len() as int)) + opt_view(n.greater);
    let s = node_view(n);
    lemma_node_view_at(n, i);
    assert(s =~= pre + sm + (seq![vi] + c));
    let p: int = (pre.len() + sm.len()) as int;
    assert(s[p] == vi);
    assert forall|j: int| 0 <= j < c.len() implies c[j].spec_key() > vi.spec_key() by {
        assert(s[p + 1 + j] == c[j]);
    }
    assert forall|j: int| 0 <= j < sm.len() implies sm[j].spec_key() < vi.spec_key() by {
        assert(s[pre.len() + j] == sm[j]);
    }
    assert forall|j: int| 0 <= j < pre.len() implies pre[j].spec_key() < k by {
        assert(s[j] == pre[j]);
    }
}

/// After entry `i` of a node got `e` in place of its former self, the view of
/// the node is the former view with the former contribution of entry `i`
/// replaced by the contribution of `e`.
proof fn lemma_entry_replaced<T>(old_n: ArcBTreeSetNodeInner<T>, new_n: ArcBTreeSetNodeInner<T>, i: int)
    requires
        0 <= i < old_n.entries@.len(),
        new_n.entries@ == old_n.entries@.update(i, new_n.entries@[i]),
        new_n.greater == old_n.greater,
    ensures
        node_view(new_n) == entries_view(old_n.entries@.subrange(0, i)) + opt_view(new_n.entries@[i].smaller)
            + (seq![new_n.entries@[i].value] + (entries_view(old_n.entries@.subrange(i + 1, old_n.entries@.len() as int))
            + opt_view(old_n.greater))),
{
    let es = old_n.entries@;
    let ne = new_n.entries@;
    lemma_node_view_at(new_n, i);
    assert(ne.subrange(0, i) =~= es.subrange(0, i));
    assert(ne.subrange(i + 1, ne.len() as int) =~= es.subrange(i + 1, es.len() as int));
    assert(node_view(new_n) =~= entries_view(es.subrange(0, i)) + opt_view(ne[i].smaller) + (seq![ne[i].value] + (
        entries_view(es.subrange(i + 1, es.len() as int)) + opt_view(old_n.greater))));
}

impl<T: BTreeKey> ArcBTreeSetNode<T> {
    /// The in-order sequence of the values of this node.
    pub open spec fn spec_view(&self) -> Seq<T> {
        node_view(*self.0)
    }

    /// The index of the first entry whose key is not below `k`.
    fn find_slot(&self, k: u64) -> (i: usize)
        requires
            sorted_by_key(self.spec_view()),
        ensures
            i <= self.0.entries@.len(),
            forall|j: int|
                0 <= j < entries_view(self.0.entries@.subrange(0, i as int)).len() ==> self.spec_view()[j].spec_key() < k,
            i < self.0.entries@.len() ==> self.0.entries@[i as int].value.spec_key() >= k,
    {
        let n = self.0.entries.len();
        let mut i: usize = 0;
        while i < n && self.0.entries[i].value.key() < k
            invariant
                i <= n,
                n == self.0.entries@.len(),
                sorted_by_key(self.spec_view()),
                forall|j: int|
                    0 <= j < entries_view(self.0.entries@.subrange(0, i as int)).len() ==> self.spec_view()[j].spec_key() < k,
            decreases n - i,
        {
            proof {
                lemma_prefix_step(*self.0, i as int, k);
            }
            i = i + 1;
        }
        i
    }

    /// Inserts `value`, replacing the value of the same key if there is one.
    ///
    /// Returns `Err(Some(previous))` when a value was replaced, `Err(None)` when the
    /// value was added without splitting this node, and `Ok((right, pivot))` when
    /// this node had to split: `self`, `pivot` and `right` then hold, in order, the
    /// values of the node.
    fn insert_inner<const SPLIT_LIMIT: usize>(&mut self, value: T) -> (r: Result<(Self, T), Option<T>>)
        requires
            SPLIT_LIMIT >= 3,
            SPLIT_LIMIT % 2 == 1,
            sorted_by_key(old(self).spec_view()),
        ensures
            insert_result(old(self).spec_view(), value, r, final(self).spec_view()),
            entry_count_after(old(self).0.entries@.len(), SPLIT_LIMIT as nat, r, final(self).0.entries@.len()),
            leaf_kept(*old(self).0, r, *final(self).0),
            forall|h: nat|
                #![trigger shaped(*old(self).0, h, SPLIT_LIMIT as nat)]
                shape_kept(*old(self).0, h, SPLIT_LIMIT as nat, r, *final(self).0),
        decreases node_size(*old(self).0), 2nat,
    {
        let k = value.key();
        let i = self.find_slot(k);
        assert(i == self.0.entries@.len() ==> self.0.entries@.subrange(0, i as int) =~= self.0.entries@);
        if i < self.0.entries.len() {
            self.insert_at_entry::<SPLIT_LIMIT>(i, value)
        } else {
            self.insert_in_greater::<SPLIT_LIMIT>(value)
        }
    }

    /// Inserts `value` at entry `i`, the first entry whose key is not below the
    /// key of `value`.
    fn insert_at_entry<const SPLIT_LIMIT: usize>(&mut self, i: usize, value: T) -> (r: Result<(Self, T), Option<T>>)
        requires
            SPLIT_LIMIT >= 3,
            SPLIT_LIMIT % 2 == 1,
            sorted_by_key(old(self).spec_view()),
            i < old(self).0.entries@.len(),
            forall|j: int|
                0 <= j < entries_view(old(self).0.entries@.subrange(0, i as int)).len() ==> old(self).spec_view()[j].spec_key()
                    < value.spec_key(),
            old(self).0.entries@[i as int].value.spec_key() >= value.spec_key(),
        ensures
            insert_result(old(self).spec_view(), value, r, final(self).spec_view()),
            entry_count_after(old(self).0.entries@.len(), SPLIT_LIMIT as nat, r, final(self).0.entries@.len()),
            leaf_kept(*old(self).0, r, *final(self).0),
            forall|h: nat|
                #![trigger shaped(*old(self).0, h, SPLIT_LIMIT as nat)]
                shape_kept(*old(self).0, h, SPLIT_LIMIT as nat, r, *final(self).0),
        decreases node_size(*old(self).0), 1nat,
    {
        let ki = self.0.entries[i].value.key();
        if ki == value.key() {
            self.replace_at_entry(i, value)
        } else {
            self.insert_before_entry::<SPLIT_LIMIT>(i, value)
        }
    }

    /// Replaces the value of entry `i`, whose key is the key of `value`.
    fn replace_at_entry(&mut self, i: usize, value: T) -> (r: Result<(Self, T), Option<T>>)
        requires
            sorted_by_key(old(self).spec_view()),
            i < old(self).0.entries@.len(),
            forall|j: int|
                0 <= j < entries_view(old(self).0.entries@.subrange(0, i as int)).len() ==> old(self).spec_view()[j].spec_key()
                    < value.spec_key(),
            old(self).0.entries@[i as int].value.spec_key() == value.spec_key(),
        ensures
            insert_result(old(self).spec_view(), value, r, final(self).spec_view()),
            final(self).0.entries@.len() == old(self).0.entries@.len(),
            r is Err,
            leaf_kept(*old(self).0, r, *final(self).0),
            forall|h: nat, limit: nat| #[trigger] shaped(*old(self).0, h, limit) ==> shaped(*final(self).0, h, limit),
    {
        let ghost old_inner = *self.0;
        let ghost es = self.0.entries@;
        let ghost s = self.spec_view();
        let ghost k = value.spec_key();
        let ghost pre = entries_view(es.subrange(0, i as int));
        let ghost sm = opt_view(es[i as int].smaller);
        let ghost vi = es[i as int].value;
        let ghost c = entries_view(es.subrange(i + 1, es.len() as int)) + opt_view(old_inner.greater);
        proof {
            lemma_entry_slot(old_inner, i as int, k);
            lemma_entries_size_bound(es, i as int);
        }
        let entry = self.0.entries.remove(i);
        let ArcBTreeSetEntry { smaller, value: old_value } = entry;
        self.0.entries.insert(i, ArcBTreeSetEntry { smaller, value });
        proof {
            let m = sm + seq![vi];
            assert(s =~= pre + m + c);
            lemma_lower_bound_middle(pre, m, c, k, value);
            assert(splits_at(m, k, sm.len() as int));
            lemma_lower_bound_is(m, k, sm.len() as int);
            assert(m[sm.len() as int].spec_key() == k);
            assert(has_key(m, k));
            assert(self.0.entries@ =~= es.update(i as int, self.0.entries@[i as int]));
            lemma_entry_replaced(old_inner, *self.0, i as int);
            assert(m.update(sm.len() as int, value) =~= sm + seq![value]);
            assert(self.spec_view() =~= pre + m.update(sm.len() as int, value) + c);
        }
        Err(Some(old_value))
    }

    /// Inserts `value` before entry `i`, whose key is above the key of `value`.
    #[verifier::spinoff_prover]
    #[verifier::rlimit(40)]
    fn insert_before_entry<const SPLIT_LIMIT: usize>(&mut self, i: usize, value: T) -> (r: Result<(Self, T), Option<T>>)
        requires
            SPLIT_LIMIT >= 3,
            SPLIT_LIMIT % 2 == 1,
            sorted_by_key(old(self).spec_view()),
            i < old(self).0.entries@.len(),
            forall|j: int|
                0 <= j < entries_view(old(self).0.entries@.subrange(0, i as int)).len() ==> old(self).spec_view()[j].spec_key()
                    < value.spec_key(),
            old(self).0.entries@[i as int].value.spec_key() > value.spec_key(),
        ensures
            insert_result(old(self).spec_view(), value, r, final(self).spec_view()),
            entry_count_after(old(self).0.entries@.len(), SPLIT_LIMIT as nat, r, final(self).0.entries@.len()),
            leaf_kept(*old(self).0, r, *final(self).0),
            forall|h: nat|
                #![trigger shaped(*old(self).0, h, SPLIT_LIMIT as nat)]
                shape_kept(*old(self).0, h, SPLIT_LIMIT as nat, r, *final(self).0),
        decreases node_size(*old(self).0), 0nat,
    {
        let ghost old_inner = *self.0;
        let ghost es = self.0.entries@;
        let ghost s = self.spec_view();
        let ghost k = value.spec_key();
        let ghost pre = entries_view(es.subrange(0, i as int));
        let ghost sm = opt_view(es[i as int].smaller);
        let ghost vi = es[i as int].value;
        let ghost c = entries_view(es.subrange(i + 1, es.len() as int)) + opt_view(old_inner.greater);
        proof {
            lemma_entry_slot(old_inner, i as int, k);
            lemma_entries_size_bound(es, i as int);
        }
        let entry = self.0.entries.remove(i);
        let ArcBTreeSetEntry { smaller, value: old_value } = entry;
        let ghost rest = seq![vi] + c;
        proof {
            assert forall|j: int| 0 <= j < rest.len() implies rest[j].spec_key() > k by {
                if j > 0 {
                    assert(rest[j] == c[j - 1]);
                }
            }
            lemma_lower_bound_middle(pre, sm, rest, k, value);
        }
        match smaller {
            Some(mut child) => {
                assert(opt_size(Some(child)) == node_size(*child.0));
                let ghost child0 = *child.0;
                let res = child.insert_inner::<SPLIT_LIMIT>(value);
                let ghost q = lower_bound(sm, k);
                match res {
                    Err(done) => {
                        self.0.entries.insert(i, ArcBTreeSetEntry { smaller: Some(child), value: old_value });
                        proof {
                            assert(self.0.entries@ =~= es.update(i as int, self.0.entries@[i as int]));
                            lemma_entry_replaced(old_inner, *self.0, i as int);
                            assert(self.spec_view() =~= pre + child.spec_view() + rest);
                            assert forall|h: nat|
                                #![trigger shaped(old_inner, h, SPLIT_LIMIT as nat)]
                                shaped(old_inner, h, SPLIT_LIMIT as nat) implies shaped(*self.0, h, SPLIT_LIMIT as nat) by {
                                if h == 0 {
                                    assert(old_inner.entries@[i as int].smaller is None);
                                } else {
                                    assert(opt_shaped(es[i as int].smaller, (h - 1) as nat, SPLIT_LIMIT as nat));
                                    assert(shaped(child0, (h - 1) as nat, SPLIT_LIMIT as nat));
                                    lemma_kids_replace(old_inner, *self.0, i as int, h, SPLIT_LIMIT as nat);
                                }
                            }
                        }
                        Err(done)
                    },
                    Ok((right, pivot)) => {
                        self.0.entries.insert(i, ArcBTreeSetEntry { smaller: Some(child), value: old_value });
                        let ghost mid_inner = *self.0;
                        proof {
                            assert(mid_inner.entries@ =~= es.update(i as int, mid_inner.entries@[i as int]));
                            assert forall|h: nat|
                                #![trigger shaped(old_inner, h, SPLIT_LIMIT as nat)]
                                shaped(old_inner, h, SPLIT_LIMIT as nat) implies kids_shaped(mid_inner, h, SPLIT_LIMIT as nat)
                                    && fits_at(Some(right), h, SPLIT_LIMIT as nat) by {
                                if h == 0 {
                                    assert(old_inner.entries@[i as int].smaller is None);
                                } else {
                                    assert(opt_shaped(es[i as int].smaller, (h - 1) as nat, SPLIT_LIMIT as nat));
                                    assert(shaped(child0, (h - 1) as nat, SPLIT_LIMIT as nat));
                                    lemma_kids_replace(old_inner, mid_inner, i as int, h, SPLIT_LIMIT as nat);
                                }
                            }
                        }
                        let split = self.0.insert::<SPLIT_LIMIT>(i, pivot, Some(right));
                        proof {
                            let ne = mid_inner.entries@;
                            assert(ne.subrange(0, i as int) =~= es.subrange(0, i as int));
                            assert(ne.subrange(i + 1, ne.len() as int) =~= es.subrange(i + 1, es.len() as int));
                            assert(insert_at(s, lower_bound(s, k), value) =~= pre + (child.spec_view() + (seq![pivot]
                                + node_view(*right.0) + (seq![vi] + entries_view(es.subrange(i + 1, es.len() as int))
                                + opt_view(old_inner.greater)))));
                        }
                        match split {
                            None => Err(None),
                            Some(splits) => Ok(splits),
                        }
                    },
                }
            },
            None => {
                self.0.entries.insert(i, ArcBTreeSetEntry { smaller: None, value: old_value });
                let ghost mid_inner = *self.0;
                proof {
                    assert(mid_inner.entries@ =~= es);
                    assert forall|h: nat|
                        #![trigger shaped(old_inner, h, SPLIT_LIMIT as nat)]
                        shaped(old_inner, h, SPLIT_LIMIT as nat) implies kids_shaped(mid_inner, h, SPLIT_LIMIT as nat)
                            && fits_at(None::<ArcBTreeSetNode<T>>, h, SPLIT_LIMIT as nat) by {
                        if h > 0 {
                            assert(opt_shaped(es[i as int].smaller, (h - 1) as nat, SPLIT_LIMIT as nat));
                        }
                    }
                }
                let split = self.0.insert::<SPLIT_LIMIT>(i, value, None);
                proof {
                    let ne = mid_inner.entries@;
                    assert(ne.subrange(0, i as int) =~= es.subrange(0, i as int));
                    assert(ne.subrange(i + 1, ne.len() as int) =~= es.subrange(i + 1, es.len() as int));
                    assert(splits_at(sm, k, 0));
                    lemma_lower_bound_is(sm, k, 0);
                    assert(insert_at(sm, 0, value) =~= seq![value]);
                    assert(insert_at(s, lower_bound(s, k), value) =~= pre + (opt_view(None::<ArcBTreeSetNode<T>>) + (
                        seq![value] + opt_view(None::<ArcBTreeSetNode<T>>) + (seq![vi] + entries_view(
                        es.subrange(i + 1, es.len() as int)) + opt_view(old_inner.greater)))));
                }
                match split {
                    None => Err(None),
                    Some(splits) => Ok(splits),
                }
            },
        }
    }

    /// Inserts `value` past every entry: the keys of all entries are below its key.
    fn insert_in_greater<const SPLIT_LIMIT: usize>(&mut self, value: T) -> (r: Result<(Self, T), Option<T>>)
        requires
            SPLIT_LIMIT >= 3,
            SPLIT_LIMIT % 2 == 1,
            sorted_by_key(old(self).spec_view()),
            forall|j: int|
                0 <= j < entries_view(old(self).0.entries@).len() ==> old(self).spec_view()[j].spec_key()
                    < value.spec_key(),
        ensures
            insert_result(old(self).spec_view(), value, r, final(self).spec_view()),
            entry_count_after(old(self).0.entries@.len(), SPLIT_LIMIT as nat, r, final(self).0.entries@.len()),
            leaf_kept(*old(self).0, r, *final(self).0),
            forall|h: nat|
                #![trigger shaped(*old(self).0, h, SPLIT_LIMIT as nat)]
                shape_kept(*old(self).0, h, SPLIT_LIMIT as nat, r, *final(self).0),
        decreases node_size(*old(self).0), 0nat,
    {
        let ghost old_inner = *self.0;
        let ghost es = self.0.entries@;
        let ghost s = self.spec_view();
        let ghost k = value.spec_key();
        let ghost pre = entries_view(es);
        let ghost g = opt_view(old_inner.greater);
        proof {
            assert(s =~= pre + g + Seq::<T>::empty());
            assert forall|j: int| 0 <= j < pre.len() implies pre[j].spec_key() < k by {
                assert(s[j] == pre[j]);
            }
            lemma_lower_bound_middle(pre, g, Seq::<T>::empty(), k, value);
        }
        let greater = self.0.greater.take();
        match greater {
            Some(mut child) => {
                assert(opt_size(Some(child)) == node_size(*child.0));
                let ghost child0 = *child.0;
                let res = child.insert_inner::<SPLIT_LIMIT>(value);
                match res {
                    Err(done) => {
                        let ghost csm = child.spec_view();
                        self.0.greater = Some(child);
                        proof {
                            assert(self.spec_view() =~= pre + csm + Seq::<T>::empty());
                            assert forall|h: nat|
                                #![trigger shaped(old_inner, h, SPLIT_LIMIT as nat)]
                                shaped(old_inner, h, SPLIT_LIMIT as nat) implies shaped(*self.0, h, SPLIT_LIMIT as nat) by {
                                if h > 0 {
                                    assert(shaped(child0, (h - 1) as nat, SPLIT_LIMIT as nat));
                                    assert(self.0.entries@ == es);
                                }
                            }
                        }
                        Err(done)
                    },
                    Ok((right, pivot)) => {
                        self.0.greater = Some(child);
                        let ghost mid_inner = *self.0;
                        proof {
                            assert forall|h: nat|
                                #![trigger shaped(old_inner, h, SPLIT_LIMIT as nat)]
                                shaped(old_inner, h, SPLIT_LIMIT as nat) implies kids_shaped(mid_inner, h, SPLIT_LIMIT as nat)
                                    && fits_at(Some(right), h, SPLIT_LIMIT as nat) by {
                                if h > 0 {
                                    assert(shaped(child0, (h - 1) as nat, SPLIT_LIMIT as nat));
                                    assert(mid_inner.entries@ == es);
                                }
                            }
                        }
                        let split = self.0.push::<SPLIT_LIMIT>(pivot, Some(right));
                        proof {
                            assert(insert_at(s, lower_bound(s, k), value) =~= node_view(mid_inner) + seq![pivot]
                                + opt_view(Some(right)));
                        }
                        match split {
                            None => Err(None),
                            Some(splits) => Ok(splits),
                        }
                    },
                }
            },
            None => {
                let ghost mid_inner = *self.0;
                proof {
                    assert forall|h: nat|
                        #![trigger shaped(old_inner, h, SPLIT_LIMIT as nat)]
                        shaped(old_inner, h, SPLIT_LIMIT as nat) implies kids_shaped(mid_inner, h, SPLIT_LIMIT as nat)
                            && fits_at(None::<ArcBTreeSetNode<T>>, h, SPLIT_LIMIT as nat) by {
                        assert(mid_inner.entries@ == es);
                    }
                }
                let split = self.0.push::<SPLIT_LIMIT>(value, None);
                proof {
                    assert(splits_at(g, k, 0));
                    lemma_lower_bound_is(g, k, 0);
                    assert(insert_at(s, lower_bound(s, k), value) =~= node_view(mid_inner) + seq![value]
                        + opt_view(None::<ArcBTreeSetNode<T>>));
                }
                match split {
                    None => Err(None),
                    Some(splits) => Ok(splits),
                }
            },
        }
    }
}

impl<T: BTreeKey> ArcBTreeSetNode<T> {
    /// Returns the value of key `key`, if the node holds one.
    pub fn get(&self, key: u64) -> (r: Option<&T>)
        requires
            sorted_by_key(self.spec_view()),
        ensures
            r is Some <==> has_key(self.spec_view(), key),
            r matches Some(v) ==> *v == self.spec_view()[lower_bound(self.spec_view(), key)],
        decreases node_size(*self.0),
    {
        let ghost s = self.spec_view();
        let ghost es = self.0.entries@;
        let i = self.find_slot(key);
        proof {
            lemma_lower_bound_exists(s, key);
        }
        if i < self.0.entries.len() {
            let ghost pre = entries_view(es.subrange(0, i as int));
            let ghost sm = opt_view(es[i as int].smaller);
            let ghost vi = es[i as int].value;
            let ghost c = entries_view(es.subrange(i + 1, es.len() as int)) + opt_view(self.0.greater);
            proof {
                lemma_entry_slot(*self.0, i as int, key);
                lemma_entries_size_bound(es, i as int);
            }
            let entry = &self.0.entries[i];
            if entry.value.key() == key {
                proof {
                    let m = sm + seq![vi];
                    assert(s =~= pre + m + c);
                    lemma_lower_bound_middle(pre, m, c, key, vi);
                    assert(splits_at(m, key, sm.len() as int));
                    lemma_lower_bound_is(m, key, sm.len() as int);
                    assert(m[sm.len() as int].spec_key() == key);
                }
                Some(&entry.value)
            } else {
                let ghost rest = seq![vi] + c;
                proof {
                    assert forall|j: int| 0 <= j < rest.len() implies rest[j].spec_key() > key by {
                        if j > 0 {
                            assert(rest[j] == c[j - 1]);
                        }
                    }
                    lemma_lower_bound_middle(pre, sm, rest, key, vi);
                }
                match &entry.smaller {
                    Some(child) => {
                        assert(opt_size(Some(*child)) == node_size(*child.0));
                        child.get(key)
                    },
                    None => {
                        proof {
                            if has_key(sm, key) {
                                let j = choose|j: int| 0 <= j < sm.len() && sm[j].spec_key() == key;
                            }
                        }
                        None
                    },
                }
            }
        } else {
            let ghost pre = entries_view(es);
            let ghost g = opt_view(self.0.greater);
            proof {
                assert(es.subrange(0, i as int) =~= es);
                assert(s =~= pre + g + Seq::<T>::empty());
                assert forall|j: int| 0 <= j < pre.len() implies pre[j].spec_key() < key by {
                    assert(s[j] == pre[j]);
                }
                lemma_lower_bound_middle(pre, g, Seq::<T>::empty(), key, s[0]);
            }
            match &self.0.greater {
                Some(child) => {
                    assert(opt_size(Some(*child)) == node_size(*child.0));
                    child.get(key)
                },
                None => {
                    proof {
                        if has_key(g, key) {
                            let j = choose|j: int| 0 <= j < g.len() && g[j].spec_key() == key;
                        }
                    }
                    None
                },
            }
        }
    }
}

impl<T> ArcBTreeSetNode<T> {
    /// Returns the number of values in the node and its subtrees.
    pub fn len(&self) -> (r: usize)
        requires
            node_view(*self.0).len() <= usize::MAX,
        ensures
            r == node_view(*self.0).len(),
        decreases node_size(*self.0),
    {
        let ghost es = self.0.entries@;
        let ghost total = node_view(*self.0).len();
        let n = self.0.entries.len();
        let mut acc: usize = 0;
        let mut i: usize = 0;
        while i < n
            invariant
                i <= n,
                n == es.len(),
                es == self.0.entries@,
                total == node_view(*self.0).len(),
                total <= usize::MAX,
                acc == entries_view(es.subrange(0, i as int)).len(),
                entries_view(es.subrange(0, i as int)).len() <= entries_view(es).len(),
            decreases n - i,
        {
            let entry = &self.0.entries[i];
            proof {
                lemma_entries_view_concat(es.subrange(0, i as int), seq![es[i as int]]);
                lemma_entries_view_single(es[i as int]);
                assert(es.subrange(0, i + 1) =~= es.subrange(0, i as int) + seq![es[i as int]]);
                lemma_entries_view_concat(es.subrange(0, i + 1), es.subrange(i + 1, n as int));
                assert(es =~= es.subrange(0, i + 1) + es.subrange(i + 1, n as int));
                lemma_entries_size_bound(es, i as int);
            }
            let sub = match &entry.smaller {
                Some(child) => {
                    assert(opt_size(Some(*child)) == node_size(*child.0));
                    child.len()
                },
                None => 0,
            };
            acc = acc + sub + 1;
            i = i + 1;
        }
        assert(es.subrange(0, n as int) =~= es);
        let sub = match &self.0.greater {
            Some(child) => {
                assert(opt_size(Some(*child)) == node_size(*child.0));
                child.len()
            },
            None => 0,
        };
        acc + sub
    }

    /// Appends references to the values of the node, in order, to `out`.
    fn collect<'a>(&'a self, out: &mut Vec<&'a T>)
        ensures
            final(out)@.len() == old(out)@.len() + node_view(*self.0).len(),
            forall|j: int| 0 <= j < old(out)@.len() ==> *final(out)@[j] == *old(out)@[j],
            forall|j: int|
                0 <= j < node_view(*self.0).len() ==> *final(out)@[old(out)@.len() + j] == node_view(*self.0)[j],
        decreases node_size(*self.0),
    {
        let ghost es = self.0.entries@;
        let ghost start = out@.len();
        let ghost initial = out@;
        let n = self.0.entries.len();
        let mut i: usize = 0;
        while i < n
            invariant
                i <= n,
                n == es.len(),
                es == self.0.entries@,
                out@.len() == start + entries_view(es.subrange(0, i as int)).len(),
                forall|j: int| 0 <= j < start ==> *out@[j] == initial[j],
                forall|j: int|
                    0 <= j < entries_view(es.subrange(0, i as int)).len() ==> *out@[start + j] == entries_view(
                        es.subrange(0, i as int),
                    )[j],
            decreases n - i,
        {
            let entry = &self.0.entries[i];
            proof {
                lemma_entries_view_concat(es.subrange(0, i as int), seq![es[i as int]]);
                lemma_entries_view_single(es[i as int]);
                assert(es.subrange(0, i + 1) =~= es.subrange(0, i as int) + seq![es[i as int]]);
                lemma_entries_size_bound(es, i as int);
            }
            let ghost before = entries_view(es.subrange(0, i as int));
            match &entry.smaller {
                Some(child) => {
                    assert(opt_size(Some(*child)) == node_size(*child.0));
                    child.collect(out);
                },
                None => {},
            }
            out.push(&entry.value);
            proof {
                let after = entries_view(es.subrange(0, i + 1));
                assert(after == before + opt_view(es[i as int].smaller) + seq![es[i as int].value]);
                assert forall|j: int| 0 <= j < after.len() implies *out@[start + j] == after[j] by {
                    if j < before.len() {
                    } else if j < before.len() + opt_view(es[i as int].smaller).len() {
                    } else {
                    }
                }
            }
            i = i + 1;
        }
        assert(es.subrange(0, n as int) =~= es);
        let ghost before = entries_view(es);
        match &self.0.greater {
            Some(child) => {
                assert(opt_size(Some(*child)) == node_size(*child.0));
                child.collect(out);
            },
            None => {},
        }
    }

    /// Calls `f` on each value of the node, in increasing order.
    pub fn for_each<F: Fn(&T)>(&self, f: &F)
        requires
            forall|x: &T| f.requires((x,)),
        ensures
            forall|i: int| 0 <= i < node_view(*self.0).len() ==> f.ensures((&#[trigger] node_view(*self.0)[i],), ()),
    {
        let mut values: Vec<&T> = Vec::new();
        self.collect(&mut values);
        let mut i: usize = 0;
        while i < values.len()
            invariant
                i <= values@.len(),
                values@.len() == node_view(*self.0).len(),
                forall|j: int| 0 <= j < values@.len() ==> *values@[j] == node_view(*self.0)[j],
                forall|x: &T| f.requires((x,)),
                forall|j: int| 0 <= j < i ==> f.ensures((&#[trigger] node_view(*self.0)[j],), ()),
            decreases values@.len() - i,
        {
            f(values[i]);
            i = i + 1;
        }
    }
}

/// `b` is there exactly when `a` is, with at least the shape of `a`.
pub open spec fn follows<T>(a: Option<ArcBTreeSetNode<T>>, b: Option<ArcBTreeSetNode<T>>) -> bool {
    &&& a is None <==> b is None
    &&& forall|h: nat, limit: nat| #[trigger] opt_shaped(a, h, limit) ==> opt_shaped(b, h, limit)
}

/// `b` holds, item by item, what `f` made of the items of `a`.
pub open spec fn copied_by<T, F: Fn(&T) -> T>(f: F, a: Seq<T>, b: Seq<T>) -> bool {
    &&& a.len() == b.len()
    &&& forall|i: int| 0 <= i < a.len() ==> f.ensures((&a[i],), #[trigger] b[i])
}

/// Copies made item by item join.
proof fn lemma_copied_concat<T, F: Fn(&T) -> T>(f: F, a1: Seq<T>, b1: Seq<T>, a2: Seq<T>, b2: Seq<T>)
    requires
        copied_by(f, a1, b1),
        copied_by(f, a2, b2),
    ensures
        copied_by(f, a1 + a2, b1 + b2),
{
    let a = a1 + a2;
    let b = b1 + b2;
    assert forall|i: int| 0 <= i < a.len() implies f.ensures((&a[i],), #[trigger] b[i]) by {
        if i < a1.len() {
            assert(a[i] == a1[i] && b[i] == b1[i]);
        } else {
            assert(a[i] == a2[i - a1.len()] && b[i] == b2[i - a1.len()]);
        }
    }
}

impl<T> ArcBTreeSetNode<T> {
    /// A copy of the node and its subtrees that shares no node with them, each
    /// item being what `f` makes of it.
    fn deep_copy<F: Fn(&T) -> T>(&self, f: &F) -> (r: Self)
        requires
            forall|x: &T| f.requires((x,)),
        ensures
            copied_by(*f, node_view(*self.0), node_view(*r.0)),
            forall|h: nat, limit: nat| #[trigger] shaped(*self.0, h, limit) ==> shaped(*r.0, h, limit),
        decreases node_size(*self.0),
    {
        let ghost es = self.0.entries@;
        let n = self.0.entries.len();
        let mut entries: Vec<ArcBTreeSetEntry<T>> = Vec::new();
        let mut i: usize = 0;
        while i < n
            invariant
                i <= n,
                n == es.len(),
                es == self.0.entries@,
                forall|x: &T| f.requires((x,)),
                copied_by(*f, entries_view(es.subrange(0, i as int)), entries_view(entries@)),
                entries@.len() == i,
                forall|j: int| 0 <= j < i ==> follows(es[j].smaller, (#[trigger] entries@[j]).smaller),
            decreases n - i,
        {
            let entry = &self.0.entries[i];
            proof {
                lemma_entries_view_concat(es.subrange(0, i as int), seq![es[i as int]]);
                lemma_entries_view_single(es[i as int]);
                assert(es.subrange(0, i + 1) =~= es.subrange(0, i as int) + seq![es[i as int]]);
                lemma_entries_size_bound(es, i as int);
            }
            let smaller = match &entry.smaller {
                Some(child) => {
                    assert(opt_size(Some(*child)) == node_size(*child.0));
                    let copy = child.deep_copy(f);
                    proof {
                        assert forall|h: nat, limit: nat| #[trigger] opt_shaped(Some(*child), h, limit) implies opt_shaped(
                            Some(copy),
                            h,
                            limit,
                        ) by {
                            assert(shaped(*child.0, h, limit));
                        }
                    }
                    Some(copy)
                },
                None => None,
            };
            assert(copied_by(*f, opt_view(es[i as int].smaller), opt_view(smaller)));
            assert(follows(es[i as int].smaller, smaller));
            let ghost prev = entries@;
            let value = f(&entry.value);
            let e = ArcBTreeSetEntry { smaller, value };
            entries.push(e);
            proof {
                lemma_entries_view_concat(prev, seq![e]);
                lemma_entries_view_single(e);
                assert(entries@ =~= prev + seq![e]);
                assert(copied_by(*f, seq![es[i as int].value], seq![value]));
                lemma_copied_concat(*f, opt_view(es[i as int].smaller), opt_view(smaller), seq![es[i as int].value], seq![value]);
                lemma_copied_concat(
                    *f,
                    entries_view(es.subrange(0, i as int)),
                    entries_view(prev),
                    opt_view(es[i as int].smaller) + seq![es[i as int].value],
                    opt_view(smaller) + seq![value],
                );
                assert(entry_view(es[i as int]) == opt_view(es[i as int].smaller) + seq![es[i as int].value]);
                assert(entry_view(e) == opt_view(smaller) + seq![value]);
                assert forall|j: int| 0 <= j < i + 1 implies follows(es[j].smaller, (#[trigger] entries@[j]).smaller) by {
                    if j < i {
                        assert(entries@[j] == prev[j]);
                    }
                }
            }
            i = i + 1;
        }
        assert(es.subrange(0, n as int) =~= es);
        let greater = match &self.0.greater {
            Some(child) => {
                assert(opt_size(Some(*child)) == node_size(*child.0));
                let copy = child.deep_copy(f);
                proof {
                    assert forall|h: nat, limit: nat| #[trigger] opt_shaped(Some(*child), h, limit) implies opt_shaped(
                        Some(copy),
                        h,
                        limit,
                    ) by {
                        assert(shaped(*child.0, h, limit));
                    }
                }
                Some(copy)
            },
            None => None,
        };
        assert(copied_by(*f, opt_view(self.0.greater), opt_view(greater)));
        proof {
            lemma_copied_concat(*f, entries_view(es), entries_view(entries@), opt_view(self.0.greater), opt_view(greater));
        }
        assert(follows(self.0.greater, greater));
        let r = ArcBTreeSetNode(Box::new(ArcBTreeSetNodeInner { entries, greater }));
        proof {
            assert forall|h: nat, limit: nat| #[trigger] shaped(*self.0, h, limit) implies shaped(*r.0, h, limit) by {
                assert(r.0.entries@ == entries@ && r.0.greater == greater);
                assert(r.0.entries@.len() == self.0.entries@.len());
                if h == 0 {
                    assert(r.0.greater is None);
                    assert forall|j: int| 0 <= j < r.0.entries@.len() implies (#[trigger] r.0.entries@[j]).smaller is None by {
                        assert(follows(es[j].smaller, entries@[j].smaller));
                    }
                } else {
                    assert(opt_shaped(self.0.greater, (h - 1) as nat, limit));
                    assert(opt_shaped(r.0.greater, (h - 1) as nat, limit));
                    assert forall|j: int| 0 <= j < r.0.entries@.len() implies opt_shaped(
                        (#[trigger] r.0.entries@[j]).smaller,
                        (h - 1) as nat,
                        limit,
                    ) by {
                        assert(follows(es[j].smaller, entries@[j].smaller));
                        assert(opt_shaped(es[j].smaller, (h - 1) as nat, limit));
                    }
                }
            }
        }
        r
    }
}

/// The keys of the items of `s`.
pub open spec fn keys_of<T: BTreeKey>(s: Seq<T>) -> Set<u64> {
    s.map_values(|x: T| x.spec_key()).to_set()
}

/// What inserting the values of `vs`, one after another, into the sorted
/// sequence `s` gives.
pub open spec fn insert_all<T: BTreeKey>(s: Seq<T>, vs: Seq<T>) -> Seq<T>
    decreases vs.len(),
{
    if vs.len() == 0 {
        s
    } else {
        insert_sorted(insert_all(s, vs.drop_last()), vs.last())
    }
}

/// An item of `s` has key `k` exactly when `k` is among the keys of `s`.
proof fn lemma_keys_of<T: BTreeKey>(s: Seq<T>, k: u64)
    ensures
        has_key(s, k) <==> keys_of(s).contains(k),
{
    let m = s.map_values(|x: T| x.spec_key());
    if has_key(s, k) {
        let i = choose|i: int| 0 <= i < s.len() && s[i].spec_key() == k;
        assert(m[i] == k);
    }
    if keys_of(s).contains(k) {
        let i = choose|i: int| 0 <= i < m.len() && m[i] == k;
        assert(s[i].spec_key() == k);
    }
}

/// Appending a value to a sequence adds its key to the sequence's keys; no
/// sequence has a key that the empty one lacks.
pub proof fn lemma_keys_of_push<T: BTreeKey>(vs: Seq<T>, v: T)
    ensures
        keys_of(vs.push(v)) == keys_of(vs).insert(v.spec_key()),
        keys_of(Seq::<T>::empty()) == Set::<u64>::empty(),
{
    let w = vs.push(v);
    assert forall|k: u64| #![auto] keys_of(w).contains(k) == keys_of(vs).insert(v.spec_key()).contains(k) by {
        lemma_keys_of(w, k);
        lemma_keys_of(vs, k);
        if has_key(w, k) && k != v.spec_key() {
            let i = choose|i: int| 0 <= i < w.len() && w[i].spec_key() == k;
            assert(vs[i] == w[i]);
        }
        if has_key(vs, k) {
            let i = choose|i: int| 0 <= i < vs.len() && vs[i].spec_key() == k;
            assert(w[i] == vs[i]);
        }
        assert(w[vs.len() as int] == v);
    }
    assert(keys_of(w) =~= keys_of(vs).insert(v.spec_key()));
    assert(keys_of(Seq::<T>::empty()) =~= Set::<u64>::empty());
}

/// Inserting into a sorted sequence adds the value's key to its keys, and
/// leaves it not empty.
proof fn lemma_insert_keys<T: BTreeKey>(s: Seq<T>, v: T)
    requires
        sorted_by_key(s),
    ensures
        keys_of(insert_sorted(s, v)) == keys_of(s).insert(v.spec_key()),
        insert_sorted(s, v).len() > 0,
{
    let r = insert_sorted(s, v);
    assert forall|k: u64| #![auto] keys_of(r).contains(k) == keys_of(s).insert(v.spec_key()).contains(k) by {
        lemma_insert_sorted_lookup(s, v, k);
        lemma_keys_of(r, k);
        lemma_keys_of(s, k);
    }
    assert(keys_of(r) =~= keys_of(s).insert(v.spec_key()));
    lemma_insert_sorted_lookup(s, v, v.spec_key());
}

/// A sorted sequence has as many items as keys.
proof fn lemma_sorted_key_count<T: BTreeKey>(s: Seq<T>)
    requires
        sorted_by_key(s),
    ensures
        keys_of(s).len() == s.len(),
{
    let m = s.map_values(|x: T| x.spec_key());
    assert forall|i: int, j: int| 0 <= i < m.len() && 0 <= j < m.len() && i != j implies m[i] != m[j] by {
        if i < j {
            assert(s[i].spec_key() < s[j].spec_key());
        } else {
            assert(s[j].spec_key() < s[i].spec_key());
        }
    }
    m.unique_seq_to_set();
}

/// Inserting values one after another into a set keeps it ordered by key; the
/// set then holds exactly the keys it held and the keys inserted, one item per
/// key, so that its length counts the distinct keys, and it is not empty once
/// a value was inserted.
pub proof fn lemma_insert_all<T: BTreeKey>(s: Seq<T>, vs: Seq<T>)
    requires
        sorted_by_key(s),
    ensures
        sorted_by_key(insert_all(s, vs)),
        keys_of(insert_all(s, vs)) == keys_of(s) + keys_of(vs),
        insert_all(s, vs).len() == (keys_of(s) + keys_of(vs)).len(),
        vs.len() > 0 ==> insert_all(s, vs).len() > 0,
    decreases vs.len(),
{
    let r = insert_all(s, vs);
    if vs.len() == 0 {
        assert(keys_of(vs) =~= Set::<u64>::empty());
        assert(keys_of(s) + keys_of(vs) =~= keys_of(s));
    } else {
        let init = vs.drop_last();
        let v = vs.last();
        lemma_insert_all(s, init);
        let q = insert_all(s, init);
        assert(r == insert_sorted(q, v));
        assert forall|k: u64| #![auto] keys_of(r).contains(k) == (keys_of(s) + keys_of(vs)).contains(k) by {
            lemma_insert_sorted_lookup(q, v, k);
            lemma_keys_of(r, k);
            lemma_keys_of(q, k);
            lemma_keys_of(vs, k);
            lemma_keys_of(init, k);
            if has_key(vs, k) && !has_key(init, k) {
                let i = choose|i: int| 0 <= i < vs.len() && vs[i].spec_key() == k;
                if i < vs.len() - 1 {
                    assert(init[i] == vs[i]);
                }
            }
            if has_key(init, k) {
                let i = choose|i: int| 0 <= i < init.len() && init[i].spec_key() == k;
                assert(vs[i] == init[i]);
            }
            if k == v.spec_key() {
                assert(vs[vs.len() - 1].spec_key() == k);
            }
        }
        assert(keys_of(r) =~= keys_of(s) + keys_of(vs));
        lemma_insert_sorted_lookup(q, v, v.spec_key());
        lemma_sorted_key_count(r);
    }
    lemma_sorted_key_count(r);
}

/// After an insertion into a sorted sequence, looking a key up finds the
/// inserted value under its key, and what was there before under every other key.
pub proof fn lemma_insert_sorted_lookup<T: BTreeKey>(s: Seq<T>, v: T, k2: u64)
    requires
        sorted_by_key(s),
    ensures
        ({
            let r = insert_sorted(s, v);
            &&& sorted_by_key(r)
            &&& has_key(r, k2) == (has_key(s, k2) || k2 == v.spec_key())
            &&& k2 == v.spec_key() ==> r[lower_bound(r, k2)] == v
            &&& k2 != v.spec_key() && has_key(s, k2) ==> r[lower_bound(r, k2)] == s[lower_bound(s, k2)]
            &&& r.len() == if has_key(s, v.spec_key()) { s.len() } else { s.len() + 1 }
        }),
{
    let k = v.spec_key();
    let r = insert_sorted(s, v);
    lemma_insert_sorted_sorted(s, v);
    lemma_lower_bound_exists(s, k);
    lemma_lower_bound_exists(s, k2);
    let p = lower_bound(s, k);
    let q = lower_bound(s, k2);
    if has_key(s, k) {
        assert(r == s.update(p, v));
        assert(splits_at(r, k2, q)) by {
            assert forall|i: int| 0 <= i < r.len() implies r[i].spec_key() == s[i].spec_key() by {
            }
        }
        lemma_lower_bound_is(r, k2, q);
        if has_key(r, k2) {
            let j = choose|j: int| 0 <= j < r.len() && r[j].spec_key() == k2;
            assert(s[j].spec_key() == k2);
        }
        if has_key(s, k2) {
            let j = choose|j: int| 0 <= j < s.len() && s[j].spec_key() == k2;
            assert(r[j].spec_key() == k2);
        }
        if k2 == k {
            assert(q == p);
        }
    } else {
        lemma_insert_at_lower_bound_sorted(s, v);
        assert(r == insert_at(s, p, v));
        if k2 == k {
            assert(splits_at(r, k2, p)) by {
                assert forall|i: int| 0 <= i < r.len() implies (i < p ==> r[i].spec_key() < k2) && (i >= p ==> r[i].spec_key() >= k2) by {
                    if i < p {
                        assert(r[i] == s[i]);
                    } else if i > p {
                        assert(r[i] == s[i - 1]);
                    }
                }
            }
            lemma_lower_bound_is(r, k2, p);
            assert(r[p] == v);
        } else if k2 < k {
            assert(q <= p) by {
                if q > p {
                    if p < s.len() {
                        assert(s[p].spec_key() >= k);
                        assert(s[p].spec_key() < k2);
                    }
                }
            }
            assert(splits_at(r, k2, q)) by {
                assert forall|i: int| 0 <= i < r.len() implies (i < q ==> r[i].spec_key() < k2) && (i >= q ==> r[i].spec_key() >= k2) by {
                    if i < p {
                        assert(r[i] == s[i]);
                    } else if i > p {
                        assert(r[i] == s[i - 1]);
                    }
                }
            }
            lemma_lower_bound_is(r, k2, q);
            if has_key(s, k2) {
                assert(r[q] == s[q]);
            }
        } else {
            assert(q >= p) by {
                if q < p {
                    assert(s[q].spec_key() < k);
                    assert(s[q].spec_key() >= k2);
                }
            }
            assert(splits_at(r, k2, q + 1)) by {
                assert forall|i: int| 0 <= i < r.len() implies (i < q + 1 ==> r[i].spec_key() < k2) && (i >= q + 1 ==> r[i].spec_key() >= k2) by {
                    if i < p {
                        assert(r[i] == s[i]);
                    } else if i > p {
                        assert(r[i] == s[i - 1]);
                    }
                }
            }
            lemma_lower_bound_is(r, k2, q + 1);
            if has_key(s, k2) {
                assert(r[q + 1] == s[q]);
            }
        }
        if has_key(r, k2) && k2 != k {
            let j = choose|j: int| 0 <= j < r.len() && r[j].spec_key() == k2;
            if j < p {
                assert(r[j] == s[j]);
            } else if j > p {
                assert(r[j] == s[j - 1]);
            }
        }
        if has_key(s, k2) {
            let j = choose|j: int| 0 <= j < s.len() && s[j].spec_key() == k2;
            if j < p {
                assert(r[j] == s[j]);
            } else {
                assert(r[j + 1] == s[j]);
            }
        }
        if k2 == k {
            assert(r[p].spec_key() == k);
        }
    }
}

impl<T> ArcBTreeSetNodeInner<T> {
    /// Constructs a node from its entries and its greater subtree.
    pub fn new<const SPLIT_LIMIT: usize>(
        entries: Vec<ArcBTreeSetEntry<T>>,
        greater: Option<ArcBTreeSetNode<T>>,
    ) -> (r: Self)
        requires
            entries@.len() < SPLIT_LIMIT,
        ensures
            r.entries@ == entries@,
            r.greater == greater,
            node_view(r) == entries_view(entries@) + opt_view(greater),
    {
        ArcBTreeSetNodeInner { entries, greater }
    }
}

impl<T: BTreeKey> ArcBTreeSetNode<T> {
    /// Inserts `value` into the node.
    ///
    /// If a value of the same key is present: with `REPLACE_ON_INSERT`, it is
    /// replaced by `value` and returned; without, the node is left unchanged and
    /// `value` is handed back. Otherwise `value` is added and `None` returned.
    pub fn insert<const REPLACE_ON_INSERT: bool, const SPLIT_LIMIT: usize>(&mut self, value: T) -> (r: Option<T>)
        requires
            SPLIT_LIMIT % 2 == 1,
            SPLIT_LIMIT >= 3,
            sorted_by_key(old(self).spec_view()),
        ensures
            ({
                let s = old(self).spec_view();
                let k = value.spec_key();
                if !REPLACE_ON_INSERT && has_key(s, k) {
                    r == Some(value) && final(self).spec_view() == s
                } else {
                    &&& r == (if has_key(s, k) { Some(s[lower_bound(s, k)]) } else { None::<T> })
                    &&& final(self).spec_view() == insert_sorted(s, value)
                }
            }),
            sorted_by_key(final(self).spec_view()),
            forall|h: nat|
                #![trigger shaped(*old(self).0, h, SPLIT_LIMIT as nat)]
                shaped(*old(self).0, h, SPLIT_LIMIT as nat) ==> shaped(*final(self).0, h, SPLIT_LIMIT as nat) || shaped(
                    *final(self).0,
                    h + 1,
                    SPLIT_LIMIT as nat,
                ),
    {
        let ghost s = self.spec_view();
        let ghost old0 = *self.0;
        proof {
            lemma_insert_sorted_sorted(s, value);
        }
        if !REPLACE_ON_INSERT && self.get(value.key()).is_some() {
            return Some(value);
        }
        match self.insert_inner::<SPLIT_LIMIT>(value) {
            Err(done) => done,
            Ok((right, pivot)) => {
                let mut left = ArcBTreeSetNode(
                    Box::new(ArcBTreeSetNodeInner { entries: Vec::new(), greater: None }),
                );
                core::mem::swap(self, &mut left);
                let ghost lv = left.spec_view();
                let mut entries: Vec<ArcBTreeSetEntry<T>> = Vec::new();
                entries.push(ArcBTreeSetEntry { value: pivot, smaller: Some(left) });
                let root = ArcBTreeSetNodeInner::new::<SPLIT_LIMIT>(entries, Some(right));
                *self = ArcBTreeSetNode(Box::new(root));
                proof {
                    lemma_entries_view_single(entries@[0]);
                    assert(entries@ =~= seq![entries@[0]]);
                    assert(self.spec_view() =~= lv + seq![pivot] + node_view(*right.0));
                    assert forall|h: nat|
                        #![trigger shaped(old0, h, SPLIT_LIMIT as nat)]
                        shaped(old0, h, SPLIT_LIMIT as nat) implies shaped(*self.0, h + 1, SPLIT_LIMIT as nat) by {
                        assert(shaped(*left.0, h, SPLIT_LIMIT as nat));
                        assert(self.0.entries@[0].smaller == Some(left));
                    }
                }
                None
            },
        }
    }
}

/// A shareable B-tree set.
///
/// `REPLACE_ON_INSERT` decides what inserting a value whose key is already
/// present does: replace the stored value, or leave the set unchanged. A node
/// splits when it reaches `SPLIT_LIMIT` entries.
pub struct ArcBTreeSet<T: BTreeKey, Alloc, const REPLACE_ON_INSERT: bool, const SPLIT_LIMIT: usize> {
    root: Option<ArcBTreeSetNode<T>>,
    alloc: Alloc,
}

impl<T: BTreeKey, Alloc, const REPLACE_ON_INSERT: bool, const SPLIT_LIMIT: usize> View for ArcBTreeSet<
    T,
    Alloc,
    REPLACE_ON_INSERT,
    SPLIT_LIMIT,
> {
    type V = Seq<T>;

    /// The values of the set, in increasing order of their keys.
    closed spec fn view(&self) -> Seq<T> {
        opt_view(self.root)
    }
}

impl<T: BTreeKey, Alloc, const REPLACE_ON_INSERT: bool, const SPLIT_LIMIT: usize> ArcBTreeSet<
    T,
    Alloc,
    REPLACE_ON_INSERT,
    SPLIT_LIMIT,
> {
    #[verifier::type_invariant]
    closed spec fn inv(self) -> bool {
        &&& sorted_by_key(opt_view(self.root))
        &&& self.root is Some ==> opt_view(self.root).len() > 0
        &&& self.root matches Some(r) ==> exists|h: nat| #[trigger] shaped(*r.0, h, SPLIT_LIMIT as nat)
    }

    /// The root of the tree, if the set holds a value.
    pub closed spec fn spec_root(&self) -> Option<ArcBTreeSetNode<T>> {
        self.root
    }

    /// The allocator the set was made with.
    pub closed spec fn spec_allocator(&self) -> Alloc {
        self.alloc
    }

    /// The tree has the shape of a B-tree: each node holds at least one and
    /// fewer than `SPLIT_LIMIT` entries, and all leaves lie at the same depth.
    pub open spec fn is_balanced(&self) -> bool {
        self.spec_root() matches Some(r) ==> exists|h: nat| #[trigger] shaped(*r.0, h, SPLIT_LIMIT as nat)
    }

    /// Constructs a new, empty set in the provided allocator. This doesn't allocate.
    pub fn from_alloc(alloc: Alloc) -> (r: Self)
        ensures
            r@ == Seq::<T>::empty(),
            keys_of(r@) == Set::<u64>::empty(),
            r.spec_allocator() == alloc,
            r.is_balanced(),
    {
        ArcBTreeSet { root: None, alloc }
    }

    /// Constructs a new, empty set in the provided allocator. This doesn't allocate.
    pub fn new_in(alloc: Alloc) -> (r: Self)
        ensures
            r@ == Seq::<T>::empty(),
            keys_of(r@) == Set::<u64>::empty(),
            r.spec_allocator() == alloc,
            r.is_balanced(),
    {
        Self::from_alloc(alloc)
    }

    /// Retrieves the value associated to `key` if it exists.
    pub fn get(&self, key: u64) -> (r: Option<&T>)
        ensures
            sorted_by_key(self@),
            r is Some <==> has_key(self@, key),
            r matches Some(v) ==> *v == self@[lower_bound(self@, key)],
    {
        proof {
            use_type_invariant(self);
        }
        match &self.root {
            Some(root) => root.get(key),
            None => None,
        }
    }

    /// Inserts a value into the set.
    ///
    /// When a value with the same key is present: with `REPLACE_ON_INSERT` it is
    /// replaced by `value` and returned; without, the set is left unmodified and
    /// `value` is returned. Otherwise `value` is added and `None` is returned.
    pub fn insert(&mut self, value: T) -> (r: Option<T>)
        requires
            SPLIT_LIMIT % 2 == 1,
            SPLIT_LIMIT >= 3,
        ensures
            ({
                let s = old(self)@;
                let k = value.spec_key();
                if !REPLACE_ON_INSERT && has_key(s, k) {
                    r == Some(value) && final(self)@ == s
                } else {
                    &&& r == (if has_key(s, k) { Some(s[lower_bound(s, k)]) } else { None::<T> })
                    &&& final(self)@ == insert_sorted(s, value)
                }
            }),
            sorted_by_key(old(self)@),
            sorted_by_key(final(self)@),
            keys_of(final(self)@) == keys_of(old(self)@).insert(value.spec_key()),
            final(self)@.len() == keys_of(final(self)@).len(),
            final(self)@.len() > 0,
            final(self).spec_allocator() == old(self).spec_allocator(),
            final(self).is_balanced(),
    {
        proof {
            use_type_invariant(&*self);
        }
        let ghost before = self@;
        let mut root: Option<ArcBTreeSetNode<T>> = None;
        core::mem::swap(&mut root, &mut self.root);
        let result = match root {
            Some(mut node) => {
                assert(opt_view(Some(node)) == node.spec_view());
                let ghost pre = node.spec_view();
                let ghost n0 = *node.0;
                assert(pre.len() > 0);
                let r = node.insert::<REPLACE_ON_INSERT, SPLIT_LIMIT>(value);
                proof {
                    let h = choose|h: nat| #[trigger] shaped(n0, h, SPLIT_LIMIT as nat);
                    if shaped(*node.0, h, SPLIT_LIMIT as nat) {
                        assert(exists|h: nat| #[trigger] shaped(*node.0, h, SPLIT_LIMIT as nat));
                    } else {
                        assert(shaped(*node.0, h + 1, SPLIT_LIMIT as nat));
                    }
                    lemma_lower_bound_exists(pre, value.spec_key());
                    if !has_key(old(self)@, value.spec_key()) {
                        lemma_insert_at_lower_bound_sorted(old(self)@, value);
                    }
                    assert(opt_view(Some(node)) == node.spec_view());
                    assert(node.spec_view().len() > 0);
                }
                self.root = Some(node);
                r
            },
            None => {
                let ghost v = value;
                let mut entries: Vec<ArcBTreeSetEntry<T>> = Vec::new();
                entries.push(ArcBTreeSetEntry { value, smaller: None });
                let node = ArcBTreeSetNodeInner::new::<SPLIT_LIMIT>(entries, None);
                proof {
                    lemma_entries_view_single(entries@[0]);
                    assert(entries@ =~= seq![entries@[0]]);
                    assert(node_view(node) =~= seq![v]);
                    assert(opt_view(Some(ArcBTreeSetNode(Box::new(node)))) == node_view(node));
                    assert(shaped(node, 0, SPLIT_LIMIT as nat));
                }
                self.root = Some(ArcBTreeSetNode(Box::new(node)));
                proof {
                    assert(!has_key(Seq::<T>::empty(), v.spec_key()));
                    assert(splits_at(Seq::<T>::empty(), v.spec_key(), 0));
                    lemma_lower_bound_is(Seq::<T>::empty(), v.spec_key(), 0);
                    assert(insert_at(Seq::<T>::empty(), 0, v) =~= seq![v]);
                }
                None
            },
        };
        proof {
            lemma_insert_keys(before, value);
            if !REPLACE_ON_INSERT && has_key(before, value.spec_key()) {
                lemma_keys_of(before, value.spec_key());
                assert(keys_of(before).insert(value.spec_key()) =~= keys_of(before));
            }
            lemma_sorted_key_count(self@);
        }
        result
    }

    /// A set built by insertions of the values of `vs`, one after another, into
    /// an empty set holds one value per distinct key inserted: its length counts
    /// those keys, and it is empty exactly when nothing was inserted.
    pub proof fn lemma_len_after_inserts(&self, vs: Seq<T>)
        requires
            sorted_by_key(self@),
            keys_of(self@) == keys_of(vs),
        ensures
            self@.len() == keys_of(vs).len(),
            self@.len() == 0 <==> vs.len() == 0,
    {
        lemma_sorted_key_count(self@);
        let m = vs.map_values(|x: T| x.spec_key());
        vstd::seq_lib::seq_to_set_is_finite(m);
        vstd::set_lib::lemma_set_empty_equivalency_len(keys_of(vs));
        if vs.len() > 0 {
            lemma_keys_of(vs, vs[0].spec_key());
        } else {
            assert(keys_of(vs) =~= Set::<u64>::empty());
        }
    }

    /// Returns the number of elements in the set.
    pub fn len(&self) -> (r: usize)
        requires
            self@.len() <= usize::MAX,
        ensures
            r == self@.len(),
    {
        match &self.root {
            None => 0,
            Some(node) => node.len(),
        }
    }

    /// Returns `true` iff the set is empty.
    pub fn is_empty(&self) -> (r: bool)
        ensures
            r == (self@.len() == 0),
    {
        proof {
            use_type_invariant(self);
        }
        self.root.is_none()
    }

    /// References to the values of the set, in increasing order of their keys.
    pub fn values(&self) -> (r: Vec<&T>)
        ensures
            r@.len() == self@.len(),
            forall|j: int| 0 <= j < self@.len() ==> *r@[j] == self@[j],
    {
        let mut out: Vec<&T> = Vec::new();
        match &self.root {
            None => {},
            Some(node) => node.collect(&mut out),
        }
        out
    }

    /// Calls `f` on each value of the set, in increasing order of their keys.
    pub fn for_each<F: Fn(&T)>(&self, f: &F)
        requires
            forall|x: &T| f.requires((x,)),
        ensures
            forall|i: int| 0 <= i < self@.len() ==> f.ensures((&#[trigger] self@[i],), ()),
    {
        match &self.root {
            None => {},
            Some(node) => {
                assert(self@ == node_view(*node.0));
                node.for_each(f);
            },
        }
    }
}

impl<T: BTreeKey, Alloc: Default, const REPLACE_ON_INSERT: bool, const SPLIT_LIMIT: usize> ArcBTreeSet<
    T,
    Alloc,
    REPLACE_ON_INSERT,
    SPLIT_LIMIT,
> {
    /// Constructs a new, empty set in the default allocator. This doesn't allocate.
    pub fn new() -> (r: Self)
        ensures
            r@ == Seq::<T>::empty(),
            keys_of(r@) == Set::<u64>::empty(),
            r.is_balanced(),
    {
        Self::from_alloc(Alloc::default())
    }

}

impl<T: BTreeKey + Copy, Alloc: Clone, const REPLACE_ON_INSERT: bool, const SPLIT_LIMIT: usize> Clone for ArcBTreeSet<
    T,
    Alloc,
    REPLACE_ON_INSERT,
    SPLIT_LIMIT,
> {
    /// A copy of the set that shares no node with it: what is later inserted
    /// into either leaves the other as it was.
    fn clone(&self) -> (r: Self)
        ensures
            r@ == self@,
            cloned(self.spec_allocator(), r.spec_allocator()),
    {
        proof {
            use_type_invariant(self);
        }
        let copy_item = |x: &T| -> (y: T)
            ensures
                y == *x,
            { *x };
        let root = match &self.root {
            Some(node) => {
                let copy = node.deep_copy(&copy_item);
                proof {
                    let h = choose|h: nat| #[trigger] shaped(*node.0, h, SPLIT_LIMIT as nat);
                    assert(shaped(*copy.0, h, SPLIT_LIMIT as nat));
                    let a = node_view(*node.0);
                    let b = node_view(*copy.0);
                    assert forall|i: int| 0 <= i < a.len() implies b[i] == a[i] by {
                        assert(copy_item.ensures((&a[i],), b[i]));
                    }
                    assert(b =~= a);
                }
                Some(copy)
            },
            None => None,
        };
        ArcBTreeSet { root, alloc: self.alloc.clone() }
    }
}

/// A key and its value: ordered and found by the key alone.
#[derive(Clone, Copy)]
pub struct Entry<V> {
    key: u64,
    value: V,
}

impl<V> Entry<V> {
    /// The value of the entry.
    pub closed spec fn spec_entry_value(&self) -> V {
        self.value
    }
}

impl<V> BTreeKey for Entry<V> {
    closed spec fn spec_key(&self) -> u64 {
        self.key
    }

    fn key(&self) -> (k: u64) {
        self.key
    }
}

/// The map that a sorted sequence of entries represents.
pub open spec fn entries_map<V>(s: Seq<Entry<V>>) -> Map<u64, V> {
    Map::new(|k: u64| has_key(s, k), |k: u64| s[lower_bound(s, k)].spec_entry_value())
}

/// The map that inserting the pairs of `kvs`, one after another, into an empty
/// map gives: what [`ArcBTreeMap::insert`], called with each pair in turn on a
/// new map, leaves.
pub open spec fn inserted<V>(kvs: Seq<(u64, V)>) -> Map<u64, V>
    decreases kvs.len(),
{
    if kvs.len() == 0 {
        Map::empty()
    } else {
        inserted(kvs.drop_last()).insert(kvs.last().0, kvs.last().1)
    }
}

/// After a sequence of insertions into an empty map, a key is present exactly
/// when some insertion used it, and maps to the value of the last insertion
/// that used it.
pub proof fn lemma_inserted_lookup<V>(kvs: Seq<(u64, V)>, k: u64, j: int)
    ensures
        inserted(kvs).dom().contains(k) <==> exists|i: int| 0 <= i < kvs.len() && kvs[i].0 == k,
        0 <= j < kvs.len() && kvs[j].0 == k && (forall|i: int| j < i < kvs.len() ==> kvs[i].0 != k) ==> inserted(
            kvs,
        )[k] == kvs[j].1,
    decreases kvs.len(),
{
    if kvs.len() > 0 {
        let init = kvs.drop_last();
        let n = kvs.len() - 1;
        lemma_inserted_lookup(init, k, j);
        if exists|i: int| 0 <= i < kvs.len() && kvs[i].0 == k {
            let i = choose|i: int| 0 <= i < kvs.len() && kvs[i].0 == k;
            if i < n {
                assert(init[i] == kvs[i]);
            }
        }
        if exists|i: int| 0 <= i < init.len() && init[i].0 == k {
            let i = choose|i: int| 0 <= i < init.len() && init[i].0 == k;
            assert(kvs[i] == init[i]);
        }
        if 0 <= j < kvs.len() && kvs[j].0 == k && (forall|i: int| j < i < kvs.len() ==> kvs[i].0 != k) {
            if j < n {
                assert(kvs[n].0 != k);
                assert(init[j] == kvs[j]);
                assert forall|i: int| j < i < init.len() implies init[i].0 != k by {
                    assert(init[i] == kvs[i]);
                }
            }
        }
    }
}

/// A shareable B-tree map: an [`ArcBTreeSet`] of entries that replaces on insertion.
pub struct ArcBTreeMap<V, Alloc, const SPLIT_LIMIT: usize>(ArcBTreeSet<Entry<V>, Alloc, true, SPLIT_LIMIT>);

impl<V, Alloc, const SPLIT_LIMIT: usize> View for ArcBTreeMap<V, Alloc, SPLIT_LIMIT> {
    type V = Map<u64, V>;

    closed spec fn view(&self) -> Map<u64, V> {
        entries_map(self.0@)
    }
}

impl<V, Alloc, const SPLIT_LIMIT: usize> ArcBTreeMap<V, Alloc, SPLIT_LIMIT> {
    /// The allocator the map was made with.
    pub closed spec fn spec_allocator(&self) -> Alloc {
        self.0.spec_allocator()
    }

    /// A map built by insertions of the pairs of `kvs`, one after another, into
    /// an empty map holds a key exactly when some insertion used it, and maps it
    /// to the value of the last insertion that did.
    pub proof fn lemma_get_after_inserts(&self, kvs: Seq<(u64, V)>, k: u64, j: int)
        requires
            self@ == inserted(kvs),
        ensures
            self@.dom().contains(k) <==> exists|i: int| 0 <= i < kvs.len() && kvs[i].0 == k,
            0 <= j < kvs.len() && kvs[j].0 == k && (forall|i: int| j < i < kvs.len() ==> kvs[i].0 != k)
                ==> self@[k] == kvs[j].1,
    {
        lemma_inserted_lookup(kvs, k, j);
    }

    /// Constructs a new, empty map, using the provided allocator. This doesn't allocate.
    pub fn from_alloc(alloc: Alloc) -> (r: Self)
        ensures
            r@ == Map::<u64, V>::empty(),
            r@ == inserted(Seq::<(u64, V)>::empty()),
            r.spec_allocator() == alloc,
    {
        let r = ArcBTreeMap(ArcBTreeSet::from_alloc(alloc));
        assert(r@ =~= Map::<u64, V>::empty());
        assert(inserted(Seq::<(u64, V)>::empty()) == Map::<u64, V>::empty());
        r
    }

    /// Constructs a new, empty map, using the provided allocator. This doesn't allocate.
    pub fn new_in(alloc: Alloc) -> (r: Self)
        ensures
            r@ == Map::<u64, V>::empty(),
            r@ == inserted(Seq::<(u64, V)>::empty()),
            r.spec_allocator() == alloc,
    {
        Self::from_alloc(alloc)
    }

    /// Returns the value associated to `key`.
    pub fn get(&self, key: u64) -> (r: Option<&V>)
        ensures
            r is Some <==> self@.dom().contains(key),
            r matches Some(v) ==> *v == self@[key],
    {
        match self.0.get(key) {
            Some(entry) => Some(&entry.value),
            None => None,
        }
    }

    /// Associates `value` to `key`, returning the value previously associated to `key`.
    #[verifier::spinoff_prover]
    pub fn insert(&mut self, key: u64, value: V) -> (r: Option<V>)
        requires
            SPLIT_LIMIT % 2 == 1,
            SPLIT_LIMIT >= 3,
        ensures
            final(self)@ == old(self)@.insert(key, value),
            forall|kvs: Seq<(u64, V)>| #[trigger] inserted(kvs) == old(self)@
                ==> final(self)@ == inserted(kvs.push((key, value))),
            r == (if old(self)@.dom().contains(key) { Some(old(self)@[key]) } else { None::<V> }),
            final(self).spec_allocator() == old(self).spec_allocator(),
    {
        let ghost s = self.0@;
        let ghost e = Entry { key, value };
        let r = self.0.insert(Entry { key, value });
        proof {
            assert forall|k2: u64| #![auto] true implies (has_key(self.0@, k2) == (has_key(s, k2) || k2 == key))
                && (k2 == key ==> self.0@[lower_bound(self.0@, k2)] == e)
                && (k2 != key && has_key(s, k2) ==> self.0@[lower_bound(self.0@, k2)] == s[lower_bound(s, k2)]) by {
                lemma_insert_sorted_lookup(s, e, k2);
            }
            assert(self@ =~= entries_map(s).insert(key, value));
            assert forall|kvs: Seq<(u64, V)>| #[trigger] inserted(kvs) == old(self)@
                implies self@ == inserted(kvs.push((key, value))) by {
                assert(kvs.push((key, value)).drop_last() =~= kvs);
            }
        }
        match r {
            Some(entry) => Some(entry.value),
            None => None,
        }
    }
}

impl<V: Clone, Alloc: Clone, const SPLIT_LIMIT: usize> Clone for ArcBTreeMap<V, Alloc, SPLIT_LIMIT> {
    /// A copy of the map that shares no node with it, each value cloned: what is
    /// later inserted into either leaves the other as it was.
    fn clone(&self) -> (r: Self)
        ensures
            r@.dom() == self@.dom(),
            forall|k: u64| #[trigger] r@.dom().contains(k) ==> cloned(self@[k], r@[k]),
            cloned(self.spec_allocator(), r.spec_allocator()),
    {
        proof {
            use_type_invariant(&self.0);
        }
        let copy_entry = |e: &Entry<V>| -> (c: Entry<V>)
            ensures
                c.key == e.key,
                cloned(e.value, c.value),
            { Entry { key: e.key, value: e.value.clone() } };
        let root = match &self.0.root {
            Some(node) => {
                let copy = node.deep_copy(&copy_entry);
                proof {
                    let h = choose|h: nat| #[trigger] shaped(*node.0, h, SPLIT_LIMIT as nat);
                    assert(shaped(*copy.0, h, SPLIT_LIMIT as nat));
                    let a = node_view(*node.0);
                    let b = node_view(*copy.0);
                    assert forall|i: int| 0 <= i < a.len() implies b[i].key == a[i].key && cloned(a[i].value, b[i].value) by {
                        assert(copy_entry.ensures((&a[i],), b[i]));
                    }
                    assert(sorted_by_key(b));
                }
                Some(copy)
            },
            None => None,
        };
        let r = ArcBTreeMap(ArcBTreeSet { root, alloc: self.0.alloc.clone() });
        proof {
            let a = self.0@;
            let b = r.0@;
            assert(a.len() == b.len());
            assert forall|i: int| 0 <= i < a.len() implies b[i].key == a[i].key && cloned(a[i].value, b[i].value) by {}
            assert forall|k: u64| has_key(b, k) == has_key(a, k) by {
                if has_key(a, k) {
                    let i = choose|i: int| 0 <= i < a.len() && a[i].spec_key() == k;
                    assert(b[i].spec_key() == k);
                }
                if has_key(b, k) {
                    let i = choose|i: int| 0 <= i < b.len() && b[i].spec_key() == k;
                    assert(a[i].spec_key() == k);
                }
            }
            assert forall|k: u64| #[trigger] r@.dom().contains(k) implies cloned(self@[k], r@[k]) by {
                lemma_lower_bound_exists(a, k);
                let p = lower_bound(a, k);
                assert(splits_at(b, k, p));
                lemma_lower_bound_is(b, k, p);
            }
            assert(r@.dom() =~= self@.dom());
        }
        r
    }
}

} // verus!
