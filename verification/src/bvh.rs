//! The layout of a median-split bounding-volume hierarchy over triangles:
//! which triangles each leaf holds, how nodes point to their children, and
//! the order of the triangle-index array.
//!
//! Each triangle comes with order-preserving integer keys of its centroid
//! coordinates. The split axis of a node (the longest axis of its
//! centroid bounds) and every node's bounds are float work, left to the
//! caller: `step` asks for an axis when a node is split.

use vstd::prelude::*;
use vstd::seq_lib::{lemma_multiset_commutative, to_multiset_contains};
use crate::text::owned_text;

verus! {

/// Ranges of at most this many triangles become leaves.
pub const LEAF_LIMIT: usize = 4;

/// Keys of a centroid's coordinates, ordered as the coordinates are.
#[derive(Clone, Copy, Debug, PartialEq, Eq, Structural)]
pub struct CentroidKeys {
    pub x: u32,
    pub y: u32,
    pub z: u32,
}

/// A triangle and the keys of its centroid.
#[derive(Clone, Copy, Debug, PartialEq, Eq, Structural)]
pub struct BvhEntry {
    pub keys: CentroidKeys,
    pub triangle: u32,
}

/// A node of the hierarchy. A leaf holds the `count` entries from
/// `first`; an internal node (`count == 0`) has its children at `first`
/// and `first + 1`, split on `axis` around the key `pivot`. Every node
/// covers the entries `start..end`.
#[derive(Clone, Copy, Debug, PartialEq, Eq, Structural)]
pub struct BvhNodeLayout {
    pub first: u32,
    pub count: u32,
    pub start: usize,
    pub end: usize,
    pub axis: u32,
    pub pivot: u32,
}

/// A node still to be built over the entries `start..end`.
#[derive(Clone, Copy, Debug, PartialEq, Eq, Structural)]
pub struct BvhTask {
    pub start: usize,
    pub end: usize,
    pub node: usize,
}

/// What one step of construction did or needs.
#[derive(Clone, Copy, Debug, PartialEq, Eq, Structural)]
pub enum BvhStep {
    /// A node became a leaf.
    Leaf,
    /// The node over `start..end` is split; the caller computes the axis
    /// from the centroids of those entries and passes it to `split`.
    ChooseAxis { start: usize, end: usize },
    /// Every node is built.
    Done,
}

/// Why construction stopped.
#[derive(Clone, Copy, Debug, PartialEq, Eq, Structural)]
pub enum BvhError {
    /// Another pair of children would not be addressable with `u32`.
    NodeCountExceedsU32,
}

impl BvhError {
    /// The human-readable text of this error.
    pub fn message(&self) -> (text: String)
        ensures
            text@ == "BVH node count exceeds u32"@,
    {
        owned_text("BVH node count exceeds u32")
    }
}

/// The key of an entry on an axis (0 for x, 1 for y, else z).
pub open spec fn axis_key(e: BvhEntry, axis: u32) -> u32 {
    if axis == 0 { e.keys.x } else if axis == 1 { e.keys.y } else { e.keys.z }
}

/// The key of an entry on an axis.
pub fn entry_key(e: &BvhEntry, axis: u32) -> (k: u32)
    ensures
        k == axis_key(*e, axis),
{
    if axis == 0 { e.keys.x } else if axis == 1 { e.keys.y } else { e.keys.z }
}

/// Where the entries `start..end` of a node are split: the median.
pub open spec fn split_point(start: usize, end: usize) -> int {
    start + (end - start) / 2
}

/// The triangles of the entries, in order.
pub open spec fn triangles(items: Seq<BvhEntry>) -> Seq<u32> {
    items.map_values(|e: BvhEntry| e.triangle)
}

/// Whether node `k` is complete: a leaf over at most `LEAF_LIMIT`
/// entries, or an internal node over more whose two children (after it)
/// cover its lower and upper halves, with keys on its axis at most its
/// pivot in the lower half and at least its pivot in the upper half.
pub open spec fn node_done(nodes: Seq<BvhNodeLayout>, items: Seq<BvhEntry>, k: int) -> bool {
    let nd = nodes[k];
    &&& nd.start <= nd.end <= items.len()
    &&& if nd.end - nd.start <= LEAF_LIMIT {
        nd.count == nd.end - nd.start && nd.first == nd.start
    } else {
        let c = nd.first as int;
        let m = split_point(nd.start, nd.end);
        &&& nd.count == 0
        &&& k < c
        &&& c + 1 < nodes.len()
        &&& nodes[c].start == nd.start && nodes[c].end == m
        &&& nodes[c + 1].start == m && nodes[c + 1].end == nd.end
        &&& nd.axis < 3
        &&& forall|i: int| nd.start <= i < m ==> axis_key(#[trigger] items[i], nd.axis) <= nd.pivot
        &&& forall|i: int| m <= i < nd.end ==> nd.pivot <= axis_key(#[trigger] items[i], nd.axis)
    }
}

/// Whether the range of task `t` lies inside one half of node `nd` or
/// outside its range.
pub open spec fn nested_or_apart(t: BvhTask, nd: BvhNodeLayout) -> bool {
    let m = split_point(nd.start, nd.end);
    ||| nd.start <= t.start && t.end <= m
    ||| m <= t.start && t.end <= nd.end
    ||| t.end <= nd.start
    ||| nd.end <= t.start
}

/// Reorders `items[start..end]` by the key on `axis` so that the entry at
/// `start + mid` is where a sort would put it.
///
/// Wraps `slice::select_nth_unstable_by_key`, whose documentation promises
/// a reordering of the slice in which no entry before `mid` has a greater
/// key, and no entry after `mid` a smaller one, than the entry at `mid`.
/// Entries outside the range are not touched. Which of several equal keys
/// ends where is not stated.
#[verifier::external_body]
fn select_by_key(items: &mut Vec<BvhEntry>, start: usize, end: usize, mid: usize, axis: u32)
    requires
        start + mid < end,
        end <= old(items)@.len(),
    ensures
        final(items)@.len() == old(items)@.len(),
        forall|i: int| (0 <= i < start || end <= i < old(items)@.len()) ==> #[trigger] final(items)@[i] == old(items)@[i],
        final(items)@.subrange(start as int, end as int).to_multiset()
            == old(items)@.subrange(start as int, end as int).to_multiset(),
        forall|i: int| start <= i < start + mid
            ==> axis_key(#[trigger] final(items)@[i], axis) <= axis_key(final(items)@[start + mid], axis),
        forall|i: int| start + mid < i < end
            ==> axis_key(final(items)@[start + mid], axis) <= axis_key(#[trigger] final(items)@[i], axis),
{
    items[start..end].select_nth_unstable_by_key(mid, |e| entry_key(e, axis));
}

/// A bound on the keys of the entries `a..b` survives reordering the
/// entries `s..e` when that range is inside `a..b` or outside it.
proof fn lemma_bound_survives_reorder(
    before: Seq<BvhEntry>,
    after: Seq<BvhEntry>,
    s: int,
    e: int,
    a: int,
    b: int,
    axis: u32,
    pivot: u32,
    below: bool,
)
    requires
        0 <= s <= e <= before.len(),
        after.len() == before.len(),
        forall|i: int| (0 <= i < s || e <= i < before.len()) ==> #[trigger] after[i] == before[i],
        after.subrange(s, e).to_multiset() == before.subrange(s, e).to_multiset(),
        0 <= a <= b <= before.len(),
        (a <= s && e <= b) || e <= a || b <= s,
        forall|i: int| a <= i < b ==> (if below {
            axis_key(#[trigger] before[i], axis) <= pivot
        } else {
            pivot <= axis_key(before[i], axis)
        }),
    ensures
        forall|i: int| a <= i < b ==> (if below {
            axis_key(#[trigger] after[i], axis) <= pivot
        } else {
            pivot <= axis_key(after[i], axis)
        }),
{
    assert forall|i: int| a <= i < b implies (if below {
        axis_key(#[trigger] after[i], axis) <= pivot
    } else {
        pivot <= axis_key(after[i], axis)
    }) by {
        if s <= i < e {
            let x = after[i];
            let ns = after.subrange(s, e);
            let os = before.subrange(s, e);
            assert(ns[i - s] == x);
            to_multiset_contains(ns, x);
            to_multiset_contains(os, x);
            assert(os.contains(x));
            let j = choose|j: int| 0 <= j < os.len() && os[j] == x;
            assert(before[s + j] == x);
        } else {
            assert(after[i] == before[i]);
        }
    }
}

/// Reordering the entries `s..e` keeps the multiset of all entries.
proof fn lemma_reorder_keeps_entries(before: Seq<BvhEntry>, after: Seq<BvhEntry>, s: int, e: int)
    requires
        0 <= s <= e <= before.len(),
        after.len() == before.len(),
        forall|i: int| (0 <= i < s || e <= i < before.len()) ==> #[trigger] after[i] == before[i],
        after.subrange(s, e).to_multiset() == before.subrange(s, e).to_multiset(),
    ensures
        after.to_multiset() == before.to_multiset(),
        after.take(s) == before.take(s),
{
    let n = before.len() as int;
    assert(before =~= before.subrange(0, s) + before.subrange(s, e) + before.subrange(e, n));
    assert(after =~= after.subrange(0, s) + after.subrange(s, e) + after.subrange(e, n));
    assert(after.subrange(0, s) =~= before.subrange(0, s));
    assert(after.subrange(e, n) =~= before.subrange(e, n));
    lemma_multiset_commutative(before.subrange(0, s) + before.subrange(s, e), before.subrange(e, n));
    lemma_multiset_commutative(before.subrange(0, s), before.subrange(s, e));
    lemma_multiset_commutative(after.subrange(0, s) + after.subrange(s, e), after.subrange(e, n));
    lemma_multiset_commutative(after.subrange(0, s), after.subrange(s, e));
    assert(after.take(s) =~= before.take(s));
}

/// The tasks still open: the stack, with the task being split on top.
pub open spec fn open_tasks(tasks: Seq<BvhTask>, pending: Option<BvhTask>) -> Seq<BvhTask> {
    match pending {
        Some(p) => tasks.push(p),
        None => tasks,
    }
}

/// Whether the open tasks cover `from..n` from the top of the stack down,
/// each range right after the one above it.
pub open spec fn tiles(open: Seq<BvhTask>, from: int, n: int) -> bool {
    &&& open.len() == 0 ==> from == n
    &&& open.len() > 0 ==> open[open.len() - 1].start == from && open[0].end == n
    &&& forall|j: int| 0 <= j < open.len() ==> (#[trigger] open[j]).start <= open[j].end
    &&& forall|j: int| 0 < j < open.len() ==> (#[trigger] open[j]).end == open[j - 1].start
    &&& forall|i: int, j: int| 0 <= j < i < open.len() ==> (#[trigger] open[i]).end <= (#[trigger] open[j]).start
}

/// A hierarchy under construction.
pub struct BvhBuilder {
    items: Vec<BvhEntry>,
    nodes: Vec<BvhNodeLayout>,
    order: Vec<u32>,
    tasks: Vec<BvhTask>,
    pending: Option<BvhTask>,
    input: Ghost<Seq<BvhEntry>>,
    finished: Ghost<Seq<bool>>,
}

/// A finished hierarchy: the entries in their final order, the nodes
/// (the root first) and the triangle of each entry.
#[derive(Debug)]
pub struct BvhLayout {
    pub entries: Vec<BvhEntry>,
    pub nodes: Vec<BvhNodeLayout>,
    pub order: Vec<u32>,
}

impl BvhBuilder {
    /// The entries the hierarchy is built over.
    pub closed spec fn input(&self) -> Seq<BvhEntry> {
        self.input@
    }

    /// The range of the node waiting for its axis.
    pub closed spec fn pending_range(&self) -> Option<(usize, usize)> {
        match self.pending {
            Some(p) => Some((p.start, p.end)),
            None => None,
        }
    }

    /// The ranges of the nodes still to be built, bottom of the stack
    /// first; the node waiting for its axis is not among them.
    pub closed spec fn open_ranges(&self) -> Seq<(usize, usize)> {
        self.tasks@.map_values(|t: BvhTask| (t.start, t.end))
    }

    /// How many nodes there are so far.
    pub closed spec fn node_count(&self) -> nat {
        self.nodes@.len()
    }

    /// How many entries leaves have placed in the triangle order so far.
    pub closed spec fn placed(&self) -> nat {
        self.order@.len()
    }

    /// The entries in their current order.
    pub closed spec fn current_entries(&self) -> Seq<BvhEntry> {
        self.items@
    }

    /// Whether every node is built.
    pub closed spec fn is_complete(&self) -> bool {
        self.tasks@.len() == 0 && self.pending is None
    }

    /// The invariant of construction.
    pub closed spec fn wf(&self) -> bool {
        let n = self.input@.len();
        let items = self.items@;
        let nodes = self.nodes@;
        let fin = self.finished@;
        let open = open_tasks(self.tasks@, self.pending);
        &&& n <= u32::MAX
        &&& items.len() == n
        &&& items.to_multiset() == self.input@.to_multiset()
        &&& self.order@.len() <= n
        &&& self.order@ == triangles(items.take(self.order@.len() as int))
        &&& tiles(open, self.order@.len() as int, n as int)
        &&& nodes.len() >= 1
        &&& nodes.len() <= u32::MAX
        &&& nodes[0].start == 0 && nodes[0].end == n
        &&& fin.len() == nodes.len()
        &&& self.pending matches Some(p) ==> p.end - p.start > LEAF_LIMIT
        &&& forall|j: int| 0 <= j < open.len() ==> {
            &&& (#[trigger] open[j]).node < nodes.len()
            &&& open[j].end <= n
            &&& !fin[open[j].node as int]
            &&& nodes[open[j].node as int].start == open[j].start
            &&& nodes[open[j].node as int].end == open[j].end
        }
        &&& forall|i: int, j: int| 0 <= i < j < open.len() ==> (#[trigger] open[i]).node != (#[trigger] open[j]).node
        &&& forall|k: int| 0 <= k < nodes.len() && !(#[trigger] fin[k]) ==> exists|j: int| 0 <= j < open.len() && (#[trigger] open[j]).node == k
        &&& forall|k: int| 0 <= k < nodes.len() && #[trigger] fin[k] ==> node_done(nodes, items, k)
        &&& forall|k: int, j: int| 0 <= k < nodes.len() && #[trigger] fin[k] && 0 <= j < open.len()
            && nodes[k].end - nodes[k].start > LEAF_LIMIT ==> nested_or_apart(#[trigger] open[j], nodes[k])
    }

    /// Starts a hierarchy over `items`: one root node over all of them.
    pub fn new(items: Vec<BvhEntry>) -> (b: BvhBuilder)
        requires
            items@.len() <= u32::MAX,
        ensures
            b.wf(),
            b.input() == items@,
            b.pending_range() is None,
            b.current_entries() == items@,
            b.open_ranges() == seq![(0usize, items@.len() as usize)],
            b.placed() == 0,
            b.node_count() == 1,
    {
        let n = items.len();
        let mut nodes: Vec<BvhNodeLayout> = Vec::new();
        nodes.push(BvhNodeLayout { first: 0, count: 0, start: 0, end: n, axis: 0, pivot: 0 });
        let mut tasks: Vec<BvhTask> = Vec::new();
        tasks.push(BvhTask { start: 0, end: n, node: 0 });
        let ghost input = items@;
        let ghost fin0 = seq![false];
        let b = BvhBuilder {
            items,
            nodes,
            order: Vec::new(),
            tasks,
            pending: None,
            input: Ghost(input),
            finished: Ghost(fin0),
        };
        proof {
            assert(b.items@.take(0) =~= seq![]);
            assert(triangles(b.items@.take(0)) =~= seq![]);
            let open = open_tasks(b.tasks@, b.pending);
            assert(open[0].node == 0);
            assert forall|k: int| 0 <= k < b.nodes@.len() && !(#[trigger] b.finished@[k]) implies exists|j: int| 0 <= j < open.len() && (#[trigger] open[j]).node == k by {
                assert(open[0].node == k);
            }
            assert(b.open_ranges() =~= seq![(0usize, n)]);
        }
        b
    }

    /// The entries in their current order; the caller reads the centroids
    /// of a range from them to choose an axis.
    pub fn entries(&self) -> (e: &Vec<BvhEntry>)
        requires
            self.wf(),
        ensures
            e@.to_multiset() == self.input().to_multiset(),
    {
        &self.items
    }

    /// Builds the next node: a small range becomes a leaf, a larger one
    /// waits for its axis.
    #[verifier::spinoff_prover]
    pub fn step(&mut self) -> (s: BvhStep)
        requires
            old(self).wf(),
            old(self).pending_range() is None,
        ensures
            final(self).wf(),
            final(self).input() == old(self).input(),
            final(self).current_entries() == old(self).current_entries(),
            final(self).node_count() == old(self).node_count(),
            match s {
                BvhStep::Done => old(self).is_complete() && final(self).is_complete(),
                BvhStep::Leaf => final(self).pending_range() is None,
                BvhStep::ChooseAxis { start, end } => final(self).pending_range() == Some((start, end))
                    && end - start > LEAF_LIMIT,
            },
            old(self).open_ranges().len() == 0 ==> {
                &&& s is Done
                &&& final(self).open_ranges() == old(self).open_ranges()
                &&& final(self).placed() == old(self).placed()
                &&& final(self).pending_range() is None
            },
            old(self).open_ranges().len() > 0 ==> {
                let top = old(self).open_ranges().last();
                &&& top.0 == old(self).placed()
                &&& final(self).open_ranges() == old(self).open_ranges().drop_last()
                &&& if top.1 - top.0 > LEAF_LIMIT {
                    &&& s == (BvhStep::ChooseAxis { start: top.0, end: top.1 })
                    &&& final(self).pending_range() == Some(top)
                    &&& final(self).placed() == old(self).placed()
                } else {
                    &&& s is Leaf
                    &&& final(self).pending_range() is None
                    &&& final(self).placed() == top.1
                }
            },
    {
        assert(self.pending is None);
        let ghost old_ranges = self.open_ranges();
        let ghost old_placed = self.order@.len();
        let ghost old_nodes = self.nodes@;
        let ghost old_fin = self.finished@;
        let ghost old_open = open_tasks(self.tasks@, self.pending);
        if self.tasks.len() == 0 {
            return BvhStep::Done;
        }
        let t = match self.tasks.pop() {
            Some(t) => t,
            None => return BvhStep::Done,
        };
        assert(old_open == self.tasks@.push(t));
        assert(self.open_ranges() =~= old_ranges.drop_last());
        assert(old_ranges.last() == (t.start, t.end));
        assert(old_open[old_open.len() - 1] == t);
        assert(t.node < self.nodes@.len() && t.end <= self.items@.len());
        if t.end - t.start > LEAF_LIMIT {
            self.pending = Some(t);
            assert(open_tasks(self.tasks@, self.pending) == old_open);
            return BvhStep::ChooseAxis { start: t.start, end: t.end };
        }
        let mut added: Vec<u32> = Vec::new();
        let mut i: usize = t.start;
        while i < t.end
            invariant
                t.start <= i <= t.end,
                t.end <= self.items@.len(),
                added@ == triangles(self.items@.subrange(t.start as int, i as int)),
            decreases t.end - i,
        {
            added.push(self.items[i].triangle);
            assert(triangles(self.items@.subrange(t.start as int, i + 1))
                =~= triangles(self.items@.subrange(t.start as int, i as int)).push(self.items@[i as int].triangle));
            i = i + 1;
        }
        let ghost before = self.order@;
        self.order.append(&mut added);
        assert(self.order@ =~= triangles(self.items@.take(t.end as int))) by {
            assert(before == triangles(self.items@.take(t.start as int)));
            assert(self.items@.take(t.end as int) =~= self.items@.take(t.start as int) + self.items@.subrange(t.start as int, t.end as int));
        }
        let k = t.node;
        let leaf = BvhNodeLayout {
            first: t.start as u32,
            count: (t.end - t.start) as u32,
            start: t.start,
            end: t.end,
            axis: 0,
            pivot: 0,
        };
        self.nodes.set(k, leaf);
        self.finished = Ghost(self.finished@.update(k as int, true));
        proof {
            let nodes = self.nodes@;
            let items = self.items@;
            let fin = self.finished@;
            let open = open_tasks(self.tasks@, self.pending);
            assert(open == self.tasks@);
            assert(open =~= old_open.drop_last());
            assert forall|x: int| 0 <= x < nodes.len() implies #[trigger] nodes[x].start == old_nodes[x].start
                && nodes[x].end == old_nodes[x].end by {}
            assert forall|x: int| 0 <= x < nodes.len() && #[trigger] fin[x] implies node_done(nodes, items, x) by {
                if x != k {
                    assert(old_fin[x]);
                    assert(node_done(old_nodes, items, x));
                    if old_nodes[x].end - old_nodes[x].start > LEAF_LIMIT {
                        let c = old_nodes[x].first as int;
                        assert(nodes[c].start == old_nodes[c].start);
                        assert(nodes[c + 1].start == old_nodes[c + 1].start);
                    }
                }
            }
            assert forall|x: int| 0 <= x < nodes.len() && !(#[trigger] fin[x]) implies exists|j: int| 0 <= j < open.len() && (#[trigger] open[j]).node == x by {
                assert(!old_fin[x]);
                let j = choose|j: int| 0 <= j < old_open.len() && (#[trigger] old_open[j]).node == x;
                assert(j != old_open.len() - 1);
                assert(open[j] == old_open[j]);
            }
            assert forall|x: int, j: int| 0 <= x < nodes.len() && #[trigger] fin[x] && 0 <= j < open.len()
                && nodes[x].end - nodes[x].start > LEAF_LIMIT implies nested_or_apart(#[trigger] open[j], nodes[x]) by {
                assert(open[j] == old_open[j]);
                if x != k {
                    assert(old_fin[x]);
                }
            }
            assert forall|j: int| 0 <= j < open.len() implies {
                &&& (#[trigger] open[j]).node < nodes.len()
                &&& open[j].end <= items.len()
                &&& !fin[open[j].node as int]
                &&& nodes[open[j].node as int].start == open[j].start
                &&& nodes[open[j].node as int].end == open[j].end
            } by {
                assert(open[j] == old_open[j]);
                assert(old_open[j].node != old_open[old_open.len() - 1].node);
            }
            assert(self.order@ == triangles(items.take(t.end as int)));
        }
        BvhStep::Leaf
    }

    /// Splits the waiting node on `axis` (0 for x, 1 for y, 2 for z): its
    /// entries are partitioned around the median key and two children are
    /// appended for the halves, the lower half to be built first. Fails,
    /// changing nothing, when two more nodes would not fit in `u32`.
    #[verifier::spinoff_prover]
    #[verifier::rlimit(40)]
    pub fn split(&mut self, axis: u32) -> (result: Result<(), BvhError>)
        requires
            old(self).wf(),
            old(self).pending_range() is Some,
            axis < 3,
        ensures
            final(self).wf(),
            final(self).input() == old(self).input(),
            final(self).placed() == old(self).placed(),
            result is Err <==> old(self).node_count() + 2 > u32::MAX,
            result matches Err(e) ==> {
                &&& e == BvhError::NodeCountExceedsU32
                &&& final(self).pending_range() == old(self).pending_range()
                &&& final(self).open_ranges() == old(self).open_ranges()
                &&& final(self).node_count() == old(self).node_count()
                &&& final(self).current_entries() == old(self).current_entries()
            },
            result is Ok ==> {
                let r = old(self).pending_range()->0;
                let m = split_point(r.0, r.1);
                let before = old(self).current_entries();
                let after = final(self).current_entries();
                &&& final(self).pending_range() is None
                &&& final(self).open_ranges() == old(self).open_ranges().push((m as usize, r.1)).push((r.0, m as usize))
                &&& final(self).node_count() == old(self).node_count() + 2
                &&& after.len() == before.len()
                &&& forall|i: int| (0 <= i < r.0 || r.1 <= i < before.len()) ==> #[trigger] after[i] == before[i]
                &&& after.subrange(r.0 as int, r.1 as int).to_multiset() == before.subrange(r.0 as int, r.1 as int).to_multiset()
                &&& forall|i: int| r.0 <= i < m ==> axis_key(#[trigger] after[i], axis) <= axis_key(after[m], axis)
                &&& forall|i: int| m <= i < r.1 ==> axis_key(after[m], axis) <= axis_key(#[trigger] after[i], axis)
            },
    {
        let ghost old_ranges = self.open_ranges();
        let p = match self.pending {
            Some(p) => p,
            None => return Ok(()),
        };
        let c = self.nodes.len();
        if c > 0xffff_fffd {
            return Err(BvhError::NodeCountExceedsU32);
        }
        let ghost old_items = self.items@;
        let ghost old_nodes = self.nodes@;
        let ghost old_fin = self.finished@;
        let ghost old_open = open_tasks(self.tasks@, self.pending);
        let ghost top = old_open.len() - 1;
        assert(old_open[top] == p);
        assert(p.end <= self.items@.len() && p.end - p.start > LEAF_LIMIT && p.node < self.nodes@.len());
        let s = p.start;
        let e = p.end;
        let mid = (e - s) / 2;
        let m = s + mid;
        select_by_key(&mut self.items, s, e, mid, axis);
        let pivot = entry_key(&self.items[m], axis);
        proof {
            lemma_reorder_keeps_entries(old_items, self.items@, s as int, e as int);
        }
        self.nodes.push(BvhNodeLayout { first: 0, count: 0, start: s, end: m, axis: 0, pivot: 0 });
        self.nodes.push(BvhNodeLayout { first: 0, count: 0, start: m, end: e, axis: 0, pivot: 0 });
        let k = p.node;
        self.nodes.set(k, BvhNodeLayout { first: c as u32, count: 0, start: s, end: e, axis, pivot });
        self.finished = Ghost(self.finished@.update(k as int, true).push(false).push(false));
        self.tasks.push(BvhTask { start: m, end: e, node: c + 1 });
        self.tasks.push(BvhTask { start: s, end: m, node: c });
        self.pending = None;
        assert(self.open_ranges() =~= old_ranges.push((m, e)).push((s, m)));
        proof {
            let nodes = self.nodes@;
            let items = self.items@;
            let fin = self.finished@;
            let open = open_tasks(self.tasks@, self.pending);
            let rest = old_open.drop_last();
            assert(open =~= rest.push(BvhTask { start: m, end: e, node: (c + 1) as usize }).push(BvhTask { start: s, end: m, node: c }));
            assert(self.order@ == triangles(items.take(self.order@.len() as int)));
            assert forall|x: int| 0 <= x < old_nodes.len() implies #[trigger] nodes[x].start == old_nodes[x].start
                && nodes[x].end == old_nodes[x].end by {}
            // The split node is complete.
            assert(node_done(nodes, items, k as int)) by {
                assert forall|i: int| s <= i < m implies axis_key(#[trigger] items[i], axis) <= pivot by {}
                assert forall|i: int| m <= i < e implies pivot <= axis_key(#[trigger] items[i], axis) by {
                    if i > m {
                    }
                }
            }
            // Nodes completed earlier stay complete: the reordered range is
            // inside one half of each of them, or outside it.
            assert forall|x: int| 0 <= x < nodes.len() && #[trigger] fin[x] implies node_done(nodes, items, x) by {
                if x != k {
                    assert(x < old_nodes.len());
                    assert(old_fin[x]);
                    assert(node_done(old_nodes, old_items, x));
                    let nd = old_nodes[x];
                    assert(nodes[x] == nd);
                    if nd.end - nd.start > LEAF_LIMIT {
                        let cc = nd.first as int;
                        assert(nodes[cc].start == old_nodes[cc].start && nodes[cc].end == old_nodes[cc].end);
                        assert(nodes[cc + 1].start == old_nodes[cc + 1].start && nodes[cc + 1].end == old_nodes[cc + 1].end);
                        assert(nested_or_apart(old_open[top], nd));
                        let h = split_point(nd.start, nd.end);
                        lemma_bound_survives_reorder(old_items, items, s as int, e as int, nd.start as int, h, nd.axis, nd.pivot, true);
                        lemma_bound_survives_reorder(old_items, items, s as int, e as int, h, nd.end as int, nd.axis, nd.pivot, false);
                    }
                }
            }
            assert forall|j: int| 0 <= j < open.len() implies {
                &&& (#[trigger] open[j]).node < nodes.len()
                &&& open[j].end <= items.len()
                &&& !fin[open[j].node as int]
                &&& nodes[open[j].node as int].start == open[j].start
                &&& nodes[open[j].node as int].end == open[j].end
            } by {
                if j < rest.len() {
                    assert(open[j] == old_open[j]);
                    assert(old_open[j].node != old_open[top].node);
                }
            }
            assert forall|i: int, j: int| 0 <= i < j < open.len() implies (#[trigger] open[i]).node != (#[trigger] open[j]).node by {
                if j < rest.len() {
                    assert(open[i] == old_open[i] && open[j] == old_open[j]);
                }
            }
            assert forall|x: int| 0 <= x < nodes.len() && !(#[trigger] fin[x]) implies exists|j: int| 0 <= j < open.len() && (#[trigger] open[j]).node == x by {
                if x == c {
                    assert(open[open.len() - 1].node == x);
                } else if x == c + 1 {
                    assert(open[open.len() - 2].node == x);
                } else {
                    assert(x < old_nodes.len() && x != k);
                    assert(!old_fin[x]);
                    let j = choose|j: int| 0 <= j < old_open.len() && (#[trigger] old_open[j]).node == x;
                    assert(j != top);
                    assert(open[j] == old_open[j]);
                }
            }
            assert forall|x: int, j: int| 0 <= x < nodes.len() && #[trigger] fin[x] && 0 <= j < open.len()
                && nodes[x].end - nodes[x].start > LEAF_LIMIT implies nested_or_apart(#[trigger] open[j], nodes[x]) by {
                if x == k {
                    if j < rest.len() {
                        assert(open[j] == old_open[j]);
                        assert(old_open[top].end <= old_open[j].start);
                    }
                } else {
                    assert(old_fin[x]);
                    assert(nodes[x] == old_nodes[x]);
                    if j < rest.len() {
                        assert(open[j] == old_open[j]);
                    } else {
                        assert(nested_or_apart(old_open[top], old_nodes[x]));
                    }
                }
            }
            assert(tiles(open, self.order@.len() as int, items.len() as int)) by {
                assert forall|i: int, j: int| 0 <= j < i < open.len() implies (#[trigger] open[i]).end <= (#[trigger] open[j]).start by {
                    if i < rest.len() {
                        assert(open[i] == old_open[i] && open[j] == old_open[j]);
                    } else if j < rest.len() {
                        assert(open[j] == old_open[j]);
                        assert(old_open[top].end <= old_open[j].start);
                    }
                }
                assert forall|j: int| 0 < j < open.len() implies (#[trigger] open[j]).end == open[j - 1].start by {
                    if j < rest.len() {
                        assert(open[j] == old_open[j] && open[j - 1] == old_open[j - 1]);
                    } else if j == rest.len() {
                        assert(old_open[top].end == old_open[top - 1].start);
                    }
                }
            }
        }
        Ok(())
    }

    /// The finished hierarchy.
    pub fn finish(self) -> (layout: BvhLayout)
        requires
            self.wf(),
            self.is_complete(),
        ensures
            layout.entries@.to_multiset() == self.input().to_multiset(),
            layout.order@ == triangles(layout.entries@),
            layout.nodes@.len() >= 1,
            layout.nodes@[0].start == 0 && layout.nodes@[0].end == self.input().len(),
            forall|k: int| 0 <= k < layout.nodes@.len() ==> #[trigger] node_done(layout.nodes@, layout.entries@, k),
    {
        proof {
            let open = open_tasks(self.tasks@, self.pending);
            assert(open.len() == 0);
            assert forall|k: int| 0 <= k < self.nodes@.len() implies #[trigger] node_done(self.nodes@, self.items@, k) by {
                if !self.finished@[k] {
                    let j = choose|j: int| 0 <= j < open.len() && (#[trigger] open[j]).node == k;
                }
            }
            assert(self.items@.take(self.items@.len() as int) =~= self.items@);
        }
        BvhLayout { entries: self.items, nodes: self.nodes, order: self.order }
    }
}

} // verus!
