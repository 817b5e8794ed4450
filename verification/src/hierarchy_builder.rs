//! The decisions of coarse-hierarchy construction, level by level: which
//! child groups are offered for simplification, how an accepted parent
//! group is linked to its children, and which clusters end up as roots.
//!
//! Simplifying a group is outside work (it needs the geometry); the caller
//! runs it when `step` asks and reports how many parents it produced.

use vstd::prelude::*;
use crate::hierarchy::{
    group_end, merge_contiguous_groups, merged, ClusterGroup, ClusterLinks, HierarchyError, NO_RELATION,
};

verus! {

/// How many consecutive groups of one level form one child group.
pub const GROUP_FANOUT: usize = 8;

/// The relations of a cluster that has neither parents nor children.
pub open spec fn unlinked() -> ClusterLinks {
    ClusterLinks { parent: NO_RELATION, parent_count: 0, first_child: NO_RELATION, child_count: 0 }
}

/// One group per leaf.
pub open spec fn singletons(n: nat) -> Seq<ClusterGroup> {
    Seq::new(n, |i: int| ClusterGroup { start: i as usize, count: 1 })
}

/// The merged child groups of a level: its groups taken `GROUP_FANOUT` at a
/// time from position `i`, each run merged, or the first failure.
pub open spec fn chunk_merges(groups: Seq<ClusterGroup>, i: int) -> Result<Seq<ClusterGroup>, HierarchyError>
    decreases groups.len() - i,
{
    if i >= groups.len() || i < 0 {
        Ok(seq![])
    } else {
        let end = if i + GROUP_FANOUT < groups.len() { i + GROUP_FANOUT } else { groups.len() as int };
        match merged(groups.subrange(i, end)) {
            Err(e) => Err(e),
            Ok(g) => match chunk_merges(groups, end) {
                Err(e) => Err(e),
                Ok(rest) => Ok(seq![g] + rest),
            },
        }
    }
}

/// The state of hierarchy construction as plain values.
pub struct BuilderView {
    /// The relations of every cluster so far: leaves, then parents in the
    /// order they were accepted.
    pub links: Seq<ClusterLinks>,
    /// The groups of the level below the one being built.
    pub current: Seq<ClusterGroup>,
    /// The merged child groups of the level being built.
    pub partitions: Seq<ClusterGroup>,
    /// The next child group to offer.
    pub cursor: int,
    /// The parent groups of the level being built.
    pub next: Seq<ClusterGroup>,
    /// The roots found so far, in the order found.
    pub roots: Seq<usize>,
    pub level: u32,
    pub maximum_levels: u32,
    pub maximum_level: u32,
    /// The child group offered for simplification and not yet answered.
    pub pending: Option<ClusterGroup>,
    /// Whether no further level is built.
    pub done: bool,
}

/// The state after moving to the level of `v`: the level is skipped when
/// it exceeds the maximum or has no groups; else its child groups are
/// merged.
pub open spec fn prepared(v: BuilderView) -> Result<BuilderView, HierarchyError> {
    if v.level > v.maximum_levels || v.current.len() == 0 {
        Ok(BuilderView { partitions: seq![], cursor: 0, done: true, ..v })
    } else {
        match chunk_merges(v.current, 0) {
            Err(e) => Err(e),
            Ok(ps) => Ok(BuilderView { partitions: ps, cursor: 0, done: false, ..v }),
        }
    }
}

/// The state before the first level: every leaf unlinked and its own group.
pub open spec fn initial(leaf_count: nat, maximum_levels: u32) -> BuilderView {
    BuilderView {
        links: Seq::new(leaf_count, |i: int| unlinked()),
        current: singletons(leaf_count),
        partitions: seq![],
        cursor: 0,
        next: seq![],
        roots: seq![],
        level: 1,
        maximum_levels,
        maximum_level: 0,
        pending: None,
        done: false,
    }
}

/// What one step of a level does.
#[derive(Clone, Copy, Debug, PartialEq, Eq, Structural)]
pub enum HierarchyStep {
    /// The next child group is a single cluster; it became a root.
    Rooted,
    /// The child group should be simplified into parents at `level`; the
    /// outcome goes to `simplified`.
    Simplify { group: ClusterGroup, level: u32 },
    /// Every child group of the level has been handled; `next_level`
    /// moves on.
    LevelComplete,
}

/// The outcome of one step from state `v`.
pub open spec fn step_of(v: BuilderView) -> (Result<HierarchyStep, HierarchyError>, BuilderView) {
    if v.cursor >= v.partitions.len() {
        (Ok(HierarchyStep::LevelComplete), v)
    } else {
        let g = v.partitions[v.cursor];
        if g.count == 1 {
            (Ok(HierarchyStep::Rooted), BuilderView { roots: v.roots.push(g.start), cursor: v.cursor + 1, ..v })
        } else if group_end(g) is None {
            (Err(HierarchyError::GroupRangeOverflow), v)
        } else {
            (Ok(HierarchyStep::Simplify { group: g, level: v.level }),
                BuilderView { pending: Some(g), cursor: v.cursor + 1, ..v })
        }
    }
}

/// The indices `start..end` in order.
pub open spec fn index_range(start: int, end: int) -> Seq<usize>
    decreases end - start,
{
    if end <= start { seq![] } else { index_range(start, end - 1).push((end - 1) as usize) }
}

/// The relations after linking children `g` to `n` parents starting at
/// cluster `parent_start`.
pub open spec fn linked(links: Seq<ClusterLinks>, g: ClusterGroup, parent_start: int, n: nat) -> Seq<ClusterLinks> {
    Seq::new(links.len(), |k: int|
        if g.start <= k < g.start + g.count {
            ClusterLinks { parent: parent_start as u32, parent_count: n as u32, ..links[k] }
        } else {
            links[k]
        })
    + Seq::new(n, |k: int| ClusterLinks {
        parent: NO_RELATION,
        parent_count: 0,
        first_child: g.start as u32,
        child_count: g.count as u32,
    })
}

/// The outcome of the simplification of the pending group in state `v`:
/// `None` when it gave no usable parents, else the parent count.
pub open spec fn simplified_of(v: BuilderView, parents: Option<nat>) -> Result<BuilderView, HierarchyError> {
    let g = v.pending->0;
    let end = g.start + g.count;
    let rejected = match parents { None => true, Some(n) => n >= g.count };
    if rejected {
        Ok(BuilderView { roots: v.roots + index_range(g.start as int, end), pending: None, ..v })
    } else {
        let n = parents->0;
        let parent_start = v.links.len();
        if n > u32::MAX {
            Err(HierarchyError::ParentCountExceedsU32)
        } else if g.start > u32::MAX {
            Err(HierarchyError::ChildStartExceedsU32)
        } else if g.count > u32::MAX {
            Err(HierarchyError::ChildCountExceedsU32)
        } else if parent_start > u32::MAX {
            Err(HierarchyError::ParentStartExceedsU32)
        } else {
            Ok(BuilderView {
                links: linked(v.links, g, parent_start as int, n),
                next: v.next.push(ClusterGroup { start: parent_start as usize, count: n as usize }),
                maximum_level: v.level,
                pending: None,
                ..v
            })
        }
    }
}

/// The state after a level: its parent groups become the groups to build
/// on, and the next level starts unless this was the last.
pub open spec fn next_level_of(v: BuilderView) -> Result<BuilderView, HierarchyError> {
    let moved = BuilderView { current: v.next, next: seq![], partitions: seq![], cursor: 0, ..v };
    if v.level >= v.maximum_levels {
        Ok(BuilderView { done: true, ..moved })
    } else {
        prepared(BuilderView { level: (v.level + 1) as u32, ..moved })
    }
}

/// All indices of the groups `gs`, group by group.
pub open spec fn group_indices(gs: Seq<ClusterGroup>) -> Seq<usize>
    decreases gs.len(),
{
    if gs.len() == 0 {
        seq![]
    } else {
        group_indices(gs.drop_last()) + index_range(gs.last().start as int, gs.last().start + gs.last().count)
    }
}

/// Whether `s` is strictly increasing.
pub open spec fn strictly_increasing(s: Seq<usize>) -> bool {
    forall|i: int, j: int| 0 <= i < j < s.len() ==> s[i] < s[j]
}

/// A finished hierarchy: the relations of every cluster, the roots in
/// increasing order without repeats, and the highest level built.
#[derive(Debug)]
pub struct HierarchyOutline {
    pub links: Vec<ClusterLinks>,
    pub roots: Vec<usize>,
    pub maximum_level: u32,
}

/// Hierarchy construction in progress.
#[derive(Debug)]
pub struct HierarchyBuilder {
    links: Vec<ClusterLinks>,
    current: Vec<ClusterGroup>,
    partitions: Vec<ClusterGroup>,
    cursor: usize,
    next: Vec<ClusterGroup>,
    roots: Vec<usize>,
    level: u32,
    maximum_levels: u32,
    maximum_level: u32,
    pending: Option<ClusterGroup>,
    done: bool,
}

impl View for HierarchyBuilder {
    type V = BuilderView;

    closed spec fn view(&self) -> BuilderView {
        BuilderView {
            links: self.links@,
            current: self.current@,
            partitions: self.partitions@,
            cursor: self.cursor as int,
            next: self.next@,
            roots: self.roots@,
            level: self.level,
            maximum_levels: self.maximum_levels,
            maximum_level: self.maximum_level,
            pending: self.pending,
            done: self.done,
        }
    }
}

fn merge_chunks(groups: &Vec<ClusterGroup>) -> (result: Result<Vec<ClusterGroup>, HierarchyError>)
    ensures
        match chunk_merges(groups@, 0) {
            Ok(ps) => result matches Ok(v) && v@ == ps,
            Err(e) => result == Err::<Vec<ClusterGroup>, HierarchyError>(e),
        },
{
    let mut out: Vec<ClusterGroup> = Vec::new();
    let mut i: usize = 0;
    let n = groups.len();
    assert(out@ + seq![] =~= out@);
    while i < n
        invariant
            n == groups@.len(),
            i <= n,
            chunk_merges(groups@, 0) == match chunk_merges(groups@, i as int) {
                Err(e) => Err(e),
                Ok(rest) => Ok::<Seq<ClusterGroup>, HierarchyError>(out@ + rest),
            },
        decreases n - i,
    {
        let end = if n - i > GROUP_FANOUT { i + GROUP_FANOUT } else { n };
        let mut chunk: Vec<ClusterGroup> = Vec::new();
        let mut k: usize = i;
        while k < end
            invariant
                i <= k <= end,
                end <= groups@.len(),
                chunk@ == groups@.subrange(i as int, k as int),
            decreases end - k,
        {
            chunk.push(groups[k]);
            assert(chunk@ =~= groups@.subrange(i as int, k + 1));
            k = k + 1;
        }
        let g = match merge_contiguous_groups(chunk.as_slice()) {
            Ok(g) => g,
            Err(e) => return Err(e),
        };
        let ghost before = out@;
        out.push(g);
        proof {
            match chunk_merges(groups@, end as int) {
                Err(e) => {},
                Ok(rest) => {
                    assert(before + (seq![g] + rest) =~= out@ + rest);
                },
            }
        }
        i = end;
    }
    assert(out@ + seq![] =~= out@);
    Ok(out)
}

impl HierarchyBuilder {
    /// Prepares the first level over `leaf_count` leaves.
    pub fn new(leaf_count: usize, maximum_levels: u32) -> (result: Result<HierarchyBuilder, HierarchyError>)
        ensures
            match prepared(initial(leaf_count as nat, maximum_levels)) {
                Ok(v) => result matches Ok(b) && b@ == v,
                Err(e) => result matches Err(err) && err == e,
            },
    {
        let mut links: Vec<ClusterLinks> = Vec::new();
        let mut current: Vec<ClusterGroup> = Vec::new();
        let mut i: usize = 0;
        while i < leaf_count
            invariant
                i <= leaf_count,
                links@ == Seq::new(i as nat, |k: int| unlinked()),
                current@ == singletons(i as nat),
            decreases leaf_count - i,
        {
            links.push(ClusterLinks { parent: NO_RELATION, parent_count: 0, first_child: NO_RELATION, child_count: 0 });
            current.push(ClusterGroup { start: i, count: 1 });
            proof {
                assert(links@ =~= Seq::new((i + 1) as nat, |k: int| unlinked()));
                assert(current@ =~= singletons((i + 1) as nat));
            }
            i = i + 1;
        }
        let mut builder = HierarchyBuilder {
            links,
            current,
            partitions: Vec::new(),
            cursor: 0,
            next: Vec::new(),
            roots: Vec::new(),
            level: 1,
            maximum_levels,
            maximum_level: 0,
            pending: None,
            done: false,
        };
        assert(builder@ == initial(leaf_count as nat, maximum_levels));
        match builder.prepare() {
            Ok(()) => Ok(builder),
            Err(e) => Err(e),
        }
    }

    fn prepare(&mut self) -> (result: Result<(), HierarchyError>)
        ensures
            match prepared(old(self)@) {
                Ok(v) => result is Ok && final(self)@ == v,
                Err(e) => result == Err::<(), HierarchyError>(e),
            },
    {
        if self.level > self.maximum_levels || self.current.len() == 0 {
            self.partitions = Vec::new();
            self.cursor = 0;
            self.done = true;
            return Ok(());
        }
        match merge_chunks(&self.current) {
            Ok(ps) => {
                self.partitions = ps;
                self.cursor = 0;
                self.done = false;
                Ok(())
            },
            Err(e) => Err(e),
        }
    }

    /// The state of construction.
    pub fn is_done(&self) -> (done: bool)
        ensures
            done == self@.done,
    {
        self.done
    }

    /// Handles the next child group of the level.
    pub fn step(&mut self) -> (result: Result<HierarchyStep, HierarchyError>)
        requires
            !old(self)@.done,
            old(self)@.pending is None,
        ensures
            (result, final(self)@) == step_of(old(self)@),
    {
        if self.cursor >= self.partitions.len() {
            return Ok(HierarchyStep::LevelComplete);
        }
        let g = self.partitions[self.cursor];
        if g.count == 1 {
            self.roots.push(g.start);
            self.cursor = self.cursor + 1;
            return Ok(HierarchyStep::Rooted);
        }
        match g.end() {
            Ok(_) => {},
            Err(e) => return Err(e),
        }
        self.pending = Some(g);
        self.cursor = self.cursor + 1;
        Ok(HierarchyStep::Simplify { group: g, level: self.level })
    }

    /// Takes the outcome of simplifying the offered group: `None` when it
    /// gave no usable parents, else how many parents it produced (appended
    /// as the next clusters).
    pub fn simplified(&mut self, parents: Option<usize>) -> (result: Result<(), HierarchyError>)
        requires
            old(self)@.pending matches Some(g) && group_end(g) is Some,
            old(self)@.links.len() + match parents { Some(n) => n as int, None => 0int } <= usize::MAX,
        ensures
            match simplified_of(old(self)@, match parents { Some(n) => Some(n as nat), None => None }) {
                Ok(v) => result is Ok && final(self)@ == v,
                Err(e) => result == Err::<(), HierarchyError>(e),
            },
    {
        let ghost v0 = self@;
        let g = match self.pending {
            Some(g) => g,
            None => return Ok(()),
        };
        let end = g.start + g.count;
        let rejected = match parents {
            None => true,
            Some(n) => n >= g.count,
        };
        if rejected {
            let ghost before = self.roots@;
            let mut k: usize = g.start;
            while k < end
                invariant
                    g.start <= k <= end,
                    end == g.start + g.count,
                    before == v0.roots,
                    self.roots@ == before + index_range(g.start as int, k as int),
                    self@ == (BuilderView { roots: self@.roots, ..v0 }),
                decreases end - k,
            {
                self.roots.push(k);
                proof {
                    assert(index_range(g.start as int, k + 1) == index_range(g.start as int, k as int).push(k));
                }
                k = k + 1;
            }
            self.pending = None;
            return Ok(());
        }
        let n = match parents {
            Some(n) => n,
            None => 0,
        };
        let parent_start = self.links.len();
        if n > 0xffff_ffffusize {
            return Err(HierarchyError::ParentCountExceedsU32);
        }
        if g.start > 0xffff_ffffusize {
            return Err(HierarchyError::ChildStartExceedsU32);
        }
        if g.count > 0xffff_ffffusize {
            return Err(HierarchyError::ChildCountExceedsU32);
        }
        if parent_start > 0xffff_ffffusize {
            return Err(HierarchyError::ParentStartExceedsU32);
        }
        let ghost old_links = self.links@;
        let mut k: usize = 0;
        while k < parent_start
            invariant
                parent_start == old_links.len(),
                old_links == v0.links,
                self@ == (BuilderView { links: self@.links, ..v0 }),
                end == g.start + g.count,
                self.links@.len() == parent_start,
                k <= parent_start,
                n <= u32::MAX,
                parent_start <= u32::MAX,
                forall|m: int| 0 <= m < k ==> #[trigger] self.links@[m] == (if g.start <= m < g.start + g.count {
                    ClusterLinks { parent: parent_start as u32, parent_count: n as u32, ..old_links[m] }
                } else {
                    old_links[m]
                }),
                forall|m: int| k <= m < parent_start ==> #[trigger] self.links@[m] == old_links[m],
            decreases parent_start - k,
        {
            if g.start <= k && k < end {
                let current = self.links[k];
                self.links.set(k, ClusterLinks { parent: parent_start as u32, parent_count: n as u32, ..current });
            }
            k = k + 1;
        }
        let mut j: usize = 0;
        let ghost middle = self.links@;
        while j < n
            invariant
                middle.len() == parent_start,
                self@ == (BuilderView { links: self@.links, ..v0 }),
                j <= n,
                g.start <= u32::MAX,
                g.count <= u32::MAX,
                parent_start + n <= usize::MAX,
                self.links@ == middle + Seq::new(j as nat, |m: int| ClusterLinks {
                    parent: NO_RELATION,
                    parent_count: 0,
                    first_child: g.start as u32,
                    child_count: g.count as u32,
                }),
            decreases n - j,
        {
            self.links.push(ClusterLinks {
                parent: NO_RELATION,
                parent_count: 0,
                first_child: g.start as u32,
                child_count: g.count as u32,
            });
            proof {
                assert(self.links@ =~= middle + Seq::new((j + 1) as nat, |m: int| ClusterLinks {
                    parent: NO_RELATION,
                    parent_count: 0,
                    first_child: g.start as u32,
                    child_count: g.count as u32,
                }));
            }
            j = j + 1;
        }
        proof {
            assert(middle =~= Seq::new(old_links.len(), |m: int|
                if g.start <= m < g.start + g.count {
                    ClusterLinks { parent: parent_start as u32, parent_count: n as u32, ..old_links[m] }
                } else {
                    old_links[m]
                }));
            assert(self.links@ =~= linked(old_links, g, parent_start as int, n as nat));
        }
        self.next.push(ClusterGroup { start: parent_start, count: n });
        self.maximum_level = self.level;
        self.pending = None;
        Ok(())
    }

    /// Finishes a level; returns whether another level is built.
    pub fn next_level(&mut self) -> (result: Result<bool, HierarchyError>)
        requires
            !old(self)@.done,
        ensures
            match next_level_of(old(self)@) {
                Ok(v) => result == Ok::<bool, HierarchyError>(!v.done) && final(self)@ == v,
                Err(e) => result == Err::<bool, HierarchyError>(e),
            },
    {
        let mut finished: Vec<ClusterGroup> = Vec::new();
        std::mem::swap(&mut finished, &mut self.next);
        self.current = finished;
        self.partitions = Vec::new();
        self.cursor = 0;
        if self.level >= self.maximum_levels {
            self.done = true;
            return Ok(false);
        }
        self.level = self.level + 1;
        match self.prepare() {
            Ok(()) => Ok(!self.done),
            Err(e) => Err(e),
        }
    }

    /// The finished hierarchy: the groups of the last level built become
    /// roots too, and the roots are sorted without repeats.
    pub fn finish(self) -> (result: Result<HierarchyOutline, HierarchyError>)
        requires
            self@.pending is None,
        ensures
            match result {
                Ok(o) => {
                    &&& (forall|k: int| 0 <= k < self@.current.len() ==> group_end(#[trigger] self@.current[k]) is Some)
                    &&& o.links@ == self@.links
                    &&& o.maximum_level == self@.maximum_level
                    &&& strictly_increasing(o.roots@)
                    &&& forall|x: usize| o.roots@.contains(x) <==> (self@.roots + group_indices(self@.current)).contains(x)
                },
                Err(e) => e == HierarchyError::GroupRangeOverflow
                    && exists|k: int| 0 <= k < self@.current.len() && group_end(#[trigger] self@.current[k]) is None,
            },
    {
        let mut extra: Vec<usize> = Vec::new();
        let mut i: usize = 0;
        while i < self.current.len()
            invariant
                i <= self@.current.len(),
                extra@ == group_indices(self@.current.take(i as int)),
                forall|k: int| 0 <= k < i ==> group_end(#[trigger] self@.current[k]) is Some,
            decreases self@.current.len() - i,
        {
            let g = self.current[i];
            let end = match g.end() {
                Ok(e) => e,
                Err(e) => {
                    assert(group_end(self@.current[i as int]) is None);
                    return Err(e);
                },
            };
            let ghost before = extra@;
            let mut k: usize = g.start;
            while k < end
                invariant
                    g.start <= k <= end,
                    end == g.start + g.count,
                    extra@ == before + index_range(g.start as int, k as int),
                decreases end - k,
            {
                extra.push(k);
                k = k + 1;
            }
            proof {
                assert(self@.current.take(i + 1).drop_last() =~= self@.current.take(i as int));
                assert(extra@ =~= group_indices(self@.current.take(i + 1)));
            }
            i = i + 1;
        }
        assert(self@.current.take(self@.current.len() as int) =~= self@.current);
        let ghost v = self@;
        let mut all = self.roots;
        let ghost start = all@;
        assert(start == v.roots);
        let mut j: usize = 0;
        while j < extra.len()
            invariant
                j <= extra@.len(),
                all@ == start + extra@.take(j as int),
            decreases extra.len() - j,
        {
            all.push(extra[j]);
            assert(extra@.take(j + 1) =~= extra@.take(j as int).push(extra@[j as int]));
            j = j + 1;
        }
        assert(extra@.take(extra@.len() as int) =~= extra@);
        let sorted = sorted_distinct(&all);
        Ok(HierarchyOutline { links: self.links, roots: sorted, maximum_level: self.maximum_level })
    }
}

/// Every cluster with a parent group points into the cluster array, to a
/// non-empty run of parents each of whose child runs contains it.
pub open spec fn relations_consistent(links: Seq<ClusterLinks>) -> bool {
    forall|c: int| 0 <= c < links.len() && (#[trigger] links[c]).parent != NO_RELATION ==> {
        &&& 0 < links[c].parent_count
        &&& links[c].parent + links[c].parent_count <= links.len()
        &&& forall|q: int| links[c].parent <= q < links[c].parent + links[c].parent_count ==> {
            &&& (#[trigger] links[q]).first_child != NO_RELATION
            &&& links[q].first_child <= c < links[q].first_child + links[q].child_count
        }
    }
}

/// Linking an accepted child group keeps the relations consistent: each
/// child then points to the new parents, and each new parent's child run is
/// exactly the group.
pub proof fn law_linking_keeps_relations_consistent(v: BuilderView, n: nat)
    requires
        relations_consistent(v.links),
        v.pending matches Some(g) && g.start + g.count <= v.links.len()
            && forall|c: int| g.start <= c < g.start + g.count ==> (#[trigger] v.links[c]).parent == NO_RELATION,
        0 < n,
        v.pending matches Some(g) && n < g.count,
        simplified_of(v, Some(n)) is Ok,
    ensures
        relations_consistent(simplified_of(v, Some(n))->Ok_0.links),
        forall|q: int| v.links.len() <= q < v.links.len() + n ==> {
            &&& (#[trigger] simplified_of(v, Some(n))->Ok_0.links[q]).first_child == v.pending->0.start
            &&& simplified_of(v, Some(n))->Ok_0.links[q].child_count == v.pending->0.count
        },
{
    let g = v.pending->0;
    let w = simplified_of(v, Some(n))->Ok_0;
    let p = v.links.len();
    assert(w.links == linked(v.links, g, p as int, n));
    assert(w.links.len() == p + n);
    assert forall|c: int| 0 <= c < w.links.len() && (#[trigger] w.links[c]).parent != NO_RELATION implies {
        &&& 0 < w.links[c].parent_count
        &&& w.links[c].parent + w.links[c].parent_count <= w.links.len()
        &&& forall|q: int| w.links[c].parent <= q < w.links[c].parent + w.links[c].parent_count ==> {
            &&& (#[trigger] w.links[q]).first_child != NO_RELATION
            &&& w.links[q].first_child <= c < w.links[q].first_child + w.links[q].child_count
        }
    } by {
        if c >= p {
            assert(w.links[c].parent == NO_RELATION);
        } else if g.start <= c < g.start + g.count {
            assert(w.links[c].parent == p as u32);
            assert(w.links[c].parent_count == n as u32);
            assert forall|q: int| w.links[c].parent <= q < w.links[c].parent + w.links[c].parent_count implies {
                &&& (#[trigger] w.links[q]).first_child != NO_RELATION
                &&& w.links[q].first_child <= c < w.links[q].first_child + w.links[q].child_count
            } by {
                assert(p <= q < p + n);
                assert(w.links[q].first_child == g.start as u32);
                assert(w.links[q].child_count == g.count as u32);
            }
        } else {
            assert(w.links[c] == v.links[c]);
            assert forall|q: int| w.links[c].parent <= q < w.links[c].parent + w.links[c].parent_count implies {
                &&& (#[trigger] w.links[q]).first_child != NO_RELATION
                &&& w.links[q].first_child <= c < w.links[q].first_child + w.links[q].child_count
            } by {
                assert(v.links[c].parent != NO_RELATION);
                assert(v.links[q].first_child != NO_RELATION);
                assert(q < p);
                if g.start <= q < g.start + g.count {
                    assert(w.links[q].first_child == v.links[q].first_child);
                    assert(w.links[q].child_count == v.links[q].child_count);
                } else {
                    assert(w.links[q] == v.links[q]);
                }
            }
        }
    }
}

/// The values of `items` in increasing order, each once.
pub fn sorted_distinct(items: &Vec<usize>) -> (out: Vec<usize>)
    ensures
        strictly_increasing(out@),
        forall|x: usize| out@.contains(x) <==> items@.contains(x),
{
    let mut out: Vec<usize> = Vec::new();
    let mut i: usize = 0;
    while i < items.len()
        invariant
            i <= items@.len(),
            strictly_increasing(out@),
            forall|x: usize| out@.contains(x) <==> items@.take(i as int).contains(x),
        decreases items.len() - i,
    {
        let x = items[i];
        let mut k: usize = 0;
        while k < out.len() && out[k] < x
            invariant
                k <= out@.len(),
                forall|m: int| 0 <= m < k ==> out@[m] < x,
            decreases out.len() - k,
        {
            k = k + 1;
        }
        let ghost before = out@;
        let ghost t0 = items@.take(i as int);
        let ghost t1 = items@.take(i + 1);
        assert(t1 =~= t0.push(x));
        if k < out.len() && out[k] == x {
            proof {
                assert forall|y: usize| out@.contains(y) <==> t1.contains(y) by {
                    if y == x {
                        assert(out@[k as int] == x);
                        assert(t1[i as int] == x);
                    }
                    if t1.contains(y) && y != x {
                        let m = choose|m: int| 0 <= m < i + 1 && t1[m] == y;
                        assert(t0[m] == y);
                    }
                    if t0.contains(y) {
                        let m = choose|m: int| 0 <= m < i && t0[m] == y;
                        assert(t1[m] == y);
                    }
                }
            }
        } else {
            out.insert(k, x);
            proof {
                assert(out@ =~= before.insert(k as int, x));
                assert forall|p: int, q: int| 0 <= p < q < out@.len() implies out@[p] < out@[q] by {
                    if q < k {
                        assert(before[p] < before[q]);
                    } else if q == k {
                    } else if p < k {
                        assert(before[p] < before[q - 1]);
                    } else if p == k {
                        assert(x < before[k as int]);
                        if k < q - 1 {
                            assert(before[k as int] < before[q - 1]);
                        }
                    } else {
                        assert(before[p - 1] < before[q - 1]);
                    }
                }
                assert forall|y: usize| out@.contains(y) <==> t1.contains(y) by {
                    if out@.contains(y) && y != x {
                        let m = choose|m: int| 0 <= m < out@.len() && out@[m] == y;
                        if m < k { assert(before[m] == y); } else { assert(before[m - 1] == y); }
                        assert(before.contains(y));
                        let w = choose|w: int| 0 <= w < i && t0[w] == y;
                        assert(t1[w] == y);
                    }
                    if y == x {
                        assert(out@[k as int] == x);
                        assert(t1[i as int] == x);
                    }
                    if t1.contains(y) && y != x {
                        let m = choose|m: int| 0 <= m < i + 1 && t1[m] == y;
                        assert(t0[m] == y);
                        assert(t0.contains(y));
                        assert(before.contains(y));
                        let w = choose|w: int| 0 <= w < before.len() && before[w] == y;
                        if w < k { assert(out@[w] == y); } else { assert(out@[w + 1] == y); }
                    }
                }
            }
        }
        i = i + 1;
    }
    assert(items@.take(items@.len() as int) =~= items@);
    out
}

/// Whether the simplification outcome `parents` accepts the pending group:
/// it gave fewer parents than the group has children.
pub open spec fn accepts_parents(v: BuilderView, parents: Option<nat>) -> bool {
    parents matches Some(n) && n < v.pending->0.count
}

/// `maximum_level` is the deepest level at which a parent group was
/// accepted (0 before any): accepting a group on the level being built
/// makes it that level, however many groups that level accepts;
/// rejecting one, rooting a cluster and moving to the next level leave it
/// as it was; and it never exceeds the level being built.
pub proof fn law_maximum_level_is_deepest_accepted_level(v: BuilderView, parents: Option<nat>, leaf_count: nat, levels: u32)
    requires
        v.maximum_level <= v.level,
    ensures
        initial(leaf_count, levels).maximum_level == 0,
        v.pending is Some ==> (simplified_of(v, parents) matches Ok(w) ==> {
            &&& w.level == v.level
            &&& w.maximum_level <= w.level
            &&& accepts_parents(v, parents) ==> w.maximum_level == v.level
            &&& !accepts_parents(v, parents) ==> w.maximum_level == v.maximum_level
        }),
        step_of(v).1.maximum_level == v.maximum_level && step_of(v).1.level == v.level,
        next_level_of(v) matches Ok(w) ==> w.maximum_level == v.maximum_level && w.maximum_level <= w.level,
{
}

} // verus!
