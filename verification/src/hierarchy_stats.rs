//! Totals over a built cluster hierarchy: what its leaves and its roots hold,
//! per level and for a whole file.

use vstd::prelude::*;

verus! {

/// Levels a cluster can sit at: leaves at 0 and up to 16 coarser ones.
pub const LOD_LEVELS: usize = 17;

/// What the totals read of one cluster. `error_bits` is the IEEE 754 bit
/// pattern of its non-negative geometric error: such patterns order as the
/// values they encode.
#[derive(Clone, Copy, Debug, PartialEq, Eq, Structural)]
pub struct ClusterSummary {
    pub triangles: u32,
    pub payload_bytes: u64,
    pub lod_level: u8,
    pub error_bits: u32,
}

/// Totals of one hierarchy, or of several merged.
#[derive(Clone, Copy, Debug, PartialEq, Eq)]
pub struct HierarchyStats {
    pub leaf_clusters: u32,
    pub leaf_triangles: u64,
    pub leaf_payload_bytes: u64,
    pub parent_clusters: u32,
    pub root_clusters: u32,
    pub root_triangles: u64,
    pub maximum_level: u32,
    pub maximum_error_bits: u32,
    pub root_payload_bytes: u64,
    pub root_clusters_by_level: [u32; 17],
    pub root_payload_bytes_by_level: [u64; 17],
}

/// A quantity that clusters add up to.
pub enum Measure {
    Triangles,
    Payload,
    /// One for each cluster at the level.
    ClustersAt(int),
    /// The payload of the clusters at the level.
    PayloadAt(int),
}

pub open spec fn measure(c: ClusterSummary, m: Measure) -> int {
    match m {
        Measure::Triangles => c.triangles as int,
        Measure::Payload => c.payload_bytes as int,
        Measure::ClustersAt(l) => if c.lod_level == l { 1 } else { 0 },
        Measure::PayloadAt(l) => if c.lod_level == l { c.payload_bytes as int } else { 0 },
    }
}

/// The sum of a measure over clusters.
pub open spec fn total(s: Seq<ClusterSummary>, m: Measure) -> int
    decreases s.len(),
{
    if s.len() == 0 {
        0
    } else {
        total(s.drop_last(), m) + measure(s.last(), m)
    }
}

/// The largest error bit pattern among clusters, or zero.
pub open spec fn max_error_bits(s: Seq<ClusterSummary>) -> u32
    decreases s.len(),
{
    if s.len() == 0 {
        0
    } else {
        let rest = max_error_bits(s.drop_last());
        if rest < s.last().error_bits { s.last().error_bits } else { rest }
    }
}

/// The clusters that the indices name, in their order.
pub open spec fn picked(nodes: Seq<ClusterSummary>, indices: Seq<usize>) -> Seq<ClusterSummary> {
    indices.map_values(|i: usize| nodes[i as int])
}

/// A prefix adds up to no more than the whole.
pub proof fn lemma_prefix_total_le(s: Seq<ClusterSummary>, i: int, m: Measure)
    requires
        0 <= i <= s.len(),
    ensures
        total(s.take(i), m) <= total(s, m),
    decreases s.len(),
{
    if i < s.len() {
        lemma_prefix_total_le(s.drop_last(), i, m);
        assert(s.drop_last().take(i) =~= s.take(i));
    } else {
        assert(s.take(i) =~= s);
    }
}

/// Adding one more cluster to a prefix adds its measure.
pub proof fn lemma_total_step(s: Seq<ClusterSummary>, i: int, m: Measure)
    requires
        0 <= i < s.len(),
    ensures
        total(s.take(i + 1), m) == total(s.take(i), m) + measure(s[i], m),
{
    assert(s.take(i + 1).drop_last() =~= s.take(i));
}

/// The payload at one level is part of the whole payload.
pub proof fn lemma_level_payload_le(s: Seq<ClusterSummary>, l: int)
    ensures
        total(s, Measure::PayloadAt(l)) <= total(s, Measure::Payload),
    decreases s.len(),
{
    if s.len() > 0 {
        lemma_level_payload_le(s.drop_last(), l);
    }
}

/// The clusters at levels `0..n`, counted level by level.
pub open spec fn clusters_below(s: Seq<ClusterSummary>, n: int) -> int
    decreases n,
{
    if n <= 0 { 0 } else { clusters_below(s, n - 1) + total(s, Measure::ClustersAt(n - 1)) }
}

/// The payload at levels `0..n`, added level by level.
pub open spec fn payload_below(s: Seq<ClusterSummary>, n: int) -> int
    decreases n,
{
    if n <= 0 { 0 } else { payload_below(s, n - 1) + total(s, Measure::PayloadAt(n - 1)) }
}

proof fn lemma_levels_step(s: Seq<ClusterSummary>, n: int)
    requires
        s.len() > 0,
    ensures
        clusters_below(s, n) == clusters_below(s.drop_last(), n) + (if 0 <= s.last().lod_level < n { 1int } else { 0int }),
        payload_below(s, n) == payload_below(s.drop_last(), n)
            + (if 0 <= s.last().lod_level < n { s.last().payload_bytes as int } else { 0int }),
    decreases n,
{
    if n > 0 {
        lemma_levels_step(s, n - 1);
    }
}

/// Every cluster sits at exactly one level: when all are below
/// `LOD_LEVELS`, the counts per level add up to the number of clusters and
/// the payloads per level to their whole payload. So the per-level root
/// totals of a hierarchy add up to its root count and root payload.
pub proof fn law_levels_partition_the_clusters(s: Seq<ClusterSummary>)
    requires
        forall|i: int| 0 <= i < s.len() ==> (#[trigger] s[i]).lod_level < LOD_LEVELS,
    ensures
        clusters_below(s, LOD_LEVELS as int) == s.len(),
        payload_below(s, LOD_LEVELS as int) == total(s, Measure::Payload),
    decreases s.len(),
{
    if s.len() == 0 {
        lemma_empty_levels(s, LOD_LEVELS as int);
    } else {
        assert(s.last() == s[s.len() - 1]);
        law_levels_partition_the_clusters(s.drop_last());
        lemma_levels_step(s, LOD_LEVELS as int);
    }
}

proof fn lemma_empty_levels(s: Seq<ClusterSummary>, n: int)
    requires
        s.len() == 0,
    ensures
        clusters_below(s, n) == 0,
        payload_below(s, n) == 0,
    decreases n,
{
    if n > 0 {
        lemma_empty_levels(s, n - 1);
    }
}

/// The totals of a hierarchy whose clusters are `nodes`, of which the first
/// `leaf_count` are its leaves and `roots` name its roots.
pub open spec fn stats_of(
    s: HierarchyStats,
    nodes: Seq<ClusterSummary>,
    leaf_count: int,
    roots: Seq<usize>,
    maximum_level: u32,
) -> bool {
    &&& s.leaf_clusters == leaf_count as u32
    &&& s.leaf_triangles == total(nodes.take(leaf_count), Measure::Triangles)
    &&& s.leaf_payload_bytes == total(nodes.take(leaf_count), Measure::Payload)
    &&& s.parent_clusters == (nodes.len() - leaf_count) as u32
    &&& s.root_clusters == roots.len() as u32
    &&& s.root_triangles == total(picked(nodes, roots), Measure::Triangles)
    &&& s.root_payload_bytes == total(picked(nodes, roots), Measure::Payload)
    &&& s.maximum_level == maximum_level
    &&& s.maximum_error_bits == max_error_bits(nodes)
    &&& forall|l: int| 0 <= l < LOD_LEVELS ==> {
        &&& #[trigger] s.root_clusters_by_level[l] == total(picked(nodes, roots), Measure::ClustersAt(l))
        &&& s.root_payload_bytes_by_level[l] == total(picked(nodes, roots), Measure::PayloadAt(l))
    }
}

/// The triangles and payload of the first `count` clusters.
fn prefix_totals(nodes: &Vec<ClusterSummary>, count: usize) -> (sums: (u64, u64))
    requires
        count <= nodes.len(),
        total(nodes@.take(count as int), Measure::Triangles) <= u64::MAX,
        total(nodes@.take(count as int), Measure::Payload) <= u64::MAX,
    ensures
        sums.0 == total(nodes@.take(count as int), Measure::Triangles),
        sums.1 == total(nodes@.take(count as int), Measure::Payload),
{
    let ghost leaves = nodes@.take(count as int);
    let mut triangles: u64 = 0;
    let mut payload: u64 = 0;
    let mut i: usize = 0;
    while i < count
        invariant
            i <= count <= nodes.len(),
            leaves == nodes@.take(count as int),
            triangles == total(leaves.take(i as int), Measure::Triangles),
            payload == total(leaves.take(i as int), Measure::Payload),
            total(leaves, Measure::Triangles) <= u64::MAX,
            total(leaves, Measure::Payload) <= u64::MAX,
        decreases count - i,
    {
        let c = nodes[i];
        proof {
            assert(leaves[i as int] == c);
            lemma_total_step(leaves, i as int, Measure::Triangles);
            lemma_total_step(leaves, i as int, Measure::Payload);
            lemma_prefix_total_le(leaves, i + 1, Measure::Triangles);
            lemma_prefix_total_le(leaves, i + 1, Measure::Payload);
        }
        triangles = triangles + c.triangles as u64;
        payload = payload + c.payload_bytes;
        i = i + 1;
    }
    assert(leaves.take(count as int) =~= leaves);
    (triangles, payload)
}

/// The largest error bit pattern of any cluster, or zero.
fn largest_error_bits(nodes: &Vec<ClusterSummary>) -> (bits: u32)
    ensures
        bits == max_error_bits(nodes@),
{
    let mut largest: u32 = 0;
    let mut j: usize = 0;
    while j < nodes.len()
        invariant
            j <= nodes.len(),
            largest == max_error_bits(nodes@.take(j as int)),
        decreases nodes.len() - j,
    {
        let bits = nodes[j].error_bits;
        assert(nodes@.take(j + 1).drop_last() =~= nodes@.take(j as int));
        if largest < bits {
            largest = bits;
        }
        j = j + 1;
    }
    assert(nodes@.take(nodes.len() as int) =~= nodes@);
    largest
}

/// What the roots hold: their triangles and payload, and their number and
/// payload at each level.
struct RootTotals {
    triangles: u64,
    payload_bytes: u64,
    clusters_by_level: [u32; 17],
    payload_bytes_by_level: [u64; 17],
}

fn root_totals(nodes: &Vec<ClusterSummary>, roots: &Vec<usize>) -> (t: RootTotals)
    requires
        forall|k: int| 0 <= k < roots.len() ==> #[trigger] roots[k] < nodes.len(),
        forall|k: int| 0 <= k < roots.len() ==> nodes[#[trigger] roots[k] as int].lod_level < LOD_LEVELS,
        roots.len() <= u32::MAX,
        total(picked(nodes@, roots@), Measure::Triangles) <= u64::MAX,
        total(picked(nodes@, roots@), Measure::Payload) <= u64::MAX,
    ensures
        t.triangles == total(picked(nodes@, roots@), Measure::Triangles),
        t.payload_bytes == total(picked(nodes@, roots@), Measure::Payload),
        forall|l: int| 0 <= l < LOD_LEVELS ==> {
            &&& #[trigger] t.clusters_by_level[l] == total(picked(nodes@, roots@), Measure::ClustersAt(l))
            &&& t.payload_bytes_by_level[l] == total(picked(nodes@, roots@), Measure::PayloadAt(l))
        },
{
    let ghost tops = picked(nodes@, roots@);
    let mut root_triangles: u64 = 0;
    let mut root_payload_bytes: u64 = 0;
    let mut by_level: [u32; 17] = [0u32; 17];
    let mut payload_by_level: [u64; 17] = [0u64; 17];
    let mut k: usize = 0;
    while k < roots.len()
        invariant
            k <= roots.len() <= u32::MAX,
            tops == picked(nodes@, roots@),
            forall|q: int| 0 <= q < roots.len() ==> #[trigger] roots[q] < nodes.len(),
            forall|q: int| 0 <= q < roots.len() ==> nodes[#[trigger] roots[q] as int].lod_level < LOD_LEVELS,
            total(tops, Measure::Triangles) <= u64::MAX,
            total(tops, Measure::Payload) <= u64::MAX,
            root_triangles == total(tops.take(k as int), Measure::Triangles),
            root_payload_bytes == total(tops.take(k as int), Measure::Payload),
            forall|l: int| 0 <= l < LOD_LEVELS ==> {
                &&& #[trigger] by_level[l] == total(tops.take(k as int), Measure::ClustersAt(l))
                &&& by_level[l] <= k
                &&& payload_by_level[l] == total(tops.take(k as int), Measure::PayloadAt(l))
            },
        decreases roots.len() - k,
    {
        let r = roots[k];
        let c = nodes[r];
        let level = c.lod_level as usize;
        proof {
            assert(tops[k as int] == c);
            lemma_total_step(tops, k as int, Measure::Triangles);
            lemma_total_step(tops, k as int, Measure::Payload);
            lemma_prefix_total_le(tops, k + 1, Measure::Triangles);
            lemma_prefix_total_le(tops, k + 1, Measure::Payload);
            lemma_level_payload_le(tops.take(k + 1), level as int);
            assert forall|l: int| 0 <= l < LOD_LEVELS implies {
                &&& total(tops.take(k + 1), Measure::ClustersAt(l))
                    == total(tops.take(k as int), Measure::ClustersAt(l)) + measure(c, Measure::ClustersAt(l))
                &&& total(tops.take(k + 1), Measure::PayloadAt(l))
                    == total(tops.take(k as int), Measure::PayloadAt(l)) + measure(c, Measure::PayloadAt(l))
            } by {
                lemma_total_step(tops, k as int, Measure::ClustersAt(l));
                lemma_total_step(tops, k as int, Measure::PayloadAt(l));
            }
        }
        root_triangles = root_triangles + c.triangles as u64;
        root_payload_bytes = root_payload_bytes + c.payload_bytes;
        let ghost before_clusters = by_level;
        let ghost before_payload = payload_by_level;
        by_level[level] = by_level[level] + 1;
        payload_by_level[level] = payload_by_level[level] + c.payload_bytes;
        proof {
            assert forall|l: int| 0 <= l < LOD_LEVELS implies {
                &&& #[trigger] by_level[l] == total(tops.take(k + 1), Measure::ClustersAt(l))
                &&& by_level[l] <= k + 1
                &&& payload_by_level[l] == total(tops.take(k + 1), Measure::PayloadAt(l))
            } by {
                assert(before_clusters[l] == total(tops.take(k as int), Measure::ClustersAt(l)));
                assert(before_payload[l] == total(tops.take(k as int), Measure::PayloadAt(l)));
                if l != level as int {
                    assert(by_level[l] == before_clusters[l]);
                    assert(payload_by_level[l] == before_payload[l]);
                }
            }
        }
        k = k + 1;
    }
    assert(tops.take(roots.len() as int) =~= tops);
    RootTotals {
        triangles: root_triangles,
        payload_bytes: root_payload_bytes,
        clusters_by_level: by_level,
        payload_bytes_by_level: payload_by_level,
    }
}

/// Totals a built hierarchy: the triangles and payload of its leaves and of
/// its roots, the roots and their payload at each level, the count of parent
/// clusters and the largest geometric error of any cluster.
#[verifier::spinoff_prover]
pub fn hierarchy_stats(
    nodes: &Vec<ClusterSummary>,
    leaf_count: usize,
    roots: &Vec<usize>,
    maximum_level: u32,
) -> (stats: HierarchyStats)
    requires
        leaf_count <= nodes.len(),
        forall|k: int| 0 <= k < roots.len() ==> #[trigger] roots[k] < nodes.len(),
        forall|k: int| 0 <= k < roots.len() ==> nodes[#[trigger] roots[k] as int].lod_level < LOD_LEVELS,
        roots.len() <= u32::MAX,
        total(nodes@.take(leaf_count as int), Measure::Triangles) <= u64::MAX,
        total(nodes@.take(leaf_count as int), Measure::Payload) <= u64::MAX,
        total(picked(nodes@, roots@), Measure::Triangles) <= u64::MAX,
        total(picked(nodes@, roots@), Measure::Payload) <= u64::MAX,
    ensures
        stats_of(stats, nodes@, leaf_count as int, roots@, maximum_level),
{
    let (leaf_triangles, leaf_payload_bytes) = prefix_totals(nodes, leaf_count);
    let maximum_error_bits = largest_error_bits(nodes);
    let tops = root_totals(nodes, roots);
    let leaf_clusters: u32 = leaf_count as u32;
    let parent_clusters: u32 = (nodes.len() - leaf_count) as u32;
    let root_clusters: u32 = roots.len() as u32;
    let stats = HierarchyStats {
        leaf_clusters,
        leaf_triangles,
        leaf_payload_bytes,
        parent_clusters,
        root_clusters,
        root_triangles: tops.triangles,
        maximum_level,
        maximum_error_bits,
        root_payload_bytes: tops.payload_bytes,
        root_clusters_by_level: tops.clusters_by_level,
        root_payload_bytes_by_level: tops.payload_bytes_by_level,
    };
    assert(stats_of(stats, nodes@, leaf_count as int, roots@, maximum_level));
    stats
}

/// Stats with nothing counted.
pub open spec fn is_zero(s: HierarchyStats) -> bool {
    &&& s.leaf_clusters == 0
    &&& s.leaf_triangles == 0
    &&& s.leaf_payload_bytes == 0
    &&& s.parent_clusters == 0
    &&& s.root_clusters == 0
    &&& s.root_triangles == 0
    &&& s.maximum_level == 0
    &&& s.maximum_error_bits == 0
    &&& s.root_payload_bytes == 0
    &&& forall|l: int| 0 <= l < LOD_LEVELS ==> {
        &&& #[trigger] s.root_clusters_by_level[l] == 0
        &&& s.root_payload_bytes_by_level[l] == 0
    }
}

impl Default for HierarchyStats {
    fn default() -> (s: Self)
        ensures
            is_zero(s),
    {
        HierarchyStats {
            leaf_clusters: 0,
            leaf_triangles: 0,
            leaf_payload_bytes: 0,
            parent_clusters: 0,
            root_clusters: 0,
            root_triangles: 0,
            maximum_level: 0,
            maximum_error_bits: 0,
            root_payload_bytes: 0,
            root_clusters_by_level: [0u32; 17],
            root_payload_bytes_by_level: [0u64; 17],
        }
    }
}

/// Every count of `a` and `b` added together fits its field.
pub open spec fn merge_fits(a: HierarchyStats, b: HierarchyStats) -> bool {
    &&& a.leaf_clusters + b.leaf_clusters <= u32::MAX
    &&& a.leaf_triangles + b.leaf_triangles <= u64::MAX
    &&& a.leaf_payload_bytes + b.leaf_payload_bytes <= u64::MAX
    &&& a.parent_clusters + b.parent_clusters <= u32::MAX
    &&& a.root_clusters + b.root_clusters <= u32::MAX
    &&& a.root_triangles + b.root_triangles <= u64::MAX
    &&& a.root_payload_bytes + b.root_payload_bytes <= u64::MAX
    &&& forall|l: int| 0 <= l < LOD_LEVELS ==> {
        &&& #[trigger] a.root_clusters_by_level[l] + b.root_clusters_by_level[l] <= u32::MAX
        &&& a.root_payload_bytes_by_level[l] + b.root_payload_bytes_by_level[l] <= u64::MAX
    }
}

pub open spec fn larger(x: u32, y: u32) -> u32 {
    if x < y { y } else { x }
}

/// `m` holds the counts of `a` and `b` added, and the larger of their
/// highest levels and of their largest errors.
pub open spec fn merged_into(a: HierarchyStats, b: HierarchyStats, m: HierarchyStats) -> bool {
    &&& m.leaf_clusters == a.leaf_clusters + b.leaf_clusters
    &&& m.leaf_triangles == a.leaf_triangles + b.leaf_triangles
    &&& m.leaf_payload_bytes == a.leaf_payload_bytes + b.leaf_payload_bytes
    &&& m.parent_clusters == a.parent_clusters + b.parent_clusters
    &&& m.root_clusters == a.root_clusters + b.root_clusters
    &&& m.root_triangles == a.root_triangles + b.root_triangles
    &&& m.maximum_level == larger(a.maximum_level, b.maximum_level)
    &&& m.maximum_error_bits == larger(a.maximum_error_bits, b.maximum_error_bits)
    &&& m.root_payload_bytes == a.root_payload_bytes + b.root_payload_bytes
    &&& forall|l: int| 0 <= l < LOD_LEVELS ==> {
        &&& #[trigger] m.root_clusters_by_level[l] == a.root_clusters_by_level[l] + b.root_clusters_by_level[l]
        &&& m.root_payload_bytes_by_level[l] == a.root_payload_bytes_by_level[l]
            + b.root_payload_bytes_by_level[l]
    }
}

impl HierarchyStats {
    /// Adds the totals of another hierarchy to these.
    pub fn merge(&mut self, other: Self)
        requires
            merge_fits(*old(self), other),
        ensures
            merged_into(*old(self), other, *final(self)),
    {
        let ghost start = *self;
        self.leaf_clusters = self.leaf_clusters + other.leaf_clusters;
        self.leaf_triangles = self.leaf_triangles + other.leaf_triangles;
        self.leaf_payload_bytes = self.leaf_payload_bytes + other.leaf_payload_bytes;
        self.parent_clusters = self.parent_clusters + other.parent_clusters;
        self.root_clusters = self.root_clusters + other.root_clusters;
        self.root_triangles = self.root_triangles + other.root_triangles;
        if self.maximum_level < other.maximum_level {
            self.maximum_level = other.maximum_level;
        }
        if self.maximum_error_bits < other.maximum_error_bits {
            self.maximum_error_bits = other.maximum_error_bits;
        }
        self.root_payload_bytes = self.root_payload_bytes + other.root_payload_bytes;
        let mut level: usize = 0;
        while level < LOD_LEVELS
            invariant
                level <= LOD_LEVELS,
                merge_fits(start, other),
                self.leaf_clusters == start.leaf_clusters + other.leaf_clusters,
                self.leaf_triangles == start.leaf_triangles + other.leaf_triangles,
                self.leaf_payload_bytes == start.leaf_payload_bytes + other.leaf_payload_bytes,
                self.parent_clusters == start.parent_clusters + other.parent_clusters,
                self.root_clusters == start.root_clusters + other.root_clusters,
                self.root_triangles == start.root_triangles + other.root_triangles,
                self.maximum_level == larger(start.maximum_level, other.maximum_level),
                self.maximum_error_bits == larger(start.maximum_error_bits, other.maximum_error_bits),
                self.root_payload_bytes == start.root_payload_bytes + other.root_payload_bytes,
                forall|l: int| 0 <= l < level ==> {
                    &&& #[trigger] self.root_clusters_by_level[l] == start.root_clusters_by_level[l]
                        + other.root_clusters_by_level[l]
                    &&& self.root_payload_bytes_by_level[l] == start.root_payload_bytes_by_level[l]
                        + other.root_payload_bytes_by_level[l]
                },
                forall|l: int| level <= l < LOD_LEVELS ==> {
                    &&& #[trigger] self.root_clusters_by_level[l] == start.root_clusters_by_level[l]
                    &&& self.root_payload_bytes_by_level[l] == start.root_payload_bytes_by_level[l]
                },
            decreases LOD_LEVELS - level,
        {
            let ghost clusters = self.root_clusters_by_level;
            let ghost payload = self.root_payload_bytes_by_level;
            assert(start.root_clusters_by_level[level as int] + other.root_clusters_by_level[level as int]
                <= u32::MAX);
            self.root_clusters_by_level[level] = self.root_clusters_by_level[level]
                + other.root_clusters_by_level[level];
            self.root_payload_bytes_by_level[level] = self.root_payload_bytes_by_level[level]
                + other.root_payload_bytes_by_level[level];
            proof {
                assert forall|l: int| 0 <= l < LOD_LEVELS && l != level implies {
                    &&& #[trigger] self.root_clusters_by_level[l] == clusters[l]
                    &&& self.root_payload_bytes_by_level[l] == payload[l]
                } by {}
            }
            level = level + 1;
        }
    }
}

/// Merging is order-independent: `b` merged into `a` gives what `a` merged
/// into `b` gives.
pub proof fn law_merge_is_order_independent(a: HierarchyStats, b: HierarchyStats, m: HierarchyStats)
    ensures
        merge_fits(a, b) <==> merge_fits(b, a),
        merged_into(a, b, m) <==> merged_into(b, a, m),
{
    if merged_into(a, b, m) {
        assert forall|l: int| 0 <= l < LOD_LEVELS implies {
            &&& #[trigger] m.root_clusters_by_level[l] == b.root_clusters_by_level[l] + a.root_clusters_by_level[l]
            &&& m.root_payload_bytes_by_level[l] == b.root_payload_bytes_by_level[l]
                + a.root_payload_bytes_by_level[l]
        } by {
            assert(m.root_clusters_by_level[l] == a.root_clusters_by_level[l] + b.root_clusters_by_level[l]);
        }
        assert(merged_into(b, a, m));
    }
    if merged_into(b, a, m) {
        assert forall|l: int| 0 <= l < LOD_LEVELS implies {
            &&& #[trigger] m.root_clusters_by_level[l] == a.root_clusters_by_level[l] + b.root_clusters_by_level[l]
            &&& m.root_payload_bytes_by_level[l] == a.root_payload_bytes_by_level[l]
                + b.root_payload_bytes_by_level[l]
        } by {
            assert(m.root_clusters_by_level[l] == b.root_clusters_by_level[l] + a.root_clusters_by_level[l]);
        }
        assert(merged_into(a, b, m));
    }
}

/// Merging stats with nothing counted changes nothing.
pub proof fn law_merging_nothing_changes_nothing(a: HierarchyStats, z: HierarchyStats)
    requires
        is_zero(z),
    ensures
        merge_fits(a, z),
        merged_into(a, z, a),
{
}

} // verus!
