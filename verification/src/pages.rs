//! Page layout of cooked geometry: where each cluster's payload goes, and
//! how clusters are grouped into budget-bounded pages that never mix
//! residency classes.
//!
//! A cluster's payload is its vertices (`stride` bytes each) followed by its
//! one-byte local indices, padded to 16 bytes. A page is closed before a
//! cluster of another class (coarse root, or streamable of another LOD
//! level) or one that would take it over the page budget.

use vstd::prelude::*;
use crate::text::{concat2, decimal_digits, decimal_text, owned_text};

verus! {

/// `value` rounded up to a multiple of `alignment`.
pub open spec fn aligned(value: nat, alignment: nat) -> nat
    recommends
        alignment > 0,
{
    (((value + alignment - 1) / alignment as int) * alignment) as nat
}

/// `value` rounded up to a multiple of `alignment`, as `div_ceil` and a
/// multiplication compute it.
pub fn align_up(value: usize, alignment: usize) -> (result: usize)
    requires
        alignment > 0,
        value + alignment - 1 <= usize::MAX,
    ensures
        result == aligned(value as nat, alignment as nat),
        value <= result < value + alignment,
        result % alignment == 0,
{
    let q = value / alignment + if value % alignment == 0 { 0 } else { 1 };
    proof {
        assert(q == (value + alignment - 1) / (alignment as int)) by (nonlinear_arith)
            requires
                alignment > 0,
                q == value / alignment + if value % alignment == 0 { 0int } else { 1int };
        assert(q * alignment <= value + alignment - 1) by (nonlinear_arith)
            requires
                alignment > 0,
                q == (value + alignment - 1) / (alignment as int);
        assert(value <= q * alignment < value + alignment) by (nonlinear_arith)
            requires
                alignment > 0,
                q == (value + alignment - 1) / (alignment as int);
        assert((q * alignment) % (alignment as int) == 0) by (nonlinear_arith)
            requires
                alignment > 0;
    }
    q * alignment
}

/// The end of a table of `count` records of `stride` bytes starting at
/// `start`, when it fits in `usize`; else the error text for `label`.
pub open spec fn table_end(start: nat, count: nat, stride: nat, label: Seq<char>) -> Result<nat, Seq<char>> {
    if count * stride > usize::MAX || start + count * stride > usize::MAX {
        Err(label + " range overflow"@)
    } else {
        Ok(start + count * stride)
    }
}

/// The end of a table of records, with its overflow checked.
pub fn checked_table_end(start: usize, count: usize, stride: usize, label: &str) -> (result: Result<usize, String>)
    ensures
        match table_end(start as nat, count as nat, stride as nat, label@) {
            Ok(e) => result == Ok::<usize, String>(e as usize),
            Err(text) => result matches Err(s) && s@ == text,
        },
{
    match count.checked_mul(stride) {
        Some(bytes) => match start.checked_add(bytes) {
            Some(end) => Ok(end),
            None => Err(concat2(label, " range overflow")),
        },
        None => Err(concat2(label, " range overflow")),
    }
}

/// A count or length narrowed to `u32`, or the error text for `label`.
pub fn checked_u32(value: usize, label: &str) -> (result: Result<u32, String>)
    ensures
        value <= u32::MAX ==> result == Ok::<u32, String>(value as u32),
        value > u32::MAX ==> (result matches Err(s) && s@ == label@ + " exceeds u32"@),
{
    if value <= 0xffff_ffffusize {
        Ok(value as u32)
    } else {
        Err(concat2(label, " exceeds u32"))
    }
}

/// What the page planner reads of one cluster.
#[derive(Debug)]
pub struct ClusterFootprint {
    pub vertex_count: usize,
    pub local_indices: Vec<u8>,
    /// Whether the cluster belongs to the always-resident coarse roots.
    pub coarse_root: bool,
    pub lod_level: u32,
    /// Whether its bounds and error are finite and in range (checked by
    /// whoever holds them).
    pub bounds_valid: bool,
}

/// A cluster footprint as plain values.
pub struct FootprintView {
    pub vertex_count: nat,
    pub local_indices: Seq<u8>,
    pub coarse_root: bool,
    pub lod_level: u32,
    pub bounds_valid: bool,
}

impl View for ClusterFootprint {
    type V = FootprintView;

    open spec fn view(&self) -> FootprintView {
        FootprintView {
            vertex_count: self.vertex_count as nat,
            local_indices: self.local_indices@,
            coarse_root: self.coarse_root,
            lod_level: self.lod_level,
            bounds_valid: self.bounds_valid,
        }
    }
}

/// The values of a list of footprints.
pub open spec fn footprint_views(cs: Seq<ClusterFootprint>) -> Seq<FootprintView> {
    cs.map_values(|c: ClusterFootprint| c@)
}

/// A page of the plan.
#[derive(Clone, Copy, Debug, PartialEq, Eq, Structural)]
pub struct PagePlan {
    pub payload_offset: u64,
    pub payload_bytes: u32,
    pub first_cluster: u32,
    pub cluster_count: u32,
}

/// Where a cluster's payload goes.
#[derive(Clone, Copy, Debug, PartialEq, Eq, Structural)]
pub struct ClusterPlacement {
    pub page_index: u32,
    pub vertex_offset: u64,
    pub index_offset: u64,
}

/// The layout of a whole payload.
#[derive(Debug)]
pub struct PayloadLayout {
    pub pages: Vec<PagePlan>,
    pub placements: Vec<ClusterPlacement>,
    pub payload_bytes: u64,
}

/// Why the payload could not be laid out.
#[derive(Clone, Copy, Debug, PartialEq, Eq, Structural)]
pub enum PageError {
    /// A cluster has fewer than 3 or more than 255 vertices.
    VertexCount { count: usize },
    /// A cluster's indices are not a non-empty triangle list.
    NotTriangleList,
    /// A local index is not below the cluster's vertex count.
    LocalIndexOutOfRange,
    /// A cluster's bounds or error are not finite or out of range.
    InvalidBounds,
    /// One cluster's payload alone exceeds the page budget.
    ExceedsBudget { bytes: usize, budget: u32 },
    /// A page is longer than `u32` can count.
    PageLength,
    /// A page's first cluster does not fit in `u32`.
    FirstCluster,
    /// A page's cluster count does not fit in `u32`.
    ClusterCount,
}

/// The text of a layout error.
pub open spec fn page_error_text(e: PageError) -> Seq<char> {
    match e {
        PageError::VertexCount { count } => "meshlet vertex count "@ + decimal_digits(count as nat) + " is outside 3..=255"@,
        PageError::NotTriangleList => "meshlet indices are not a non-empty triangle list"@,
        PageError::LocalIndexOutOfRange => "meshlet local index exceeds its vertex count"@,
        PageError::InvalidBounds => "meshlet bounds/error contain invalid values"@,
        PageError::ExceedsBudget { bytes, budget } => "meshlet payload "@ + decimal_digits(bytes as nat) + " bytes exceeds page budget "@
            + decimal_digits(budget as nat),
        PageError::PageLength => "page length exceeds u32"@,
        PageError::FirstCluster => "first page cluster exceeds u32"@,
        PageError::ClusterCount => "page cluster count exceeds u32"@,
    }
}

impl PageError {
    /// The human-readable text of this error.
    pub fn message(&self) -> (text: String)
        ensures
            text@ == page_error_text(*self),
    {
        match self {
            PageError::VertexCount { count } => {
                let mut out = owned_text("meshlet vertex count ");
                let n = decimal_text(*count as u64);
                out.append(n.as_str());
                out.append(" is outside 3..=255");
                out
            },
            PageError::NotTriangleList => owned_text("meshlet indices are not a non-empty triangle list"),
            PageError::LocalIndexOutOfRange => owned_text("meshlet local index exceeds its vertex count"),
            PageError::InvalidBounds => owned_text("meshlet bounds/error contain invalid values"),
            PageError::ExceedsBudget { bytes, budget } => {
                let mut out = owned_text("meshlet payload ");
                let b = decimal_text(*bytes as u64);
                out.append(b.as_str());
                out.append(" bytes exceeds page budget ");
                let g = decimal_text(*budget as u64);
                out.append(g.as_str());
                out
            },
            PageError::PageLength => owned_text("page length exceeds u32"),
            PageError::FirstCluster => owned_text("first page cluster exceeds u32"),
            PageError::ClusterCount => owned_text("page cluster count exceeds u32"),
        }
    }
}

/// The first problem of a cluster, in the order the checks run.
pub open spec fn cluster_problem(c: FootprintView) -> Option<PageError> {
    if c.vertex_count < 3 || c.vertex_count > 255 {
        Some(PageError::VertexCount { count: c.vertex_count as usize })
    } else if c.local_indices.len() == 0 || c.local_indices.len() % 3 != 0 {
        Some(PageError::NotTriangleList)
    } else if exists|k: int| 0 <= k < c.local_indices.len() && c.local_indices[k] >= c.vertex_count {
        Some(PageError::LocalIndexOutOfRange)
    } else if !c.bounds_valid {
        Some(PageError::InvalidBounds)
    } else {
        None
    }
}

/// The payload bytes of a cluster: vertices, then indices, padded to 16.
pub open spec fn encoded_bytes(c: FootprintView, stride: nat) -> nat {
    aligned(c.vertex_count * stride + c.local_indices.len(), 16)
}

/// The residency class of a cluster: coarse roots share one class, other
/// clusters are classed by LOD level.
pub open spec fn page_class(c: FootprintView) -> (bool, u32) {
    (c.coarse_root, if c.coarse_root { 0 } else { c.lod_level })
}

/// The state of the planner between clusters.
pub struct PlanState {
    pub payload: nat,
    pub page_start: nat,
    pub first_cluster: nat,
    pub previous_class: Option<(bool, u32)>,
    pub pages: Seq<PagePlan>,
    pub placements: Seq<ClusterPlacement>,
}

/// The pages after closing the open page at cluster `end`.
pub open spec fn close_page(st: PlanState, end: nat) -> Result<Seq<PagePlan>, PageError> {
    if end == st.first_cluster {
        Ok(st.pages)
    } else if st.payload - st.page_start > u32::MAX {
        Err(PageError::PageLength)
    } else if st.first_cluster > u32::MAX {
        Err(PageError::FirstCluster)
    } else if end - st.first_cluster > u32::MAX {
        Err(PageError::ClusterCount)
    } else {
        Ok(st.pages.push(PagePlan {
            payload_offset: st.page_start as u64,
            payload_bytes: (st.payload - st.page_start) as u32,
            first_cluster: st.first_cluster as u32,
            cluster_count: (end - st.first_cluster) as u32,
        }))
    }
}

/// Whether cluster `c` opens a new page.
pub open spec fn breaks_page(st: PlanState, c: FootprintView, encoded: nat, budget: nat) -> bool {
    let current = st.payload - st.page_start;
    current > 0 && (st.previous_class != Some(page_class(c)) || current + encoded > budget)
}

/// The state after placing cluster `c` (of `enc` payload bytes) at the end
/// of the payload, in the open page.
pub open spec fn place_cluster(s: PlanState, c: FootprintView, enc: nat, stride: nat) -> PlanState {
    PlanState {
        payload: s.payload + enc,
        previous_class: Some(page_class(c)),
        placements: s.placements.push(ClusterPlacement {
            page_index: s.pages.len() as u32,
            vertex_offset: s.payload as u64,
            index_offset: (s.payload + c.vertex_count * stride) as u64,
        }),
        ..s
    }
}

/// The state with closed pages `pages` and a new page opened at cluster `i`.
pub open spec fn open_page(st: PlanState, pages: Seq<PagePlan>, i: int) -> PlanState {
    PlanState { pages, page_start: st.payload, first_cluster: i as nat, ..st }
}

/// The layout of clusters `i..` from state `st`.
pub open spec fn plan_from(cs: Seq<FootprintView>, stride: nat, budget: nat, i: int, st: PlanState) -> Result<PlanState, PageError>
    decreases cs.len() - i,
{
    if i >= cs.len() || i < 0 {
        match close_page(st, cs.len()) {
            Err(e) => Err(e),
            Ok(pages) => Ok(PlanState { pages, ..st }),
        }
    } else if cluster_problem(cs[i]) is Some {
        Err(cluster_problem(cs[i])->0)
    } else if encoded_bytes(cs[i], stride) > budget {
        Err(PageError::ExceedsBudget { bytes: encoded_bytes(cs[i], stride) as usize, budget: budget as u32 })
    } else {
        let enc = encoded_bytes(cs[i], stride);
        let opened: Result<PlanState, PageError> = if breaks_page(st, cs[i], enc, budget) {
            match close_page(st, i as nat) {
                Err(e) => Err(e),
                Ok(pages) => Ok(open_page(st, pages, i)),
            }
        } else {
            Ok(st)
        };
        match opened {
            Err(e) => Err(e),
            Ok(s) => plan_from(cs, stride, budget, i + 1, place_cluster(s, cs[i], enc, stride)),
        }
    }
}

/// The initial planner state.
pub open spec fn plan_start() -> PlanState {
    PlanState { payload: 0, page_start: 0, first_cluster: 0, previous_class: None, pages: seq![], placements: seq![] }
}

/// The total payload of all clusters, when each is laid out.
pub open spec fn payload_total(cs: Seq<FootprintView>, stride: nat, n: int) -> nat
    decreases n,
{
    if n <= 0 { 0 } else { payload_total(cs, stride, n - 1) + encoded_bytes(cs[n - 1], stride) }
}

fn find_problem(c: &ClusterFootprint) -> (problem: Option<PageError>)
    ensures
        problem == cluster_problem(c@),
{
    if c.vertex_count < 3 || c.vertex_count > 255 {
        return Some(PageError::VertexCount { count: c.vertex_count });
    }
    let n = c.local_indices.len();
    if n == 0 || n % 3 != 0 {
        return Some(PageError::NotTriangleList);
    }
    let mut k: usize = 0;
    while k < n
        invariant
            n == c.local_indices@.len(),
            n > 0 && n % 3 == 0,
            3 <= c.vertex_count <= 255,
            k <= n,
            forall|m: int| 0 <= m < k ==> c.local_indices@[m] < c.vertex_count,
        decreases n - k,
    {
        if c.local_indices[k] as usize >= c.vertex_count {
            assert(c.local_indices@[k as int] >= c.vertex_count);
            return Some(PageError::LocalIndexOutOfRange);
        }
        k = k + 1;
    }
    if !c.bounds_valid {
        return Some(PageError::InvalidBounds);
    }
    None
}

proof fn lemma_payload_total_monotone(cs: Seq<FootprintView>, stride: nat, a: int, b: int)
    requires
        a <= b,
    ensures
        payload_total(cs, stride, a) <= payload_total(cs, stride, b),
    decreases b - a,
{
    if a < b {
        lemma_payload_total_monotone(cs, stride, a, b - 1);
    }
}

fn close_open_page(
    pages: &mut Vec<PagePlan>,
    payload: usize,
    page_start: usize,
    first: usize,
    end: usize,
    Ghost(st): Ghost<PlanState>,
) -> (result: Result<(), PageError>)
    requires
        st.payload == payload,
        st.page_start == page_start,
        st.first_cluster == first,
        st.pages == old(pages)@,
        page_start <= payload,
        first <= end,
    ensures
        match close_page(st, end as nat) {
            Ok(ps) => result is Ok && final(pages)@ == ps,
            Err(e) => result == Err::<(), PageError>(e),
        },
{
    if end == first {
        return Ok(());
    }
    let length = payload - page_start;
    if length > 0xffff_ffffusize {
        return Err(PageError::PageLength);
    }
    if first > 0xffff_ffffusize {
        return Err(PageError::FirstCluster);
    }
    if end - first > 0xffff_ffffusize {
        return Err(PageError::ClusterCount);
    }
    pages.push(PagePlan {
        payload_offset: page_start as u64,
        payload_bytes: length as u32,
        first_cluster: first as u32,
        cluster_count: (end - first) as u32,
    });
    Ok(())
}

/// Lays out the payload of the clusters in order: validates each, places
/// it, and closes pages by class and budget. `stride` is the encoded size of
/// one vertex; the budget has passed the format's own budget check.
pub fn plan_pages(clusters: &Vec<ClusterFootprint>, stride: u32, page_budget_bytes: u32) -> (result: Result<PayloadLayout, PageError>)
    requires
        forall|k: int| 0 <= k < clusters@.len() ==>
            (#[trigger] clusters@[k]).vertex_count * stride + clusters@[k].local_indices@.len() + 16 <= usize::MAX,
        payload_total(footprint_views(clusters@), stride as nat, clusters@.len() as int) <= usize::MAX,
    ensures
        match plan_from(footprint_views(clusters@), stride as nat, page_budget_bytes as nat, 0, plan_start()) {
            Ok(st) => result matches Ok(layout) && layout.pages@ == st.pages && layout.placements@ == st.placements
                && layout.payload_bytes == st.payload,
            Err(e) => result matches Err(err) && err == e,
        },
{
    let ghost cs = footprint_views(clusters@);
    let ghost budget = page_budget_bytes as nat;
    let mut pages: Vec<PagePlan> = Vec::new();
    let mut placements: Vec<ClusterPlacement> = Vec::new();
    let mut payload: usize = 0;
    let mut page_start: usize = 0;
    let mut first: usize = 0;
    let mut previous: Option<(bool, u32)> = None;
    let mut i: usize = 0;
    while i < clusters.len()
        invariant
            cs == footprint_views(clusters@),
            budget == page_budget_bytes as nat,
            forall|k: int| 0 <= k < clusters@.len() ==>
                (#[trigger] clusters@[k]).vertex_count * stride + clusters@[k].local_indices@.len() + 16 <= usize::MAX,
            payload_total(cs, stride as nat, cs.len() as int) <= usize::MAX,
            i <= clusters.len(),
            payload == payload_total(cs, stride as nat, i as int),
            page_start <= payload,
            first <= i,
            plan_from(cs, stride as nat, budget, 0, plan_start()) == plan_from(cs, stride as nat, budget, i as int, PlanState {
                payload: payload as nat,
                page_start: page_start as nat,
                first_cluster: first as nat,
                previous_class: previous,
                pages: pages@,
                placements: placements@,
            }),
        decreases clusters.len() - i,
    {
        let c = &clusters[i];
        assert(cs[i as int] == c@);
        match find_problem(c) {
            Some(e) => return Err(e),
            None => {},
        }
        let raw = c.vertex_count * (stride as usize) + c.local_indices.len();
        let encoded = align_up(raw, 16);
        if encoded > page_budget_bytes as usize {
            return Err(PageError::ExceedsBudget { bytes: encoded, budget: page_budget_bytes });
        }
        proof {
            lemma_payload_total_monotone(cs, stride as nat, i + 1, cs.len() as int);
        }
        let ghost st = PlanState {
            payload: payload as nat,
            page_start: page_start as nat,
            first_cluster: first as nat,
            previous_class: previous,
            pages: pages@,
            placements: placements@,
        };
        let class = (c.coarse_root, if c.coarse_root { 0u32 } else { c.lod_level });
        let current = payload - page_start;
        let same_class = match previous {
            Some(p) => p.0 == class.0 && p.1 == class.1,
            None => false,
        };
        let over = current > page_budget_bytes as usize || encoded > page_budget_bytes as usize - current;
        assert(over == (current + encoded > budget));
        if current > 0 && (!same_class || over) {
            assert(breaks_page(st, c@, encoded as nat, budget));
            match close_open_page(&mut pages, payload, page_start, first, i, Ghost(st)) {
                Ok(()) => {},
                Err(e) => return Err(e),
            }
            page_start = payload;
            first = i;
        } else {
            assert(!breaks_page(st, c@, encoded as nat, budget));
        }
        let vertex_offset = payload as u64;
        let index_offset = (payload + c.vertex_count * (stride as usize)) as u64;
        placements.push(ClusterPlacement { page_index: #[verifier::truncate] (pages.len() as u32), vertex_offset, index_offset });
        payload = payload + encoded;
        previous = Some(class);
        i = i + 1;
    }
    let ghost st = PlanState {
        payload: payload as nat,
        page_start: page_start as nat,
        first_cluster: first as nat,
        previous_class: previous,
        pages: pages@,
        placements: placements@,
    };
    match close_open_page(&mut pages, payload, page_start, first, clusters.len(), Ghost(st)) {
        Ok(()) => {},
        Err(e) => return Err(e),
    }
    Ok(PayloadLayout { pages, placements, payload_bytes: payload as u64 })
}

/// The pages tile clusters `0..n` in order: the first starts at cluster 0,
/// each starts where the one before ended, and the last ends at `n`.
pub open spec fn pages_tile(pages: Seq<PagePlan>, n: nat) -> bool {
    &&& (n == 0 ==> pages.len() == 0)
    &&& (n > 0 ==> pages.len() > 0 && pages[0].first_cluster == 0
        && pages.last().first_cluster + pages.last().cluster_count == n)
    &&& forall|k: int| 0 <= k < pages.len() - 1 ==>
        (#[trigger] pages[k]).first_cluster + pages[k].cluster_count == pages[k + 1].first_cluster
}

/// Every cluster of page `p` has the class of its first cluster.
pub open spec fn page_uniform(cs: Seq<FootprintView>, p: PagePlan) -> bool {
    forall|a: int| p.first_cluster <= a < p.first_cluster + p.cluster_count
        ==> a < cs.len() && #[trigger] page_class(cs[a]) == page_class(cs[p.first_cluster as int])
}

/// Every cluster of every page has the same residency class.
pub open spec fn pages_single_class(cs: Seq<FootprintView>, pages: Seq<PagePlan>) -> bool {
    forall|k: int| 0 <= k < pages.len() ==> page_uniform(cs, #[trigger] pages[k])
}

/// Every page fits the budget.
pub open spec fn pages_within_budget(pages: Seq<PagePlan>, budget: nat) -> bool {
    forall|k: int| 0 <= k < pages.len() ==> (#[trigger] pages[k]).payload_bytes <= budget
}

/// What holds of the planner state before cluster `i`.
pub open spec fn plan_invariant(cs: Seq<FootprintView>, budget: nat, i: int, st: PlanState) -> bool {
    &&& 0 <= i <= cs.len()
    &&& st.page_start <= st.payload
    &&& st.payload - st.page_start <= budget
    &&& pages_within_budget(st.pages, budget)
    &&& pages_single_class(cs, st.pages)
    &&& st.first_cluster <= i
    &&& (i > 0 ==> st.first_cluster < i)
    &&& (st.first_cluster < i ==> st.payload - st.page_start > 0)
    &&& (st.first_cluster < i ==> st.previous_class == Some(page_class(cs[i - 1])))
    &&& forall|a: int| st.first_cluster <= a < i ==> #[trigger] page_class(cs[a]) == page_class(cs[i - 1])
    &&& st.pages.len() <= st.first_cluster
    &&& (st.pages.len() == 0 ==> st.first_cluster == 0)
    &&& (st.pages.len() > 0 ==> st.pages[0].first_cluster == 0
        && st.pages.last().first_cluster + st.pages.last().cluster_count == st.first_cluster)
    &&& forall|k: int| 0 <= k < st.pages.len() - 1 ==>
        (#[trigger] st.pages[k]).first_cluster + st.pages[k].cluster_count == st.pages[k + 1].first_cluster
}

/// The pages close_page yields, as laws of the plan need them.
pub open spec fn closed_pages_ok(cs: Seq<FootprintView>, budget: nat, i: int, pages: Seq<PagePlan>) -> bool {
    &&& pages_within_budget(pages, budget)
    &&& pages_single_class(cs, pages)
    &&& pages.len() <= i
    &&& (pages.len() == 0 ==> i == 0)
    &&& (pages.len() > 0 ==> pages[0].first_cluster == 0 && pages.last().first_cluster + pages.last().cluster_count == i)
    &&& forall|k: int| 0 <= k < pages.len() - 1 ==>
        (#[trigger] pages[k]).first_cluster + pages[k].cluster_count == pages[k + 1].first_cluster
}

proof fn lemma_close_page(cs: Seq<FootprintView>, budget: nat, i: int, st: PlanState)
    requires
        plan_invariant(cs, budget, i, st),
    ensures
        close_page(st, i as nat) matches Ok(pages) ==> closed_pages_ok(cs, budget, i, pages),
{
    if let Ok(pages) = close_page(st, i as nat) {
        if i as nat != st.first_cluster {
            let n = st.pages.len();
            let last = pages[n as int];
            assert(pages == st.pages.push(last));
            assert(page_uniform(cs, last)) by {
                assert forall|a: int| last.first_cluster <= a < last.first_cluster + last.cluster_count
                    implies a < cs.len() && #[trigger] page_class(cs[a]) == page_class(cs[last.first_cluster as int]) by {
                    assert(page_class(cs[a]) == page_class(cs[i - 1]));
                    assert(page_class(cs[last.first_cluster as int]) == page_class(cs[i - 1]));
                }
            }
            assert forall|k: int| 0 <= k < pages.len() implies page_uniform(cs, #[trigger] pages[k]) by {
                if k < n {
                    assert(pages[k] == st.pages[k]);
                }
            }
            assert forall|k: int| 0 <= k < pages.len() implies (#[trigger] pages[k]).payload_bytes <= budget by {
                if k < n {
                    assert(pages[k] == st.pages[k]);
                }
            }
            assert forall|k: int| 0 <= k < pages.len() - 1 implies
                (#[trigger] pages[k]).first_cluster + pages[k].cluster_count == pages[k + 1].first_cluster by {
                if k < n - 1 {
                    assert(pages[k] == st.pages[k] && pages[k + 1] == st.pages[k + 1]);
                } else {
                    assert(pages[k] == st.pages.last());
                }
            }
        } else {
            if i > 0 {
                assert(st.first_cluster < i);
            }
        }
    }
}

proof fn lemma_aligned_at_least(x: nat)
    ensures
        aligned(x, 16) >= x,
{
    let v: int = x as int;
    let q: int = (v + 16 - 1) / 16;
    assert(q * 16 >= v) by (nonlinear_arith)
        requires
            q == (v + 16 - 1) / 16,
            v >= 0;
}

proof fn lemma_step_open(cs: Seq<FootprintView>, stride: nat, budget: nat, i: int, st: PlanState, pages: Seq<PagePlan>)
    requires
        plan_invariant(cs, budget, i, st),
        0 <= i < cs.len(),
        cluster_problem(cs[i]) is None,
        encoded_bytes(cs[i], stride) <= budget,
        breaks_page(st, cs[i], encoded_bytes(cs[i], stride), budget),
        close_page(st, i as nat) == Ok::<Seq<PagePlan>, PageError>(pages),
    ensures
        plan_invariant(cs, budget, i + 1, place_cluster(open_page(st, pages, i), cs[i], encoded_bytes(cs[i], stride), stride)),
{
    lemma_aligned_at_least(cs[i].vertex_count * stride + cs[i].local_indices.len());
    lemma_close_page(cs, budget, i, st);
}

proof fn lemma_step_stay(cs: Seq<FootprintView>, stride: nat, budget: nat, i: int, st: PlanState)
    requires
        plan_invariant(cs, budget, i, st),
        0 <= i < cs.len(),
        cluster_problem(cs[i]) is None,
        encoded_bytes(cs[i], stride) <= budget,
        !breaks_page(st, cs[i], encoded_bytes(cs[i], stride), budget),
    ensures
        plan_invariant(cs, budget, i + 1, place_cluster(st, cs[i], encoded_bytes(cs[i], stride), stride)),
{
    lemma_aligned_at_least(cs[i].vertex_count * stride + cs[i].local_indices.len());
    assert forall|a: int| st.first_cluster <= a < i + 1 implies #[trigger] page_class(cs[a]) == page_class(cs[i]) by {
        if a < i {
            assert(page_class(cs[a]) == page_class(cs[i - 1]));
            assert(st.payload - st.page_start > 0);
        }
    }
}

proof fn lemma_plan_laws(cs: Seq<FootprintView>, stride: nat, budget: nat, i: int, st: PlanState)
    requires
        plan_invariant(cs, budget, i, st),
    ensures
        plan_from(cs, stride, budget, i, st) matches Ok(r) ==> {
            &&& pages_within_budget(r.pages, budget)
            &&& pages_single_class(cs, r.pages)
            &&& pages_tile(r.pages, cs.len())
        },
    decreases cs.len() - i,
{
    if i >= cs.len() {
        lemma_close_page(cs, budget, i, st);
    } else if cluster_problem(cs[i]) is None && encoded_bytes(cs[i], stride) <= budget {
        let enc = encoded_bytes(cs[i], stride);
        let opened: Result<PlanState, PageError> = if breaks_page(st, cs[i], enc, budget) {
            match close_page(st, i as nat) {
                Err(e) => Err(e),
                Ok(pages) => Ok(open_page(st, pages, i)),
            }
        } else {
            Ok(st)
        };
        if let Ok(s) = opened {
            if breaks_page(st, cs[i], enc, budget) {
                let pages = close_page(st, i as nat)->Ok_0;
                lemma_step_open(cs, stride, budget, i, st, pages);
            } else {
                lemma_step_stay(cs, stride, budget, i, st);
            }
            lemma_plan_laws(cs, stride, budget, i + 1, place_cluster(s, cs[i], enc, stride));
        }
    }
}

/// A successful layout keeps the page budget, never mixes residency
/// classes in a page, and tiles the clusters with pages in order.
pub proof fn law_pages_respect_budget_and_classes(cs: Seq<FootprintView>, stride: nat, budget: nat)
    ensures
        plan_from(cs, stride, budget, 0, plan_start()) matches Ok(r) ==> {
            &&& pages_within_budget(r.pages, budget)
            &&& pages_single_class(cs, r.pages)
            &&& pages_tile(r.pages, cs.len())
        },
{
    lemma_plan_laws(cs, stride, budget, 0, plan_start());
}

} // verus!
