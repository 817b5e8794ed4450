//! Deterministic leaf-meshlet partitioning of a triangle list.
//!
//! Triangles keep their source order. A meshlet is closed just before the
//! first triangle that would take it past its vertex or triangle limit;
//! its vertices are the distinct source indices in first-use order and its
//! local indices point into that list.

use vstd::prelude::*;
use crate::options::{LimitsError, MeshletLimits, limits_valid, limits_error_text, limits_refusal};
use crate::text::{decimal_digits, decimal_text, owned_text};

verus! {

/// The distinct values of `p` in order of first occurrence.
pub open spec fn distinct_in_order(p: Seq<u32>) -> Seq<u32>
    decreases p.len(),
{
    if p.len() == 0 {
        seq![]
    } else {
        let rest = distinct_in_order(p.drop_last());
        if p.drop_last().contains(p.last()) { rest } else { rest.push(p.last()) }
    }
}

/// The position of `x` in `v` (meaningful when `v` holds `x` once).
pub open spec fn position(v: Seq<u32>, x: u32) -> int {
    choose|i: int| 0 <= i < v.len() && v[i] == x
}

/// The local index list of a meshlet whose source indices are `p`.
pub open spec fn local_of(p: Seq<u32>) -> Seq<u8> {
    Seq::new(p.len(), |j: int| position(distinct_in_order(p), p[j]) as u8)
}

/// The source indices of triangles `s..e`.
pub open spec fn span(indices: Seq<u32>, s: int, e: int) -> Seq<u32> {
    indices.subrange(3 * s, 3 * e)
}

/// How many of the three corners of triangle `t` are not among `verts`
/// (counted with repetition).
pub open spec fn count_new(verts: Seq<u32>, indices: Seq<u32>, t: int) -> nat {
    (if verts.contains(indices[3 * t]) { 0nat } else { 1nat })
        + (if verts.contains(indices[3 * t + 1]) { 0nat } else { 1nat })
        + (if verts.contains(indices[3 * t + 2]) { 0nat } else { 1nat })
}

/// Whether triangle `t` may join the meshlet holding triangles `s..t`.
pub open spec fn fits(indices: Seq<u32>, limits: MeshletLimits, s: int, t: int) -> bool {
    let verts = distinct_in_order(span(indices, s, t));
    t == s || (verts.len() + count_new(verts, indices, t) <= limits.max_vertices && (t - s) + 1 <= limits.max_triangles)
}

/// The number of whole triangles.
pub open spec fn triangle_total(indices: Seq<u32>) -> int {
    (indices.len() / 3) as int
}

/// The end (exclusive triangle) of the meshlet that starts at `s`, having
/// accepted triangles up to `t`.
pub open spec fn meshlet_end(indices: Seq<u32>, limits: MeshletLimits, s: int, t: int) -> int
    decreases triangle_total(indices) - t,
{
    if t >= triangle_total(indices) {
        triangle_total(indices)
    } else if fits(indices, limits, s, t) {
        meshlet_end(indices, limits, s, t + 1)
    } else {
        t
    }
}

/// A meshlet as source vertex indices and local triangle indices.
pub struct PartitionView {
    pub source_vertices: Seq<u32>,
    pub local_indices: Seq<u8>,
}

/// The meshlet covering triangles `s..e`.
pub open spec fn meshlet_of(indices: Seq<u32>, s: int, e: int) -> PartitionView {
    PartitionView { source_vertices: distinct_in_order(span(indices, s, e)), local_indices: local_of(span(indices, s, e)) }
}

/// The meshlets of the triangles from `s` on.
pub open spec fn partition_from(indices: Seq<u32>, limits: MeshletLimits, s: int) -> Seq<PartitionView>
    decreases triangle_total(indices) - s,
{
    if s >= triangle_total(indices) || s < 0 {
        seq![]
    } else {
        let e = meshlet_end(indices, limits, s, s + 1);
        if e <= s || e > triangle_total(indices) {
            seq![]
        } else {
            seq![meshlet_of(indices, s, e)] + partition_from(indices, limits, e)
        }
    }
}

/// One meshlet of a partition.
#[derive(Debug)]
pub struct MeshletPartition {
    /// Indices into the primitive's vertices, distinct, in first-use order.
    pub source_vertices: Vec<u32>,
    /// Three entries per triangle, each an index into `source_vertices`.
    pub local_indices: Vec<u8>,
}

impl View for MeshletPartition {
    type V = PartitionView;

    open spec fn view(&self) -> PartitionView {
        PartitionView { source_vertices: self.source_vertices@, local_indices: self.local_indices@ }
    }
}

impl MeshletPartition {
    /// The number of triangles.
    pub fn triangle_count(&self) -> (count: u32)
        requires
            self.local_indices@.len() / 3 <= u32::MAX,
        ensures
            count == self.local_indices@.len() / 3,
    {
        (self.local_indices.len() / 3) as u32
    }
}

/// The values of a list of partitions.
pub open spec fn partition_views(v: Seq<MeshletPartition>) -> Seq<PartitionView> {
    v.map_values(|m: MeshletPartition| m@)
}

proof fn lemma_push_contains(q: Seq<u32>, l: u32, x: u32)
    ensures
        q.push(l).contains(x) <==> (q.contains(x) || x == l),
{
    if q.contains(x) {
        let k = choose|k: int| 0 <= k < q.len() && q[k] == x;
        assert(q.push(l)[k] == x);
    }
    if x == l {
        assert(q.push(l)[q.len() as int] == x);
    }
    if q.push(l).contains(x) && x != l {
        let k = choose|k: int| 0 <= k < q.len() + 1 && q.push(l)[k] == x;
        assert(k < q.len());
        assert(q[k] == x);
    }
}

proof fn lemma_distinct(p: Seq<u32>)
    ensures
        forall|x: u32| distinct_in_order(p).contains(x) <==> p.contains(x),
        forall|i: int, j: int| 0 <= i < j < distinct_in_order(p).len() ==> distinct_in_order(p)[i] != distinct_in_order(p)[j],
        distinct_in_order(p).len() <= p.len(),
    decreases p.len(),
{
    if p.len() > 0 {
        let q = p.drop_last();
        let l = p.last();
        lemma_distinct(q);
        assert(p =~= q.push(l));
        let d = distinct_in_order(q);
        assert forall|x: u32| distinct_in_order(p).contains(x) <==> p.contains(x) by {
            lemma_push_contains(q, l, x);
            lemma_push_contains(d, l, x);
        }
        if !q.contains(l) {
            assert(!d.contains(l));
            assert forall|i: int, j: int| 0 <= i < j < d.push(l).len() implies d.push(l)[i] != d.push(l)[j] by {
                if j == d.len() {
                    assert(d[i] != l);
                }
            }
        }
    } else {
        assert forall|x: u32| distinct_in_order(p).contains(x) <==> p.contains(x) by {
            assert(distinct_in_order(p) =~= seq![]);
        }
    }
}

proof fn lemma_position_push(v: Seq<u32>, y: u32, x: u32)
    requires
        forall|i: int, j: int| 0 <= i < j < v.len() ==> v[i] != v[j],
        v.contains(x),
        !v.contains(y),
    ensures
        position(v.push(y), x) == position(v, x),
        0 <= position(v, x) < v.len(),
        v[position(v, x)] == x,
{
    let i = position(v, x);
    let k = position(v.push(y), x);
    assert(v.push(y)[i] == x);
    assert(0 <= k < v.len() + 1 && v.push(y)[k] == x);
    if k != i {
        if k < v.len() {
            if k < i { assert(v[k] != v[i]); } else { assert(v[i] != v[k]); }
        } else {
            assert(v.push(y)[k] == y);
        }
    }
}

proof fn lemma_position_new(v: Seq<u32>, y: u32)
    requires
        !v.contains(y),
    ensures
        position(v.push(y), y) == v.len(),
{
    let k = position(v.push(y), y);
    assert(v.push(y)[v.len() as int] == y);
    if k != v.len() {
        assert(v[k] == y);
    }
}

proof fn lemma_position_found(v: Seq<u32>, x: u32)
    requires
        v.contains(x),
    ensures
        0 <= position(v, x) < v.len(),
        v[position(v, x)] == x,
{
}


proof fn lemma_position_unique(v: Seq<u32>, i: int, x: u32)
    requires
        forall|a: int, b: int| 0 <= a < b < v.len() ==> v[a] != v[b],
        0 <= i < v.len(),
        v[i] == x,
    ensures
        position(v, x) == i,
{
    let k = position(v, x);
    assert(v.contains(x)) by { assert(v[i] == x); }
    if k < i { assert(v[k] != v[i]); }
    if i < k { assert(v[i] != v[k]); }
}

/// Appends source index `x` to a meshlet under construction whose source
/// indices so far are `p`.
fn add_index(src: &mut Vec<u32>, local: &mut Vec<u8>, x: u32, Ghost(p): Ghost<Seq<u32>>)
    requires
        old(src)@ == distinct_in_order(p),
        old(local)@ == local_of(p),
    ensures
        final(src)@ == distinct_in_order(p.push(x)),
        final(local)@ == local_of(p.push(x)),
        final(src)@.len() <= old(src)@.len() + (if old(src)@.contains(x) { 0int } else { 1int }),
        forall|y: u32| old(src)@.contains(y) ==> final(src)@.contains(y),
{
    proof { lemma_distinct(p); }
    let ghost d = distinct_in_order(p);
    let ghost q = p.push(x);
    assert(q.drop_last() =~= p);
    let mut i: usize = 0;
    while i < src.len() && src[i] != x
        invariant
            src@ == d,
            i <= src.len(),
            forall|k: int| 0 <= k < i ==> src@[k] != x,
        decreases src.len() - i,
    {
        i = i + 1;
    }
    if i < src.len() {
        proof {
            assert(d.contains(x)) by { assert(d[i as int] == x); }
            assert(p.contains(x));
            assert(distinct_in_order(q) == d);
            lemma_position_unique(d, i as int, x);
        }
        local.push(i as u8);
        proof {
            assert forall|j: int| 0 <= j < q.len() implies #[trigger] local@[j] == local_of(q)[j] by {
                if j < p.len() {
                    assert(q[j] == p[j]);
                }
            }
            assert(local@ =~= local_of(q));
        }
    } else {
        proof {
            assert(!d.contains(x));
            assert(!p.contains(x));
            assert(distinct_in_order(q) == d.push(x));
            lemma_position_new(d, x);
        }
        src.push(x);
        let last = src.len() - 1;
        local.push(last as u8);
        proof {
            assert forall|j: int| 0 <= j < q.len() implies #[trigger] local@[j] == local_of(q)[j] by {
                if j < p.len() {
                    assert(q[j] == p[j]);
                    assert(p.contains(p[j]));
                    lemma_position_push(d, x, p[j]);
                }
            }
            assert(local@ =~= local_of(q));
            assert forall|y: u32| old(src)@.contains(y) implies src@.contains(y) by {
                lemma_push_contains(d, x, y);
            }
        }
    }
}

proof fn lemma_span_push(indices: Seq<u32>, s: int, t: int)
    requires
        0 <= s <= t,
        3 * t + 3 <= indices.len(),
    ensures
        span(indices, s, t + 1) == span(indices, s, t).push(indices[3 * t]).push(indices[3 * t + 1]).push(indices[3 * t + 2]),
{
    assert(span(indices, s, t + 1) =~= span(indices, s, t).push(indices[3 * t]).push(indices[3 * t + 1]).push(indices[3 * t + 2]));
}

proof fn lemma_end_bounds(indices: Seq<u32>, limits: MeshletLimits, s: int, t: int)
    requires
        t <= triangle_total(indices),
    ensures
        t <= meshlet_end(indices, limits, s, t) <= triangle_total(indices),
    decreases triangle_total(indices) - t,
{
    if t < triangle_total(indices) && fits(indices, limits, s, t) {
        lemma_end_bounds(indices, limits, s, t + 1);
    }
}

/// Whether `src` holds `x`.
fn holds(src: &Vec<u32>, x: u32) -> (found: bool)
    ensures
        found == src@.contains(x),
{
    let mut i: usize = 0;
    while i < src.len()
        invariant
            i <= src.len(),
            forall|k: int| 0 <= k < i ==> src@[k] != x,
        decreases src.len() - i,
    {
        if src[i] == x {
            assert(src@[i as int] == x);
            return true;
        }
        i = i + 1;
    }
    false
}

/// Splits a triangle list into meshlets, greedily and in order.
pub fn partition_triangles(indices: &Vec<u32>, limits: MeshletLimits) -> (result: Vec<MeshletPartition>)
    requires
        limits_valid(limits),
        indices@.len() % 3 == 0,
    ensures
        partition_views(result@) == partition_from(indices@, limits, 0),
{
    let n = indices.len() / 3;
    let mut result: Vec<MeshletPartition> = Vec::new();
    let mut src: Vec<u32> = Vec::new();
    let mut local: Vec<u8> = Vec::new();
    let mut s: usize = 0;
    let mut t: usize = 0;
    let ghost idx = indices@;
    assert(span(idx, 0, 0) =~= seq![]);
    assert(local_of(seq![]) =~= seq![]);
    assert(partition_views(result@) =~= seq![]);
    while t < n
        invariant
            idx == indices@,
            n == triangle_total(idx),
            idx.len() == 3 * n,
            limits_valid(limits),
            s <= t <= n,
            src@ == distinct_in_order(span(idx, s as int, t as int)),
            local@ == local_of(span(idx, s as int, t as int)),
            local@.len() == 3 * (t - s),
            src@.len() <= limits.max_vertices,
            s < t ==> meshlet_end(idx, limits, s as int, s + 1) == meshlet_end(idx, limits, s as int, t as int),
            partition_from(idx, limits, 0) == partition_views(result@) + partition_from(idx, limits, s as int),
        decreases n - t,
    {
        assert(3 * t + 2 < indices.len());
        let a = indices[3 * t];
        let b = indices[3 * t + 1];
        let c = indices[3 * t + 2];
        let mut additional: usize = 0;
        if !holds(&src, a) { additional = additional + 1; }
        if !holds(&src, b) { additional = additional + 1; }
        if !holds(&src, c) { additional = additional + 1; }
        assert(additional == count_new(src@, idx, t as int));
        let would_overflow = local.len() > 0 && (src.len() + additional > limits.max_vertices as usize
            || (t - s) + 1 > limits.max_triangles as usize);
        if would_overflow {
            proof {
                assert(!fits(idx, limits, s as int, t as int));
                assert(meshlet_end(idx, limits, s as int, t as int) == t);
                let rest = partition_from(idx, limits, t as int);
                assert(partition_from(idx, limits, s as int) == seq![meshlet_of(idx, s as int, t as int)] + rest);
            }
            let finished = MeshletPartition { source_vertices: src, local_indices: local };
            let ghost before = partition_views(result@);
            result.push(finished);
            proof {
                assert(partition_views(result@) =~= before.push(meshlet_of(idx, s as int, t as int)));
                assert(partition_views(result@) + partition_from(idx, limits, t as int)
                    =~= before + (seq![meshlet_of(idx, s as int, t as int)] + partition_from(idx, limits, t as int)));
            }
            src = Vec::new();
            local = Vec::new();
            s = t;
            proof {
                assert(span(idx, s as int, t as int) =~= seq![]);
                assert(local_of(seq![]) =~= seq![]);
            }
        } else if s < t {
            assert(fits(idx, limits, s as int, t as int));
        }
        let ghost p0 = span(idx, s as int, t as int);
        let ghost v0 = src@;
        assert(s == t || additional == count_new(v0, idx, t as int));
        add_index(&mut src, &mut local, a, Ghost(p0));
        add_index(&mut src, &mut local, b, Ghost(p0.push(a)));
        add_index(&mut src, &mut local, c, Ghost(p0.push(a).push(b)));
        proof {
            lemma_span_push(idx, s as int, t as int);
            if s == t {
                assert(v0.len() == 0);
                assert(src@.len() <= 3);
            } else {
                assert(src@.len() <= v0.len() + additional);
            }
        }
        t = t + 1;
    }
    if local.len() > 0 {
        proof {
            lemma_end_bounds(idx, limits, s as int, s + 1);
            assert(meshlet_end(idx, limits, s as int, n as int) == n);
            assert(partition_from(idx, limits, n as int) =~= seq![]);
            assert(partition_from(idx, limits, s as int) == seq![meshlet_of(idx, s as int, n as int)] + partition_from(idx, limits, n as int));
        }
        let ghost before = partition_views(result@);
        result.push(MeshletPartition { source_vertices: src, local_indices: local });
        proof {
            assert(partition_views(result@) =~= before.push(meshlet_of(idx, s as int, n as int)));
            assert(partition_from(idx, limits, 0) =~= partition_views(result@));
        }
    } else {
        proof {
            assert(s == n);
            assert(partition_from(idx, limits, 0) =~= partition_views(result@));
        }
    }
    result
}

/// The first vertex component of a primitive that is NaN or infinite, as
/// found by whoever holds the vertex data.
#[derive(Clone, Debug)]
pub struct NonFiniteComponent {
    /// Index of the vertex.
    pub vertex: usize,
    /// Attribute name, such as `POSITION`.
    pub attribute: String,
    /// Index of the component within the attribute.
    pub component: usize,
    /// The value as Rust's `{:?}` writes it (`NaN`, `inf`, `-inf`).
    pub value: String,
}

/// What the partitioner reads of a primitive: its identity, how many
/// vertices it has, its triangle list, and the first non-finite vertex
/// component, if any.
#[derive(Clone, Debug)]
pub struct PrimitiveTopology {
    pub mesh_index: u32,
    pub primitive_index: u32,
    pub vertex_count: usize,
    pub indices: Vec<u32>,
    pub non_finite: Option<NonFiniteComponent>,
}

/// A non-finite vertex component as plain values.
pub struct NonFiniteView {
    pub vertex: nat,
    pub attribute: Seq<char>,
    pub component: nat,
    pub value: Seq<char>,
}

/// A primitive's topology as plain values.
pub struct TopologyView {
    pub mesh_index: u32,
    pub primitive_index: u32,
    pub vertex_count: nat,
    pub indices: Seq<u32>,
    pub non_finite: Option<NonFiniteView>,
}

impl View for NonFiniteComponent {
    type V = NonFiniteView;

    open spec fn view(&self) -> NonFiniteView {
        NonFiniteView { vertex: self.vertex as nat, attribute: self.attribute@, component: self.component as nat, value: self.value@ }
    }
}

impl View for PrimitiveTopology {
    type V = TopologyView;

    open spec fn view(&self) -> TopologyView {
        TopologyView {
            mesh_index: self.mesh_index,
            primitive_index: self.primitive_index,
            vertex_count: self.vertex_count as nat,
            indices: self.indices@,
            non_finite: match self.non_finite {
                Some(c) => Some(c@),
                None => None,
            },
        }
    }
}

/// Why a primitive could not be partitioned.
#[derive(Debug)]
pub enum MeshletError {
    /// The limits were refused.
    Limits(LimitsError),
    /// The primitive has no vertices.
    NoVertices { mesh: u32, primitive: u32 },
    /// The index count is zero or not a multiple of three.
    NotTriangleList { mesh: u32, primitive: u32, count: usize },
    /// A vertex component is NaN or infinite.
    NonFinite { mesh: u32, primitive: u32, component: NonFiniteComponent },
    /// An index is not below the vertex count.
    IndexOutOfRange { mesh: u32, primitive: u32, index: u32, vertex_count: usize },
}

/// A partition error as plain values.
pub enum MeshletErrorView {
    Limits(LimitsError),
    NoVertices { mesh: u32, primitive: u32 },
    NotTriangleList { mesh: u32, primitive: u32, count: nat },
    NonFinite { mesh: u32, primitive: u32, component: NonFiniteView },
    IndexOutOfRange { mesh: u32, primitive: u32, index: u32, vertex_count: nat },
}

impl View for MeshletError {
    type V = MeshletErrorView;

    open spec fn view(&self) -> MeshletErrorView {
        match self {
            MeshletError::Limits(e) => MeshletErrorView::Limits(*e),
            MeshletError::NoVertices { mesh, primitive } => MeshletErrorView::NoVertices { mesh: *mesh, primitive: *primitive },
            MeshletError::NotTriangleList { mesh, primitive, count } =>
                MeshletErrorView::NotTriangleList { mesh: *mesh, primitive: *primitive, count: *count as nat },
            MeshletError::NonFinite { mesh, primitive, component } =>
                MeshletErrorView::NonFinite { mesh: *mesh, primitive: *primitive, component: component@ },
            MeshletError::IndexOutOfRange { mesh, primitive, index, vertex_count } =>
                MeshletErrorView::IndexOutOfRange { mesh: *mesh, primitive: *primitive, index: *index, vertex_count: *vertex_count as nat },
        }
    }
}

/// The position of the first index that is not below `n`.
pub open spec fn first_index_beyond(indices: Seq<u32>, n: nat) -> int {
    choose|k: int| 0 <= k < indices.len() && indices[k] >= n && forall|j: int| 0 <= j < k ==> indices[j] < n
}

/// The first problem of a primitive, in the order the checks run: no
/// vertices, then the index count, then non-finite components, then an
/// index out of range.
pub open spec fn primitive_problem(p: TopologyView) -> Option<MeshletErrorView> {
    if p.vertex_count == 0 {
        Some(MeshletErrorView::NoVertices { mesh: p.mesh_index, primitive: p.primitive_index })
    } else if p.indices.len() == 0 || p.indices.len() % 3 != 0 {
        Some(MeshletErrorView::NotTriangleList { mesh: p.mesh_index, primitive: p.primitive_index, count: p.indices.len() })
    } else if p.non_finite is Some {
        Some(MeshletErrorView::NonFinite { mesh: p.mesh_index, primitive: p.primitive_index, component: p.non_finite->0 })
    } else if exists|k: int| 0 <= k < p.indices.len() && p.indices[k] >= p.vertex_count {
        Some(MeshletErrorView::IndexOutOfRange {
            mesh: p.mesh_index,
            primitive: p.primitive_index,
            index: p.indices[first_index_beyond(p.indices, p.vertex_count)],
            vertex_count: p.vertex_count,
        })
    } else {
        None
    }
}

/// "mesh M primitive P "
pub open spec fn primitive_prefix(mesh: u32, primitive: u32) -> Seq<char> {
    "mesh "@ + decimal_digits(mesh as nat) + " primitive "@ + decimal_digits(primitive as nat) + " "@
}

/// The text of a partition error.
pub open spec fn meshlet_error_text(e: MeshletErrorView) -> Seq<char> {
    match e {
        MeshletErrorView::Limits(l) => limits_error_text(l),
        MeshletErrorView::NoVertices { mesh, primitive } => primitive_prefix(mesh, primitive) + "has no vertices"@,
        MeshletErrorView::NotTriangleList { mesh, primitive, count } =>
            primitive_prefix(mesh, primitive) + "index count "@ + decimal_digits(count)
                + " is not a non-empty triangle list"@,
        MeshletErrorView::NonFinite { mesh, primitive, component } =>
            primitive_prefix(mesh, primitive) + "vertex "@ + decimal_digits(component.vertex) + " "@
                + component.attribute + "["@ + decimal_digits(component.component) + "]="@ + component.value
                + " contains NaN/Inf"@,
        MeshletErrorView::IndexOutOfRange { mesh, primitive, index, vertex_count } =>
            primitive_prefix(mesh, primitive) + "index "@ + decimal_digits(index as nat) + " exceeds "@
                + decimal_digits(vertex_count) + " vertices"@,
    }
}

fn prefix_text(mesh: u32, primitive: u32) -> (text: String)
    ensures
        text@ == primitive_prefix(mesh, primitive),
{
    let mut out = owned_text("mesh ");
    let m = decimal_text(mesh as u64);
    out.append(m.as_str());
    out.append(" primitive ");
    let p = decimal_text(primitive as u64);
    out.append(p.as_str());
    out.append(" ");
    out
}

impl MeshletError {
    /// The human-readable text of this error.
    pub fn message(&self) -> (text: String)
        ensures
            text@ == meshlet_error_text(self@),
    {
        match self {
            MeshletError::Limits(e) => e.message(),
            MeshletError::NoVertices { mesh, primitive } => {
                let mut out = prefix_text(*mesh, *primitive);
                out.append("has no vertices");
                out
            },
            MeshletError::NotTriangleList { mesh, primitive, count } => {
                let mut out = prefix_text(*mesh, *primitive);
                out.append("index count ");
                let n = decimal_text(*count as u64);
                out.append(n.as_str());
                out.append(" is not a non-empty triangle list");
                out
            },
            MeshletError::NonFinite { mesh, primitive, component } => {
                let mut out = prefix_text(*mesh, *primitive);
                out.append("vertex ");
                let v = decimal_text(component.vertex as u64);
                out.append(v.as_str());
                out.append(" ");
                out.append(component.attribute.as_str());
                out.append("[");
                let c = decimal_text(component.component as u64);
                out.append(c.as_str());
                out.append("]=");
                out.append(component.value.as_str());
                out.append(" contains NaN/Inf");
                out
            },
            MeshletError::IndexOutOfRange { mesh, primitive, index, vertex_count } => {
                let mut out = prefix_text(*mesh, *primitive);
                out.append("index ");
                let i = decimal_text(*index as u64);
                out.append(i.as_str());
                out.append(" exceeds ");
                let n = decimal_text(*vertex_count as u64);
                out.append(n.as_str());
                out.append(" vertices");
                out
            },
        }
    }
}

/// Checks a primitive before it is partitioned.
pub fn validate_primitive(primitive: &PrimitiveTopology) -> (result: Result<(), MeshletError>)
    ensures
        match result {
            Ok(()) => primitive_problem(primitive@) is None,
            Err(e) => primitive_problem(primitive@) == Some(e@),
        },
{
    let mesh = primitive.mesh_index;
    let prim = primitive.primitive_index;
    if primitive.vertex_count == 0 {
        return Err(MeshletError::NoVertices { mesh, primitive: prim });
    }
    let count = primitive.indices.len();
    if count == 0 || count % 3 != 0 {
        return Err(MeshletError::NotTriangleList { mesh, primitive: prim, count });
    }
    match &primitive.non_finite {
        Some(component) => {
            let copy = NonFiniteComponent {
                vertex: component.vertex,
                attribute: owned_text(component.attribute.as_str()),
                component: component.component,
                value: owned_text(component.value.as_str()),
            };
            return Err(MeshletError::NonFinite { mesh, primitive: prim, component: copy });
        },
        None => {},
    }
    let n = primitive.vertex_count;
    let mut i: usize = 0;
    while i < count
        invariant
            count == primitive.indices@.len(),
            count > 0 && count % 3 == 0,
            n == primitive.vertex_count,
            n > 0,
            primitive.non_finite is None,
            mesh == primitive.mesh_index,
            prim == primitive.primitive_index,
            i <= count,
            forall|j: int| 0 <= j < i ==> primitive.indices@[j] < n,
        decreases count - i,
    {
        let index = primitive.indices[i];
        if index as usize >= n {
            proof {
                let s = primitive.indices@;
                assert(0 <= i < s.len() && s[i as int] >= n);
                let k = first_index_beyond(s, n as nat);
                assert(0 <= k < s.len() && s[k] >= n && forall|j: int| 0 <= j < k ==> s[j] < n);
                if k < i { assert(s[k] < n); }
                if k > i { assert(s[i as int] < n); }
            }
            return Err(MeshletError::IndexOutOfRange { mesh, primitive: prim, index, vertex_count: n });
        }
        i = i + 1;
    }
    Ok(())
}

/// Validates the limits and the primitive, then partitions its triangles.
pub fn build_leaf_partitions(primitive: &PrimitiveTopology, limits: MeshletLimits) -> (result: Result<Vec<MeshletPartition>, MeshletError>)
    ensures
        match result {
            Ok(parts) => {
                &&& limits_valid(limits)
                &&& primitive_problem(primitive@) is None
                &&& partition_views(parts@) == partition_from(primitive.indices@, limits, 0)
            },
            Err(e) => e@ == (if !limits_valid(limits) {
                MeshletErrorView::Limits(limits_refusal(limits))
            } else {
                primitive_problem(primitive@)->0
            }) && (limits_valid(limits) ==> primitive_problem(primitive@) is Some),
        },
{
    let limits = match limits.validate() {
        Ok(l) => l,
        Err(e) => return Err(MeshletError::Limits(e)),
    };
    match validate_primitive(primitive) {
        Ok(()) => {},
        Err(e) => return Err(e),
    }
    Ok(partition_triangles(&primitive.indices, limits))
}

/// The text of an attribute-count mismatch.
pub open spec fn attribute_count_text(mesh: u32, primitive: u32, semantic: Seq<char>, count: nat, expected: nat) -> Seq<char> {
    primitive_prefix(mesh, primitive) + semantic + " count "@ + decimal_digits(count)
        + " does not match POSITION count "@ + decimal_digits(expected)
}

/// Accepts the values of a vertex attribute when there is one per vertex
/// (`expected`, the POSITION count).
pub fn collect_attribute<T>(values: Vec<T>, expected: usize, mesh_index: u32, primitive_index: u32, semantic: &str) -> (result: Result<Vec<T>, String>)
    ensures
        values@.len() == expected ==> result == Ok::<Vec<T>, String>(values),
        values@.len() != expected ==> (result matches Err(e)
            && e@ == attribute_count_text(mesh_index, primitive_index, semantic@, values@.len(), expected as nat)),
{
    if values.len() != expected {
        let mut out = prefix_text(mesh_index, primitive_index);
        out.append(semantic);
        out.append(" count ");
        let n = decimal_text(values.len() as u64);
        out.append(n.as_str());
        out.append(" does not match POSITION count ");
        let e = decimal_text(expected as u64);
        out.append(e.as_str());
        return Err(out);
    }
    Ok(values)
}

/// The source indices that a meshlet's local indices stand for.
pub open spec fn resolved(m: PartitionView) -> Seq<u32> {
    Seq::new(m.local_indices.len(), |j: int| m.source_vertices[m.local_indices[j] as int])
}

/// The source indices of a list of meshlets, one after the other.
pub open spec fn flatten_resolved(ms: Seq<PartitionView>) -> Seq<u32>
    decreases ms.len(),
{
    if ms.len() == 0 {
        seq![]
    } else {
        resolved(ms[0]) + flatten_resolved(ms.drop_first())
    }
}

/// A meshlet that keeps the limits: at most `max_vertices` distinct
/// vertices, between one and `max_triangles` whole triangles, and every local
/// index inside its vertex list.
pub open spec fn meshlet_within(m: PartitionView, limits: MeshletLimits) -> bool {
    &&& m.source_vertices.len() <= limits.max_vertices
    &&& m.local_indices.len() % 3 == 0
    &&& 1 <= m.local_indices.len() / 3 <= limits.max_triangles
    &&& forall|j: int| 0 <= j < m.local_indices.len() ==> (#[trigger] m.local_indices[j]) < m.source_vertices.len()
    &&& forall|i: int, j: int| 0 <= i < j < m.source_vertices.len() ==> m.source_vertices[i] != m.source_vertices[j]
}

proof fn lemma_distinct_push(p: Seq<u32>, x: u32)
    ensures
        distinct_in_order(p.push(x)) == (if p.contains(x) { distinct_in_order(p) } else { distinct_in_order(p).push(x) }),
        distinct_in_order(p.push(x)).len() <= distinct_in_order(p).len() + (if distinct_in_order(p).contains(x) { 0int } else { 1int }),
        forall|y: u32| distinct_in_order(p).contains(y) ==> distinct_in_order(p.push(x)).contains(y),
{
    assert(p.push(x).drop_last() =~= p);
    lemma_distinct(p);
    assert forall|y: u32| distinct_in_order(p).contains(y) implies distinct_in_order(p.push(x)).contains(y) by {
        lemma_push_contains(distinct_in_order(p), x, y);
    }
}

proof fn lemma_meshlet_grows(indices: Seq<u32>, limits: MeshletLimits, s: int, t: int)
    requires
        limits_valid(limits),
        0 <= s < t <= triangle_total(indices),
        distinct_in_order(span(indices, s, t)).len() <= limits.max_vertices,
        t - s <= limits.max_triangles,
    ensures
        t <= meshlet_end(indices, limits, s, t) <= triangle_total(indices),
        distinct_in_order(span(indices, s, meshlet_end(indices, limits, s, t))).len() <= limits.max_vertices,
        meshlet_end(indices, limits, s, t) - s <= limits.max_triangles,
    decreases triangle_total(indices) - t,
{
    if t < triangle_total(indices) && fits(indices, limits, s, t) {
        let p = span(indices, s, t);
        let a = indices[3 * t];
        let b = indices[3 * t + 1];
        let c = indices[3 * t + 2];
        lemma_span_push(indices, s, t);
        lemma_distinct_push(p, a);
        lemma_distinct_push(p.push(a), b);
        lemma_distinct_push(p.push(a).push(b), c);
        lemma_distinct(p);
        lemma_distinct(p.push(a));
        lemma_distinct(p.push(a).push(b));
        assert(distinct_in_order(span(indices, s, t + 1)).len() <= distinct_in_order(p).len() + count_new(distinct_in_order(p), indices, t));
        lemma_meshlet_grows(indices, limits, s, t + 1);
    }
}

proof fn lemma_first_meshlet(indices: Seq<u32>, limits: MeshletLimits, s: int)
    requires
        limits_valid(limits),
        0 <= s < triangle_total(indices),
    ensures
        s + 1 <= meshlet_end(indices, limits, s, s + 1) <= triangle_total(indices),
        meshlet_within(meshlet_of(indices, s, meshlet_end(indices, limits, s, s + 1)), limits),
{
    lemma_distinct(span(indices, s, s + 1));
    lemma_meshlet_grows(indices, limits, s, s + 1);
    let e = meshlet_end(indices, limits, s, s + 1);
    let p = span(indices, s, e);
    let d = distinct_in_order(p);
    lemma_distinct(p);
    assert forall|j: int| 0 <= j < local_of(p).len() implies (#[trigger] local_of(p)[j]) < d.len() by {
        assert(p.contains(p[j]));
        lemma_position_found(d, p[j]);
    }
}

proof fn lemma_meshlet_resolves(indices: Seq<u32>, limits: MeshletLimits, s: int)
    requires
        limits_valid(limits),
        0 <= s < triangle_total(indices),
    ensures
        resolved(meshlet_of(indices, s, meshlet_end(indices, limits, s, s + 1)))
            == span(indices, s, meshlet_end(indices, limits, s, s + 1)),
{
    lemma_first_meshlet(indices, limits, s);
    let e = meshlet_end(indices, limits, s, s + 1);
    let p = span(indices, s, e);
    let d = distinct_in_order(p);
    lemma_distinct(p);
    assert forall|j: int| 0 <= j < p.len() implies #[trigger] resolved(meshlet_of(indices, s, e))[j] == p[j] by {
        assert(p.contains(p[j]));
        lemma_position_found(d, p[j]);
    }
    assert(resolved(meshlet_of(indices, s, e)) =~= p);
}

proof fn lemma_partition_from(indices: Seq<u32>, limits: MeshletLimits, s: int)
    requires
        limits_valid(limits),
        indices.len() % 3 == 0,
        0 <= s <= triangle_total(indices),
    ensures
        flatten_resolved(partition_from(indices, limits, s)) == indices.subrange(3 * s, indices.len() as int),
        forall|i: int| 0 <= i < partition_from(indices, limits, s).len()
            ==> meshlet_within(#[trigger] partition_from(indices, limits, s)[i], limits),
    decreases triangle_total(indices) - s,
{
    if s < triangle_total(indices) {
        lemma_first_meshlet(indices, limits, s);
        lemma_meshlet_resolves(indices, limits, s);
        let e = meshlet_end(indices, limits, s, s + 1);
        lemma_partition_from(indices, limits, e);
        let ms = partition_from(indices, limits, s);
        assert(ms == seq![meshlet_of(indices, s, e)] + partition_from(indices, limits, e));
        assert(ms.drop_first() =~= partition_from(indices, limits, e));
        assert(span(indices, s, e) + indices.subrange(3 * e, indices.len() as int) =~= indices.subrange(3 * s, indices.len() as int));
        assert forall|i: int| 0 <= i < ms.len() implies meshlet_within(#[trigger] ms[i], limits) by {
            if i > 0 {
                assert(ms[i] == partition_from(indices, limits, e)[i - 1]);
            }
        }
    } else {
        assert(indices.subrange(3 * s, indices.len() as int) =~= seq![]);
    }
}

/// Every triangle lands in exactly one meshlet, in source order: reading each
/// meshlet's local indices through its vertex list, one meshlet after the
/// other, gives back the source index list.
pub proof fn law_partition_reconstructs_indices(indices: Seq<u32>, limits: MeshletLimits)
    requires
        limits_valid(limits),
        indices.len() % 3 == 0,
    ensures
        flatten_resolved(partition_from(indices, limits, 0)) == indices,
{
    lemma_partition_from(indices, limits, 0);
    assert(indices.subrange(0, indices.len() as int) =~= indices);
}

/// Every meshlet of a partition keeps the limits, holds at least one
/// triangle, lists each of its vertices once and indexes only into that list.
pub proof fn law_partition_respects_limits(indices: Seq<u32>, limits: MeshletLimits)
    requires
        limits_valid(limits),
        indices.len() % 3 == 0,
    ensures
        forall|i: int| 0 <= i < partition_from(indices, limits, 0).len()
            ==> meshlet_within(#[trigger] partition_from(indices, limits, 0)[i], limits),
{
    lemma_partition_from(indices, limits, 0);
}

} // verus!
