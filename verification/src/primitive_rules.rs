//! Rules on source primitives: which primitives the meshlet path cannot
//! take and leaves to compatibility rendering, and which triangles of a
//! scene primitive are kept when some vertex positions are unusable.

use vstd::prelude::*;

verus! {

/// How a primitive's vertices form primitives.
#[derive(Clone, Copy, Debug, PartialEq, Eq, Structural)]
pub enum Topology {
    Points,
    Lines,
    LineLoop,
    LineStrip,
    Triangles,
    TriangleStrip,
    TriangleFan,
}

/// How a material blends.
#[derive(Clone, Copy, Debug, PartialEq, Eq, Structural)]
pub enum AlphaMode {
    Opaque,
    Mask,
    Blend,
}

/// Why a primitive goes to compatibility rendering.
#[derive(Clone, Copy, Debug, PartialEq, Eq, Structural)]
pub enum CompatibilityReason {
    NonTriangleTopology,
    Skinned,
    MorphTargets,
    AlphaBlend,
}

/// What the rule reads of a source primitive.
#[derive(Clone, Copy, Debug, PartialEq, Eq, Structural)]
pub struct PrimitiveTraits {
    pub topology: Topology,
    /// Some node with a skin uses the primitive's mesh.
    pub skinned: bool,
    pub has_morph_targets: bool,
    pub alpha_mode: AlphaMode,
    pub material_index: Option<u32>,
}

/// The code of a topology: its glTF primitive mode.
pub open spec fn topology_code(t: Topology) -> u32 {
    match t {
        Topology::Points => 0,
        Topology::Lines => 1,
        Topology::LineLoop => 2,
        Topology::LineStrip => 3,
        Topology::Triangles => 4,
        Topology::TriangleStrip => 5,
        Topology::TriangleFan => 6,
    }
}

/// The glTF primitive mode of a topology.
pub fn mode_code(t: Topology) -> (code: u32)
    ensures
        code == topology_code(t),
{
    match t {
        Topology::Points => 0,
        Topology::Lines => 1,
        Topology::LineLoop => 2,
        Topology::LineStrip => 3,
        Topology::Triangles => 4,
        Topology::TriangleStrip => 5,
        Topology::TriangleFan => 6,
    }
}

/// Whether and why a primitive goes to compatibility rendering, with the
/// detail recorded for it, checked in this order: a topology other than a
/// triangle list (detail: its mode), a skinned mesh, morph targets, alpha
/// blending (detail: the material, or `u32::MAX` for none).
pub open spec fn compatibility_of(p: PrimitiveTraits) -> Option<(CompatibilityReason, u32)> {
    if p.topology != Topology::Triangles {
        Some((CompatibilityReason::NonTriangleTopology, topology_code(p.topology)))
    } else if p.skinned {
        Some((CompatibilityReason::Skinned, 0))
    } else if p.has_morph_targets {
        Some((CompatibilityReason::MorphTargets, 0))
    } else if p.alpha_mode == AlphaMode::Blend {
        Some((CompatibilityReason::AlphaBlend, match p.material_index { Some(m) => m, None => u32::MAX }))
    } else {
        None
    }
}

/// Sorts a primitive: `None` when the meshlet path takes it, else the
/// compatibility reason and its detail.
pub fn classify_primitive(p: &PrimitiveTraits) -> (r: Option<(CompatibilityReason, u32)>)
    ensures
        r == compatibility_of(*p),
{
    if p.topology != Topology::Triangles {
        Some((CompatibilityReason::NonTriangleTopology, mode_code(p.topology)))
    } else if p.skinned {
        Some((CompatibilityReason::Skinned, 0))
    } else if p.has_morph_targets {
        Some((CompatibilityReason::MorphTargets, 0))
    } else if p.alpha_mode == AlphaMode::Blend {
        Some((CompatibilityReason::AlphaBlend, match p.material_index { Some(m) => m, None => u32::MAX }))
    } else {
        None
    }
}

/// Whether a vertex index names a vertex whose position is usable.
pub open spec fn usable(invalid: Seq<bool>, i: u32) -> bool {
    i < invalid.len() && !invalid[i as int]
}

/// Whether triangle `t` (indices `3t..3t + 3`) has three usable vertices.
pub open spec fn triangle_usable(invalid: Seq<bool>, indices: Seq<u32>, t: int) -> bool {
    &&& usable(invalid, indices[3 * t])
    &&& usable(invalid, indices[3 * t + 1])
    &&& usable(invalid, indices[3 * t + 2])
}

/// The indices of the usable triangles among the first `n`, in order.
pub open spec fn kept_indices(invalid: Seq<bool>, indices: Seq<u32>, n: int) -> Seq<u32>
    decreases n,
{
    if n <= 0 {
        seq![]
    } else {
        let rest = kept_indices(invalid, indices, n - 1);
        let t = n - 1;
        if triangle_usable(invalid, indices, t) {
            rest + seq![indices[3 * t], indices[3 * t + 1], indices[3 * t + 2]]
        } else {
            rest
        }
    }
}

/// How many of the first `n` triangles are dropped.
pub open spec fn dropped_count(invalid: Seq<bool>, indices: Seq<u32>, n: int) -> nat
    decreases n,
{
    if n <= 0 {
        0
    } else {
        dropped_count(invalid, indices, n - 1) + if triangle_usable(invalid, indices, n - 1) { 0nat } else { 1nat }
    }
}

proof fn lemma_dropped_at_most(invalid: Seq<bool>, indices: Seq<u32>, n: int)
    requires
        0 <= n,
    ensures
        dropped_count(invalid, indices, n) <= n,
    decreases n,
{
    if n > 0 {
        lemma_dropped_at_most(invalid, indices, n - 1);
    }
}

/// The triangles kept of a scene primitive and how many were dropped.
#[derive(Debug)]
pub struct KeptTriangles {
    pub indices: Vec<u32>,
    pub dropped_triangles: u64,
}

/// Keeps the whole triangles (the index list read in threes; a trailing
/// partial triangle is ignored) whose three vertices exist and have usable
/// positions, in order, and counts the others. A primitive left with no
/// triangle is dropped by the caller.
pub fn keep_usable_triangles(invalid_positions: &Vec<bool>, indices: &Vec<u32>) -> (r: KeptTriangles)
    ensures
        r.indices@ == kept_indices(invalid_positions@, indices@, (indices@.len() / 3) as int),
        r.dropped_triangles == dropped_count(invalid_positions@, indices@, (indices@.len() / 3) as int),
{
    let n = indices.len() / 3;
    let mut kept: Vec<u32> = Vec::new();
    let mut dropped: u64 = 0;
    let mut t: usize = 0;
    while t < n
        invariant
            n == indices@.len() / 3,
            t <= n,
            kept@ == kept_indices(invalid_positions@, indices@, t as int),
            dropped == dropped_count(invalid_positions@, indices@, t as int),
        decreases n - t,
    {
        proof {
            lemma_dropped_at_most(invalid_positions@, indices@, t as int);
        }
        let len = indices.len();
        assert(3 * t + 2 < len) by (nonlinear_arith)
            requires
                t < n,
                n == len / 3,
        ;
        let i: usize = 3 * t;
        let a = indices[i];
        let b = indices[i + 1];
        let c = indices[i + 2];
        let ok = (a as usize) < invalid_positions.len() && !invalid_positions[a as usize]
            && (b as usize) < invalid_positions.len() && !invalid_positions[b as usize]
            && (c as usize) < invalid_positions.len() && !invalid_positions[c as usize];
        if ok {
            let ghost before = kept@;
            kept.push(a);
            kept.push(b);
            kept.push(c);
            assert(kept@ =~= before + seq![a, b, c]);
        } else {
            dropped = dropped + 1;
        }
        t = t + 1;
    }
    KeptTriangles { indices: kept, dropped_triangles: dropped }
}

} // verus!
