//! Cluster groups of the coarse hierarchy and the relation indices that tie
//! parent groups to child groups.

use vstd::prelude::*;
use crate::text::owned_text;

verus! {

/// A relation index that points nowhere.
pub const NO_RELATION: u32 = 0xffff_ffff;

/// A contiguous run of clusters: `start..start + count`.
#[derive(Clone, Copy, Debug, PartialEq, Eq, Structural)]
pub struct ClusterGroup {
    pub start: usize,
    pub count: usize,
}

/// Why a hierarchy operation failed.
#[derive(Clone, Copy, Debug, PartialEq, Eq, Structural)]
pub enum HierarchyError {
    /// `start + count` does not fit in `usize`.
    GroupRangeOverflow,
    /// No groups were given to merge.
    EmptyGroupSet,
    /// A group does not start where the previous one ended.
    NotContiguous,
    /// The global cluster base does not fit in `u32`.
    BaseExceedsU32,
    /// A parent index plus the base does not fit in `u32`.
    ParentOverflow,
    /// A first-child index plus the base does not fit in `u32`.
    ChildOverflow,
    /// A parent group has more clusters than `u32` counts.
    ParentCountExceedsU32,
    /// A child group starts beyond `u32`.
    ChildStartExceedsU32,
    /// A child group has more clusters than `u32` counts.
    ChildCountExceedsU32,
    /// A parent group starts beyond `u32`.
    ParentStartExceedsU32,
}

/// The text of a hierarchy error.
pub open spec fn hierarchy_error_text(e: HierarchyError) -> Seq<char> {
    match e {
        HierarchyError::GroupRangeOverflow => "cluster group range overflow"@,
        HierarchyError::EmptyGroupSet => "cannot merge an empty cluster-group set"@,
        HierarchyError::NotContiguous => "hierarchy child groups are not contiguous"@,
        HierarchyError::BaseExceedsU32 => "global cluster base exceeds u32"@,
        HierarchyError::ParentOverflow => "global parent index overflow"@,
        HierarchyError::ChildOverflow => "global child index overflow"@,
        HierarchyError::ParentCountExceedsU32 => "parent group count exceeds u32"@,
        HierarchyError::ChildStartExceedsU32 => "child group start exceeds u32"@,
        HierarchyError::ChildCountExceedsU32 => "child group count exceeds u32"@,
        HierarchyError::ParentStartExceedsU32 => "parent group start exceeds u32"@,
    }
}

impl HierarchyError {
    /// The human-readable text of this error.
    pub fn message(&self) -> (text: String)
        ensures
            text@ == hierarchy_error_text(*self),
    {
        match self {
            HierarchyError::GroupRangeOverflow => owned_text("cluster group range overflow"),
            HierarchyError::EmptyGroupSet => owned_text("cannot merge an empty cluster-group set"),
            HierarchyError::NotContiguous => owned_text("hierarchy child groups are not contiguous"),
            HierarchyError::BaseExceedsU32 => owned_text("global cluster base exceeds u32"),
            HierarchyError::ParentOverflow => owned_text("global parent index overflow"),
            HierarchyError::ChildOverflow => owned_text("global child index overflow"),
            HierarchyError::ParentCountExceedsU32 => owned_text("parent group count exceeds u32"),
            HierarchyError::ChildStartExceedsU32 => owned_text("child group start exceeds u32"),
            HierarchyError::ChildCountExceedsU32 => owned_text("child group count exceeds u32"),
            HierarchyError::ParentStartExceedsU32 => owned_text("parent group start exceeds u32"),
        }
    }
}

/// The exclusive end of a group, when it fits in `usize`.
pub open spec fn group_end(g: ClusterGroup) -> Option<int> {
    if g.start + g.count <= usize::MAX { Some(g.start + g.count) } else { None }
}

impl ClusterGroup {
    /// The exclusive end `start + count`.
    pub fn end(self) -> (result: Result<usize, HierarchyError>)
        ensures
            match result {
                Ok(e) => group_end(self) == Some(e as int),
                Err(err) => group_end(self) is None && err == HierarchyError::GroupRangeOverflow,
            },
    {
        match self.start.checked_add(self.count) {
            Some(e) => Ok(e),
            None => Err(HierarchyError::GroupRangeOverflow),
        }
    }
}

/// The end of the run of groups from `i` on, each starting where the one
/// before ended (`end`), or the first failure.
pub open spec fn merge_scan(groups: Seq<ClusterGroup>, i: int, end: int) -> Result<int, HierarchyError>
    decreases groups.len() - i,
{
    if i >= groups.len() || i < 0 {
        Ok(end)
    } else if groups[i].start != end {
        Err(HierarchyError::NotContiguous)
    } else {
        match group_end(groups[i]) {
            None => Err(HierarchyError::GroupRangeOverflow),
            Some(e) => merge_scan(groups, i + 1, e),
        }
    }
}

/// What merging a run of groups gives.
pub open spec fn merged(groups: Seq<ClusterGroup>) -> Result<ClusterGroup, HierarchyError> {
    if groups.len() == 0 {
        Err(HierarchyError::EmptyGroupSet)
    } else {
        match group_end(groups[0]) {
            None => Err(HierarchyError::GroupRangeOverflow),
            Some(e) => match merge_scan(groups, 1, e) {
                Err(err) => Err(err),
                Ok(end) => Ok(ClusterGroup { start: groups[0].start, count: (end - groups[0].start) as usize }),
            },
        }
    }
}

/// Merges a run of groups that follow one another into the one group that
/// covers them all.
pub fn merge_contiguous_groups(groups: &[ClusterGroup]) -> (result: Result<ClusterGroup, HierarchyError>)
    ensures
        result == merged(groups@),
{
    if groups.len() == 0 {
        return Err(HierarchyError::EmptyGroupSet);
    }
    let first = groups[0];
    let mut end = match first.end() {
        Ok(e) => e,
        Err(err) => return Err(err),
    };
    let mut i: usize = 1;
    while i < groups.len()
        invariant
            1 <= i <= groups.len(),
            groups.len() > 0,
            first == groups@[0],
            first.start + first.count <= usize::MAX,
            first.start <= end,
            merge_scan(groups@, 1, first.start + first.count) == merge_scan(groups@, i as int, end as int),
        decreases groups.len() - i,
    {
        let group = groups[i];
        if group.start != end {
            return Err(HierarchyError::NotContiguous);
        }
        end = match group.end() {
            Ok(e) => e,
            Err(err) => return Err(err),
        };
        i = i + 1;
    }
    Ok(ClusterGroup { start: first.start, count: end - first.start })
}

/// The clusters of a run of groups, counted.
pub open spec fn total_count(groups: Seq<ClusterGroup>) -> int
    decreases groups.len(),
{
    if groups.len() == 0 { 0 } else { groups[0].count + total_count(groups.drop_first()) }
}

/// Each group starts where the one before it ended.
pub open spec fn contiguous(groups: Seq<ClusterGroup>) -> bool {
    forall|i: int| 1 <= i < groups.len() ==> #[trigger] groups[i].start == groups[i - 1].start + groups[i - 1].count
}

proof fn lemma_scan_contiguous(groups: Seq<ClusterGroup>, i: int, end: int)
    requires
        1 <= i <= groups.len(),
        end == groups[i - 1].start + groups[i - 1].count,
        end <= usize::MAX,
    ensures
        (merge_scan(groups, i, end) is Ok) <==> (
            (forall|k: int| i <= k < groups.len() ==> #[trigger] groups[k].start == groups[k - 1].start + groups[k - 1].count)
            && end + total_count(groups.skip(i)) <= usize::MAX),
        merge_scan(groups, i, end) matches Ok(e) ==> e == end + total_count(groups.skip(i)),
    decreases groups.len() - i,
{
    if i < groups.len() {
        let rest = groups.skip(i);
        assert(rest.drop_first() =~= groups.skip(i + 1));
        assert(rest[0] == groups[i]);
        if groups[i].start == end && group_end(groups[i]) is Some {
            lemma_scan_contiguous(groups, i + 1, groups[i].start + groups[i].count);
            assert forall|k: int| i <= k < groups.len() && (forall|m: int| i + 1 <= m < groups.len() ==> #[trigger] groups[m].start == groups[m - 1].start + groups[m - 1].count) implies #[trigger] groups[k].start == groups[k - 1].start + groups[k - 1].count by {
                if k > i {}
            }
        } else if groups[i].start == end {
            lemma_total_nonneg(groups.skip(i + 1));
        }
    } else {
        assert(groups.skip(i) =~= seq![]);
    }
}

proof fn lemma_total_nonneg(groups: Seq<ClusterGroup>)
    ensures
        total_count(groups) >= 0,
    decreases groups.len(),
{
    if groups.len() > 0 {
        lemma_total_nonneg(groups.drop_first());
    }
}

/// Merging succeeds exactly on a non-empty run of groups that follow one
/// another and whose end fits in `usize`, and the merged group starts at the
/// first group and counts all their clusters.
pub proof fn law_merge_covers_contiguous_run(groups: Seq<ClusterGroup>)
    ensures
        (merged(groups) is Ok) <==> (groups.len() > 0 && contiguous(groups) && groups[0].start + total_count(groups) <= usize::MAX),
        merged(groups) matches Ok(g) ==> g.start == groups[0].start && g.count == total_count(groups),
{
    if groups.len() > 0 {
        lemma_total_nonneg(groups.drop_first());
        assert(groups.skip(1) =~= groups.drop_first());
        if group_end(groups[0]) is Some {
            lemma_scan_contiguous(groups, 1, groups[0].start + groups[0].count);
        }
    }
}

/// The relation indices of one cluster.
#[derive(Clone, Copy, Debug, PartialEq, Eq, Structural)]
pub struct ClusterLinks {
    /// First cluster of the parent group, or `NO_RELATION`.
    pub parent: u32,
    /// Number of clusters in the parent group.
    pub parent_count: u32,
    /// First cluster of the child group, or `NO_RELATION`.
    pub first_child: u32,
    /// Number of clusters in the child group.
    pub child_count: u32,
}

/// A relation index moved by `base`, when it still fits in `u32`;
/// `NO_RELATION` stays as it is.
pub open spec fn shifted(r: u32, base: int) -> Option<u32> {
    if r == NO_RELATION {
        Some(r)
    } else if r + base <= u32::MAX {
        Some((r + base) as u32)
    } else {
        None
    }
}

/// Whether the relations of `l` can both be moved by `base`.
pub open spec fn links_shift(l: ClusterLinks, base: int) -> bool {
    shifted(l.parent, base) is Some && shifted(l.first_child, base) is Some
}

/// The relations of `l` moved by `base`.
pub open spec fn shifted_links(l: ClusterLinks, base: int) -> ClusterLinks {
    ClusterLinks { parent: shifted(l.parent, base)->0, first_child: shifted(l.first_child, base)->0, ..l }
}

/// The position of the first cluster whose relations cannot be moved by
/// `base`, or the number of clusters when all can.
pub open spec fn shift_stop(links: Seq<ClusterLinks>, base: int) -> int {
    if forall|k: int| 0 <= k < links.len() ==> links_shift(#[trigger] links[k], base) {
        links.len() as int
    } else {
        choose|k: int| 0 <= k < links.len() && !links_shift(links[k], base)
            && forall|j: int| 0 <= j < k ==> links_shift(#[trigger] links[j], base)
    }
}

/// What moving stops with at cluster `f`, which cannot be moved: the parent
/// overflows first, else the first child.
pub open spec fn stop_error(l: ClusterLinks, base: int) -> HierarchyError {
    if shifted(l.parent, base) is None { HierarchyError::ParentOverflow } else { HierarchyError::ChildOverflow }
}

/// The failing cluster as it is left: its parent moved when only its first
/// child overflowed.
pub open spec fn stopped_links(l: ClusterLinks, base: int) -> ClusterLinks {
    if shifted(l.parent, base) is None { l } else { ClusterLinks { parent: shifted(l.parent, base)->0, ..l } }
}

proof fn lemma_stop_at(links: Seq<ClusterLinks>, base: int, i: int)
    requires
        0 <= i < links.len(),
        forall|k: int| 0 <= k < i ==> links_shift(#[trigger] links[k], base),
        !links_shift(links[i], base),
    ensures
        shift_stop(links, base) == i,
        !(forall|k: int| 0 <= k < links.len() ==> links_shift(#[trigger] links[k], base)),
{
    assert(!links_shift(links[i], base));
    let f = shift_stop(links, base);
    assert(0 <= f < links.len() && !links_shift(links[f], base)
        && forall|j: int| 0 <= j < f ==> links_shift(#[trigger] links[j], base));
    if f < i {
        assert(links_shift(links[f], base));
    }
    if f > i {
        assert(links_shift(links[i], base));
    }
}

fn shift(r: u32, base: u32) -> (result: Option<u32>)
    ensures
        result == shifted(r, base as int),
{
    if r == NO_RELATION {
        Some(r)
    } else {
        r.checked_add(base)
    }
}

/// Moves the parent and first-child indices of a primitive's clusters by
/// `base`, the position of its first cluster in the file-wide array.
/// Clusters are moved in order; on an overflow the clusters before the
/// failing one are moved, and of the failing one the parent only when the
/// first child is what overflowed.
pub fn offset_relations(links: &mut Vec<ClusterLinks>, base: usize) -> (result: Result<(), HierarchyError>)
    ensures
        final(links)@.len() == old(links)@.len(),
        base > u32::MAX ==> result == Err::<(), HierarchyError>(HierarchyError::BaseExceedsU32),
        base > u32::MAX ==> final(links)@ == old(links)@,
        base <= u32::MAX ==> (result is Ok <==> shift_stop(old(links)@, base as int) == old(links)@.len()),
        base <= u32::MAX ==> forall|k: int| 0 <= k < shift_stop(old(links)@, base as int)
            ==> final(links)@[k] == shifted_links(#[trigger] old(links)@[k], base as int),
        base <= u32::MAX ==> forall|k: int| shift_stop(old(links)@, base as int) < k < old(links)@.len()
            ==> final(links)@[k] == #[trigger] old(links)@[k],
        base <= u32::MAX ==> (result matches Err(e) ==> {
            let f = shift_stop(old(links)@, base as int);
            &&& 0 <= f < old(links)@.len()
            &&& e == stop_error(old(links)@[f], base as int)
            &&& final(links)@[f] == stopped_links(old(links)@[f], base as int)
        }),
{
    if base > 0xffff_ffffusize {
        return Err(HierarchyError::BaseExceedsU32);
    }
    let b = base as u32;
    let ghost ls = links@;
    let mut i: usize = 0;
    while i < links.len()
        invariant
            ls == old(links)@,
            b as int == base as int,
            links@.len() == ls.len(),
            i <= ls.len(),
            forall|k: int| 0 <= k < i ==> links_shift(#[trigger] ls[k], b as int),
            forall|k: int| 0 <= k < i ==> links@[k] == shifted_links(#[trigger] ls[k], b as int),
            forall|k: int| i <= k < ls.len() ==> links@[k] == #[trigger] ls[k],
        decreases ls.len() - i,
    {
        let current = links[i];
        let parent = match shift(current.parent, b) {
            Some(p) => p,
            None => {
                proof { lemma_stop_at(ls, b as int, i as int); }
                return Err(HierarchyError::ParentOverflow);
            },
        };
        links.set(i, ClusterLinks { parent, ..current });
        let first_child = match shift(current.first_child, b) {
            Some(c) => c,
            None => {
                proof { lemma_stop_at(ls, b as int, i as int); }
                return Err(HierarchyError::ChildOverflow);
            },
        };
        links.set(i, ClusterLinks { parent, first_child, ..current });
        i = i + 1;
    }
    Ok(())
}

/// What must agree among the clusters of one hierarchy: mesh, primitive,
/// material, and the flags other than the coarse-root flag.
#[derive(Clone, Copy, Debug, PartialEq, Eq, Structural)]
pub struct ClusterIdentity {
    pub mesh_index: u32,
    pub primitive_index: u32,
    pub material_index: Option<u32>,
    /// The cluster's flags with the coarse-root flag cleared.
    pub flags_without_root: u32,
}

/// The text of a mixed hierarchy.
pub open spec fn mixed_hierarchy_text() -> Seq<char> {
    "a hierarchy may not cross mesh, primitive, material, or flag boundaries"@
}

/// Checks that all clusters of a hierarchy come from one primitive with one
/// material and the same flags.
pub fn validate_same_primitive(clusters: &[ClusterIdentity]) -> (result: Result<(), String>)
    requires
        clusters@.len() > 0,
    ensures
        result is Ok <==> forall|k: int| 0 <= k < clusters@.len() ==> #[trigger] clusters@[k] == clusters@[0],
        result matches Err(e) ==> e@ == mixed_hierarchy_text(),
{
    let first = clusters[0];
    let mut i: usize = 0;
    while i < clusters.len()
        invariant
            first == clusters@[0],
            i <= clusters@.len(),
            forall|k: int| 0 <= k < i ==> #[trigger] clusters@[k] == first,
        decreases clusters.len() - i,
    {
        let c = clusters[i];
        let same_material = match (c.material_index, first.material_index) {
            (Some(a), Some(b)) => a == b,
            (None, None) => true,
            _ => false,
        };
        if c.mesh_index != first.mesh_index || c.primitive_index != first.primitive_index || !same_material
            || c.flags_without_root != first.flags_without_root {
            return Err(owned_text("a hierarchy may not cross mesh, primitive, material, or flag boundaries"));
        }
        i = i + 1;
    }
    Ok(())
}

} // verus!
