//! The canonical asset index of a loose store: which manifests it lists, in
//! which order, and the byte totals it reports.

use vstd::prelude::*;
use vstd::relations::{sorted_by, total_ordering};
use crate::profile::{
    is_profile_component, profile_error_text, validate_profile_component, AssetProfile, ProfileError,
    ProfileErrorView, ProfileField, ProfileId,
};
use crate::store::{is_logical_id, store_error_text, validate_logical_id, StoreError, StoreErrorView};
use crate::text::{
    concat3, lemma_text_le_antisymmetric, lemma_text_le_reflexive, lemma_text_le_total, lemma_text_le_transitive,
    owned_text, push_char, text_chars, text_eq, text_le, text_le_exec,
};

verus! {

/// One manifest of the store: a logical ID, and its profile when it is a
/// profiled variant.
#[derive(Debug)]
pub struct ManifestDescriptor {
    pub logical_id: String,
    pub profile: Option<AssetProfile>,
}

/// A manifest descriptor as plain values.
pub struct DescriptorView {
    pub logical_id: Seq<char>,
    pub profile: Option<ProfileId>,
}

impl View for ManifestDescriptor {
    type V = DescriptorView;

    open spec fn view(&self) -> DescriptorView {
        DescriptorView {
            logical_id: self.logical_id@,
            profile: match self.profile {
                Some(p) => Some(p@),
                None => None,
            },
        }
    }
}

/// The values of a list of descriptors.
pub open spec fn descriptor_views(ds: Seq<ManifestDescriptor>) -> Seq<DescriptorView> {
    ds.map_values(|d: ManifestDescriptor| d@)
}

impl ManifestDescriptor {
    /// The descriptor of an unprofiled manifest.
    pub fn legacy(logical_id: String) -> (d: ManifestDescriptor)
        ensures
            d@ == (DescriptorView { logical_id: logical_id@, profile: None }),
    {
        ManifestDescriptor { logical_id, profile: None }
    }

    /// A copy of this descriptor.
    pub fn duplicate(&self) -> (copy: ManifestDescriptor)
        ensures
            copy@ == self@,
    {
        let profile = match &self.profile {
            Some(p) => Some(p.duplicate()),
            None => None,
        };
        ManifestDescriptor { logical_id: owned_text(self.logical_id.as_str()), profile }
    }
}

/// The order of optional profiles: no profile first, then by platform and
/// quality.
pub open spec fn profile_le(a: Option<ProfileId>, b: Option<ProfileId>) -> bool {
    match a {
        None => true,
        Some(x) => match b {
            None => false,
            Some(y) => if x.platform != y.platform { text_le(x.platform, y.platform) } else { text_le(x.quality, y.quality) },
        },
    }
}

/// The order of descriptors: by logical ID, then by profile.
pub open spec fn descriptor_le(a: DescriptorView, b: DescriptorView) -> bool {
    if a.logical_id != b.logical_id { text_le(a.logical_id, b.logical_id) } else { profile_le(a.profile, b.profile) }
}

/// `descriptor_le` as a relation.
pub open spec fn descriptor_order() -> spec_fn(DescriptorView, DescriptorView) -> bool {
    |a: DescriptorView, b: DescriptorView| descriptor_le(a, b)
}

proof fn lemma_text_le_strict(a: Seq<char>, b: Seq<char>)
    requires
        a != b,
    ensures
        text_le(a, b) != text_le(b, a),
{
    lemma_text_le_total(a, b);
    if text_le(a, b) && text_le(b, a) {
        lemma_text_le_antisymmetric(a, b);
    }
}

proof fn lemma_profile_le_total(a: Option<ProfileId>, b: Option<ProfileId>)
    ensures
        profile_le(a, b) || profile_le(b, a),
        profile_le(a, a),
        profile_le(a, b) && profile_le(b, a) ==> a == b,
{
    if let Some(x) = a {
        lemma_text_le_reflexive(x.quality);
        if let Some(y) = b {
            if x.platform != y.platform {
                lemma_text_le_strict(x.platform, y.platform);
            } else if x.quality != y.quality {
                lemma_text_le_strict(x.quality, y.quality);
            } else {
                lemma_text_le_reflexive(x.quality);
            }
        }
    }
}

proof fn lemma_profile_le_transitive(a: Option<ProfileId>, b: Option<ProfileId>, c: Option<ProfileId>)
    requires
        profile_le(a, b),
        profile_le(b, c),
    ensures
        profile_le(a, c),
{
    if let (Some(x), Some(y), Some(z)) = (a, b, c) {
        if x.platform != y.platform && y.platform != z.platform {
            lemma_text_le_transitive(x.platform, y.platform, z.platform);
            if x.platform == z.platform {
                lemma_text_le_antisymmetric(x.platform, y.platform);
            }
        } else if x.platform == y.platform && y.platform == z.platform {
            lemma_text_le_transitive(x.quality, y.quality, z.quality);
        }
    }
}

proof fn lemma_descriptor_le_total(x: DescriptorView, y: DescriptorView)
    ensures
        descriptor_le(x, y) || descriptor_le(y, x),
{
    if x.logical_id != y.logical_id {
        lemma_text_le_strict(x.logical_id, y.logical_id);
    } else {
        lemma_profile_le_total(x.profile, y.profile);
    }
}

/// `descriptor_le` is a total order.
pub proof fn lemma_descriptor_order_total()
    ensures
        total_ordering(descriptor_order()),
{
    assert forall|x: DescriptorView| #[trigger] descriptor_order()(x, x) by {
        lemma_profile_le_total(x.profile, x.profile);
    }
    assert forall|x: DescriptorView, y: DescriptorView| #[trigger] descriptor_order()(x, y) && #[trigger] descriptor_order()(y, x) implies x == y by {
        if x.logical_id != y.logical_id {
            lemma_text_le_strict(x.logical_id, y.logical_id);
        } else {
            lemma_profile_le_total(x.profile, y.profile);
        }
    }
    assert forall|x: DescriptorView, y: DescriptorView, z: DescriptorView| #[trigger] descriptor_order()(x, y) && #[trigger] descriptor_order()(y, z) implies descriptor_order()(x, z) by {
        if x.logical_id != y.logical_id && y.logical_id != z.logical_id {
            lemma_text_le_transitive(x.logical_id, y.logical_id, z.logical_id);
            if x.logical_id == z.logical_id {
                lemma_text_le_antisymmetric(x.logical_id, y.logical_id);
            }
        } else if x.logical_id == y.logical_id && y.logical_id == z.logical_id {
            lemma_profile_le_transitive(x.profile, y.profile, z.profile);
        }
    }
    assert forall|x: DescriptorView, y: DescriptorView| #[trigger] descriptor_order()(x, y) || #[trigger] descriptor_order()(y, x) by {
        if x.logical_id != y.logical_id {
            lemma_text_le_strict(x.logical_id, y.logical_id);
        } else {
            lemma_profile_le_total(x.profile, y.profile);
        }
    }
}

fn profile_le_exec(a: &Option<AssetProfile>, b: &Option<AssetProfile>) -> (le: bool)
    ensures
        le == profile_le(
            match a { Some(p) => Some(p@), None => None },
            match b { Some(p) => Some(p@), None => None },
        ),
{
    match a {
        None => true,
        Some(x) => match b {
            None => false,
            Some(y) => if !text_eq(x.platform(), y.platform()) {
                text_le_exec(x.platform(), y.platform())
            } else {
                text_le_exec(x.quality(), y.quality())
            },
        },
    }
}

/// Whether `a` sorts before or equal to `b`.
pub fn descriptor_le_exec(a: &ManifestDescriptor, b: &ManifestDescriptor) -> (le: bool)
    ensures
        le == descriptor_le(a@, b@),
{
    if !text_eq(a.logical_id.as_str(), b.logical_id.as_str()) {
        text_le_exec(a.logical_id.as_str(), b.logical_id.as_str())
    } else {
        profile_le_exec(&a.profile, &b.profile)
    }
}

/// Whether two descriptors name the same manifest.
pub fn same_descriptor(a: &ManifestDescriptor, b: &ManifestDescriptor) -> (same: bool)
    ensures
        same == (a@ == b@),
{
    let ids = text_eq(a.logical_id.as_str(), b.logical_id.as_str());
    let profiles = match &a.profile {
        None => b.profile.is_none(),
        Some(x) => match &b.profile {
            None => false,
            Some(y) => x.same_as(y),
        },
    };
    ids && profiles
}

/// The descriptors in `descriptor_le` order.
pub fn sort_descriptors(items: Vec<ManifestDescriptor>) -> (sorted: Vec<ManifestDescriptor>)
    ensures
        descriptor_views(sorted@) == descriptor_views(items@).sort_by(descriptor_order()),
{
    let mut out: Vec<ManifestDescriptor> = Vec::new();
    let mut i: usize = 0;
    assert(descriptor_views(out@) =~= seq![]);
    assert(descriptor_views(items@).take(0) =~= seq![]);
    while i < items.len()
        invariant
            i <= items.len(),
            sorted_by(descriptor_views(out@), descriptor_order()),
            descriptor_views(out@).to_multiset() == descriptor_views(items@).take(i as int).to_multiset(),
        decreases items.len() - i,
    {
        let item = items[i].duplicate();
        let mut k: usize = 0;
        while k < out.len() && descriptor_le_exec(&out[k], &item)
            invariant
                k <= out.len(),
                i < items.len(),
                item@ == items@[i as int]@,
                forall|m: int| 0 <= m < k ==> descriptor_le(#[trigger] descriptor_views(out@)[m], item@),
            decreases out.len() - k,
        {
            k = k + 1;
        }
        let ghost before = descriptor_views(out@);
        let ghost x = item@;
        proof {
            lemma_descriptor_order_total();
            if k < out.len() {
                assert(!descriptor_le(before[k as int], x));
                lemma_descriptor_le_total(before[k as int], x);
            }
        }
        out.insert(k, item);
        proof {
            lemma_descriptor_order_total();
            let after = descriptor_views(out@);
            assert(after =~= before.insert(k as int, x));
            vstd::seq_lib::to_multiset_insert(before, k as int, x);
            assert(descriptor_views(items@).take(i as int + 1) =~= descriptor_views(items@).take(i as int).push(x));
            vstd::seq_lib::to_multiset_build(descriptor_views(items@).take(i as int), x);
            assert forall|p: int, q: int| 0 <= p < q < after.len() implies #[trigger] descriptor_order()(after[p], after[q]) by {
                if q < k {
                    assert(descriptor_order()(before[p], before[q]));
                } else if q == k {
                    assert(descriptor_le(before[p], x));
                } else if p == k {
                    assert(descriptor_le(x, before[k as int]));
                    if k < q - 1 {
                        assert(descriptor_order()(before[k as int], before[q - 1]));
                        assert(descriptor_order()(x, before[k as int]));
                        assert(descriptor_order()(x, before[q - 1]));
                    }
                    assert(after[p] == x);
                    assert(after[q] == before[q - 1]);
                } else if p < k {
                    assert(descriptor_order()(before[p], before[q - 1]));
                } else {
                    assert(descriptor_order()(before[p - 1], before[q - 1]));
                }
            }
        }
        i = i + 1;
    }
    proof {
        assert(descriptor_views(items@).take(items.len() as int) =~= descriptor_views(items@));
        lemma_descriptor_order_total();
        descriptor_views(items@).lemma_sort_by_ensures(descriptor_order());
        vstd::seq_lib::lemma_sorted_unique(descriptor_views(out@), descriptor_views(items@).sort_by(descriptor_order()), descriptor_order());
    }
    out
}

/// Whether no descriptor occurs twice.
pub open spec fn all_distinct(ds: Seq<DescriptorView>) -> bool {
    forall|i: int, j: int| 0 <= i < j < ds.len() ==> ds[i] != ds[j]
}

proof fn lemma_sorted_adjacent(s: Seq<DescriptorView>, i: int, j: int)
    requires
        sorted_by(s, descriptor_order()),
        0 <= i < j < s.len(),
        s[i] == s[j],
    ensures
        s[i] == s[i + 1],
{
    lemma_descriptor_order_total();
    if i + 1 < j {
        assert(descriptor_order()(s[i], s[i + 1]));
        assert(descriptor_order()(s[i + 1], s[j]));
    }
}

/// Why the asset index could not be built.
#[derive(Debug)]
pub enum IndexError {
    /// Two manifests share a logical ID and profile.
    DuplicateEntries,
    /// A variant directory name is not a canonical profile component.
    Profile(ProfileError),
    /// A manifest path does not lie under its root.
    PathEscapes { path: String },
    /// A manifest path does not end in `.json`.
    MissingJsonSuffix { path: String },
    /// A manifest path does not name a canonical logical ID.
    LogicalId(StoreError),
    /// The referenced bytes do not fit in `u64`.
    ReferencedOverflow,
    /// One chunk is listed with two byte lengths.
    InconsistentChunk { sha256: String },
}

/// An index error as plain values.
pub enum IndexErrorView {
    DuplicateEntries,
    Profile(ProfileErrorView),
    PathEscapes { path: Seq<char> },
    MissingJsonSuffix { path: Seq<char> },
    LogicalId(StoreErrorView),
    ReferencedOverflow,
    InconsistentChunk { sha256: Seq<char> },
}

impl View for IndexError {
    type V = IndexErrorView;

    open spec fn view(&self) -> IndexErrorView {
        match self {
            IndexError::DuplicateEntries => IndexErrorView::DuplicateEntries,
            IndexError::Profile(e) => IndexErrorView::Profile(e@),
            IndexError::PathEscapes { path } => IndexErrorView::PathEscapes { path: path@ },
            IndexError::MissingJsonSuffix { path } => IndexErrorView::MissingJsonSuffix { path: path@ },
            IndexError::LogicalId(e) => IndexErrorView::LogicalId(e@),
            IndexError::ReferencedOverflow => IndexErrorView::ReferencedOverflow,
            IndexError::InconsistentChunk { sha256 } => IndexErrorView::InconsistentChunk { sha256: sha256@ },
        }
    }
}

/// The text of an index error.
pub open spec fn index_error_text(e: IndexErrorView) -> Seq<char> {
    match e {
        IndexErrorView::DuplicateEntries => "asset store contains duplicate logical ID/profile entries"@,
        IndexErrorView::Profile(p) => profile_error_text(p),
        IndexErrorView::PathEscapes { path } => "manifest path "@ + path + " escapes its root"@,
        IndexErrorView::MissingJsonSuffix { path } => "manifest path "@ + path + " lacks .json suffix"@,
        IndexErrorView::LogicalId(s) => store_error_text(s),
        IndexErrorView::ReferencedOverflow => "asset index referenced-byte total overflow"@,
        IndexErrorView::InconsistentChunk { sha256 } => "chunk "@ + sha256 + " has inconsistent byte lengths across manifests"@,
    }
}

impl IndexError {
    /// The human-readable text of this error.
    pub fn message(&self) -> (text: String)
        ensures
            text@ == index_error_text(self@),
    {
        match self {
            IndexError::DuplicateEntries => owned_text("asset store contains duplicate logical ID/profile entries"),
            IndexError::Profile(e) => e.message(),
            IndexError::PathEscapes { path } => concat3("manifest path ", path.as_str(), " escapes its root"),
            IndexError::MissingJsonSuffix { path } => concat3("manifest path ", path.as_str(), " lacks .json suffix"),
            IndexError::LogicalId(e) => e.message(),
            IndexError::ReferencedOverflow => owned_text("asset index referenced-byte total overflow"),
            IndexError::InconsistentChunk { sha256 } =>
                concat3("chunk ", sha256.as_str(), " has inconsistent byte lengths across manifests"),
        }
    }
}

/// The store's manifests in index order, refusing a logical ID/profile pair
/// that occurs twice.
pub fn order_descriptors(descriptors: Vec<ManifestDescriptor>) -> (result: Result<Vec<ManifestDescriptor>, IndexError>)
    ensures
        match result {
            Ok(sorted) => descriptor_views(sorted@) == descriptor_views(descriptors@).sort_by(descriptor_order())
                && all_distinct(descriptor_views(sorted@)),
            Err(_) => !all_distinct(descriptor_views(descriptors@).sort_by(descriptor_order())),
        },
{
    let sorted = sort_descriptors(descriptors);
    let ghost s = descriptor_views(sorted@);
    proof {
        lemma_descriptor_order_total();
        descriptor_views(descriptors@).lemma_sort_by_ensures(descriptor_order());
    }
    let mut i: usize = 0;
    while i < sorted.len() && i + 1 < sorted.len()
        invariant
            s == descriptor_views(sorted@),
            s == descriptor_views(descriptors@).sort_by(descriptor_order()),
            sorted_by(s, descriptor_order()),
            i <= sorted.len(),
            forall|k: int| 0 <= k < i && k + 1 < s.len() ==> #[trigger] s[k] != s[k + 1],
        decreases sorted.len() - i,
    {
        if same_descriptor(&sorted[i], &sorted[i + 1]) {
            assert(s[i as int] == s[i + 1]);
            return Err(IndexError::DuplicateEntries);
        }
        i = i + 1;
    }
    proof {
        assert forall|a: int, b: int| 0 <= a < b < s.len() implies s[a] != s[b] by {
            if s[a] == s[b] {
                lemma_sorted_adjacent(s, a, b);
            }
        }
    }
    Ok(sorted)
}

/// A quality directory of the variant tree and the logical IDs of the
/// manifests under it, in directory order.
#[derive(Debug)]
pub struct QualityDirectory {
    pub name: String,
    pub logical_ids: Vec<String>,
}

/// A platform directory of the variant tree and its quality directories,
/// in directory order.
#[derive(Debug)]
pub struct PlatformDirectory {
    pub name: String,
    pub qualities: Vec<QualityDirectory>,
}

/// A quality directory as plain values.
pub struct QualityView {
    pub name: Seq<char>,
    pub logical_ids: Seq<Seq<char>>,
}

/// A platform directory as plain values.
pub struct PlatformView {
    pub name: Seq<char>,
    pub qualities: Seq<QualityView>,
}

impl View for QualityDirectory {
    type V = QualityView;

    open spec fn view(&self) -> QualityView {
        QualityView { name: self.name@, logical_ids: self.logical_ids@.map_values(|s: String| s@) }
    }
}

impl View for PlatformDirectory {
    type V = PlatformView;

    open spec fn view(&self) -> PlatformView {
        PlatformView { name: self.name@, qualities: self.qualities@.map_values(|q: QualityDirectory| q@) }
    }
}

/// The values of a variant tree.
pub open spec fn platform_views(tree: Seq<PlatformDirectory>) -> Seq<PlatformView> {
    tree.map_values(|p: PlatformDirectory| p@)
}

/// The descriptors of the logical IDs under one profile.
pub open spec fn profiled_ids(ids: Seq<Seq<char>>, profile: ProfileId) -> Seq<DescriptorView> {
    ids.map_values(|id: Seq<char>| DescriptorView { logical_id: id, profile: Some(profile) })
}

/// The descriptors of the quality directories from `j` on, and the error
/// the walk stops at, if any.
pub open spec fn quality_scan(platform: Seq<char>, qs: Seq<QualityView>, j: int) -> (Seq<DescriptorView>, Option<ProfileErrorView>)
    decreases qs.len() - j,
{
    if j >= qs.len() || j < 0 {
        (seq![], None)
    } else if !is_profile_component(qs[j].name) {
        (seq![], Some(ProfileErrorView::InvalidComponent { field: ProfileField::Quality, value: qs[j].name }))
    } else {
        let rest = quality_scan(platform, qs, j + 1);
        (profiled_ids(qs[j].logical_ids, ProfileId { platform, quality: qs[j].name }) + rest.0, rest.1)
    }
}

/// The descriptors of the platform directories from `i` on, and the error
/// the walk stops at, if any.
pub open spec fn platform_scan(ps: Seq<PlatformView>, i: int) -> (Seq<DescriptorView>, Option<ProfileErrorView>)
    decreases ps.len() - i,
{
    if i >= ps.len() || i < 0 {
        (seq![], None)
    } else if !is_profile_component(ps[i].name) {
        (seq![], Some(ProfileErrorView::InvalidComponent { field: ProfileField::Platform, value: ps[i].name }))
    } else {
        let here = quality_scan(ps[i].name, ps[i].qualities, 0);
        if here.1 is Some {
            here
        } else {
            let rest = platform_scan(ps, i + 1);
            (here.0 + rest.0, rest.1)
        }
    }
}

/// Appends the descriptors of the profiled variant tree
/// `variants/PLATFORM/QUALITY/...` in directory order, checking each
/// directory name as a profile component before what lies under it.
pub fn collect_profiled_manifests(tree: &Vec<PlatformDirectory>, descriptors: &mut Vec<ManifestDescriptor>) -> (result: Result<(), IndexError>)
    ensures
        descriptor_views(final(descriptors)@) == descriptor_views(old(descriptors)@) + platform_scan(platform_views(tree@), 0).0,
        match platform_scan(platform_views(tree@), 0).1 {
            None => result is Ok,
            Some(e) => result matches Err(IndexError::Profile(pe)) && pe@ == e,
        },
{
    let ghost ps = platform_views(tree@);
    let ghost start = descriptor_views(descriptors@);
    let ghost mut acc: Seq<DescriptorView> = seq![];
    let mut i: usize = 0;
    while i < tree.len()
        invariant
            ps == platform_views(tree@),
            start == descriptor_views(old(descriptors)@),
            i <= tree.len(),
            descriptor_views(descriptors@) == start + acc,
            platform_scan(ps, 0) == (acc + platform_scan(ps, i as int).0, platform_scan(ps, i as int).1),
        decreases tree.len() - i,
    {
        let platform = &tree[i];
        assert(ps[i as int] == platform@);
        match validate_profile_component(platform.name.as_str(), ProfileField::Platform) {
            Ok(()) => {},
            Err(e) => {
                assert(acc + seq![] =~= acc);
                return Err(IndexError::Profile(e));
            },
        }
        let ghost qs = platform@.qualities;
        let ghost mut acc_q: Seq<DescriptorView> = seq![];
        let ghost base = descriptor_views(descriptors@);
        let mut j: usize = 0;
        assert(acc_q + quality_scan(platform@.name, qs, 0).0 =~= quality_scan(platform@.name, qs, 0).0);
        while j < platform.qualities.len()
            invariant
                ps == platform_views(tree@),
                start == descriptor_views(old(descriptors)@),
                i < tree.len(),
                ps[i as int] == platform@,
                base == start + acc,
                platform_scan(ps, 0) == (acc + platform_scan(ps, i as int).0, platform_scan(ps, i as int).1),
                qs == platform@.qualities,
                qs.len() == platform.qualities@.len(),
                is_profile_component(platform@.name),
                j <= platform.qualities.len(),
                descriptor_views(descriptors@) == base + acc_q,
                quality_scan(platform@.name, qs, 0) == (acc_q + quality_scan(platform@.name, qs, j as int).0, quality_scan(platform@.name, qs, j as int).1),
            decreases platform.qualities.len() - j,
        {
            let quality = &platform.qualities[j];
            assert(qs[j as int] == quality@);
            let profile = match AssetProfile::new(platform.name.as_str(), quality.name.as_str()) {
                Ok(p) => p,
                Err(e) => {
                    assert(acc_q + seq![] =~= acc_q);
                    return Err(IndexError::Profile(e));
                },
            };
            let ghost ids = quality@.logical_ids;
            let ghost here = descriptor_views(descriptors@);
            let mut k: usize = 0;
            while k < quality.logical_ids.len()
                invariant
                    ids == quality@.logical_ids,
                    ids.len() == quality.logical_ids@.len(),
                    k <= quality.logical_ids.len(),
                    profile@ == (ProfileId { platform: platform@.name, quality: quality@.name }),
                    descriptor_views(descriptors@) == here + profiled_ids(ids.take(k as int), profile@),
                decreases quality.logical_ids.len() - k,
            {
                let d = ManifestDescriptor { logical_id: owned_text(quality.logical_ids[k].as_str()), profile: Some(profile.duplicate()) };
                let ghost before = descriptor_views(descriptors@);
                descriptors.push(d);
                proof {
                    assert(ids.take(k + 1) =~= ids.take(k as int).push(ids[k as int]));
                    assert(descriptor_views(descriptors@) =~= before.push(d@));
                    assert(profiled_ids(ids.take(k + 1), profile@) =~= profiled_ids(ids.take(k as int), profile@).push(d@));
                }
                k = k + 1;
            }
            proof {
                assert(ids.take(ids.len() as int) =~= ids);
                let pid = ProfileId { platform: platform@.name, quality: quality@.name };
                assert(acc_q + quality_scan(platform@.name, qs, j as int).0 =~= (acc_q + profiled_ids(ids, pid)) + quality_scan(platform@.name, qs, j + 1).0);
                acc_q = acc_q + profiled_ids(ids, pid);
            }
            j = j + 1;
        }
        proof {
            let here = quality_scan(platform@.name, qs, 0);
            assert(quality_scan(platform@.name, qs, j as int) == (Seq::<DescriptorView>::empty(), None::<ProfileErrorView>));
            assert(acc_q + Seq::<DescriptorView>::empty() =~= acc_q);
            assert(acc + platform_scan(ps, i as int).0 =~= (acc + acc_q) + platform_scan(ps, i + 1).0);
            acc = acc + acc_q;
        }
        i = i + 1;
    }
    proof {
        assert(acc + Seq::<DescriptorView>::empty() =~= acc);
    }
    Ok(())
}

/// The chunk a manifest entry references: its SHA-256 text and length.
#[derive(Debug)]
pub struct IndexedArtifact {
    pub sha256: String,
    pub bytes: u64,
}

/// An indexed chunk as plain values.
pub struct ArtifactView {
    pub sha256: Seq<char>,
    pub bytes: u64,
}

impl View for IndexedArtifact {
    type V = ArtifactView;

    open spec fn view(&self) -> ArtifactView {
        ArtifactView { sha256: self.sha256@, bytes: self.bytes }
    }
}

/// The values of a list of indexed chunks.
pub open spec fn artifact_views(arts: Seq<IndexedArtifact>) -> Seq<ArtifactView> {
    arts.map_values(|a: IndexedArtifact| a@)
}

/// The byte totals of an index.
#[derive(Clone, Copy, Debug, PartialEq, Eq, Structural)]
pub struct IndexTotals {
    /// Bytes over all entries, a shared chunk counted once per entry.
    pub referenced_bytes: u64,
    /// Distinct chunks.
    pub unique_chunks: usize,
    /// Bytes over distinct chunks.
    pub unique_chunk_bytes: u64,
}

/// The bytes of the first `n` entries.
pub open spec fn bytes_sum(arts: Seq<ArtifactView>, n: int) -> nat
    decreases n,
{
    if n <= 0 { 0 } else { bytes_sum(arts, n - 1) + arts[n - 1].bytes as nat }
}

/// Whether entry `i` references a chunk an earlier entry references.
pub open spec fn seen_before(arts: Seq<ArtifactView>, i: int) -> bool {
    exists|j: int| 0 <= j < i && arts[j].sha256 == arts[i].sha256
}

/// Whether an earlier entry gives entry `i`'s chunk another length.
pub open spec fn conflicts(arts: Seq<ArtifactView>, i: int) -> bool {
    exists|j: int| 0 <= j < i && arts[j].sha256 == arts[i].sha256 && arts[j].bytes != arts[i].bytes
}

/// The distinct chunks among the first `n` entries.
pub open spec fn unique_count(arts: Seq<ArtifactView>, n: int) -> nat
    decreases n,
{
    if n <= 0 { 0 } else { unique_count(arts, n - 1) + if seen_before(arts, n - 1) { 0nat } else { 1nat } }
}

/// The bytes of the distinct chunks among the first `n` entries.
pub open spec fn unique_sum(arts: Seq<ArtifactView>, n: int) -> nat
    decreases n,
{
    if n <= 0 { 0 } else { unique_sum(arts, n - 1) + if seen_before(arts, n - 1) { 0nat } else { arts[n - 1].bytes as nat } }
}

/// The first failure of the entries from `i` on: the running byte total
/// leaving `u64`, or a chunk seen before with another length.
pub open spec fn totals_failure(arts: Seq<ArtifactView>, i: int) -> Option<IndexErrorView>
    decreases arts.len() - i,
{
    if i >= arts.len() || i < 0 {
        None
    } else if bytes_sum(arts, i + 1) > u64::MAX {
        Some(IndexErrorView::ReferencedOverflow)
    } else if conflicts(arts, i) {
        Some(IndexErrorView::InconsistentChunk { sha256: arts[i].sha256 })
    } else {
        totals_failure(arts, i + 1)
    }
}

proof fn lemma_unique_within(arts: Seq<ArtifactView>, n: int)
    ensures
        unique_sum(arts, n) <= bytes_sum(arts, n),
        unique_count(arts, n) <= if n < 0 { 0 } else { n },
    decreases n,
{
    if n > 0 {
        lemma_unique_within(arts, n - 1);
    }
}

/// Counting each chunk once never gives more than counting it per entry:
/// the distinct chunks are at most the entries, and their bytes at most the
/// referenced bytes.
pub proof fn law_unique_totals_within_referenced(arts: Seq<ArtifactView>)
    ensures
        unique_count(arts, arts.len() as int) <= arts.len(),
        unique_sum(arts, arts.len() as int) <= bytes_sum(arts, arts.len() as int),
{
    lemma_unique_within(arts, arts.len() as int);
}

/// Adds up the chunks of the index entries, in entry order.
pub fn index_totals(artifacts: &Vec<IndexedArtifact>) -> (result: Result<IndexTotals, IndexError>)
    ensures
        match totals_failure(artifact_views(artifacts@), 0) {
            Some(e) => result matches Err(err) && err@ == e,
            None => result matches Ok(t) && {
                let a = artifact_views(artifacts@);
                &&& t.referenced_bytes == bytes_sum(a, a.len() as int)
                &&& t.unique_chunks == unique_count(a, a.len() as int)
                &&& t.unique_chunk_bytes == unique_sum(a, a.len() as int)
            },
        },
{
    let ghost a = artifact_views(artifacts@);
    let mut referenced: u64 = 0;
    let mut unique_chunks: usize = 0;
    let mut unique_bytes: u64 = 0;
    let mut i: usize = 0;
    while i < artifacts.len()
        invariant
            a == artifact_views(artifacts@),
            i <= artifacts.len(),
            totals_failure(a, 0) == totals_failure(a, i as int),
            referenced == bytes_sum(a, i as int),
            unique_chunks == unique_count(a, i as int),
            unique_bytes == unique_sum(a, i as int),
        decreases artifacts.len() - i,
    {
        let current = &artifacts[i];
        assert(a[i as int] == current@);
        referenced = match referenced.checked_add(current.bytes) {
            Some(r) => r,
            None => return Err(IndexError::ReferencedOverflow),
        };
        let mut seen = false;
        let mut j: usize = 0;
        while j < i
            invariant
                a == artifact_views(artifacts@),
                i < artifacts.len(),
                j <= i,
                a[i as int] == current@,
                totals_failure(a, 0) == totals_failure(a, i as int),
                referenced == bytes_sum(a, i + 1),
                seen == exists|k: int| 0 <= k < j && a[k].sha256 == a[i as int].sha256,
                forall|k: int| 0 <= k < j && a[k].sha256 == a[i as int].sha256 ==> a[k].bytes == a[i as int].bytes,
            decreases i - j,
        {
            let earlier = &artifacts[j];
            assert(a[j as int] == earlier@);
            if text_eq(earlier.sha256.as_str(), current.sha256.as_str()) {
                if earlier.bytes != current.bytes {
                    assert(conflicts(a, i as int));
                    return Err(IndexError::InconsistentChunk { sha256: owned_text(current.sha256.as_str()) });
                }
                seen = true;
            }
            j = j + 1;
        }
        assert(!conflicts(a, i as int));
        assert(seen == seen_before(a, i as int));
        proof {
            lemma_unique_within(a, i + 1);
        }
        if !seen {
            unique_chunks = unique_chunks + 1;
            unique_bytes = unique_bytes + current.bytes;
        }
        i = i + 1;
    }
    Ok(IndexTotals { referenced_bytes: referenced, unique_chunks, unique_chunk_bytes: unique_bytes })
}

/// How many descriptors name a profiled variant.
pub open spec fn profiled_count(ds: Seq<DescriptorView>, n: int) -> nat
    decreases n,
{
    if n <= 0 { 0 } else { profiled_count(ds, n - 1) + if ds[n - 1].profile is Some { 1nat } else { 0nat } }
}

/// Counts the profiled entries of an index.
pub fn profiled_entry_count(descriptors: &Vec<ManifestDescriptor>) -> (count: usize)
    ensures
        count == profiled_count(descriptor_views(descriptors@), descriptors@.len() as int),
{
    let ghost ds = descriptor_views(descriptors@);
    let mut count: usize = 0;
    let mut i: usize = 0;
    while i < descriptors.len()
        invariant
            ds == descriptor_views(descriptors@),
            i <= descriptors.len(),
            count == profiled_count(ds, i as int),
            count <= i,
        decreases descriptors.len() - i,
    {
        assert(ds[i as int] == descriptors@[i as int]@);
        if descriptors[i].profile.is_some() {
            count = count + 1;
        }
        i = i + 1;
    }
    count
}

/// The schema of an index: `v1` while no entry is profiled, else `v2`.
pub fn index_schema(profiled_entries: usize) -> (schema: &'static str)
    ensures
        schema@ == (if profiled_entries == 0 { "bloom-asset-index-v1"@ } else { "bloom-asset-index-v2"@ }),
{
    if profiled_entries == 0 { "bloom-asset-index-v1" } else { "bloom-asset-index-v2" }
}

/// The path of `path` below `root`, as `Path::strip_prefix` computes it
/// (whole components, after `Path`'s normalisation), when `root` is a
/// prefix of `path`.
pub uninterp spec fn stripped_prefix(root: Seq<char>, path: Seq<char>) -> Option<Seq<char>>;

/// `std::path::Path::strip_prefix`, the remainder converted back to text.
/// Its contract names the result and says nothing more of it.
#[verifier::external_body]
fn strip_path_prefix(root: &str, path: &str) -> (relative: Option<String>)
    ensures
        match relative { Some(r) => Some(r@), None => None } == stripped_prefix(root@, path@),
{
    match std::path::Path::new(path).strip_prefix(root) {
        Ok(rest) => match rest.to_str() {
            Some(text) => Some(text.to_string()),
            None => None,
        },
        Err(_) => None,
    }
}

/// `std::path::MAIN_SEPARATOR`: `/` on Unix, `\` on Windows.
#[verifier::external_body]
fn main_separator() -> (sep: char)
    ensures
        sep == '/' || sep == '\\',
{
    std::path::MAIN_SEPARATOR
}

/// `s` with every `sep` written as `/`.
pub open spec fn with_slashes(s: Seq<char>, sep: char) -> Seq<char> {
    s.map_values(|c: char| if c == sep { '/' } else { c })
}

/// The logical ID a manifest at `relative` (below its root) stands for:
/// the path with `/` separators and without its `.json` suffix.
pub open spec fn logical_id_of(path: Seq<char>, relative: Option<Seq<char>>, sep: char) -> Result<Seq<char>, IndexErrorView> {
    match relative {
        None => Err(IndexErrorView::PathEscapes { path }),
        Some(r) => {
            let slashed = with_slashes(r, sep);
            if !(slashed.len() >= 5 && slashed.subrange(slashed.len() - 5, slashed.len() as int) == ".json"@) {
                Err(IndexErrorView::MissingJsonSuffix { path })
            } else {
                let id = slashed.subrange(0, slashed.len() - 5);
                if is_logical_id(id) {
                    Ok(id)
                } else {
                    Err(IndexErrorView::LogicalId(StoreErrorView::InvalidLogicalId { logical_id: id }))
                }
            }
        },
    }
}

/// The logical ID of a manifest, given its path below the manifest root
/// (`None` when the path is not below it) and the platform's path separator.
pub fn logical_id_from_relative(path: &str, relative: Option<&str>, sep: char) -> (result: Result<String, IndexError>)
    ensures
        gives_id(result, logical_id_of(path@, match relative { Some(r) => Some(r@), None => None }, sep)),
{
    let relative = match relative {
        Some(r) => r,
        None => return Err(IndexError::PathEscapes { path: owned_text(path) }),
    };
    let chars = text_chars(relative);
    let ghost slashed = with_slashes(relative@, sep);
    let mut out = String::new();
    let mut i: usize = 0;
    proof { reveal_strlit(".json"); }
    while i < chars.len()
        invariant
            chars@ == relative@,
            slashed == with_slashes(relative@, sep),
            i <= chars.len(),
            out@ == slashed.take(i as int),
        decreases chars.len() - i,
    {
        let c = if chars[i] == sep { '/' } else { chars[i] };
        push_char(&mut out, c);
        proof {
            assert(slashed.take(i + 1) =~= slashed.take(i as int).push(c));
        }
        i = i + 1;
    }
    assert(slashed.take(chars.len() as int) =~= slashed);
    let all = text_chars(out.as_str());
    let n = all.len();
    let suffix_ok = n >= 5 && all[n - 5] == '.' && all[n - 4] == 'j' && all[n - 3] == 's' && all[n - 2] == 'o' && all[n - 1] == 'n';
    proof {
        if n >= 5 {
            let tail = slashed.subrange(n - 5, n as int);
            if suffix_ok {
                assert(tail =~= ".json"@);
            } else {
                assert(tail != ".json"@) by {
                    if tail == ".json"@ {
                        assert(tail[0] == '.' && tail[1] == 'j' && tail[2] == 's' && tail[3] == 'o' && tail[4] == 'n');
                    }
                }
            }
        }
    }
    if !suffix_ok {
        return Err(IndexError::MissingJsonSuffix { path: owned_text(path) });
    }
    let mut id = String::new();
    let mut k: usize = 0;
    while k < n - 5
        invariant
            all@ == slashed,
            n == all.len(),
            n >= 5,
            k <= n - 5,
            id@ == slashed.take(k as int),
        decreases n - 5 - k,
    {
        push_char(&mut id, all[k]);
        proof {
            assert(slashed.take(k + 1) =~= slashed.take(k as int).push(all@[k as int]));
        }
        k = k + 1;
    }
    assert(id@ =~= slashed.subrange(0, n - 5));
    match validate_logical_id(id.as_str()) {
        Ok(()) => Ok(id),
        Err(e) => Err(IndexError::LogicalId(e)),
    }
}

/// Whether `result` is the outcome `expected`.
pub open spec fn gives_id(result: Result<String, IndexError>, expected: Result<Seq<char>, IndexErrorView>) -> bool {
    match expected {
        Ok(id) => result matches Ok(s) && s@ == id,
        Err(e) => result matches Err(err) && err@ == e,
    }
}

/// The logical ID of the manifest at `path` under the manifest tree `root`;
/// the separator is the platform's (`/` on Unix, `\` on Windows).
pub fn logical_id_from_path(root: &str, path: &str) -> (result: Result<String, IndexError>)
    ensures
        gives_id(result, logical_id_of(path@, stripped_prefix(root@, path@), '/'))
            || gives_id(result, logical_id_of(path@, stripped_prefix(root@, path@), '\\')),
{
    let relative = strip_path_prefix(root, path);
    let sep = main_separator();
    match &relative {
        Some(r) => logical_id_from_relative(path, Some(r.as_str()), sep),
        None => logical_id_from_relative(path, None, sep),
    }
}

} // verus!
