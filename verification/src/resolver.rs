//! Deterministic cooked-asset variant selection with caller-authored
//! fallbacks.

use vstd::prelude::*;
use crate::profile::{
    AssetProfile, ProfileError, ProfileErrorView, ProfileId, is_profile_component,
    new_profile_error, profile_error_text,
};
use crate::text::{
    concat2, concat3, debug_quoted, debug_text, sort_texts, text_order, texts, opt_text, owned_text, text_chars,
    text_eq, has_char,
};

verus! {

/// A parsed `asset-resolve` request: the wanted profile, the ordered
/// fallbacks and whether an unprofiled variant may be chosen.
pub struct ResolutionRequest {
    pub requested: AssetProfile,
    pub fallbacks: Vec<AssetProfile>,
    pub allow_unprofiled: bool,
}

/// The mathematical value of a request.
pub struct RequestView {
    pub requested: ProfileId,
    pub fallbacks: Seq<ProfileId>,
    pub allow_unprofiled: bool,
}

/// The values of a list of profiles.
pub open spec fn profile_ids(profiles: Seq<AssetProfile>) -> Seq<ProfileId> {
    profiles.map_values(|p: AssetProfile| p@)
}

impl View for ResolutionRequest {
    type V = RequestView;

    open spec fn view(&self) -> RequestView {
        RequestView {
            requested: self.requested@,
            fallbacks: profile_ids(self.fallbacks@),
            allow_unprofiled: self.allow_unprofiled,
        }
    }
}

/// Why a resolution request or a resolution failed.
#[derive(Debug)]
pub enum ResolutionError {
    /// A profile component was refused.
    Profile(ProfileError),
    /// `--allow-unprofiled` was given twice.
    RepeatedAllowUnprofiled,
    /// A flag that takes a value ends the list.
    MissingValue { flag: String },
    /// `--platform` or `--quality` was given twice.
    Repeated { flag: String },
    /// A flag this command does not know.
    UnknownOption { flag: String },
    /// `--platform` or `--quality` is absent.
    MissingRequested,
    /// A `--fallback` value has no `/`.
    FallbackWithoutSlash { value: String },
    /// A `--fallback` value has more than one `/`.
    FallbackExtraSlash { value: String },
    /// A profile appears twice among the requested profile and fallbacks.
    DuplicateProfile { label: String },
    /// No index entry has the logical ID.
    NotIndexed,
    /// Two index entries of the logical ID have the same profile.
    DuplicateVariants { label: String },
    /// No entry is allowed by the request.
    NoAllowedVariant { requested: String, available: Vec<String>, has_unprofiled: bool },
    /// An index entry's profile is not an object of two strings; the text
    /// says what is wrong with it.
    IndexProfile { text: String },
}

/// The mathematical value of a [`ResolutionError`].
pub enum ResolutionErrorView {
    Profile(ProfileErrorView),
    RepeatedAllowUnprofiled,
    MissingValue { flag: Seq<char> },
    Repeated { flag: Seq<char> },
    UnknownOption { flag: Seq<char> },
    MissingRequested,
    FallbackWithoutSlash { value: Seq<char> },
    FallbackExtraSlash { value: Seq<char> },
    DuplicateProfile { label: Seq<char> },
    NotIndexed,
    DuplicateVariants { label: Seq<char> },
    NoAllowedVariant { requested: Seq<char>, available: Seq<Seq<char>>, has_unprofiled: bool },
    IndexProfile { text: Seq<char> },
}

impl View for ResolutionError {
    type V = ResolutionErrorView;

    open spec fn view(&self) -> ResolutionErrorView {
        match self {
            ResolutionError::Profile(e) => ResolutionErrorView::Profile(e@),
            ResolutionError::RepeatedAllowUnprofiled => ResolutionErrorView::RepeatedAllowUnprofiled,
            ResolutionError::MissingValue { flag } => ResolutionErrorView::MissingValue { flag: flag@ },
            ResolutionError::Repeated { flag } => ResolutionErrorView::Repeated { flag: flag@ },
            ResolutionError::UnknownOption { flag } => ResolutionErrorView::UnknownOption { flag: flag@ },
            ResolutionError::MissingRequested => ResolutionErrorView::MissingRequested,
            ResolutionError::FallbackWithoutSlash { value } => ResolutionErrorView::FallbackWithoutSlash { value: value@ },
            ResolutionError::FallbackExtraSlash { value } => ResolutionErrorView::FallbackExtraSlash { value: value@ },
            ResolutionError::DuplicateProfile { label } => ResolutionErrorView::DuplicateProfile { label: label@ },
            ResolutionError::NotIndexed => ResolutionErrorView::NotIndexed,
            ResolutionError::DuplicateVariants { label } => ResolutionErrorView::DuplicateVariants { label: label@ },
            ResolutionError::NoAllowedVariant { requested, available, has_unprofiled } =>
                ResolutionErrorView::NoAllowedVariant {
                    requested: requested@,
                    available: texts(available@),
                    has_unprofiled: *has_unprofiled,
                },
            ResolutionError::IndexProfile { text } => ResolutionErrorView::IndexProfile { text: text@ },
        }
    }
}

/// Texts joined with `, `.
pub open spec fn comma_joined(items: Seq<Seq<char>>) -> Seq<char>
    decreases items.len(),
{
    if items.len() == 0 {
        seq![]
    } else if items.len() == 1 {
        items[0]
    } else {
        comma_joined(items.drop_last()) + ", "@ + items.last()
    }
}

/// The text of a resolution error for the logical ID `logical_id`.
pub open spec fn resolution_error_text(e: ResolutionErrorView, logical_id: Seq<char>) -> Seq<char> {
    match e {
        ResolutionErrorView::Profile(p) => profile_error_text(p),
        ResolutionErrorView::RepeatedAllowUnprofiled => "--allow-unprofiled may only be specified once"@,
        ResolutionErrorView::MissingValue { flag } => flag + " requires a value"@,
        ResolutionErrorView::Repeated { flag } => flag + " may only be specified once"@,
        ResolutionErrorView::UnknownOption { flag } => "unknown asset resolution option "@ + debug_text(flag),
        ResolutionErrorView::MissingRequested => "asset resolution requires both --platform and --quality"@,
        ResolutionErrorView::FallbackWithoutSlash { value } => "--fallback requires PLATFORM/QUALITY, got "@ + debug_text(value),
        ResolutionErrorView::FallbackExtraSlash { value } => "--fallback requires exactly PLATFORM/QUALITY, got "@ + debug_text(value),
        ResolutionErrorView::DuplicateProfile { label } => "asset resolution profile "@ + label + " is duplicated"@,
        ResolutionErrorView::NotIndexed => "logical asset "@ + debug_text(logical_id) + " is not in the cooked index"@,
        ResolutionErrorView::DuplicateVariants { label } => "asset index contains duplicate "@ + label + " variants"@,
        ResolutionErrorView::NoAllowedVariant { requested, available, has_unprofiled } =>
            "logical asset "@ + debug_text(logical_id) + " has no allowed variant for "@ + requested
                + "; available profiles: "@ + (if available.len() == 0 { "none"@ } else { comma_joined(available) })
                + "; unprofiled available: "@ + (if has_unprofiled { "true"@ } else { "false"@ }),
        ResolutionErrorView::IndexProfile { text } => text,
    }
}

fn join_labels(items: &Vec<String>) -> (joined: String)
    ensures
        joined@ == comma_joined(texts(items@)),
{
    let mut out = String::new();
    let mut i: usize = 0;
    assert(texts(items@).take(0) =~= seq![]);
    while i < items.len()
        invariant
            i <= items.len(),
            out@ == comma_joined(texts(items@).take(i as int)),
        decreases items.len() - i,
    {
        let ghost before = texts(items@).take(i as int);
        if i > 0 {
            out.append(", ");
        }
        out.append(items[i].as_str());
        proof {
            let after = texts(items@).take(i + 1);
            assert(after.drop_last() =~= before);
            assert(after.last() == items@[i as int]@);
            if i == 0 {
                assert(after =~= seq![items@[0]@]);
            }
        }
        i = i + 1;
    }
    assert(texts(items@).take(items.len() as int) =~= texts(items@));
    out
}

impl ResolutionError {
    /// The human-readable text of this error, for a request about
    /// `logical_id`.
    pub fn message(&self, logical_id: &str) -> (text: String)
        ensures
            text@ == resolution_error_text(self@, logical_id@),
    {
        match self {
            ResolutionError::Profile(e) => e.message(),
            ResolutionError::RepeatedAllowUnprofiled => owned_text("--allow-unprofiled may only be specified once"),
            ResolutionError::MissingValue { flag } => concat2(flag.as_str(), " requires a value"),
            ResolutionError::Repeated { flag } => concat2(flag.as_str(), " may only be specified once"),
            ResolutionError::UnknownOption { flag } => {
                let q = debug_quoted(flag.as_str());
                concat2("unknown asset resolution option ", q.as_str())
            },
            ResolutionError::MissingRequested => owned_text("asset resolution requires both --platform and --quality"),
            ResolutionError::FallbackWithoutSlash { value } => {
                let q = debug_quoted(value.as_str());
                concat2("--fallback requires PLATFORM/QUALITY, got ", q.as_str())
            },
            ResolutionError::FallbackExtraSlash { value } => {
                let q = debug_quoted(value.as_str());
                concat2("--fallback requires exactly PLATFORM/QUALITY, got ", q.as_str())
            },
            ResolutionError::DuplicateProfile { label } => concat3("asset resolution profile ", label.as_str(), " is duplicated"),
            ResolutionError::NotIndexed => {
                let q = debug_quoted(logical_id);
                concat3("logical asset ", q.as_str(), " is not in the cooked index")
            },
            ResolutionError::DuplicateVariants { label } => concat3("asset index contains duplicate ", label.as_str(), " variants"),
            ResolutionError::NoAllowedVariant { requested, available, has_unprofiled } => {
                let q = debug_quoted(logical_id);
                let mut out = concat3("logical asset ", q.as_str(), " has no allowed variant for ");
                out.append(requested.as_str());
                out.append("; available profiles: ");
                if available.len() == 0 {
                    out.append("none");
                } else {
                    let joined = join_labels(available);
                    out.append(joined.as_str());
                }
                out.append("; unprofiled available: ");
                out.append(if *has_unprofiled { "true" } else { "false" });
                out
            },
            ResolutionError::IndexProfile { text } => text.clone(),
        }
    }
}

/// The index of the first `/` in `s`, if any.
pub open spec fn first_slash(s: Seq<char>) -> Option<int> {
    if has_char(s, '/') {
        Some(choose|i: int| 0 <= i < s.len() && s[i] == '/' && forall|k: int| 0 <= k < i ==> s[k] != '/')
    } else {
        None
    }
}

/// What `parse_profile_pair` returns for a `--fallback` value.
pub open spec fn profile_pair(value: Seq<char>) -> Result<ProfileId, ResolutionErrorView> {
    match first_slash(value) {
        None => Err(ResolutionErrorView::FallbackWithoutSlash { value }),
        Some(i) => {
            let platform = value.take(i);
            let quality = value.skip(i + 1);
            if has_char(quality, '/') {
                Err(ResolutionErrorView::FallbackExtraSlash { value })
            } else if is_profile_component(platform) && is_profile_component(quality) {
                Ok(ProfileId { platform, quality })
            } else {
                Err(ResolutionErrorView::Profile(new_profile_error(platform, quality)))
            }
        },
    }
}

/// The substring of `chars` in `[from, to)` as a string.
fn substring(chars: &Vec<char>, from: usize, to: usize) -> (s: String)
    requires
        from <= to <= chars.len(),
    ensures
        s@ == chars@.subrange(from as int, to as int),
{
    let mut out = String::new();
    let mut i = from;
    while i < to
        invariant
            from <= i <= to <= chars.len(),
            out@ == chars@.subrange(from as int, i as int),
        decreases to - i,
    {
        crate::text::push_char(&mut out, chars[i]);
        i = i + 1;
        assert(out@ =~= chars@.subrange(from as int, i as int));
    }
    out
}

/// Parses a `PLATFORM/QUALITY` fallback value.
pub fn parse_profile_pair(value: &str) -> (result: Result<AssetProfile, ResolutionError>)
    ensures
        match profile_pair(value@) {
            Ok(id) => result matches Ok(p) && p@ == id,
            Err(e) => result matches Err(r) && r@ == e,
        },
{
    let chars = text_chars(value);
    let mut i: usize = 0;
    while i < chars.len() && chars[i] != '/'
        invariant
            chars@ == value@,
            i <= chars.len(),
            forall|k: int| 0 <= k < i ==> chars@[k] != '/',
        decreases chars.len() - i,
    {
        i = i + 1;
    }
    if i == chars.len() {
        assert(!has_char(value@, '/'));
        return Err(ResolutionError::FallbackWithoutSlash { value: owned_text(value) });
    }
    proof {
        assert(has_char(value@, '/'));
        let j = first_slash(value@)->0;
        assert(j == i) by {
            if j < i { assert(chars@[j] != '/'); }
            if i < j { assert(value@[i as int] == '/'); }
        }
    }
    let platform = substring(&chars, 0, i);
    let quality = substring(&chars, i + 1, chars.len());
    assert(platform@ =~= value@.take(i as int));
    assert(quality@ =~= value@.skip(i as int + 1));
    let ghost slash_at = first_slash(value@);
    assert(slash_at == Some(i as int));
    let mut k: usize = i + 1;
    while k < chars.len() && chars[k] != '/'
        invariant
            chars@ == value@,
            i + 1 <= k <= chars.len(),
            forall|m: int| i + 1 <= m < k ==> chars@[m] != '/',
        decreases chars.len() - k,
    {
        k = k + 1;
    }
    if k < chars.len() {
        assert(quality@[k - i - 1] == '/');
        assert(has_char(quality@, '/'));
        return Err(ResolutionError::FallbackExtraSlash { value: owned_text(value) });
    }
    assert(!has_char(quality@, '/')) by {
        if has_char(quality@, '/') {
            let m = choose|m: int| 0 <= m < quality@.len() && quality@[m] == '/';
            assert(chars@[m + i + 1] == '/');
        }
    }
    match AssetProfile::new(platform.as_str(), quality.as_str()) {
        Ok(profile) => Ok(profile),
        Err(e) => Err(ResolutionError::Profile(e)),
    }
}


/// The scan of `ResolutionRequest::parse` from position `i` with the
/// values seen so far.
pub open spec fn scan_request(
    flags: Seq<Seq<char>>,
    i: int,
    platform: Option<Seq<char>>,
    quality: Option<Seq<char>>,
    fallbacks: Seq<ProfileId>,
    allow: bool,
) -> Result<(Option<Seq<char>>, Option<Seq<char>>, Seq<ProfileId>, bool), ResolutionErrorView>
    decreases flags.len() - i,
{
    if i >= flags.len() || i < 0 {
        Ok((platform, quality, fallbacks, allow))
    } else if flags[i] == "--allow-unprofiled"@ {
        if allow {
            Err(ResolutionErrorView::RepeatedAllowUnprofiled)
        } else {
            scan_request(flags, i + 1, platform, quality, fallbacks, true)
        }
    } else if i + 1 >= flags.len() {
        Err(ResolutionErrorView::MissingValue { flag: flags[i] })
    } else if flags[i] == "--platform"@ {
        if platform is Some {
            Err(ResolutionErrorView::Repeated { flag: flags[i] })
        } else {
            scan_request(flags, i + 2, Some(flags[i + 1]), quality, fallbacks, allow)
        }
    } else if flags[i] == "--quality"@ {
        if quality is Some {
            Err(ResolutionErrorView::Repeated { flag: flags[i] })
        } else {
            scan_request(flags, i + 2, platform, Some(flags[i + 1]), fallbacks, allow)
        }
    } else if flags[i] == "--fallback"@ {
        match profile_pair(flags[i + 1]) {
            Err(e) => Err(e),
            Ok(p) => scan_request(flags, i + 2, platform, quality, fallbacks.push(p), allow),
        }
    } else {
        Err(ResolutionErrorView::UnknownOption { flag: flags[i] })
    }
}

/// Whether fallback `j` repeats the requested profile or an earlier fallback.
pub open spec fn is_repeat(requested: ProfileId, fallbacks: Seq<ProfileId>, j: int) -> bool {
    fallbacks[j] == requested || exists|k: int| 0 <= k < j && fallbacks[k] == fallbacks[j]
}

/// The first fallback at or after `j` that repeats a profile.
pub open spec fn first_repeat_from(requested: ProfileId, fallbacks: Seq<ProfileId>, j: int) -> Option<int>
    decreases fallbacks.len() - j,
{
    if j >= fallbacks.len() || j < 0 {
        None
    } else if is_repeat(requested, fallbacks, j) {
        Some(j)
    } else {
        first_repeat_from(requested, fallbacks, j + 1)
    }
}

/// Stores `value` in `slot`; fails when the slot already held a value, as
/// a flag given twice does.
pub fn set_once(slot: &mut Option<String>, value: &str, flag: &str) -> (result: Result<(), ResolutionError>)
    ensures
        opt_text(*final(slot)) == Some(value@),
        match result {
            Ok(()) => *old(slot) is None,
            Err(e) => *old(slot) is Some && e@ == (ResolutionErrorView::Repeated { flag: flag@ }),
        },
{
    let was_set = slot.is_some();
    *slot = Some(owned_text(value));
    if was_set {
        return Err(ResolutionError::Repeated { flag: owned_text(flag) });
    }
    Ok(())
}

/// What `ResolutionRequest::parse` returns for the given flags.
pub open spec fn parse_request(flags: Seq<Seq<char>>) -> Result<RequestView, ResolutionErrorView> {
    match scan_request(flags, 0, None, None, seq![], false) {
        Err(e) => Err(e),
        Ok((Some(platform), Some(quality), fallbacks, allow)) => {
            if !(is_profile_component(platform) && is_profile_component(quality)) {
                Err(ResolutionErrorView::Profile(new_profile_error(platform, quality)))
            } else {
                let requested = ProfileId { platform, quality };
                match first_repeat_from(requested, fallbacks, 0) {
                    Some(j) => Err(ResolutionErrorView::DuplicateProfile {
                        label: crate::profile::profile_label(fallbacks[j]),
                    }),
                    None => Ok(RequestView { requested, fallbacks, allow_unprofiled: allow }),
                }
            }
        },
        Ok(_) => Err(ResolutionErrorView::MissingRequested),
    }
}

impl ResolutionRequest {
    /// Parses `--platform ID --quality ID [--fallback PLATFORM/QUALITY]...
    /// [--allow-unprofiled]`. No profile may appear twice.
    pub fn parse(flags: &[String]) -> (result: Result<ResolutionRequest, ResolutionError>)
        ensures
            match parse_request(texts(flags@)) {
                Ok(r) => result matches Ok(req) && req@ == r,
                Err(e) => result matches Err(err) && err@ == e,
            },
    {
        let mut platform: Option<String> = None;
        let mut quality: Option<String> = None;
        let mut fallbacks: Vec<AssetProfile> = Vec::new();
        let mut allow_unprofiled = false;
        let mut index: usize = 0;
        let ghost all = texts(flags@);
        assert(profile_ids(fallbacks@) =~= seq![]);
        while index < flags.len()
            invariant
                all == texts(flags@),
                index <= flags.len(),
                scan_request(all, 0, None, None, seq![], false) == scan_request(
                    all,
                    index as int,
                    opt_text(platform),
                    opt_text(quality),
                    profile_ids(fallbacks@),
                    allow_unprofiled,
                ),
            decreases flags.len() - index,
        {
            let flag = &flags[index];
            if text_eq(flag.as_str(), "--allow-unprofiled") {
                if allow_unprofiled {
                    return Err(ResolutionError::RepeatedAllowUnprofiled);
                }
                allow_unprofiled = true;
                index = index + 1;
                continue;
            }
            if index + 1 >= flags.len() {
                return Err(ResolutionError::MissingValue { flag: flag.clone() });
            }
            let value = &flags[index + 1];
            if text_eq(flag.as_str(), "--platform") {
                match set_once(&mut platform, value.as_str(), flag.as_str()) {
                    Ok(()) => {},
                    Err(e) => return Err(e),
                }
            } else if text_eq(flag.as_str(), "--quality") {
                match set_once(&mut quality, value.as_str(), flag.as_str()) {
                    Ok(()) => {},
                    Err(e) => return Err(e),
                }
            } else if text_eq(flag.as_str(), "--fallback") {
                let profile = parse_profile_pair(value.as_str())?;
                let ghost before = profile_ids(fallbacks@);
                fallbacks.push(profile);
                assert(profile_ids(fallbacks@) =~= before.push(profile_pair(all[index + 1])->Ok_0));
            } else {
                return Err(ResolutionError::UnknownOption { flag: flag.clone() });
            }
            index = index + 2;
        }
        let requested = match (platform, quality) {
            (Some(platform), Some(quality)) => match AssetProfile::new(platform.as_str(), quality.as_str()) {
                Ok(profile) => profile,
                Err(e) => return Err(ResolutionError::Profile(e)),
            },
            _ => return Err(ResolutionError::MissingRequested),
        };
        let ghost ids = profile_ids(fallbacks@);
        let ghost scanned = scan_request(all, 0, None, None, seq![], false);
        assert(scanned == Ok::<_, ResolutionErrorView>((Some(requested@.platform), Some(requested@.quality), ids, allow_unprofiled)));
        let mut j: usize = 0;
        while j < fallbacks.len()
            invariant
                ids == profile_ids(fallbacks@),
                j <= fallbacks.len(),
                first_repeat_from(requested@, ids, 0) == first_repeat_from(requested@, ids, j as int),
                all == texts(flags@),
                scanned == scan_request(all, 0, None, None, seq![], false),
                scanned == Ok::<_, ResolutionErrorView>((Some(requested@.platform), Some(requested@.quality), ids, allow_unprofiled)),
                is_profile_component(requested@.platform),
                is_profile_component(requested@.quality),
            decreases fallbacks.len() - j,
        {
            let mut repeated = fallbacks[j].same_as(&requested);
            let mut k: usize = 0;
            while k < j
                invariant
                    ids == profile_ids(fallbacks@),
                    j < fallbacks.len(),
                    k <= j,
                    repeated == (ids[j as int] == requested@ || exists|m: int| 0 <= m < k && ids[m] == ids[j as int]),
                decreases j - k,
            {
                let same = fallbacks[k].same_as(&fallbacks[j]);
                proof {
                    if same { assert(ids[k as int] == ids[j as int]); }
                    if !same && !repeated {
                        assert forall|m: int| 0 <= m < k + 1 implies ids[m] != ids[j as int] by {
                            if m == k { assert(ids[m] == fallbacks@[m]@); }
                        }
                    }
                }
                repeated = repeated || same;
                k = k + 1;
            }
            assert(repeated == is_repeat(requested@, ids, j as int));
            if repeated {
                return Err(ResolutionError::DuplicateProfile { label: fallbacks[j].label() });
            }
            j = j + 1;
        }
        Ok(ResolutionRequest { requested, fallbacks, allow_unprofiled })
    }
}


/// The profile an index entry of the wanted logical ID declares.
#[derive(Debug)]
pub enum CandidateProfile {
    /// The entry has no profile.
    Unprofiled,
    /// The entry has a valid profile.
    Profiled(AssetProfile),
    /// The entry's profile was refused.
    Malformed(ProfileError),
    /// The entry's profile is not an object of two strings; the text says
    /// what is wrong with it.
    Unreadable(String),
}

/// The mathematical value of a [`CandidateProfile`].
pub enum CandidateView {
    Unprofiled,
    Profiled(ProfileId),
    Malformed(ProfileErrorView),
    Unreadable(Seq<char>),
}

impl View for CandidateProfile {
    type V = CandidateView;

    open spec fn view(&self) -> CandidateView {
        match self {
            CandidateProfile::Unprofiled => CandidateView::Unprofiled,
            CandidateProfile::Profiled(p) => CandidateView::Profiled(p@),
            CandidateProfile::Malformed(e) => CandidateView::Malformed(e@),
            CandidateProfile::Unreadable(t) => CandidateView::Unreadable(t@),
        }
    }
}

/// The values of a list of candidates.
pub open spec fn candidate_views(c: Seq<CandidateProfile>) -> Seq<CandidateView> {
    c.map_values(|x: CandidateProfile| x@)
}

/// How a variant was selected.
#[derive(Clone, Copy, Debug, PartialEq, Eq, Structural)]
pub enum SelectionKind {
    /// The requested profile itself.
    Exact,
    /// The fallback at this position of the request.
    Fallback { rank: usize },
    /// An entry without profile, allowed by `--allow-unprofiled`.
    UnprofiledFallback,
}

/// The chosen entry (its position among the candidates) and how it was chosen.
#[derive(Clone, Copy, Debug, PartialEq, Eq, Structural)]
pub struct Selection {
    pub entry: usize,
    pub kind: SelectionKind,
}

/// The scan of `find_profile` from position `i`, having found `found`.
pub open spec fn find_profile_from(
    c: Seq<CandidateView>,
    profile: ProfileId,
    i: int,
    found: Option<int>,
) -> Result<Option<int>, ResolutionErrorView>
    decreases c.len() - i,
{
    if i >= c.len() || i < 0 {
        Ok(found)
    } else {
        match c[i] {
            CandidateView::Unprofiled => find_profile_from(c, profile, i + 1, found),
            CandidateView::Malformed(e) => Err(ResolutionErrorView::Profile(e)),
            CandidateView::Unreadable(t) => Err(ResolutionErrorView::IndexProfile { text: t }),
            CandidateView::Profiled(q) => if q == profile {
                if found is Some {
                    Err(ResolutionErrorView::DuplicateVariants { label: crate::profile::profile_label(profile) })
                } else {
                    find_profile_from(c, profile, i + 1, Some(i))
                }
            } else {
                find_profile_from(c, profile, i + 1, found)
            },
        }
    }
}

/// The one candidate with the given profile, if any; two are an error, and
/// so is a refused profile met before the scan ends.
pub fn find_profile(candidates: &Vec<CandidateProfile>, profile: &AssetProfile) -> (result: Result<Option<usize>, ResolutionError>)
    ensures
        match find_profile_from(candidate_views(candidates@), profile@, 0, None) {
            Ok(Some(i)) => result == Ok::<Option<usize>, ResolutionError>(Some(i as usize)),
            Ok(None) => result == Ok::<Option<usize>, ResolutionError>(None),
            Err(e) => result matches Err(r) && r@ == e,
        },
{
    let ghost c = candidate_views(candidates@);
    let mut found: Option<usize> = None;
    let mut i: usize = 0;
    while i < candidates.len()
        invariant
            c == candidate_views(candidates@),
            i <= candidates.len(),
            find_profile_from(c, profile@, 0, None) == find_profile_from(
                c,
                profile@,
                i as int,
                match found { Some(k) => Some(k as int), None => None },
            ),
            match found { Some(k) => k < i, None => true },
        decreases candidates.len() - i,
    {
        match &candidates[i] {
            CandidateProfile::Unprofiled => {},
            CandidateProfile::Malformed(e) => {
                return Err(ResolutionError::Profile(copy_profile_error(e)));
            },
            CandidateProfile::Unreadable(t) => {
                return Err(ResolutionError::IndexProfile { text: t.clone() });
            },
            CandidateProfile::Profiled(q) => {
                if q.same_as(profile) {
                    if found.is_some() {
                        return Err(ResolutionError::DuplicateVariants { label: profile.label() });
                    }
                    found = Some(i);
                }
            },
        }
        i = i + 1;
    }
    Ok(found)
}

/// A copy of a profile error.
pub fn copy_profile_error(e: &ProfileError) -> (copy: ProfileError)
    ensures
        copy@ == e@,
{
    match e {
        ProfileError::InvalidComponent { field, value } => ProfileError::InvalidComponent {
            field: *field,
            value: value.clone(),
        },
        ProfileError::MissingValue { flag } => ProfileError::MissingValue { flag: flag.clone() },
        ProfileError::Repeated { flag } => ProfileError::Repeated { flag: flag.clone() },
        ProfileError::Unpaired => ProfileError::Unpaired,
    }
}


/// The first candidate without profile at or after `i`.
pub open spec fn first_unprofiled_from(c: Seq<CandidateView>, i: int) -> Option<int>
    decreases c.len() - i,
{
    if i >= c.len() || i < 0 {
        None
    } else if c[i] is Unprofiled {
        Some(i)
    } else {
        first_unprofiled_from(c, i + 1)
    }
}

/// The labels of the profiled candidates, in candidate order.
pub open spec fn available_labels(c: Seq<CandidateView>) -> Seq<Seq<char>>
    decreases c.len(),
{
    if c.len() == 0 {
        seq![]
    } else {
        let rest = available_labels(c.drop_last());
        match c.last() {
            CandidateView::Profiled(p) => rest.push(crate::profile::profile_label(p)),
            _ => rest,
        }
    }
}

/// Whether some candidate has no profile.
pub open spec fn has_unprofiled(c: Seq<CandidateView>) -> bool
    decreases c.len(),
{
    c.len() > 0 && (c.last() is Unprofiled || has_unprofiled(c.drop_last()))
}

/// The last step of resolution: an allowed unprofiled entry, or the error
/// that lists what is available.
pub open spec fn unprofiled_or_fail(c: Seq<CandidateView>, req: RequestView) -> Result<Selection, ResolutionErrorView> {
    if req.allow_unprofiled && first_unprofiled_from(c, 0) is Some {
        Ok(Selection { entry: first_unprofiled_from(c, 0)->0 as usize, kind: SelectionKind::UnprofiledFallback })
    } else {
        Err(ResolutionErrorView::NoAllowedVariant {
            requested: crate::profile::profile_label(req.requested),
            available: available_labels(c).sort_by(text_order()),
            has_unprofiled: has_unprofiled(c),
        })
    }
}

/// Resolution by the fallbacks from rank `r` on.
pub open spec fn fallback_from(c: Seq<CandidateView>, req: RequestView, r: int) -> Result<Selection, ResolutionErrorView>
    decreases req.fallbacks.len() - r,
{
    if r >= req.fallbacks.len() || r < 0 {
        unprofiled_or_fail(c, req)
    } else {
        match find_profile_from(c, req.fallbacks[r], 0, None) {
            Err(e) => Err(e),
            Ok(Some(i)) => Ok(Selection { entry: i as usize, kind: SelectionKind::Fallback { rank: r as usize } }),
            Ok(None) => fallback_from(c, req, r + 1),
        }
    }
}

/// The variant chosen for a request among the index entries of one
/// logical ID: the exact profile, else the first fallback present, else
/// (when allowed) the first unprofiled entry.
pub open spec fn resolve_selection(c: Seq<CandidateView>, req: RequestView) -> Result<Selection, ResolutionErrorView> {
    if c.len() == 0 {
        Err(ResolutionErrorView::NotIndexed)
    } else {
        match find_profile_from(c, req.requested, 0, None) {
            Err(e) => Err(e),
            Ok(Some(i)) => Ok(Selection { entry: i as usize, kind: SelectionKind::Exact }),
            Ok(None) => fallback_from(c, req, 0),
        }
    }
}

/// Whether some candidate has profile `p`.
pub open spec fn has_profile(c: Seq<CandidateView>, p: ProfileId) -> bool {
    exists|j: int| 0 <= j < c.len() && c[j] == CandidateView::Profiled(p)
}

proof fn lemma_find_profile(c: Seq<CandidateView>, p: ProfileId, i: int, found: Option<int>)
    requires
        0 <= i,
        found matches Some(k) ==> 0 <= k < i && k < c.len() && c[k] == CandidateView::Profiled(p),
    ensures
        find_profile_from(c, p, i, found) matches Ok(Some(k)) ==> 0 <= k < c.len() && c[k] == CandidateView::Profiled(p),
        find_profile_from(c, p, i, found) matches Ok(None) ==> found is None
            && forall|j: int| i <= j < c.len() ==> c[j] != CandidateView::Profiled(p),
    decreases c.len() - i,
{
    if i < c.len() {
        match c[i] {
            CandidateView::Unprofiled => lemma_find_profile(c, p, i + 1, found),
            CandidateView::Malformed(_) => {},
            CandidateView::Unreadable(_) => {},
            CandidateView::Profiled(q) => if q == p {
                if found is None {
                    lemma_find_profile(c, p, i + 1, Some(i));
                }
            } else {
                lemma_find_profile(c, p, i + 1, found);
            },
        }
    }
}

proof fn lemma_first_unprofiled(c: Seq<CandidateView>, i: int)
    requires
        0 <= i,
    ensures
        first_unprofiled_from(c, i) matches Some(k) ==> i <= k < c.len() && c[k] is Unprofiled,
    decreases c.len() - i,
{
    if i < c.len() && !(c[i] is Unprofiled) {
        lemma_first_unprofiled(c, i + 1);
    }
}

proof fn lemma_fallback_in_range(c: Seq<CandidateView>, req: RequestView, r: int)
    requires
        0 <= r,
        c.len() <= usize::MAX,
    ensures
        fallback_from(c, req, r) matches Ok(s) ==> s.entry < c.len(),
    decreases req.fallbacks.len() - r,
{
    if r < req.fallbacks.len() {
        lemma_find_profile(c, req.fallbacks[r], 0, None);
        lemma_fallback_in_range(c, req, r + 1);
    } else {
        lemma_first_unprofiled(c, 0);
    }
}

/// A selection names one of the candidates.
pub proof fn lemma_selected_entry_in_range(c: Seq<CandidateView>, req: RequestView)
    requires
        c.len() <= usize::MAX,
    ensures
        resolve_selection(c, req) matches Ok(s) ==> s.entry < c.len(),
{
    lemma_find_profile(c, req.requested, 0, None);
    lemma_fallback_in_range(c, req, 0);
}

/// A copy of a candidate.
pub fn copy_candidate(c: &CandidateProfile) -> (d: CandidateProfile)
    ensures
        d@ == c@,
{
    match c {
        CandidateProfile::Unprofiled => CandidateProfile::Unprofiled,
        CandidateProfile::Profiled(p) => CandidateProfile::Profiled(p.duplicate()),
        CandidateProfile::Malformed(e) => CandidateProfile::Malformed(copy_profile_error(e)),
        CandidateProfile::Unreadable(t) => CandidateProfile::Unreadable(t.clone()),
    }
}

proof fn lemma_fallback_from(c: Seq<CandidateView>, req: RequestView, r: int)
    requires
        0 <= r,
        c.len() <= usize::MAX,
        req.fallbacks.len() <= usize::MAX,
    ensures
        fallback_from(c, req, r) matches Ok(s) ==> 0 <= s.entry < c.len() && match s.kind {
            SelectionKind::Exact => false,
            SelectionKind::Fallback { rank } => r <= rank < req.fallbacks.len()
                && c[s.entry as int] == CandidateView::Profiled(req.fallbacks[rank as int])
                && forall|k: int| r <= k < rank ==> !has_profile(c, #[trigger] req.fallbacks[k]),
            SelectionKind::UnprofiledFallback => req.allow_unprofiled && c[s.entry as int] is Unprofiled
                && forall|k: int| r <= k < req.fallbacks.len() ==> !has_profile(c, #[trigger] req.fallbacks[k]),
        },
    decreases req.fallbacks.len() - r,
{
    if r < req.fallbacks.len() {
        lemma_find_profile(c, req.fallbacks[r], 0, None);
        if let Ok(None) = find_profile_from(c, req.fallbacks[r], 0, None) {
            lemma_fallback_from(c, req, r + 1);
            assert(!has_profile(c, req.fallbacks[r]));
        }
    } else {
        lemma_first_unprofiled(c, 0);
    }
}

/// Resolution is explicit: an exact match is chosen whenever the requested
/// profile is present; otherwise the first fallback, in the order the
/// request lists them, that is present; and an unprofiled entry only when the
/// request allows it and neither the requested profile nor any fallback is
/// present.
pub proof fn law_selection_prefers_exact_then_listed_fallbacks(c: Seq<CandidateView>, req: RequestView)
    requires
        c.len() <= usize::MAX,
        req.fallbacks.len() <= usize::MAX,
    ensures
        resolve_selection(c, req) matches Ok(s) ==> 0 <= s.entry < c.len() && match s.kind {
            SelectionKind::Exact => c[s.entry as int] == CandidateView::Profiled(req.requested),
            SelectionKind::Fallback { rank } => rank < req.fallbacks.len()
                && c[s.entry as int] == CandidateView::Profiled(req.fallbacks[rank as int])
                && !has_profile(c, req.requested)
                && forall|k: int| 0 <= k < rank ==> !has_profile(c, #[trigger] req.fallbacks[k]),
            SelectionKind::UnprofiledFallback => req.allow_unprofiled && c[s.entry as int] is Unprofiled
                && !has_profile(c, req.requested)
                && forall|k: int| 0 <= k < req.fallbacks.len() ==> !has_profile(c, #[trigger] req.fallbacks[k]),
        },
{
    if c.len() > 0 {
        lemma_find_profile(c, req.requested, 0, None);
        if let Ok(None) = find_profile_from(c, req.requested, 0, None) {
            lemma_fallback_from(c, req, 0);
        }
    }
}

/// A profile's label parses back to the profile: `PLATFORM/QUALITY` is
/// exactly what `--fallback` reads.
pub proof fn law_profile_label_parses_back(p: ProfileId)
    requires
        is_profile_component(p.platform),
        is_profile_component(p.quality),
    ensures
        profile_pair(crate::profile::profile_label(p)) == Ok::<ProfileId, ResolutionErrorView>(p),
{
    let l = crate::profile::profile_label(p);
    let n = p.platform.len() as int;
    assert(l[n] == '/');
    assert(has_char(l, '/'));
    assert forall|k: int| 0 <= k < n implies l[k] != '/' by {
        assert(l[k] == p.platform[k]);
        assert(crate::profile::is_profile_char(p.platform[k]));
    }
    let i = choose|i: int| 0 <= i < l.len() && l[i] == '/' && forall|k: int| 0 <= k < i ==> l[k] != '/';
    if i > n {
        assert(l[n] != '/');
    }
    assert(i == n);
    assert(l.take(n) =~= p.platform);
    assert(l.skip(n + 1) =~= p.quality);
    assert(!has_char(p.quality, '/')) by {
        if has_char(p.quality, '/') {
            let j = choose|j: int| 0 <= j < p.quality.len() && p.quality[j] == '/';
            assert(crate::profile::is_profile_char(p.quality[j]));
        }
    }
}

/// Chooses the entry a request resolves to among the index entries of one
/// logical ID (in index order).
pub fn select_variant(candidates: &Vec<CandidateProfile>, request: &ResolutionRequest) -> (result: Result<Selection, ResolutionError>)
    ensures
        match resolve_selection(candidate_views(candidates@), request@) {
            Ok(s) => result == Ok::<Selection, ResolutionError>(s),
            Err(e) => result matches Err(r) && r@ == e,
        },
{
    let ghost c = candidate_views(candidates@);
    if candidates.len() == 0 {
        return Err(ResolutionError::NotIndexed);
    }
    if let Some(i) = find_profile(candidates, &request.requested)? {
        return Ok(Selection { entry: i, kind: SelectionKind::Exact });
    }
    let mut r: usize = 0;
    while r < request.fallbacks.len()
        invariant
            c == candidate_views(candidates@),
            c.len() > 0,
            r <= request.fallbacks.len(),
            resolve_selection(c, request@) == fallback_from(c, request@, r as int),
        decreases request.fallbacks.len() - r,
    {
        if let Some(i) = find_profile(candidates, &request.fallbacks[r])? {
            return Ok(Selection { entry: i, kind: SelectionKind::Fallback { rank: r } });
        }
        r = r + 1;
    }
    let mut first_unprofiled: Option<usize> = None;
    let mut has_none = false;
    let mut available: Vec<String> = Vec::new();
    let mut i: usize = 0;
    assert(texts(available@) =~= seq![]);
    assert(c.take(0) =~= seq![]);
    while i < candidates.len()
        invariant
            c == candidate_views(candidates@),
            i <= candidates.len(),
            texts(available@) == available_labels(c.take(i as int)),
            has_none == has_unprofiled(c.take(i as int)),
            first_unprofiled_from(c, 0) == match first_unprofiled {
                Some(k) => Some(k as int),
                None => first_unprofiled_from(c, i as int),
            },
            match first_unprofiled { Some(k) => k < i, None => true },
        decreases candidates.len() - i,
    {
        let ghost before = texts(available@);
        assert(c.take(i as int + 1).drop_last() =~= c.take(i as int));
        match &candidates[i] {
            CandidateProfile::Unprofiled => {
                if first_unprofiled.is_none() {
                    first_unprofiled = Some(i);
                }
                has_none = true;
                assert(c.take(i as int + 1)[i as int] is Unprofiled);
            },
            CandidateProfile::Profiled(p) => {
                available.push(p.label());
                assert(texts(available@) =~= before.push(crate::profile::profile_label(p@)));
            },
            CandidateProfile::Malformed(_) => {
            },
            CandidateProfile::Unreadable(_) => {
            },
        }
        i = i + 1;
    }
    assert(c.take(candidates.len() as int) =~= c);
    if request.allow_unprofiled {
        if let Some(k) = first_unprofiled {
            return Ok(Selection { entry: k, kind: SelectionKind::UnprofiledFallback });
        }
    }
    let sorted = sort_texts(available);
    Err(ResolutionError::NoAllowedVariant {
        requested: request.requested.label(),
        available: sorted,
        has_unprofiled: has_none,
    })
}

} // verus!
