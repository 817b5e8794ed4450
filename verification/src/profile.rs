//! Canonical platform/quality identifiers for cooked asset variants.

use vstd::prelude::*;
use crate::text::{texts, opt_text, owned_text, text_chars, text_eq, concat3, concat2, debug_quoted, debug_text};

verus! {

/// Which half of a profile a component names.
#[derive(Clone, Copy, Debug, PartialEq, Eq, Structural)]
pub enum ProfileField {
    Platform,
    Quality,
}

/// The word a field is called by in messages.
pub open spec fn field_name(field: ProfileField) -> Seq<char> {
    match field {
        ProfileField::Platform => "platform"@,
        ProfileField::Quality => "quality"@,
    }
}

/// A character allowed in a profile component: lowercase ASCII letter,
/// digit, `-` or `_`.
pub open spec fn is_profile_char(c: char) -> bool {
    ('a' <= c && c <= 'z') || ('0' <= c && c <= '9') || c == '-' || c == '_'
}

/// A canonical profile component: 1..=32 allowed characters.
pub open spec fn is_profile_component(s: Seq<char>) -> bool {
    &&& 1 <= s.len() <= 32
    &&& forall|i: int| 0 <= i < s.len() ==> is_profile_char(#[trigger] s[i])
}

/// The mathematical value of a profile.
pub struct ProfileId {
    pub platform: Seq<char>,
    pub quality: Seq<char>,
}

/// The label `platform/quality`.
pub open spec fn profile_label(p: ProfileId) -> Seq<char> {
    p.platform + seq!['/'] + p.quality
}

/// A validated platform/quality pair.
#[derive(Debug)]
pub struct AssetProfile {
    platform: String,
    quality: String,
}

impl View for AssetProfile {
    type V = ProfileId;

    closed spec fn view(&self) -> ProfileId {
        ProfileId { platform: self.platform@, quality: self.quality@ }
    }
}

impl AssetProfile {
    #[verifier::type_invariant]
    spec fn canonical(self) -> bool {
        is_profile_component(self.platform@) && is_profile_component(self.quality@)
    }

    /// Builds a profile from two components, checking platform first.
    pub fn new(platform: &str, quality: &str) -> (result: Result<AssetProfile, ProfileError>)
        ensures
            match result {
                Ok(profile) => is_profile_component(platform@) && is_profile_component(quality@)
                    && profile@ == (ProfileId { platform: platform@, quality: quality@ }),
                Err(error) => error@ == new_profile_error(platform@, quality@),
            },
            result is Ok <==> is_profile_component(platform@) && is_profile_component(quality@),
    {
        validate_profile_component(platform, ProfileField::Platform)?;
        validate_profile_component(quality, ProfileField::Quality)?;
        Ok(AssetProfile { platform: owned_text(platform), quality: owned_text(quality) })
    }

    /// A copy of this profile.
    pub fn duplicate(&self) -> (copy: AssetProfile)
        ensures
            copy@ == self@,
    {
        proof { use_type_invariant(self); }
        AssetProfile { platform: self.platform.clone(), quality: self.quality.clone() }
    }

    /// The platform component.
    pub fn platform(&self) -> (platform: &str)
        ensures
            platform@ == self@.platform,
            is_profile_component(platform@),
    {
        proof { use_type_invariant(self); }
        self.platform.as_str()
    }

    /// The quality component.
    pub fn quality(&self) -> (quality: &str)
        ensures
            quality@ == self@.quality,
            is_profile_component(quality@),
    {
        proof { use_type_invariant(self); }
        self.quality.as_str()
    }

    /// The label `platform/quality`.
    pub fn label(&self) -> (label: String)
        ensures
            label@ == profile_label(self@),
    {
        proof { reveal_strlit("/"); }
        concat3(self.platform.as_str(), "/", self.quality.as_str())
    }

    /// Whether two profiles are the same pair.
    pub fn same_as(&self, other: &AssetProfile) -> (same: bool)
        ensures
            same == (self@ == other@),
    {
        text_eq(self.platform.as_str(), other.platform.as_str())
            && text_eq(self.quality.as_str(), other.quality.as_str())
    }

    /// Separates `--platform ID` and `--quality ID` from the other flags.
    /// Both or neither must be present, each at most once; the other flags
    /// keep their order.
    pub fn split_optional_flags(flags: &[String]) -> (result: Result<
        (Option<AssetProfile>, Vec<String>),
        ProfileError,
    >)
        ensures
            match split_profile_flags(texts(flags@)) {
                Ok((profile, remaining)) => result matches Ok((p, r)) && texts(r@) == remaining
                    && match profile {
                        None => p is None,
                        Some(id) => p matches Some(q) && q@ == id,
                    },
                Err(error) => result matches Err(e) && e@ == error,
            },
    {
        let mut platform: Option<String> = None;
        let mut quality: Option<String> = None;
        let mut remaining: Vec<String> = Vec::new();
        let mut index: usize = 0;
        let ghost all = texts(flags@);
        assert(texts(remaining@) =~= seq![]);
        while index < flags.len()
            invariant
                all == texts(flags@),
                index <= flags.len(),
                scan_profile_flags(all, 0, None, None, seq![])
                    == scan_profile_flags(all, index as int, opt_text(platform), opt_text(quality), texts(remaining@)),
            decreases flags.len() - index,
        {
            let flag = &flags[index];
            let is_platform = text_eq(flag.as_str(), "--platform");
            let is_quality = text_eq(flag.as_str(), "--quality");
            if !is_platform && !is_quality {
                let ghost before = texts(remaining@);
                remaining.push(flag.clone());
                assert(texts(remaining@) =~= before.push(all[index as int]));
                index = index + 1;
                continue;
            }
            if index + 1 >= flags.len() {
                return Err(ProfileError::MissingValue { flag: flag.clone() });
            }
            let value = flags[index + 1].clone();
            if is_platform {
                if platform.is_some() {
                    return Err(ProfileError::Repeated { flag: flag.clone() });
                }
                platform = Some(value);
            } else {
                if quality.is_some() {
                    return Err(ProfileError::Repeated { flag: flag.clone() });
                }
                quality = Some(value);
            }
            index = index + 2;
        }
        match (platform, quality) {
            (None, None) => Ok((None, remaining)),
            (Some(platform), Some(quality)) => {
                let profile = AssetProfile::new(platform.as_str(), quality.as_str())?;
                Ok((Some(profile), remaining))
            },
            _ => Err(ProfileError::Unpaired),
        }
    }
}

/// Why a profile or its flags were refused.
#[derive(Debug)]
pub enum ProfileError {
    /// A component is not 1..=32 lowercase ASCII letters, digits, '-' or '_'.
    InvalidComponent { field: ProfileField, value: String },
    /// A flag that takes a value ends the list.
    MissingValue { flag: String },
    /// `--platform` or `--quality` was given twice.
    Repeated { flag: String },
    /// Only one of `--platform` and `--quality` was given.
    Unpaired,
}

/// The mathematical value of a [`ProfileError`].
pub enum ProfileErrorView {
    InvalidComponent { field: ProfileField, value: Seq<char> },
    MissingValue { flag: Seq<char> },
    Repeated { flag: Seq<char> },
    Unpaired,
}

impl View for ProfileError {
    type V = ProfileErrorView;

    open spec fn view(&self) -> ProfileErrorView {
        match self {
            ProfileError::InvalidComponent { field, value } => ProfileErrorView::InvalidComponent {
                field: *field,
                value: value@,
            },
            ProfileError::MissingValue { flag } => ProfileErrorView::MissingValue { flag: flag@ },
            ProfileError::Repeated { flag } => ProfileErrorView::Repeated { flag: flag@ },
            ProfileError::Unpaired => ProfileErrorView::Unpaired,
        }
    }
}

/// The text of a profile error.
pub open spec fn profile_error_text(e: ProfileErrorView) -> Seq<char> {
    match e {
        ProfileErrorView::InvalidComponent { field, value } => "asset "@ + field_name(field)
            + " profile "@ + debug_text(value)
            + " must be 1..=32 lowercase ASCII letters, digits, '-' or '_'"@,
        ProfileErrorView::MissingValue { flag } => flag + " requires a value"@,
        ProfileErrorView::Repeated { flag } => flag + " may only be specified once"@,
        ProfileErrorView::Unpaired => "--platform and --quality must be specified together"@,
    }
}

impl ProfileError {
    /// The human-readable text of this error.
    pub fn message(&self) -> (text: String)
        ensures
            text@ == profile_error_text(self@),
    {
        match self {
            ProfileError::InvalidComponent { field, value } => {
                let mut out = owned_text("asset ");
                match field {
                    ProfileField::Platform => out.append("platform"),
                    ProfileField::Quality => out.append("quality"),
                }
                out.append(" profile ");
                let quoted = debug_quoted(value.as_str());
                out.append(quoted.as_str());
                out.append(" must be 1..=32 lowercase ASCII letters, digits, '-' or '_'");
                out
            },
            ProfileError::MissingValue { flag } => concat2(flag.as_str(), " requires a value"),
            ProfileError::Repeated { flag } => concat2(flag.as_str(), " may only be specified once"),
            ProfileError::Unpaired => owned_text("--platform and --quality must be specified together"),
        }
    }
}

/// The error `AssetProfile::new` reports for a refused pair.
pub open spec fn new_profile_error(platform: Seq<char>, quality: Seq<char>) -> ProfileErrorView {
    if !is_profile_component(platform) {
        ProfileErrorView::InvalidComponent { field: ProfileField::Platform, value: platform }
    } else {
        ProfileErrorView::InvalidComponent { field: ProfileField::Quality, value: quality }
    }
}

/// The scan of `split_optional_flags` from position `i`, having seen the
/// given values and kept the given other flags.
pub open spec fn scan_profile_flags(
    flags: Seq<Seq<char>>,
    i: int,
    platform: Option<Seq<char>>,
    quality: Option<Seq<char>>,
    remaining: Seq<Seq<char>>,
) -> Result<(Option<Seq<char>>, Option<Seq<char>>, Seq<Seq<char>>), ProfileErrorView>
    decreases flags.len() - i,
{
    if i >= flags.len() || i < 0 {
        Ok((platform, quality, remaining))
    } else if flags[i] != "--platform"@ && flags[i] != "--quality"@ {
        scan_profile_flags(flags, i + 1, platform, quality, remaining.push(flags[i]))
    } else if i + 1 >= flags.len() {
        Err(ProfileErrorView::MissingValue { flag: flags[i] })
    } else if flags[i] == "--platform"@ {
        if platform is Some {
            Err(ProfileErrorView::Repeated { flag: flags[i] })
        } else {
            scan_profile_flags(flags, i + 2, Some(flags[i + 1]), quality, remaining)
        }
    } else if quality is Some {
        Err(ProfileErrorView::Repeated { flag: flags[i] })
    } else {
        scan_profile_flags(flags, i + 2, platform, Some(flags[i + 1]), remaining)
    }
}

/// What `split_optional_flags` returns for the given flags.
pub open spec fn split_profile_flags(flags: Seq<Seq<char>>) -> Result<
    (Option<ProfileId>, Seq<Seq<char>>),
    ProfileErrorView,
> {
    match scan_profile_flags(flags, 0, None, None, seq![]) {
        Err(error) => Err(error),
        Ok((None, None, remaining)) => Ok((None, remaining)),
        Ok((Some(platform), Some(quality), remaining)) => {
            if is_profile_component(platform) && is_profile_component(quality) {
                Ok((Some(ProfileId { platform, quality }), remaining))
            } else {
                Err(new_profile_error(platform, quality))
            }
        },
        Ok(_) => Err(ProfileErrorView::Unpaired),
    }
}

/// Checks one profile component.
pub fn validate_profile_component(value: &str, field: ProfileField) -> (result: Result<(), ProfileError>)
    ensures
        result is Ok <==> is_profile_component(value@),
        result matches Err(e) ==> e@ == (ProfileErrorView::InvalidComponent { field, value: value@ }),
{
    let chars = text_chars(value);
    let mut ok = 1 <= chars.len() && chars.len() <= 32;
    let mut i: usize = 0;
    while i < chars.len()
        invariant
            chars@ == value@,
            i <= chars.len(),
            ok == (1 <= chars.len() <= 32 && forall|k: int| 0 <= k < i ==> is_profile_char(#[trigger] chars@[k])),
        decreases chars.len() - i,
    {
        let c = chars[i];
        let allowed = ('a' <= c && c <= 'z') || ('0' <= c && c <= '9') || c == '-' || c == '_';
        ok = ok && allowed;
        i = i + 1;
    }
    if ok {
        Ok(())
    } else {
        Err(ProfileError::InvalidComponent { field, value: owned_text(value) })
    }
}

} // verus!
