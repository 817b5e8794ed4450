//! Texture cooking settings: the option grammar, the manifest contract, the
//! artifact format a profile gets and the build key of a recipe.
//!
//! The alpha-coverage reference is a 32-bit float; it is carried here as its
//! IEEE-754 bit pattern, which is what the build key hashes.

use vstd::prelude::*;
use crate::bytes::{ascii_bytes, le32, lemma_le32_injective, push_ascii, push_bytes, push_u32, sha256, sha256_digest};
use crate::profile::{AssetProfile, ProfileId};
use crate::store::{profiled_build_key, profiled_key, TEXTURE_RECIPE_VERSION};
use crate::text::{debug_quoted, debug_text, decimal_digits, decimal_text, owned_text, push_char, text_chars, text_eq, texts};

verus! {

/// The pixel format of a cooked texture.
#[derive(Clone, Copy, Debug, PartialEq, Eq, Structural)]
pub enum TextureArtifactFormat {
    Bc7Linear,
    Bc7Srgb,
    Rgba8Linear,
    Rgba8Srgb,
    Rgba8NormalVariance,
}

/// The name a manifest records for a format.
pub open spec fn format_name(f: TextureArtifactFormat) -> Seq<char> {
    match f {
        TextureArtifactFormat::Bc7Linear => "bc7-rgba-unorm"@,
        TextureArtifactFormat::Bc7Srgb => "bc7-rgba-unorm-srgb"@,
        TextureArtifactFormat::Rgba8Linear => "rgba8-unorm"@,
        TextureArtifactFormat::Rgba8Srgb => "rgba8-unorm-srgb"@,
        TextureArtifactFormat::Rgba8NormalVariance => "rgba8-unorm-normal-variance"@,
    }
}

impl TextureArtifactFormat {
    /// The name a manifest records for this format.
    pub fn name(self) -> (name: &'static str)
        ensures
            name@ == format_name(self),
    {
        match self {
            TextureArtifactFormat::Bc7Linear => "bc7-rgba-unorm",
            TextureArtifactFormat::Bc7Srgb => "bc7-rgba-unorm-srgb",
            TextureArtifactFormat::Rgba8Linear => "rgba8-unorm",
            TextureArtifactFormat::Rgba8Srgb => "rgba8-unorm-srgb",
            TextureArtifactFormat::Rgba8NormalVariance => "rgba8-unorm-normal-variance",
        }
    }

    /// Whether the format is BC7 block compressed.
    pub fn is_block_compressed(self) -> (compressed: bool)
        ensures
            compressed == (self == TextureArtifactFormat::Bc7Linear || self == TextureArtifactFormat::Bc7Srgb),
    {
        match self {
            TextureArtifactFormat::Bc7Linear | TextureArtifactFormat::Bc7Srgb => true,
            _ => false,
        }
    }
}

/// Whether the 32-bit float with these bits is finite and not below zero
/// (negative zero counts as zero).
pub open spec fn finite_non_negative(bits: u32) -> bool {
    (bits / 0x80_0000) % 0x100 != 0xff && (bits < 0x8000_0000 || bits == 0x8000_0000)
}

fn is_finite_non_negative(bits: u32) -> (ok: bool)
    ensures
        ok == finite_non_negative(bits),
{
    (bits / 0x80_0000) % 0x100 != 0xff && (bits < 0x8000_0000 || bits == 0x8000_0000)
}

/// How a texture is cooked: as a normal map, as linear (non-color) data,
/// and with an optional alpha-coverage reference (its float bits).
#[derive(Clone, Copy, Debug, PartialEq, Eq, Structural)]
pub struct TextureSettings {
    pub normal_map: bool,
    pub linear: bool,
    pub alpha_coverage_bits: Option<u32>,
}

/// Why texture settings were refused.
#[derive(Clone, Debug)]
pub enum TextureError {
    AlphaMissingValue,
    AlphaInvalid,
    AlphaRepeated,
    UnknownOption { flag: String },
    Repeated { flag: String },
    NormalWithCoverage,
    ManifestNotObject,
    ManifestFieldCount,
    ManifestColorSpaceMissing,
    ManifestNormalMissing,
    ManifestCoverageInvalid,
    ManifestUnknownColorSpace { value: String },
    ManifestNormalNotLinear,
    ManifestNormalWithCoverage,
}

/// A texture-settings error as plain values.
pub enum TextureErrorView {
    AlphaMissingValue,
    AlphaInvalid,
    AlphaRepeated,
    UnknownOption { flag: Seq<char> },
    Repeated { flag: Seq<char> },
    NormalWithCoverage,
    ManifestNotObject,
    ManifestFieldCount,
    ManifestColorSpaceMissing,
    ManifestNormalMissing,
    ManifestCoverageInvalid,
    ManifestUnknownColorSpace { value: Seq<char> },
    ManifestNormalNotLinear,
    ManifestNormalWithCoverage,
}

impl View for TextureError {
    type V = TextureErrorView;

    open spec fn view(&self) -> TextureErrorView {
        match self {
            TextureError::AlphaMissingValue => TextureErrorView::AlphaMissingValue,
            TextureError::AlphaInvalid => TextureErrorView::AlphaInvalid,
            TextureError::AlphaRepeated => TextureErrorView::AlphaRepeated,
            TextureError::UnknownOption { flag } => TextureErrorView::UnknownOption { flag: flag@ },
            TextureError::Repeated { flag } => TextureErrorView::Repeated { flag: flag@ },
            TextureError::NormalWithCoverage => TextureErrorView::NormalWithCoverage,
            TextureError::ManifestNotObject => TextureErrorView::ManifestNotObject,
            TextureError::ManifestFieldCount => TextureErrorView::ManifestFieldCount,
            TextureError::ManifestColorSpaceMissing => TextureErrorView::ManifestColorSpaceMissing,
            TextureError::ManifestNormalMissing => TextureErrorView::ManifestNormalMissing,
            TextureError::ManifestCoverageInvalid => TextureErrorView::ManifestCoverageInvalid,
            TextureError::ManifestUnknownColorSpace { value } => TextureErrorView::ManifestUnknownColorSpace { value: value@ },
            TextureError::ManifestNormalNotLinear => TextureErrorView::ManifestNormalNotLinear,
            TextureError::ManifestNormalWithCoverage => TextureErrorView::ManifestNormalWithCoverage,
        }
    }
}

/// The text of a texture-settings error.
pub open spec fn texture_error_text(e: TextureErrorView) -> Seq<char> {
    match e {
        TextureErrorView::AlphaMissingValue => "--alpha-coverage requires a value"@,
        TextureErrorView::AlphaInvalid => "--alpha-coverage must be a finite non-negative number"@,
        TextureErrorView::AlphaRepeated => "--alpha-coverage may only be specified once"@,
        TextureErrorView::UnknownOption { flag } => "unknown texture option "@ + debug_text(flag),
        TextureErrorView::Repeated { flag } => flag + " may only be specified once"@,
        TextureErrorView::NormalWithCoverage => "normal maps cannot use alpha-coverage mips"@,
        TextureErrorView::ManifestNotObject => "asset manifest texture settings are missing or not an object"@,
        TextureErrorView::ManifestFieldCount => "asset manifest texture settings have unknown or missing fields"@,
        TextureErrorView::ManifestColorSpaceMissing => "asset manifest texture color_space is missing or not a string"@,
        TextureErrorView::ManifestNormalMissing => "asset manifest texture normal_map is missing or not a boolean"@,
        TextureErrorView::ManifestCoverageInvalid => "asset manifest alpha coverage reference is invalid"@,
        TextureErrorView::ManifestUnknownColorSpace { value } => "asset manifest has unknown color space "@ + debug_text(value),
        TextureErrorView::ManifestNormalNotLinear => "normal-map texture manifests must use linear color space"@,
        TextureErrorView::ManifestNormalWithCoverage => "normal-map texture manifests cannot use alpha coverage"@,
    }
}

impl TextureError {
    /// The human-readable text of this error.
    pub fn message(&self) -> (text: String)
        ensures
            text@ == texture_error_text(self@),
    {
        match self {
            TextureError::AlphaMissingValue => owned_text("--alpha-coverage requires a value"),
            TextureError::AlphaInvalid => owned_text("--alpha-coverage must be a finite non-negative number"),
            TextureError::AlphaRepeated => owned_text("--alpha-coverage may only be specified once"),
            TextureError::UnknownOption { flag } => {
                let mut out = owned_text("unknown texture option ");
                let quoted = debug_quoted(flag.as_str());
                out.append(quoted.as_str());
                out
            },
            TextureError::Repeated { flag } => {
                let mut out = owned_text(flag.as_str());
                out.append(" may only be specified once");
                out
            },
            TextureError::NormalWithCoverage => owned_text("normal maps cannot use alpha-coverage mips"),
            TextureError::ManifestNotObject => owned_text("asset manifest texture settings are missing or not an object"),
            TextureError::ManifestFieldCount => owned_text("asset manifest texture settings have unknown or missing fields"),
            TextureError::ManifestColorSpaceMissing => owned_text("asset manifest texture color_space is missing or not a string"),
            TextureError::ManifestNormalMissing => owned_text("asset manifest texture normal_map is missing or not a boolean"),
            TextureError::ManifestCoverageInvalid => owned_text("asset manifest alpha coverage reference is invalid"),
            TextureError::ManifestUnknownColorSpace { value } => {
                let mut out = owned_text("asset manifest has unknown color space ");
                let quoted = debug_quoted(value.as_str());
                out.append(quoted.as_str());
                out
            },
            TextureError::ManifestNormalNotLinear => owned_text("normal-map texture manifests must use linear color space"),
            TextureError::ManifestNormalWithCoverage => owned_text("normal-map texture manifests cannot use alpha coverage"),
        }
    }
}

/// The scan of `TextureSettings::parse` from position `i`; `coverage[k]` is
/// the float bits of `flags[k]` when that text parses as a 32-bit float.
pub open spec fn scan_texture_flags(
    flags: Seq<Seq<char>>,
    coverage: Seq<Option<u32>>,
    i: int,
    normal: bool,
    linear: bool,
    alpha: Option<u32>,
) -> Result<(bool, bool, Option<u32>), TextureErrorView>
    decreases flags.len() - i,
{
    if i >= flags.len() || i < 0 {
        Ok((normal, linear, alpha))
    } else if flags[i] == "--alpha-coverage"@ {
        if i + 1 >= flags.len() {
            Err(TextureErrorView::AlphaMissingValue)
        } else {
            match coverage[i + 1] {
                None => Err(TextureErrorView::AlphaInvalid),
                Some(bits) => if !finite_non_negative(bits) {
                    Err(TextureErrorView::AlphaInvalid)
                } else if alpha is Some {
                    Err(TextureErrorView::AlphaRepeated)
                } else {
                    scan_texture_flags(flags, coverage, i + 2, normal, linear, Some(bits))
                },
            }
        }
    } else if flags[i] == "--normal"@ {
        if normal {
            Err(TextureErrorView::Repeated { flag: flags[i] })
        } else {
            scan_texture_flags(flags, coverage, i + 1, true, linear, alpha)
        }
    } else if flags[i] == "--linear"@ {
        if linear {
            Err(TextureErrorView::Repeated { flag: flags[i] })
        } else {
            scan_texture_flags(flags, coverage, i + 1, normal, true, alpha)
        }
    } else {
        Err(TextureErrorView::UnknownOption { flag: flags[i] })
    }
}

/// What `TextureSettings::parse` gives: a normal map is always linear and
/// takes no alpha coverage.
pub open spec fn parse_texture_flags(flags: Seq<Seq<char>>, coverage: Seq<Option<u32>>) -> Result<TextureSettings, TextureErrorView> {
    match scan_texture_flags(flags, coverage, 0, false, false, None) {
        Err(e) => Err(e),
        Ok((normal, linear, alpha)) => if normal && alpha is Some {
            Err(TextureErrorView::NormalWithCoverage)
        } else {
            Ok(TextureSettings { normal_map: normal, linear: linear || normal, alpha_coverage_bits: alpha })
        },
    }
}

/// The texture fields of an asset manifest, as read from its JSON object.
pub struct TextureManifestFields {
    /// How many fields the settings object has.
    pub field_count: usize,
    /// `color_space`, when it is a string.
    pub color_space: Option<String>,
    /// `normal_map`, when it is a boolean.
    pub normal_map: Option<bool>,
    /// Whether the object has an `alpha_coverage_reference` key.
    pub has_coverage_key: bool,
    /// The float bits of `alpha_coverage_reference` when it is a number
    /// (narrowed to 32 bits); `None` for null or any other value.
    pub coverage_bits: Option<u32>,
}

/// What `TextureSettings::from_manifest` gives for the manifest's fields
/// (`None` when the settings are not an object).
pub open spec fn manifest_settings(
    fields: Option<(nat, Option<Seq<char>>, Option<bool>, bool, Option<u32>)>,
) -> Result<TextureSettings, TextureErrorView> {
    match fields {
        None => Err(TextureErrorView::ManifestNotObject),
        Some((count, color_space, normal_map, has_key, coverage)) => {
            if count != 3 {
                Err(TextureErrorView::ManifestFieldCount)
            } else if color_space is None {
                Err(TextureErrorView::ManifestColorSpaceMissing)
            } else if normal_map is None {
                Err(TextureErrorView::ManifestNormalMissing)
            } else if (coverage matches Some(b) && !finite_non_negative(b)) || !has_key {
                Err(TextureErrorView::ManifestCoverageInvalid)
            } else if color_space->0 != "linear"@ && color_space->0 != "srgb"@ {
                Err(TextureErrorView::ManifestUnknownColorSpace { value: color_space->0 })
            } else {
                let linear = color_space->0 == "linear"@;
                let normal = normal_map->0;
                if normal && !linear {
                    Err(TextureErrorView::ManifestNormalNotLinear)
                } else if normal && coverage is Some {
                    Err(TextureErrorView::ManifestNormalWithCoverage)
                } else {
                    Ok(TextureSettings { normal_map: normal, linear, alpha_coverage_bits: coverage })
                }
            }
        },
    }
}

/// The manifest fields as plain values.
pub open spec fn manifest_fields_view(fields: Option<&TextureManifestFields>) -> Option<(nat, Option<Seq<char>>, Option<bool>, bool, Option<u32>)> {
    match fields {
        None => None,
        Some(f) => Some((
            f.field_count as nat,
            match f.color_space { Some(c) => Some(c@), None => None },
            f.normal_map,
            f.has_coverage_key,
            f.coverage_bits,
        )),
    }
}

/// The format a texture with these settings is cooked to for a profile:
/// normal maps keep their variance in RGBA8, the `portable` platform gets
/// uncompressed RGBA8, every other target BC7.
pub open spec fn artifact_format_for(settings: TextureSettings, profile: Option<ProfileId>) -> TextureArtifactFormat {
    if settings.normal_map {
        TextureArtifactFormat::Rgba8NormalVariance
    } else if profile matches Some(p) && p.platform == "portable"@ {
        if settings.linear { TextureArtifactFormat::Rgba8Linear } else { TextureArtifactFormat::Rgba8Srgb }
    } else if settings.linear {
        TextureArtifactFormat::Bc7Linear
    } else {
        TextureArtifactFormat::Bc7Srgb
    }
}

/// The bytes hashed into a texture build key.
pub open spec fn texture_key_bytes(settings: TextureSettings, source_sha256: Seq<u8>) -> Seq<u8> {
    ascii_bytes("bloom-texture-recipe"@) + seq![0u8] + le32(TEXTURE_RECIPE_VERSION) + source_sha256
        + seq![if settings.normal_map { 1u8 } else { 0u8 }, if settings.linear { 1u8 } else { 0u8 }]
        + le32(match settings.alpha_coverage_bits { Some(b) => b, None => 0xffff_ffffu32 })
}

impl TextureSettings {
    /// Settings from a texture's role: normal maps and non-sRGB data are
    /// linear.
    pub fn from_semantics(is_normal: bool, is_srgb: bool, alpha_coverage_bits: Option<u32>) -> (settings: TextureSettings)
        ensures
            settings == (TextureSettings { normal_map: is_normal, linear: is_normal || !is_srgb, alpha_coverage_bits }),
    {
        TextureSettings { normal_map: is_normal, linear: is_normal || !is_srgb, alpha_coverage_bits }
    }

    /// Parses `[--normal] [--linear] [--alpha-coverage VALUE]`, each at most
    /// once. `coverage[k]` holds the float bits of `flags[k]` when that text
    /// parses as a 32-bit float, else `None`.
    pub fn parse(flags: &[String], coverage: &[Option<u32>]) -> (result: Result<TextureSettings, TextureError>)
        requires
            coverage@.len() == flags@.len(),
        ensures
            match parse_texture_flags(texts(flags@), coverage@) {
                Ok(s) => result == Ok::<TextureSettings, TextureError>(s),
                Err(e) => result matches Err(err) && err@ == e,
            },
    {
        let mut normal_map = false;
        let mut linear = false;
        let mut alpha: Option<u32> = None;
        let ghost all = texts(flags@);
        let mut index: usize = 0;
        while index < flags.len()
            invariant
                all == texts(flags@),
                coverage@.len() == flags@.len(),
                index <= flags.len(),
                scan_texture_flags(all, coverage@, 0, false, false, None)
                    == scan_texture_flags(all, coverage@, index as int, normal_map, linear, alpha),
            decreases flags.len() - index,
        {
            let flag = flags[index].as_str();
            if text_eq(flag, "--alpha-coverage") {
                if index + 1 >= flags.len() {
                    return Err(TextureError::AlphaMissingValue);
                }
                let bits = match coverage[index + 1] {
                    Some(b) => b,
                    None => return Err(TextureError::AlphaInvalid),
                };
                if !is_finite_non_negative(bits) {
                    return Err(TextureError::AlphaInvalid);
                }
                if alpha.is_some() {
                    return Err(TextureError::AlphaRepeated);
                }
                alpha = Some(bits);
                index = index + 2;
            } else if text_eq(flag, "--normal") {
                if normal_map {
                    return Err(TextureError::Repeated { flag: owned_text(flag) });
                }
                normal_map = true;
                index = index + 1;
            } else if text_eq(flag, "--linear") {
                if linear {
                    return Err(TextureError::Repeated { flag: owned_text(flag) });
                }
                linear = true;
                index = index + 1;
            } else {
                return Err(TextureError::UnknownOption { flag: owned_text(flag) });
            }
        }
        if normal_map {
            linear = true;
        }
        if normal_map && alpha.is_some() {
            return Err(TextureError::NormalWithCoverage);
        }
        Ok(TextureSettings { normal_map, linear, alpha_coverage_bits: alpha })
    }

    /// Reads the texture settings a manifest records (`None` when they are
    /// not a JSON object).
    pub fn from_manifest(fields: Option<&TextureManifestFields>) -> (result: Result<TextureSettings, TextureError>)
        ensures
            match manifest_settings(manifest_fields_view(fields)) {
                Ok(s) => result == Ok::<TextureSettings, TextureError>(s),
                Err(e) => result matches Err(err) && err@ == e,
            },
    {
        let fields = match fields {
            Some(f) => f,
            None => return Err(TextureError::ManifestNotObject),
        };
        if fields.field_count != 3 {
            return Err(TextureError::ManifestFieldCount);
        }
        let color_space = match &fields.color_space {
            Some(c) => c.as_str(),
            None => return Err(TextureError::ManifestColorSpaceMissing),
        };
        let normal_map = match fields.normal_map {
            Some(n) => n,
            None => return Err(TextureError::ManifestNormalMissing),
        };
        let invalid_coverage = match fields.coverage_bits {
            Some(b) => !is_finite_non_negative(b),
            None => false,
        };
        if invalid_coverage || !fields.has_coverage_key {
            return Err(TextureError::ManifestCoverageInvalid);
        }
        let linear = if text_eq(color_space, "linear") {
            true
        } else if text_eq(color_space, "srgb") {
            false
        } else {
            return Err(TextureError::ManifestUnknownColorSpace { value: owned_text(color_space) });
        };
        if normal_map && !linear {
            return Err(TextureError::ManifestNormalNotLinear);
        }
        if normal_map && fields.coverage_bits.is_some() {
            return Err(TextureError::ManifestNormalWithCoverage);
        }
        Ok(TextureSettings { normal_map, linear, alpha_coverage_bits: fields.coverage_bits })
    }

    /// The format these settings are cooked to for a profile.
    pub fn artifact_format(self, profile: Option<&AssetProfile>) -> (format: TextureArtifactFormat)
        ensures
            format == artifact_format_for(self, match profile { Some(p) => Some(p@), None => None }),
    {
        if self.normal_map {
            TextureArtifactFormat::Rgba8NormalVariance
        } else if match profile { Some(p) => text_eq(p.platform(), "portable"), None => false } {
            if self.linear { TextureArtifactFormat::Rgba8Linear } else { TextureArtifactFormat::Rgba8Srgb }
        } else if self.linear {
            TextureArtifactFormat::Bc7Linear
        } else {
            TextureArtifactFormat::Bc7Srgb
        }
    }

    /// Whether the texture is a normal map.
    pub fn is_normal_map(self) -> (normal: bool)
        ensures
            normal == self.normal_map,
    {
        self.normal_map
    }

    /// Whether the texture holds sRGB color.
    pub fn is_srgb(self) -> (srgb: bool)
        ensures
            srgb == !self.linear,
    {
        !self.linear
    }

    /// The build key of these settings applied to a source.
    pub fn build_key_sha256(self, source_sha256: [u8; 32]) -> (key: [u8; 32])
        ensures
            key@ == sha256_digest(texture_key_bytes(self, source_sha256@)),
    {
        let mut bytes: Vec<u8> = Vec::new();
        push_ascii(&mut bytes, "bloom-texture-recipe");
        bytes.push(0);
        push_u32(&mut bytes, TEXTURE_RECIPE_VERSION);
        push_bytes(&mut bytes, &source_sha256);
        bytes.push(if self.normal_map { 1 } else { 0 });
        bytes.push(if self.linear { 1 } else { 0 });
        let coverage = match self.alpha_coverage_bits {
            Some(b) => b,
            None => 0xffff_ffff,
        };
        push_u32(&mut bytes, coverage);
        assert(bytes@ =~= texture_key_bytes(self, source_sha256@));
        sha256(bytes.as_slice())
    }
}

/// The texture build key for an optional profile.
pub fn build_key_for_profile(base_key_sha256: [u8; 32], profile: Option<&AssetProfile>) -> (key: [u8; 32])
    ensures
        key@ == profiled_key("bloom-profiled-texture-recipe"@, base_key_sha256@, match profile { Some(p) => Some(p@), None => None }),
{
    profiled_build_key("bloom-profiled-texture-recipe", base_key_sha256, profile)
}

/// Whether a texture build found its manifest (`hit`) and what it wrote.
#[derive(Clone, Copy, Debug, PartialEq, Eq, Structural)]
pub struct TextureBuildOutcome {
    pub cache_hit: bool,
    pub chunk_written: bool,
    pub manifest_written: bool,
}

impl TextureBuildOutcome {
    /// A build that found an up-to-date manifest and wrote nothing.
    pub fn cache_hit() -> (outcome: TextureBuildOutcome)
        ensures
            outcome == (TextureBuildOutcome { cache_hit: true, chunk_written: false, manifest_written: false }),
    {
        TextureBuildOutcome { cache_hit: true, chunk_written: false, manifest_written: false }
    }

    /// A build that wrote its manifest, and the chunk when it was new.
    pub fn cache_miss(chunk_written: bool) -> (outcome: TextureBuildOutcome)
        ensures
            outcome == (TextureBuildOutcome { cache_hit: false, chunk_written, manifest_written: true }),
    {
        TextureBuildOutcome { cache_hit: false, chunk_written, manifest_written: true }
    }

    /// The report word for the cache: `hit` or `miss`.
    pub fn cache(self) -> (word: &'static str)
        ensures
            word@ == (if self.cache_hit { "hit"@ } else { "miss"@ }),
    {
        if self.cache_hit { "hit" } else { "miss" }
    }
}

/// What a finished texture cook measured.
#[derive(Clone, Copy, Debug, PartialEq, Eq, Structural)]
pub struct CookedTextureInfo {
    pub bytes: usize,
    pub width: u32,
    pub height: u32,
    pub mip_levels: u32,
}

/// The report line of a direct texture cook.
pub open spec fn cook_report(input: Seq<char>, output: Seq<char>, source_bytes: nat, cooked: CookedTextureInfo) -> Seq<char> {
    input + " -> "@ + output + " ("@ + decimal_digits(source_bytes / 1024) + " KB -> "@
        + decimal_digits(cooked.bytes as nat / 1024) + " KB, "@ + decimal_digits(cooked.width as nat) + "x"@
        + decimal_digits(cooked.height as nat) + ", "@ + decimal_digits(cooked.mip_levels as nat) + " mips)"@
}

/// The line a direct texture cook reports: where it read and wrote, the
/// sizes in whole KiB, the dimensions and the mip count.
pub fn cook_texture(input: &str, output: &str, source_bytes: usize, cooked: CookedTextureInfo) -> (report: String)
    ensures
        report@ == cook_report(input@, output@, source_bytes as nat, cooked),
{
    let mut out = owned_text(input);
    out.append(" -> ");
    out.append(output);
    out.append(" (");
    let a = decimal_text((source_bytes / 1024) as u64);
    out.append(a.as_str());
    out.append(" KB -> ");
    let b = decimal_text((cooked.bytes / 1024) as u64);
    out.append(b.as_str());
    out.append(" KB, ");
    let w = decimal_text(cooked.width as u64);
    out.append(w.as_str());
    out.append("x");
    let h = decimal_text(cooked.height as u64);
    out.append(h.as_str());
    out.append(", ");
    let m = decimal_text(cooked.mip_levels as u64);
    out.append(m.as_str());
    out.append(" mips)");
    out
}

proof fn lemma_scan_texture_coverage(
    flags: Seq<Seq<char>>,
    coverage: Seq<Option<u32>>,
    i: int,
    normal: bool,
    linear: bool,
    alpha: Option<u32>,
)
    requires
        alpha matches Some(b) ==> finite_non_negative(b),
    ensures
        scan_texture_flags(flags, coverage, i, normal, linear, alpha) matches Ok((_, _, a)) ==> (a matches Some(b) ==> finite_non_negative(b)),
    decreases flags.len() - i,
{
    if 0 <= i < flags.len() {
        if flags[i] == "--alpha-coverage"@ {
            if i + 1 < flags.len() {
                if let Some(bits) = coverage[i + 1] {
                    if finite_non_negative(bits) && alpha is None {
                        lemma_scan_texture_coverage(flags, coverage, i + 2, normal, linear, Some(bits));
                    }
                }
            }
        } else if flags[i] == "--normal"@ {
            if !normal {
                lemma_scan_texture_coverage(flags, coverage, i + 1, true, linear, alpha);
            }
        } else if flags[i] == "--linear"@ {
            if !linear {
                lemma_scan_texture_coverage(flags, coverage, i + 1, normal, true, alpha);
            }
        }
    }
}

/// Parsed settings are consistent: a normal map is linear and has no alpha
/// coverage, and an alpha-coverage reference is a finite, non-negative
/// float.
pub proof fn law_parsed_texture_settings_are_consistent(flags: Seq<Seq<char>>, coverage: Seq<Option<u32>>)
    ensures
        parse_texture_flags(flags, coverage) matches Ok(s) ==> {
            &&& (s.normal_map ==> s.linear && s.alpha_coverage_bits is None)
            &&& (s.alpha_coverage_bits matches Some(b) ==> finite_non_negative(b))
        },
{
    lemma_scan_texture_coverage(flags, coverage, 0, false, false, None);
}

/// An ASCII letter in lower case; other characters unchanged.
pub open spec fn ascii_lower(c: char) -> char {
    if 'A' <= c && c <= 'Z' { ((c as u32) + 32) as char } else { c }
}

/// Whether a file extension (in any ASCII case) names an image format that
/// a directory cook picks up: png, jpg, jpeg, bmp or tga.
pub open spec fn cookable_extension(ext: Seq<char>) -> bool {
    let lower = ext.map_values(|c: char| ascii_lower(c));
    lower == "png"@ || lower == "jpg"@ || lower == "jpeg"@ || lower == "bmp"@ || lower == "tga"@
}

/// Whether a directory cook picks up a file with this extension.
pub fn is_cookable_extension(ext: &str) -> (cookable: bool)
    ensures
        cookable == cookable_extension(ext@),
{
    let chars = text_chars(ext);
    let mut lower = String::new();
    let mut i: usize = 0;
    while i < chars.len()
        invariant
            chars@ == ext@,
            i <= chars.len(),
            lower@ == ext@.take(i as int).map_values(|c: char| ascii_lower(c)),
        decreases chars.len() - i,
    {
        let c = chars[i];
        let l = if 'A' <= c && c <= 'Z' { ((c as u32) + 32) as u8 as char } else { c };
        assert(l == ascii_lower(c)) by {
            if 'A' <= c && c <= 'Z' {
                assert(((c as u32) + 32) as u8 as char == ((c as u32) + 32) as char);
            }
        }
        push_char(&mut lower, l);
        assert(ext@.take(i + 1).map_values(|c: char| ascii_lower(c))
            =~= ext@.take(i as int).map_values(|c: char| ascii_lower(c)).push(l));
        i = i + 1;
    }
    assert(ext@.take(chars.len() as int) =~= ext@);
    let s = lower.as_str();
    text_eq(s, "png") || text_eq(s, "jpg") || text_eq(s, "jpeg") || text_eq(s, "bmp") || text_eq(s, "tga")
}

/// Two texture recipes with valid coverage references hash the same bytes
/// only when they are the same recipe: the build key follows the source,
/// the normal-map and linear flags and the coverage reference, barring a
/// SHA-256 collision.
pub proof fn law_texture_key_input_identifies_recipe(a: TextureSettings, source_a: Seq<u8>, b: TextureSettings, source_b: Seq<u8>)
    requires
        source_a.len() == 32,
        source_b.len() == 32,
        a.alpha_coverage_bits matches Some(bits) ==> finite_non_negative(bits),
        b.alpha_coverage_bits matches Some(bits) ==> finite_non_negative(bits),
        texture_key_bytes(a, source_a) == texture_key_bytes(b, source_b),
    ensures
        a == b,
        source_a == source_b,
{
    reveal_strlit("bloom-texture-recipe");
    let x = texture_key_bytes(a, source_a);
    let y = texture_key_bytes(b, source_b);
    assert(x.subrange(25, 57) =~= source_a);
    assert(y.subrange(25, 57) =~= source_b);
    assert(x[57] == y[57] && x[58] == y[58]);
    let ca = match a.alpha_coverage_bits { Some(v) => v, None => 0xffff_ffffu32 };
    let cb = match b.alpha_coverage_bits { Some(v) => v, None => 0xffff_ffffu32 };
    assert(x.subrange(59, 63) =~= le32(ca));
    assert(y.subrange(59, 63) =~= le32(cb));
    lemma_le32_injective(ca, cb);
    assert(!finite_non_negative(0xffff_ffffu32));
}

/// Whether a format stores sRGB-encoded colour.
pub open spec fn srgb_format(f: TextureArtifactFormat) -> bool {
    f == TextureArtifactFormat::Bc7Srgb || f == TextureArtifactFormat::Rgba8Srgb
}

/// Whether a format is BC7 block compressed.
pub open spec fn compressed_format(f: TextureArtifactFormat) -> bool {
    f == TextureArtifactFormat::Bc7Linear || f == TextureArtifactFormat::Bc7Srgb
}

/// The cooked format keeps the colour space of the settings: an ordinary
/// texture (not a normal map) is cooked to an sRGB format exactly when its
/// settings are sRGB, to a BC7 block-compressed format on every platform
/// but `portable`, and to uncompressed RGBA8 there; a normal map always
/// keeps its variance in RGBA8.
pub proof fn law_artifact_format_keeps_color_space(s: TextureSettings, profile: Option<ProfileId>)
    ensures
        !s.normal_map ==> (srgb_format(artifact_format_for(s, profile)) <==> !s.linear),
        !s.normal_map ==> (compressed_format(artifact_format_for(s, profile))
            <==> !(profile matches Some(p) && p.platform == "portable"@)),
        s.normal_map ==> artifact_format_for(s, profile) == TextureArtifactFormat::Rgba8NormalVariance,
{
}

} // verus!
