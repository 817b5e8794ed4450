//! Geometry cooking options and meshlet limits.

use vstd::prelude::*;
use crate::numbers::{parse_u32, parse_unsigned};
use crate::store::VertexEncoding;
use crate::text::{concat2, concat3, debug_quoted, debug_text, decimal_digits, decimal_text, owned_text, text_eq, texts};

verus! {

/// Default maximum vertices per meshlet.
pub const DEFAULT_MAX_VERTICES: u32 = 64;

/// Default maximum triangles per meshlet.
pub const DEFAULT_MAX_TRIANGLES: u32 = 124;

/// Meshlet-local indices are bytes, so a meshlet holds at most this many
/// vertices.
pub const MAX_ENCODED_VERTICES: u32 = 255;

/// Default page budget of cooked geometry, in bytes.
pub const DEFAULT_PAGE_BYTES: u32 = 65536;

/// Per-meshlet vertex and triangle limits.
#[derive(Clone, Copy, Debug, PartialEq, Eq, Structural)]
pub struct MeshletLimits {
    pub max_vertices: u32,
    pub max_triangles: u32,
}

/// Why meshlet limits were refused.
#[derive(Clone, Copy, Debug, PartialEq, Eq, Structural)]
pub enum LimitsError {
    /// `max_vertices` is outside `3..=255`.
    VerticesOutOfRange { max_vertices: u32 },
    /// `max_triangles` is zero.
    ZeroTriangles,
}

/// Limits a meshlet builder accepts.
pub open spec fn limits_valid(limits: MeshletLimits) -> bool {
    3 <= limits.max_vertices <= MAX_ENCODED_VERTICES && limits.max_triangles > 0
}

/// The error that refused limits get: the vertex range is checked first.
pub open spec fn limits_refusal(limits: MeshletLimits) -> LimitsError {
    if !(3 <= limits.max_vertices <= MAX_ENCODED_VERTICES) {
        LimitsError::VerticesOutOfRange { max_vertices: limits.max_vertices }
    } else {
        LimitsError::ZeroTriangles
    }
}

/// The text of a limits error.
pub open spec fn limits_error_text(e: LimitsError) -> Seq<char> {
    match e {
        LimitsError::VerticesOutOfRange { max_vertices } =>
            "meshlet max vertices must be in 3..=255, got "@ + decimal_digits(max_vertices as nat),
        LimitsError::ZeroTriangles => "meshlet max triangles must be greater than zero"@,
    }
}

impl LimitsError {
    /// The human-readable text of this error.
    pub fn message(&self) -> (text: String)
        ensures
            text@ == limits_error_text(*self),
    {
        match self {
            LimitsError::VerticesOutOfRange { max_vertices } => {
                let digits = decimal_text(*max_vertices as u64);
                concat2("meshlet max vertices must be in 3..=255, got ", digits.as_str())
            },
            LimitsError::ZeroTriangles => owned_text("meshlet max triangles must be greater than zero"),
        }
    }
}

impl MeshletLimits {
    /// The default limits: 64 vertices and 124 triangles.
    pub fn default_limits() -> (limits: MeshletLimits)
        ensures
            limits == (MeshletLimits { max_vertices: DEFAULT_MAX_VERTICES, max_triangles: DEFAULT_MAX_TRIANGLES }),
    {
        MeshletLimits { max_vertices: DEFAULT_MAX_VERTICES, max_triangles: DEFAULT_MAX_TRIANGLES }
    }

    /// Accepts limits with 3..=255 vertices and at least one triangle.
    pub fn validate(self) -> (result: Result<MeshletLimits, LimitsError>)
        ensures
            match result {
                Ok(limits) => limits == self && limits_valid(self),
                Err(e) => !limits_valid(self) && e == limits_refusal(self),
            },
    {
        if !(3 <= self.max_vertices && self.max_vertices <= MAX_ENCODED_VERTICES) {
            return Err(LimitsError::VerticesOutOfRange { max_vertices: self.max_vertices });
        }
        if self.max_triangles == 0 {
            return Err(LimitsError::ZeroTriangles);
        }
        Ok(self)
    }
}

/// The options of a geometry cook.
#[derive(Clone, Copy, Debug, PartialEq, Eq, Structural)]
pub struct CookOptions {
    pub meshlet_limits: MeshletLimits,
    pub page_bytes: u32,
    pub hierarchy_levels: u32,
    pub vertex_encoding: VertexEncoding,
}

/// The options when no flag is given.
pub open spec fn default_options() -> CookOptions {
    CookOptions {
        meshlet_limits: MeshletLimits { max_vertices: DEFAULT_MAX_VERTICES, max_triangles: DEFAULT_MAX_TRIANGLES },
        page_bytes: DEFAULT_PAGE_BYTES,
        hierarchy_levels: 0,
        vertex_encoding: VertexEncoding::Float32,
    }
}

impl CookOptions {
    /// The default options.
    pub fn default_options() -> (options: CookOptions)
        ensures
            options == default_options(),
    {
        CookOptions {
            meshlet_limits: MeshletLimits::default_limits(),
            page_bytes: DEFAULT_PAGE_BYTES,
            hierarchy_levels: 0,
            vertex_encoding: VertexEncoding::Float32,
        }
    }
}

/// Why geometry options were refused.
#[derive(Debug)]
pub enum OptionsError {
    MissingValue { flag: String },
    InvalidVertexFormat { value: String },
    NotUnsigned { flag: String, value: String },
    UnknownOption { flag: String },
    Limits(LimitsError),
    TooManyLevels { levels: u32 },
    ZeroPageBudget,
}

/// The mathematical value of an [`OptionsError`].
pub enum OptionsErrorView {
    MissingValue { flag: Seq<char> },
    InvalidVertexFormat { value: Seq<char> },
    NotUnsigned { flag: Seq<char>, value: Seq<char> },
    UnknownOption { flag: Seq<char> },
    Limits(LimitsError),
    TooManyLevels { levels: u32 },
    ZeroPageBudget,
}

impl View for OptionsError {
    type V = OptionsErrorView;

    open spec fn view(&self) -> OptionsErrorView {
        match self {
            OptionsError::MissingValue { flag } => OptionsErrorView::MissingValue { flag: flag@ },
            OptionsError::InvalidVertexFormat { value } => OptionsErrorView::InvalidVertexFormat { value: value@ },
            OptionsError::NotUnsigned { flag, value } => OptionsErrorView::NotUnsigned { flag: flag@, value: value@ },
            OptionsError::UnknownOption { flag } => OptionsErrorView::UnknownOption { flag: flag@ },
            OptionsError::Limits(e) => OptionsErrorView::Limits(*e),
            OptionsError::TooManyLevels { levels } => OptionsErrorView::TooManyLevels { levels: *levels },
            OptionsError::ZeroPageBudget => OptionsErrorView::ZeroPageBudget,
        }
    }
}

/// The text of an options error.
pub open spec fn options_error_text(e: OptionsErrorView) -> Seq<char> {
    match e {
        OptionsErrorView::MissingValue { flag } => flag + " requires a value"@,
        OptionsErrorView::InvalidVertexFormat { value } =>
            "--vertex-format must be float32 or quantized32, got "@ + debug_text(value),
        OptionsErrorView::NotUnsigned { flag, value } =>
            flag + " requires an unsigned integer, got "@ + debug_text(value),
        OptionsErrorView::UnknownOption { flag } => "unknown geometry option "@ + debug_text(flag),
        OptionsErrorView::Limits(e) => limits_error_text(e),
        OptionsErrorView::TooManyLevels { levels } =>
            "geometry hierarchy levels must be in 0..=16, got "@ + decimal_digits(levels as nat),
        OptionsErrorView::ZeroPageBudget => "geometry page budget must be greater than zero"@,
    }
}

impl OptionsError {
    /// The human-readable text of this error.
    pub fn message(&self) -> (text: String)
        ensures
            text@ == options_error_text(self@),
    {
        match self {
            OptionsError::MissingValue { flag } => concat2(flag.as_str(), " requires a value"),
            OptionsError::InvalidVertexFormat { value } => {
                let quoted = debug_quoted(value.as_str());
                concat2("--vertex-format must be float32 or quantized32, got ", quoted.as_str())
            },
            OptionsError::NotUnsigned { flag, value } => {
                let quoted = debug_quoted(value.as_str());
                concat3(flag.as_str(), " requires an unsigned integer, got ", quoted.as_str())
            },
            OptionsError::UnknownOption { flag } => {
                let quoted = debug_quoted(flag.as_str());
                concat2("unknown geometry option ", quoted.as_str())
            },
            OptionsError::Limits(e) => e.message(),
            OptionsError::TooManyLevels { levels } => {
                let digits = decimal_text(*levels as u64);
                concat2("geometry hierarchy levels must be in 0..=16, got ", digits.as_str())
            },
            OptionsError::ZeroPageBudget => owned_text("geometry page budget must be greater than zero"),
        }
    }
}

/// The scan of `parse_options` from position `i` with the options so far.
pub open spec fn scan_options(flags: Seq<Seq<char>>, i: int, o: CookOptions) -> Result<CookOptions, OptionsErrorView>
    decreases flags.len() - i,
{
    if i >= flags.len() || i < 0 {
        Ok(o)
    } else if i + 1 >= flags.len() {
        Err(OptionsErrorView::MissingValue { flag: flags[i] })
    } else if flags[i] == "--vertex-format"@ {
        if flags[i + 1] == "float32"@ {
            scan_options(flags, i + 2, CookOptions { vertex_encoding: VertexEncoding::Float32, ..o })
        } else if flags[i + 1] == "quantized32"@ {
            scan_options(flags, i + 2, CookOptions { vertex_encoding: VertexEncoding::Quantized, ..o })
        } else {
            Err(OptionsErrorView::InvalidVertexFormat { value: flags[i + 1] })
        }
    } else {
        match parse_unsigned(flags[i + 1], u32::MAX as nat) {
            None => Err(OptionsErrorView::NotUnsigned { flag: flags[i], value: flags[i + 1] }),
            Some(v) => {
                let v = v as u32;
                if flags[i] == "--max-vertices"@ {
                    scan_options(flags, i + 2, CookOptions {
                        meshlet_limits: MeshletLimits { max_vertices: v, ..o.meshlet_limits },
                        ..o
                    })
                } else if flags[i] == "--max-triangles"@ {
                    scan_options(flags, i + 2, CookOptions {
                        meshlet_limits: MeshletLimits { max_triangles: v, ..o.meshlet_limits },
                        ..o
                    })
                } else if flags[i] == "--page-bytes"@ {
                    scan_options(flags, i + 2, CookOptions { page_bytes: v, ..o })
                } else if flags[i] == "--hierarchy-levels"@ {
                    scan_options(flags, i + 2, CookOptions { hierarchy_levels: v, ..o })
                } else {
                    Err(OptionsErrorView::UnknownOption { flag: flags[i] })
                }
            },
        }
    }
}

/// What `parse_options` returns for the given flags: the scanned options
/// when their limits are valid, there are at most 16 hierarchy levels and
/// the page budget is not zero.
pub open spec fn parse_options_spec(flags: Seq<Seq<char>>) -> Result<CookOptions, OptionsErrorView> {
    match scan_options(flags, 0, default_options()) {
        Err(e) => Err(e),
        Ok(o) => if !limits_valid(o.meshlet_limits) {
            Err(OptionsErrorView::Limits(limits_refusal(o.meshlet_limits)))
        } else if o.hierarchy_levels > 16 {
            Err(OptionsErrorView::TooManyLevels { levels: o.hierarchy_levels })
        } else if o.page_bytes == 0 {
            Err(OptionsErrorView::ZeroPageBudget)
        } else {
            Ok(o)
        },
    }
}

/// Parses `--max-vertices N --max-triangles N --page-bytes N
/// --hierarchy-levels N --vertex-format float32|quantized32`, each flag
/// followed by its value.
pub fn parse_options(flags: &[String]) -> (result: Result<CookOptions, OptionsError>)
    ensures
        match parse_options_spec(texts(flags@)) {
            Ok(o) => result == Ok::<CookOptions, OptionsError>(o),
            Err(e) => result matches Err(r) && r@ == e,
        },
{
    let mut options = CookOptions::default_options();
    let mut index: usize = 0;
    let ghost all = texts(flags@);
    while index < flags.len()
        invariant
            all == texts(flags@),
            index <= flags.len(),
            scan_options(all, 0, default_options()) == scan_options(all, index as int, options),
        decreases flags.len() - index,
    {
        let flag = &flags[index];
        if index + 1 >= flags.len() {
            return Err(OptionsError::MissingValue { flag: flag.clone() });
        }
        let value = &flags[index + 1];
        if text_eq(flag.as_str(), "--vertex-format") {
            if text_eq(value.as_str(), "float32") {
                options.vertex_encoding = VertexEncoding::Float32;
            } else if text_eq(value.as_str(), "quantized32") {
                options.vertex_encoding = VertexEncoding::Quantized;
            } else {
                return Err(OptionsError::InvalidVertexFormat { value: value.clone() });
            }
            index = index + 2;
            continue;
        }
        let parsed = match parse_u32(value.as_str()) {
            Some(v) => v,
            None => return Err(OptionsError::NotUnsigned { flag: flag.clone(), value: value.clone() }),
        };
        if text_eq(flag.as_str(), "--max-vertices") {
            options.meshlet_limits.max_vertices = parsed;
        } else if text_eq(flag.as_str(), "--max-triangles") {
            options.meshlet_limits.max_triangles = parsed;
        } else if text_eq(flag.as_str(), "--page-bytes") {
            options.page_bytes = parsed;
        } else if text_eq(flag.as_str(), "--hierarchy-levels") {
            options.hierarchy_levels = parsed;
        } else {
            return Err(OptionsError::UnknownOption { flag: flag.clone() });
        }
        index = index + 2;
    }
    if let Err(e) = options.meshlet_limits.validate() {
        return Err(OptionsError::Limits(e));
    }
    if options.hierarchy_levels > 16 {
        return Err(OptionsError::TooManyLevels { levels: options.hierarchy_levels });
    }
    if options.page_bytes == 0 {
        return Err(OptionsError::ZeroPageBudget);
    }
    Ok(options)
}

/// Accepted geometry options are always usable: valid meshlet limits, at
/// most 16 hierarchy levels and a non-zero page budget.
pub proof fn law_options_are_bounded(flags: Seq<Seq<char>>)
    ensures
        parse_options_spec(flags) matches Ok(o) ==> limits_valid(o.meshlet_limits) && o.hierarchy_levels <= 16
            && o.page_bytes > 0,
{
}

} // verus!
