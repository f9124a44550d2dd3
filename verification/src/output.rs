//! Surface selection, format ranking, luminance, and HDR-metadata policy.
use vstd::prelude::*;
use vstd::string::StringExecFns;

use crate::float_bits;
use crate::float_bits::{F32_INFINITY, is_finite32, is_less32};
use crate::hdr_metadata::HdrMetadata;
use crate::numeric;
use crate::numeric::max_u32;
use crate::text::push_text;

verus! {

/// The bits of the luminance of HDR reference white, 203 nits.
pub const HDR_REFERENCE_WHITE_NITS: u32 = 0x434b_0000;

/// The bits of the absolute peak of the ST 2084/PQ encoding, 10000 nits.
pub const PQ_ENCODING_PEAK_NITS: u32 = 0x461c_4000;

/// The bits of the HLG encoding peak used for system gamma and metadata, 1000
/// nits.
pub const HLG_ENCODING_PEAK_NITS: u32 = 0x447a_0000;

/// The bits of the source mastering peak used when HDR metadata is missing or
/// invalid, 1000 nits.
pub const FALLBACK_HDR_SOURCE_PEAK_NITS: u32 = 0x447a_0000;

/// The bits of the working output peak assumed for an extended-linear surface,
/// 1000 nits.
pub const EXTENDED_LINEAR_FALLBACK_PEAK_NITS: u32 = 0x447a_0000;

/// What is shown behind and around the image.
#[derive(Clone, Copy, Debug, PartialEq, Eq, Structural)]
pub enum BackgroundMode {
    Black,
    Checkerboard,
    White,
    MiddleGray,
}

/// Which output encoding is asked for.
#[derive(Clone, Copy, Debug, PartialEq, Eq, Structural)]
pub enum OutputMode {
    Auto,
    Pq,
    Hlg,
    Scrgb,
    Sdr,
}

/// How the source encodes its luminance.
#[derive(Clone, Copy, Debug, PartialEq, Eq, Structural)]
pub enum SourceDynamicRange {
    Sdr,
    Pq,
    Hlg,
}

/// How the image is rendered. The exposure is single-precision bits.
#[derive(Clone, Copy, Debug, PartialEq, Eq, Structural)]
pub struct RenderingOptions {
    pub exposure_stops: u32,
    pub background: BackgroundMode,
}

/// The color space in which a surface shows what is written to it.
#[derive(Clone, Copy, Debug, PartialEq, Eq, Structural)]
pub enum SurfaceColorSpace {
    Auto,
    Srgb,
    ExtendedSrgbLinear,
    DisplayP3,
    Bt2100Pq,
    Bt2100Hlg,
    ExtendedSrgb,
    ExtendedDisplayP3,
}

/// The format of a surface's texels.
#[derive(Clone, Copy, Debug, PartialEq, Eq, Structural)]
pub enum TextureFormat {
    Rgba8Unorm,
    Rgba8UnormSrgb,
    Bgra8Unorm,
    Bgra8UnormSrgb,
    Rgb10a2Unorm,
    Rgba16Unorm,
    Rgba16Float,
    Rgba32Float,
    /// A format that only the driver knows, by a number of its own, and whether
    /// it encodes sRGB on write.
    Other { id: u32, srgb: bool },
}

/// The color spaces that a surface supports for a format, one bit each.
#[derive(Clone, Copy, Debug, PartialEq, Eq, Structural)]
pub struct SurfaceColorSpaces {
    pub bits: u32,
}

/// A format and the color spaces in which a surface presents it.
#[derive(Clone, Copy, Debug, PartialEq, Eq, Structural)]
pub struct SurfaceFormatCapabilities {
    pub format: TextureFormat,
    pub color_spaces: SurfaceColorSpaces,
}

/// A format and a color space that a surface can be configured with.
#[derive(Clone, Copy, Debug, PartialEq, Eq, Structural)]
pub struct SurfaceCandidate {
    pub color_space: SurfaceColorSpace,
    pub format: TextureFormat,
}

/// The size and the encoding of a configured surface.
#[derive(Clone, Copy, Debug, PartialEq, Eq, Structural)]
pub struct SurfaceSettings {
    pub candidate: SurfaceCandidate,
    pub width: u32,
    pub height: u32,
    pub desired_maximum_frame_latency: u32,
}

/// Why no output could be selected.
#[derive(Clone, Copy, Debug, PartialEq, Eq, Structural)]
pub enum SurfaceOutputError {
    NoUsablePair,
    RequestedModeUnavailable(OutputMode),
}

/// The name of an output mode on the command line.
pub open spec fn output_mode_name(mode: OutputMode) -> Seq<char> {
    match mode {
        OutputMode::Auto => "auto"@,
        OutputMode::Pq => "pq"@,
        OutputMode::Hlg => "hlg"@,
        OutputMode::Scrgb => "scrgb"@,
        OutputMode::Sdr => "sdr"@,
    }
}

impl OutputMode {
    /// The name of the mode on the command line.
    pub fn as_str(self) -> (name: &'static str)
        ensures
            name@ == output_mode_name(self),
    {
        match self {
            OutputMode::Auto => "auto",
            OutputMode::Pq => "pq",
            OutputMode::Hlg => "hlg",
            OutputMode::Scrgb => "scrgb",
            OutputMode::Sdr => "sdr",
        }
    }
}

impl SourceDynamicRange {
    /// Whether the source encodes high dynamic range.
    pub fn is_hdr(self) -> (hdr: bool)
        ensures
            hdr == (self != SourceDynamicRange::Sdr),
    {
        match self {
            SourceDynamicRange::Sdr => false,
            SourceDynamicRange::Pq => true,
            SourceDynamicRange::Hlg => true,
        }
    }
}

/// The text of an output error. An automatic mode never fails as a requested
/// one.
pub open spec fn output_error_text(error: SurfaceOutputError) -> Seq<char> {
    match error {
        SurfaceOutputError::NoUsablePair =>
            "the GPU surface advertises no usable output format/color-space pair; check the display connection and GPU driver"@,
        SurfaceOutputError::RequestedModeUnavailable(OutputMode::Sdr) =>
            "requested SDR output mode is unavailable on this display; use '--output auto' or check the display and GPU driver"@,
        SurfaceOutputError::RequestedModeUnavailable(mode) => "requested HDR output mode '"@
            + output_mode_name(mode)
            + "' is unavailable on this display; use '--output auto' or '--output sdr'"@,
    }
}

impl SurfaceOutputError {
    /// The message shown for the error.
    pub fn message(self) -> (message: String)
        requires
            self != SurfaceOutputError::RequestedModeUnavailable(OutputMode::Auto),
        ensures
            message@ == output_error_text(self),
    {
        let mut message = String::new();
        match self {
            SurfaceOutputError::NoUsablePair => {
                push_text(
                    &mut message,
                    "the GPU surface advertises no usable output format/color-space pair; check the display connection and GPU driver",
                );
            },
            SurfaceOutputError::RequestedModeUnavailable(OutputMode::Sdr) => {
                push_text(
                    &mut message,
                    "requested SDR output mode is unavailable on this display; use '--output auto' or check the display and GPU driver",
                );
            },
            SurfaceOutputError::RequestedModeUnavailable(mode) => {
                push_text(&mut message, "requested HDR output mode '");
                push_text(&mut message, mode.as_str());
                push_text(
                    &mut message,
                    "' is unavailable on this display; use '--output auto' or '--output sdr'",
                );
            },
        }
        assert(message@ =~= output_error_text(self));
        message
    }
}

/// The bit that stands for a color space; the automatic choice has none.
pub open spec fn color_space_bit(color_space: SurfaceColorSpace) -> int {
    match color_space {
        SurfaceColorSpace::Auto => 0,
        SurfaceColorSpace::Srgb => 1,
        SurfaceColorSpace::ExtendedSrgbLinear => 2,
        SurfaceColorSpace::DisplayP3 => 4,
        SurfaceColorSpace::Bt2100Pq => 8,
        SurfaceColorSpace::Bt2100Hlg => 16,
        SurfaceColorSpace::ExtendedSrgb => 32,
        SurfaceColorSpace::ExtendedDisplayP3 => 64,
    }
}

impl SurfaceColorSpaces {
    /// A color space is among the supported ones.
    pub open spec fn has(&self, color_space: SurfaceColorSpace) -> bool {
        color_space != SurfaceColorSpace::Auto && (self.bits as int / color_space_bit(color_space))
            % 2 == 1
    }

    /// The set that holds one color space.
    pub fn of(color_space: SurfaceColorSpace) -> (spaces: SurfaceColorSpaces)
        ensures
            spaces.bits == color_space_bit(color_space),
            forall|other: SurfaceColorSpace| #[trigger]
                spaces.has(other) <==> other == color_space && other != SurfaceColorSpace::Auto,
    {
        let bits: u32 = match color_space {
            SurfaceColorSpace::Auto => 0,
            SurfaceColorSpace::Srgb => 1,
            SurfaceColorSpace::ExtendedSrgbLinear => 2,
            SurfaceColorSpace::DisplayP3 => 4,
            SurfaceColorSpace::Bt2100Pq => 8,
            SurfaceColorSpace::Bt2100Hlg => 16,
            SurfaceColorSpace::ExtendedSrgb => 32,
            SurfaceColorSpace::ExtendedDisplayP3 => 64,
        };
        SurfaceColorSpaces { bits }
    }

    /// Whether a color space is among the supported ones.
    pub fn contains(self, color_space: SurfaceColorSpace) -> (supported: bool)
        ensures
            supported == self.has(color_space),
    {
        let flag: u32 = SurfaceColorSpaces::of(color_space).bits;
        flag != 0 && (self.bits / flag) % 2 == 1
    }
}

/// The color space shows more than SDR white, and the viewer encodes for it.
pub open spec fn hdr_color_space(color_space: SurfaceColorSpace) -> bool {
    color_space == SurfaceColorSpace::Bt2100Pq || color_space == SurfaceColorSpace::Bt2100Hlg
        || color_space == SurfaceColorSpace::ExtendedSrgbLinear
}

/// A color space that surface selection can return.
pub open spec fn selectable(color_space: SurfaceColorSpace) -> bool {
    hdr_color_space(color_space) || color_space == SurfaceColorSpace::Srgb
}

/// Whether a color space is one of the HDR encodings.
pub fn is_hdr_color_space(color_space: SurfaceColorSpace) -> (hdr: bool)
    ensures
        hdr == hdr_color_space(color_space),
{
    match color_space {
        SurfaceColorSpace::Bt2100Pq => true,
        SurfaceColorSpace::Bt2100Hlg => true,
        SurfaceColorSpace::ExtendedSrgbLinear => true,
        _ => false,
    }
}

/// The settings of a surface of at least one pixel.
pub fn surface_configuration(candidate: SurfaceCandidate, size: (u32, u32)) -> (settings:
    SurfaceSettings)
    ensures
        settings == (SurfaceSettings {
            candidate,
            width: numeric::larger(size.0 as int, 1) as u32,
            height: numeric::larger(size.1 as int, 1) as u32,
            desired_maximum_frame_latency: 2,
        }),
{
    SurfaceSettings {
        candidate,
        width: max_u32(size.0, 1),
        height: max_u32(size.1, 1),
        desired_maximum_frame_latency: 2,
    }
}

/// The larger of two single-precision numbers; not-a-number is ignored.
pub open spec fn larger_number(a: u32, b: u32) -> u32 {
    if float_bits::nan32(a) || float_bits::less32(a, b) {
        b
    } else {
        a
    }
}

/// The smaller of two single-precision numbers; not-a-number is ignored.
pub open spec fn smaller_number(a: u32, b: u32) -> u32 {
    if float_bits::nan32(a) || float_bits::less32(b, a) {
        b
    } else {
        a
    }
}

fn max_number(a: u32, b: u32) -> (larger: u32)
    ensures
        larger == larger_number(a, b),
{
    if a % 0x8000_0000 > F32_INFINITY || is_less32(a, b) {
        b
    } else {
        a
    }
}

fn min_number(a: u32, b: u32) -> (smaller: u32)
    ensures
        smaller == smaller_number(a, b),
{
    if a % 0x8000_0000 > F32_INFINITY || is_less32(b, a) {
        b
    } else {
        a
    }
}

/// A single-precision number is finite and above zero.
pub open spec fn finite_positive(value: u32) -> bool {
    float_bits::finite32(value) && float_bits::less32(0, value)
}

/// The peak that the source was mastered for.
pub open spec fn mastering_peak(source_dynamic_range: SourceDynamicRange, source_peak: u32) -> u32 {
    if source_dynamic_range == SourceDynamicRange::Sdr {
        HDR_REFERENCE_WHITE_NITS
    } else if finite_positive(source_peak) {
        source_peak
    } else {
        FALLBACK_HDR_SOURCE_PEAK_NITS
    }
}

/// The peak that the source was mastered for, as single-precision bits: HDR
/// reference white for SDR, and a fallback where the source does not say.
pub fn source_mastering_peak_nits(
    source_dynamic_range: SourceDynamicRange,
    source_peak_nits: u32,
) -> (peak: u32)
    ensures
        peak == mastering_peak(source_dynamic_range, source_peak_nits),
        finite_positive(peak),
{
    if !source_dynamic_range.is_hdr() {
        HDR_REFERENCE_WHITE_NITS
    } else if is_finite32(source_peak_nits) && is_less32(0, source_peak_nits) {
        source_peak_nits
    } else {
        FALLBACK_HDR_SOURCE_PEAK_NITS
    }
}

/// The exposure that is applied: none where it is not finite.
pub fn applied_exposure_stops(exposure_stops: u32) -> (applied: u32)
    ensures
        applied == (if float_bits::finite32(exposure_stops) {
            exposure_stops
        } else {
            0
        }),
{
    if is_finite32(exposure_stops) {
        exposure_stops
    } else {
        0
    }
}

/// The peak that an HDR color space encodes.
pub open spec fn encoding_peak(color_space: SurfaceColorSpace) -> u32 {
    match color_space {
        SurfaceColorSpace::Bt2100Pq => PQ_ENCODING_PEAK_NITS,
        SurfaceColorSpace::Bt2100Hlg => HLG_ENCODING_PEAK_NITS,
        _ => F32_INFINITY,
    }
}

/// The metadata of an HDR surface. The content reaches at least HDR reference
/// white, at which the viewer shows its own text, and at most what is encoded.
pub open spec fn hdr_metadata_of(
    color_space: SurfaceColorSpace,
    mastering: u32,
    exposed_peak: u32,
    source_min: u32,
) -> HdrMetadata {
    let max_cll = smaller_number(
        larger_number(exposed_peak, HDR_REFERENCE_WHITE_NITS),
        encoding_peak(color_space),
    );
    HdrMetadata {
        mastering_max_nits: smaller_number(
            larger_number(mastering, max_cll),
            encoding_peak(color_space),
        ),
        mastering_min_nits: if float_bits::finite32(source_min) && !float_bits::less32(
            source_min,
            0,
        ) {
            source_min
        } else {
            0
        },
        max_cll_nits: max_cll,
        max_fall_nits: 0,
    }
}

/// The metadata that an HDR surface signals; none for another surface.
///
/// `exposed_peak_nits` is the source's mastering peak after the exposure. The
/// intensity target is an upper bound rather than a measured content maximum;
/// using it avoids another full pass over the decoded pixels.
pub fn surface_hdr_metadata(
    candidate: SurfaceCandidate,
    source_dynamic_range: SourceDynamicRange,
    source_peak_nits: u32,
    source_min_nits: u32,
    exposed_peak_nits: u32,
) -> (metadata: Option<HdrMetadata>)
    ensures
        metadata == (if hdr_color_space(candidate.color_space) {
            Some(
                hdr_metadata_of(
                    candidate.color_space,
                    mastering_peak(source_dynamic_range, source_peak_nits),
                    exposed_peak_nits,
                    source_min_nits,
                ),
            )
        } else {
            None
        }),
{
    let peak: u32 = match candidate.color_space {
        SurfaceColorSpace::Bt2100Pq => PQ_ENCODING_PEAK_NITS,
        SurfaceColorSpace::Bt2100Hlg => HLG_ENCODING_PEAK_NITS,
        SurfaceColorSpace::ExtendedSrgbLinear => F32_INFINITY,
        _ => {
            return None;
        },
    };
    let mastering: u32 = source_mastering_peak_nits(source_dynamic_range, source_peak_nits);
    let max_cll: u32 = min_number(max_number(exposed_peak_nits, HDR_REFERENCE_WHITE_NITS), peak);
    let mastering_max: u32 = min_number(max_number(mastering, max_cll), peak);
    Some(
        HdrMetadata::bt2020(
            mastering_max,
            finite_non_negative(source_min_nits),
            max_cll,
            0,
        ),
    )
}

/// A single-precision number that is finite and not negative, else zero.
pub fn finite_non_negative(value: u32) -> (kept: u32)
    ensures
        kept == (if float_bits::finite32(value) && !float_bits::less32(value, 0) {
            value
        } else {
            0
        }),
{
    if is_finite32(value) && !is_less32(value, 0) {
        value
    } else {
        0
    }
}

/// What is signaled is a volume that a display can show: its content maximum is
/// at least HDR reference white and at most its mastering peak, and neither
/// exceeds what the surface encodes.
pub proof fn signaled_volume_is_consistent(
    color_space: SurfaceColorSpace,
    mastering: u32,
    exposed_peak: u32,
    source_min: u32,
)
    requires
        hdr_color_space(color_space),
        finite_positive(mastering),
    ensures
        ({
            let metadata = hdr_metadata_of(color_space, mastering, exposed_peak, source_min);
            &&& !float_bits::nan32(metadata.max_cll_nits)
            &&& !float_bits::nan32(metadata.mastering_max_nits)
            &&& float_bits::order32(HDR_REFERENCE_WHITE_NITS) <= float_bits::order32(
                metadata.max_cll_nits,
            )
            &&& float_bits::order32(metadata.max_cll_nits) <= float_bits::order32(
                metadata.mastering_max_nits,
            )
            &&& float_bits::order32(metadata.mastering_max_nits) <= float_bits::order32(
                encoding_peak(color_space),
            )
            &&& float_bits::finite32(metadata.mastering_min_nits)
            &&& float_bits::order32(metadata.mastering_min_nits) >= 0
        }),
{
}

/// The number by which the shader knows the output encoding.
pub fn shader_mode(color_space: SurfaceColorSpace) -> (mode: u32)
    requires
        selectable(color_space),
    ensures
        mode == shader_mode_of(color_space),
{
    match color_space {
        SurfaceColorSpace::Srgb => 0,
        SurfaceColorSpace::ExtendedSrgbLinear => 1,
        SurfaceColorSpace::Bt2100Pq => 2,
        _ => 3,
    }
}

/// The number by which the shader knows an output encoding.
pub open spec fn shader_mode_of(color_space: SurfaceColorSpace) -> u32 {
    match color_space {
        SurfaceColorSpace::Srgb => 0,
        SurfaceColorSpace::ExtendedSrgbLinear => 1,
        SurfaceColorSpace::Bt2100Pq => 2,
        _ => 3,
    }
}

/// The bits to which a format quantizes each color; zero where the viewer does
/// not dither.
pub open spec fn quantization_of(format: TextureFormat) -> u8 {
    match format {
        TextureFormat::Rgba8Unorm => 8,
        TextureFormat::Rgba8UnormSrgb => 8,
        TextureFormat::Bgra8Unorm => 8,
        TextureFormat::Bgra8UnormSrgb => 8,
        TextureFormat::Rgb10a2Unorm => 10,
        _ => 0,
    }
}

/// The bits to which a format quantizes each color; zero where the viewer does
/// not dither.
pub fn quantization_bits(format: TextureFormat) -> (bits: u8)
    ensures
        bits == quantization_of(format),
{
    match format {
        TextureFormat::Rgba8Unorm => 8,
        TextureFormat::Rgba8UnormSrgb => 8,
        TextureFormat::Bgra8Unorm => 8,
        TextureFormat::Bgra8UnormSrgb => 8,
        TextureFormat::Rgb10a2Unorm => 10,
        _ => 0,
    }
}

/// Who maps the source's luminance to the display's, in words.
pub fn hdr_mapping_summary(hdr_surface: bool, source_dynamic_range: SourceDynamicRange) -> (summary:
    &'static str)
    ensures
        summary@ == (if hdr_surface {
            "Compositor"@
        } else if source_dynamic_range != SourceDynamicRange::Sdr {
            "Application tone mapping to SDR"@
        } else {
            "Not required"@
        }),
{
    if hdr_surface {
        "Compositor"
    } else if source_dynamic_range.is_hdr() {
        "Application tone mapping to SDR"
    } else {
        "Not required"
    }
}

/// The SDR white that a display reports, if it is a luminance; else HDR
/// reference white.
pub open spec fn white_of(sdr_white_nits: Option<u32>) -> u32 {
    match sdr_white_nits {
        Some(white) => if finite_positive(white) {
            white
        } else {
            HDR_REFERENCE_WHITE_NITS
        },
        None => HDR_REFERENCE_WHITE_NITS,
    }
}

/// The luminance at which the viewer shows its text, from the SDR white that the
/// display reports.
pub fn resolved_ui_white_nits(sdr_white_nits: Option<u32>) -> (white: u32)
    ensures
        white == white_of(sdr_white_nits),
        finite_positive(white),
{
    match sdr_white_nits {
        Some(white) => if is_finite32(white) && is_less32(0, white) {
            white
        } else {
            HDR_REFERENCE_WHITE_NITS
        },
        None => HDR_REFERENCE_WHITE_NITS,
    }
}

/// The peak of an output: what the container encodes, and on an SDR surface the
/// white that the display reports.
pub open spec fn output_peak_of(color_space: SurfaceColorSpace, sdr_white_nits: Option<u32>) -> u32 {
    match color_space {
        SurfaceColorSpace::Srgb => white_of(sdr_white_nits),
        SurfaceColorSpace::Bt2100Pq => PQ_ENCODING_PEAK_NITS,
        SurfaceColorSpace::Bt2100Hlg => HLG_ENCODING_PEAK_NITS,
        _ => EXTENDED_LINEAR_FALLBACK_PEAK_NITS,
    }
}

/// The peak of an output, as single-precision bits.
pub fn resolved_output_peak_nits(
    color_space: SurfaceColorSpace,
    sdr_white_nits: Option<u32>,
) -> (peak: u32)
    requires
        selectable(color_space),
    ensures
        peak == output_peak_of(color_space, sdr_white_nits),
{
    match color_space {
        SurfaceColorSpace::Srgb => resolved_ui_white_nits(sdr_white_nits),
        SurfaceColorSpace::Bt2100Pq => PQ_ENCODING_PEAK_NITS,
        SurfaceColorSpace::Bt2100Hlg => HLG_ENCODING_PEAK_NITS,
        _ => EXTENDED_LINEAR_FALLBACK_PEAK_NITS,
    }
}

impl TextureFormat {
    /// The format encodes sRGB on write.
    pub open spec fn encodes_srgb(&self) -> bool {
        match *self {
            TextureFormat::Rgba8UnormSrgb => true,
            TextureFormat::Bgra8UnormSrgb => true,
            TextureFormat::Other { srgb, .. } => srgb,
            _ => false,
        }
    }

    /// Whether the format encodes sRGB on write.
    pub fn is_srgb(self) -> (srgb: bool)
        ensures
            srgb == self.encodes_srgb(),
    {
        match self {
            TextureFormat::Rgba8UnormSrgb => true,
            TextureFormat::Bgra8UnormSrgb => true,
            TextureFormat::Other { srgb, .. } => srgb,
            _ => false,
        }
    }
}

/// How well a format serves a color space; a smaller rank is better, and a
/// format without one is not used.
pub open spec fn rank_of(format: TextureFormat, color_space: SurfaceColorSpace) -> Option<u8> {
    match color_space {
        SurfaceColorSpace::Srgb => if format.encodes_srgb() {
            Some(0u8)
        } else {
            match format {
                TextureFormat::Bgra8Unorm => Some(1u8),
                TextureFormat::Rgba8Unorm => Some(1u8),
                TextureFormat::Rgb10a2Unorm => Some(2u8),
                TextureFormat::Rgba16Unorm => Some(3u8),
                TextureFormat::Rgba16Float => Some(4u8),
                TextureFormat::Rgba32Float => Some(5u8),
                _ => None,
            }
        },
        SurfaceColorSpace::ExtendedSrgbLinear => match format {
            TextureFormat::Rgba16Float => Some(0u8),
            TextureFormat::Rgba32Float => Some(1u8),
            _ => None,
        },
        _ => if hdr_color_space(color_space) {
            match format {
                TextureFormat::Rgb10a2Unorm => Some(0u8),
                TextureFormat::Rgba16Float => Some(1u8),
                TextureFormat::Rgba16Unorm => Some(2u8),
                TextureFormat::Rgba32Float => Some(3u8),
                _ => None,
            }
        } else {
            None
        },
    }
}

/// How well a format serves a color space; a smaller rank is better.
pub fn format_rank(format: TextureFormat, color_space: SurfaceColorSpace) -> (rank: Option<u8>)
    ensures
        rank == rank_of(format, color_space),
{
    match color_space {
        SurfaceColorSpace::Srgb => {
            if format.is_srgb() {
                return Some(0);
            }
            match format {
                TextureFormat::Bgra8Unorm => Some(1),
                TextureFormat::Rgba8Unorm => Some(1),
                TextureFormat::Rgb10a2Unorm => Some(2),
                TextureFormat::Rgba16Unorm => Some(3),
                TextureFormat::Rgba16Float => Some(4),
                TextureFormat::Rgba32Float => Some(5),
                _ => None,
            }
        },
        SurfaceColorSpace::ExtendedSrgbLinear => match format {
            TextureFormat::Rgba16Float => Some(0),
            TextureFormat::Rgba32Float => Some(1),
            _ => None,
        },
        _ => {
            if !is_hdr_color_space(color_space) {
                return None;
            }
            match format {
                TextureFormat::Rgb10a2Unorm => Some(0),
                TextureFormat::Rgba16Float => Some(1),
                TextureFormat::Rgba16Unorm => Some(2),
                TextureFormat::Rgba32Float => Some(3),
                _ => None,
            }
        },
    }
}

/// The rank of a capability for a color space that it supports.
pub open spec fn capability_rank(
    capability: SurfaceFormatCapabilities,
    color_space: SurfaceColorSpace,
) -> Option<u8> {
    if capability.color_spaces.has(color_space) {
        rank_of(capability.format, color_space)
    } else {
        None
    }
}

/// A capability is the best for a color space: it can be used, none has a
/// smaller rank, and none before it has the same.
pub open spec fn is_best(
    capabilities: Seq<SurfaceFormatCapabilities>,
    color_space: SurfaceColorSpace,
    best: int,
) -> bool {
    &&& 0 <= best < capabilities.len()
    &&& capability_rank(capabilities[best], color_space) is Some
    &&& forall|i: int|
        #![trigger capabilities[i]]
        0 <= i < capabilities.len() && capability_rank(capabilities[i], color_space) is Some
            ==> capability_rank(capabilities[best], color_space)->0 <= capability_rank(
            capabilities[i],
            color_space,
        )->0
    &&& forall|i: int|
        #![trigger capabilities[i]]
        0 <= i < best && capability_rank(capabilities[i], color_space) is Some
            ==> capability_rank(capabilities[best], color_space)->0 < capability_rank(
            capabilities[i],
            color_space,
        )->0
}

/// No capability can be used for a color space.
pub open spec fn is_unusable(
    capabilities: Seq<SurfaceFormatCapabilities>,
    color_space: SurfaceColorSpace,
) -> bool {
    forall|i: int|
        #![trigger capabilities[i]]
        0 <= i < capabilities.len() ==> capability_rank(capabilities[i], color_space) is None
}

/// The candidate for a color space: its best format, if it has one.
pub open spec fn candidate_for(
    capabilities: Seq<SurfaceFormatCapabilities>,
    color_space: SurfaceColorSpace,
) -> Option<SurfaceCandidate> {
    if is_unusable(capabilities, color_space) {
        None
    } else {
        let best = choose|best: int| is_best(capabilities, color_space, best);
        Some(SurfaceCandidate { color_space, format: capabilities[best].format })
    }
}

/// The best format of a surface for a color space.
pub fn best_format_for_color_space(
    capabilities: &[SurfaceFormatCapabilities],
    color_space: SurfaceColorSpace,
) -> (candidate: Option<SurfaceCandidate>)
    ensures
        candidate == candidate_for(capabilities@, color_space),
        candidate is None <==> is_unusable(capabilities@, color_space),
        candidate matches Some(found) ==> found.color_space == color_space && exists|best: int|
            #![trigger capabilities@[best]]
            is_best(capabilities@, color_space, best) && capabilities@[best].format == found.format,
{
    let mut best: Option<(u8, usize)> = None;
    let mut index: usize = 0;
    while index < capabilities.len()
        invariant
            index <= capabilities@.len(),
            match best {
                None => forall|i: int|
                    #![trigger capabilities@[i]]
                    0 <= i < index ==> capability_rank(capabilities@[i], color_space) is None,
                Some((rank, found)) => {
                    &&& found < index
                    &&& capability_rank(capabilities@[found as int], color_space) == Some(rank)
                    &&& forall|i: int|
                        #![trigger capabilities@[i]]
                        0 <= i < index && capability_rank(capabilities@[i], color_space) is Some
                            ==> rank <= capability_rank(capabilities@[i], color_space)->0
                    &&& forall|i: int|
                        #![trigger capabilities@[i]]
                        0 <= i < found && capability_rank(capabilities@[i], color_space) is Some
                            ==> rank < capability_rank(capabilities@[i], color_space)->0
                },
            },
        decreases capabilities@.len() - index,
    {
        let capability: SurfaceFormatCapabilities = capabilities[index];
        if capability.color_spaces.contains(color_space) {
            if let Some(rank) = format_rank(capability.format, color_space) {
                match best {
                    None => {
                        best = Some((rank, index));
                    },
                    Some((best_rank, _)) => {
                        if rank < best_rank {
                            best = Some((rank, index));
                        }
                    },
                }
            }
        }
        index = index + 1;
    }
    match best {
        None => None,
        Some((_, found)) => {
            proof {
                assert(is_best(capabilities@, color_space, found as int));
                assert(capability_rank(capabilities@[found as int], color_space) is Some);
                let chosen = choose|best: int| is_best(capabilities@, color_space, best);
                assert(is_best(capabilities@, color_space, chosen));
                assert(capability_rank(capabilities@[chosen], color_space) is Some);
                assert(chosen == found);
            }
            Some(SurfaceCandidate { color_space, format: capabilities[found].format })
        },
    }
}

/// The color spaces to try for an output mode, the preferred one first.
pub open spec fn color_space_priority(
    output_mode: OutputMode,
    source_dynamic_range: SourceDynamicRange,
) -> Seq<SurfaceColorSpace> {
    match output_mode {
        OutputMode::Auto => match source_dynamic_range {
            SourceDynamicRange::Sdr => seq![
                SurfaceColorSpace::Srgb,
                SurfaceColorSpace::Bt2100Pq,
                SurfaceColorSpace::Bt2100Hlg,
                SurfaceColorSpace::ExtendedSrgbLinear,
            ],
            SourceDynamicRange::Pq => seq![
                SurfaceColorSpace::Bt2100Pq,
                SurfaceColorSpace::Bt2100Hlg,
                SurfaceColorSpace::ExtendedSrgbLinear,
                SurfaceColorSpace::Srgb,
            ],
            SourceDynamicRange::Hlg => seq![
                SurfaceColorSpace::Bt2100Hlg,
                SurfaceColorSpace::Bt2100Pq,
                SurfaceColorSpace::ExtendedSrgbLinear,
                SurfaceColorSpace::Srgb,
            ],
        },
        OutputMode::Pq => seq![SurfaceColorSpace::Bt2100Pq],
        OutputMode::Hlg => seq![SurfaceColorSpace::Bt2100Hlg],
        OutputMode::Scrgb => seq![SurfaceColorSpace::ExtendedSrgbLinear],
        OutputMode::Sdr => seq![SurfaceColorSpace::Srgb],
    }
}

/// The candidate for the first color space of a list that has one.
pub open spec fn first_candidate(
    capabilities: Seq<SurfaceFormatCapabilities>,
    color_spaces: Seq<SurfaceColorSpace>,
) -> Option<SurfaceCandidate>
    decreases color_spaces.len(),
{
    if color_spaces.len() == 0 {
        None
    } else if candidate_for(capabilities, color_spaces[0]) is Some {
        candidate_for(capabilities, color_spaces[0])
    } else {
        first_candidate(capabilities, color_spaces.skip(1))
    }
}

/// The color spaces to try for an output mode.
fn color_spaces_to_try(output_mode: OutputMode, source_dynamic_range: SourceDynamicRange) -> (spaces:
    Vec<SurfaceColorSpace>)
    ensures
        spaces@ == color_space_priority(output_mode, source_dynamic_range),
{
    let spaces: Vec<SurfaceColorSpace> = match output_mode {
        OutputMode::Auto => match source_dynamic_range {
            SourceDynamicRange::Sdr => vec![
                SurfaceColorSpace::Srgb,
                SurfaceColorSpace::Bt2100Pq,
                SurfaceColorSpace::Bt2100Hlg,
                SurfaceColorSpace::ExtendedSrgbLinear,
            ],
            SourceDynamicRange::Pq => vec![
                SurfaceColorSpace::Bt2100Pq,
                SurfaceColorSpace::Bt2100Hlg,
                SurfaceColorSpace::ExtendedSrgbLinear,
                SurfaceColorSpace::Srgb,
            ],
            SourceDynamicRange::Hlg => vec![
                SurfaceColorSpace::Bt2100Hlg,
                SurfaceColorSpace::Bt2100Pq,
                SurfaceColorSpace::ExtendedSrgbLinear,
                SurfaceColorSpace::Srgb,
            ],
        },
        OutputMode::Pq => vec![SurfaceColorSpace::Bt2100Pq],
        OutputMode::Hlg => vec![SurfaceColorSpace::Bt2100Hlg],
        OutputMode::Scrgb => vec![SurfaceColorSpace::ExtendedSrgbLinear],
        OutputMode::Sdr => vec![SurfaceColorSpace::Srgb],
    };
    assert(spaces@ =~= color_space_priority(output_mode, source_dynamic_range));
    spaces
}

/// The surface's candidate for an output mode and a source, if it has one.
pub fn select_surface_candidate(
    capabilities: &[SurfaceFormatCapabilities],
    output_mode: OutputMode,
    source_dynamic_range: SourceDynamicRange,
) -> (candidate: Option<SurfaceCandidate>)
    ensures
        candidate == first_candidate(
            capabilities@,
            color_space_priority(output_mode, source_dynamic_range),
        ),
{
    let spaces: Vec<SurfaceColorSpace> = color_spaces_to_try(output_mode, source_dynamic_range);
    let mut index: usize = 0;
    assert(spaces@.skip(0) =~= spaces@);
    while index < spaces.len()
        invariant
            index <= spaces@.len(),
            spaces@ == color_space_priority(output_mode, source_dynamic_range),
            first_candidate(capabilities@, spaces@) == first_candidate(
                capabilities@,
                spaces@.skip(index as int),
            ),
        decreases spaces@.len() - index,
    {
        let candidate: Option<SurfaceCandidate> = best_format_for_color_space(
            capabilities,
            spaces[index],
        );
        if candidate.is_some() {
            return candidate;
        }
        assert(spaces@.skip(index as int).skip(1) =~= spaces@.skip(index + 1));
        index = index + 1;
    }
    None
}

/// The surface's candidate for an output mode and a source, or why it has none.
pub fn select_required_surface_candidate(
    capabilities: &[SurfaceFormatCapabilities],
    output_mode: OutputMode,
    source_dynamic_range: SourceDynamicRange,
) -> (selected: Result<SurfaceCandidate, SurfaceOutputError>)
    ensures
        selected == (match first_candidate(
            capabilities@,
            color_space_priority(output_mode, source_dynamic_range),
        ) {
            Some(candidate) => Ok::<SurfaceCandidate, SurfaceOutputError>(candidate),
            None => Err(
                if output_mode == OutputMode::Auto {
                    SurfaceOutputError::NoUsablePair
                } else {
                    SurfaceOutputError::RequestedModeUnavailable(output_mode)
                },
            ),
        }),
{
    match select_surface_candidate(capabilities, output_mode, source_dynamic_range) {
        Some(candidate) => Ok(candidate),
        None => match output_mode {
            OutputMode::Auto => Err(SurfaceOutputError::NoUsablePair),
            _ => Err(SurfaceOutputError::RequestedModeUnavailable(output_mode)),
        },
    }
}

/// Whether a surface can show any of the HDR encodings.
pub fn has_hdr_encoding_candidate(capabilities: &[SurfaceFormatCapabilities]) -> (hdr: bool)
    ensures
        hdr == !(is_unusable(capabilities@, SurfaceColorSpace::Bt2100Pq) && is_unusable(
            capabilities@,
            SurfaceColorSpace::Bt2100Hlg,
        ) && is_unusable(capabilities@, SurfaceColorSpace::ExtendedSrgbLinear)),
{
    best_format_for_color_space(capabilities, SurfaceColorSpace::Bt2100Pq).is_some()
        || best_format_for_color_space(capabilities, SurfaceColorSpace::Bt2100Hlg).is_some()
        || best_format_for_color_space(
        capabilities,
        SurfaceColorSpace::ExtendedSrgbLinear,
    ).is_some()
}

/// A selected candidate is one that the surface advertises: its format and its
/// color space come from the same capability, the format can be used for it, and
/// the color space is one of those to try.
pub proof fn selected_pairs_are_advertised(
    capabilities: Seq<SurfaceFormatCapabilities>,
    color_spaces: Seq<SurfaceColorSpace>,
    candidate: SurfaceCandidate,
)
    requires
        first_candidate(capabilities, color_spaces) == Some(candidate),
    ensures
        color_spaces.contains(candidate.color_space),
        exists|i: int|
            #![trigger capabilities[i]]
            0 <= i < capabilities.len() && capabilities[i].format == candidate.format
                && capabilities[i].color_spaces.has(candidate.color_space),
        rank_of(candidate.format, candidate.color_space) is Some,
    decreases color_spaces.len(),
{
    let first = color_spaces[0];
    if candidate_for(capabilities, first) is Some {
        lemma_best_exists(capabilities, first);
        let best = choose|best: int| is_best(capabilities, first, best);
        assert(capabilities[best].format == candidate.format);
    } else {
        selected_pairs_are_advertised(capabilities, color_spaces.skip(1), candidate);
        let rest = color_spaces.skip(1);
        let i = choose|i: int| 0 <= i < rest.len() && rest[i] == candidate.color_space;
        assert(color_spaces[i + 1] == candidate.color_space);
    }
}

/// Where a color space can be used, it has a best format.
proof fn lemma_best_exists(
    capabilities: Seq<SurfaceFormatCapabilities>,
    color_space: SurfaceColorSpace,
)
    requires
        !is_unusable(capabilities, color_space),
    ensures
        exists|best: int| is_best(capabilities, color_space, best),
    decreases capabilities.len(),
{
    let last = capabilities.len() - 1;
    let head = capabilities.drop_last();
    assert forall|i: int| #![trigger capabilities[i]] 0 <= i < last implies capabilities[i]
        == head[i] by {}
    if is_unusable(head, color_space) {
        assert forall|i: int|
            #![trigger capabilities[i]]
            0 <= i < last implies capability_rank(capabilities[i], color_space) is None by {
            assert(capabilities[i] == head[i]);
        }
        assert(is_best(capabilities, color_space, last));
    } else {
        lemma_best_exists(head, color_space);
        let best = choose|best: int| is_best(head, color_space, best);
        assert(capabilities[best] == head[best]);
        let rank = capability_rank(capabilities[best], color_space)->0;
        let ranked = capability_rank(capabilities[last], color_space);
        assert forall|i: int|
            #![trigger capabilities[i]]
            0 <= i < last && capability_rank(capabilities[i], color_space) is Some implies rank
            <= capability_rank(capabilities[i], color_space)->0 by {
            assert(capabilities[i] == head[i]);
        }
        assert forall|i: int|
            #![trigger capabilities[i]]
            0 <= i < best && capability_rank(capabilities[i], color_space) is Some implies rank
            < capability_rank(capabilities[i], color_space)->0 by {
            assert(capabilities[i] == head[i]);
        }
        if ranked is Some && ranked->0 < rank {
            assert(is_best(capabilities, color_space, last));
        } else {
            assert(is_best(capabilities, color_space, best));
        }
    }
}

/// A forced output mode never falls back to another encoding: what is selected
/// has the color space that the mode stands for.
pub proof fn forced_output_never_falls_back(
    capabilities: Seq<SurfaceFormatCapabilities>,
    output_mode: OutputMode,
    source_dynamic_range: SourceDynamicRange,
    candidate: SurfaceCandidate,
)
    requires
        output_mode != OutputMode::Auto,
        first_candidate(capabilities, color_space_priority(output_mode, source_dynamic_range))
            == Some(candidate),
    ensures
        candidate.color_space == (match output_mode {
            OutputMode::Pq => SurfaceColorSpace::Bt2100Pq,
            OutputMode::Hlg => SurfaceColorSpace::Bt2100Hlg,
            OutputMode::Scrgb => SurfaceColorSpace::ExtendedSrgbLinear,
            _ => SurfaceColorSpace::Srgb,
        }),
{
    selected_pairs_are_advertised(
        capabilities,
        color_space_priority(output_mode, source_dynamic_range),
        candidate,
    );
}

/// What a list of color spaces to try gives: the first of them that can be used.
proof fn lemma_first_usable(
    capabilities: Seq<SurfaceFormatCapabilities>,
    color_spaces: Seq<SurfaceColorSpace>,
    index: int,
)
    requires
        0 <= index < color_spaces.len(),
        !is_unusable(capabilities, color_spaces[index]),
        forall|i: int|
            0 <= i < index ==> is_unusable(capabilities, #[trigger] color_spaces[i]),
    ensures
        first_candidate(capabilities, color_spaces) is Some,
        first_candidate(capabilities, color_spaces)->0.color_space == color_spaces[index],
    decreases index,
{
    if index > 0 {
        assert(is_unusable(capabilities, color_spaces[0]));
        let rest = color_spaces.skip(1);
        assert(rest[index - 1] == color_spaces[index]);
        assert forall|i: int| 0 <= i < index - 1 implies is_unusable(
            capabilities,
            #[trigger] rest[i],
        ) by {
            assert(rest[i] == color_spaces[i + 1]);
        }
        lemma_first_usable(capabilities, rest, index - 1);
    }
}

/// Where none of the color spaces to try can be used, nothing is selected.
proof fn lemma_none_usable(
    capabilities: Seq<SurfaceFormatCapabilities>,
    color_spaces: Seq<SurfaceColorSpace>,
)
    requires
        forall|i: int|
            0 <= i < color_spaces.len() ==> is_unusable(capabilities, #[trigger] color_spaces[i]),
    ensures
        first_candidate(capabilities, color_spaces) is None,
    decreases color_spaces.len(),
{
    if color_spaces.len() > 0 {
        assert(is_unusable(capabilities, color_spaces[0]));
        let rest = color_spaces.skip(1);
        assert forall|i: int| 0 <= i < rest.len() implies is_unusable(
            capabilities,
            #[trigger] rest[i],
        ) by {
            assert(rest[i] == color_spaces[i + 1]);
        }
        lemma_none_usable(capabilities, rest);
    }
}

/// Automatic output shows an HDR image in HDR wherever the display can. The
/// image's own encoding is taken before the other one, either before the linear
/// one, and SDR only where no HDR encoding can be used. With an SDR image it is
/// the other way round: HDR only where SDR cannot be used. Nothing is selected
/// only where no encoding can be used at all.
pub proof fn automatic_output_keeps_the_dynamic_range(
    capabilities: Seq<SurfaceFormatCapabilities>,
    source_dynamic_range: SourceDynamicRange,
)
    ensures
        ({
            let selected = first_candidate(
                capabilities,
                color_space_priority(OutputMode::Auto, source_dynamic_range),
            );
            let pq = !is_unusable(capabilities, SurfaceColorSpace::Bt2100Pq);
            let hlg = !is_unusable(capabilities, SurfaceColorSpace::Bt2100Hlg);
            let linear = !is_unusable(capabilities, SurfaceColorSpace::ExtendedSrgbLinear);
            let sdr = !is_unusable(capabilities, SurfaceColorSpace::Srgb);
            &&& selected is Some <==> (pq || hlg || linear || sdr)
            &&& source_dynamic_range != SourceDynamicRange::Sdr && (pq || hlg || linear) ==> (
            selected->0.color_space != SurfaceColorSpace::Srgb)
            &&& source_dynamic_range == SourceDynamicRange::Sdr && sdr ==> selected->0.color_space
                == SurfaceColorSpace::Srgb
            &&& source_dynamic_range == SourceDynamicRange::Pq && pq ==> selected->0.color_space
                == SurfaceColorSpace::Bt2100Pq
            &&& source_dynamic_range == SourceDynamicRange::Hlg && hlg ==> selected->0.color_space
                == SurfaceColorSpace::Bt2100Hlg
            &&& source_dynamic_range != SourceDynamicRange::Sdr && (pq || hlg) ==> (
            selected->0.color_space != SurfaceColorSpace::ExtendedSrgbLinear)
            &&& source_dynamic_range == SourceDynamicRange::Sdr && !sdr && pq ==> (
            selected->0.color_space == SurfaceColorSpace::Bt2100Pq)
            &&& source_dynamic_range == SourceDynamicRange::Sdr && !sdr && !pq && hlg ==> (
            selected->0.color_space == SurfaceColorSpace::Bt2100Hlg)
            &&& selected matches Some(candidate) ==> !is_unusable(
                capabilities,
                candidate.color_space,
            )
        }),
{
    let priority = color_space_priority(OutputMode::Auto, source_dynamic_range);
    if !is_unusable(capabilities, priority[0]) {
        lemma_first_usable(capabilities, priority, 0);
    } else if !is_unusable(capabilities, priority[1]) {
        lemma_first_usable(capabilities, priority, 1);
    } else if !is_unusable(capabilities, priority[2]) {
        lemma_first_usable(capabilities, priority, 2);
    } else if !is_unusable(capabilities, priority[3]) {
        lemma_first_usable(capabilities, priority, 3);
    } else {
        lemma_none_usable(capabilities, priority);
    }
}

/// A requested encoding is selected exactly where it can be used, whatever the
/// source is.
pub proof fn requested_output_is_selected_where_it_can_be_used(
    capabilities: Seq<SurfaceFormatCapabilities>,
    output_mode: OutputMode,
    source_dynamic_range: SourceDynamicRange,
)
    requires
        output_mode != OutputMode::Auto,
    ensures
        ({
            let requested = match output_mode {
                OutputMode::Pq => SurfaceColorSpace::Bt2100Pq,
                OutputMode::Hlg => SurfaceColorSpace::Bt2100Hlg,
                OutputMode::Scrgb => SurfaceColorSpace::ExtendedSrgbLinear,
                _ => SurfaceColorSpace::Srgb,
            };
            let selected = first_candidate(
                capabilities,
                color_space_priority(output_mode, source_dynamic_range),
            );
            &&& selected is Some <==> !is_unusable(capabilities, requested)
            &&& selected matches Some(candidate) ==> candidate.color_space == requested
        }),
{
    let priority = color_space_priority(output_mode, source_dynamic_range);
    if is_unusable(capabilities, priority[0]) {
        lemma_none_usable(capabilities, priority);
    } else {
        lemma_first_usable(capabilities, priority, 0);
    }
}

/// Which formats serve which encoding. HDR is never shown in eight bits; the PQ
/// and HLG encodings are served best by ten bits, and the linear one by half
/// precision, and only by floating point. SDR is served best by a format that
/// encodes sRGB itself, then by eight bits; no format serves it worse than single
/// precision.
pub proof fn formats_serve_their_encoding(format: TextureFormat, other: TextureFormat)
    ensures
        ({
            let eight_bits = format == TextureFormat::Rgba8Unorm || format
                == TextureFormat::Rgba8UnormSrgb || format == TextureFormat::Bgra8Unorm || format
                == TextureFormat::Bgra8UnormSrgb;
            let pq = SurfaceColorSpace::Bt2100Pq;
            let linear = SurfaceColorSpace::ExtendedSrgbLinear;
            let sdr = SurfaceColorSpace::Srgb;
            &&& eight_bits ==> rank_of(format, pq) is None && rank_of(format, linear) is None
            &&& rank_of(format, pq) == rank_of(format, SurfaceColorSpace::Bt2100Hlg)
            &&& format == TextureFormat::Rgb10a2Unorm && other != format && rank_of(other, pq)
                is Some ==> rank_of(format, pq) is Some && rank_of(format, pq)->0 < rank_of(
                other,
                pq,
            )->0
            &&& format == TextureFormat::Rgba16Float && other == TextureFormat::Rgba32Float ==> (
            rank_of(format, pq) is Some && rank_of(other, pq) is Some && rank_of(format, pq)->0
                < rank_of(other, pq)->0)
            &&& format == TextureFormat::Rgba16Float && other == TextureFormat::Rgba16Unorm ==> (
            rank_of(format, pq) is Some && rank_of(other, pq) is Some && rank_of(format, pq)->0
                < rank_of(other, pq)->0)
            &&& rank_of(format, linear) is Some <==> format == TextureFormat::Rgba16Float || format
                == TextureFormat::Rgba32Float
            &&& rank_of(TextureFormat::Rgba16Float, linear)->0 < rank_of(
                TextureFormat::Rgba32Float,
                linear,
            )->0
            &&& format.encodes_srgb() ==> rank_of(format, sdr) is Some
            &&& format.encodes_srgb() && !other.encodes_srgb() && rank_of(other, sdr) is Some ==> (
            rank_of(format, sdr)->0 < rank_of(other, sdr)->0)
            &&& eight_bits ==> rank_of(format, sdr) is Some
            &&& eight_bits && (other == TextureFormat::Rgb10a2Unorm || other
                == TextureFormat::Rgba16Unorm || other == TextureFormat::Rgba16Float || other
                == TextureFormat::Rgba32Float) ==> rank_of(other, sdr) is Some && rank_of(
                format,
                sdr,
            )->0 < rank_of(other, sdr)->0
            &&& rank_of(TextureFormat::Rgb10a2Unorm, sdr)->0 < rank_of(
                TextureFormat::Rgba16Unorm,
                sdr,
            )->0 < rank_of(TextureFormat::Rgba16Float, sdr)->0 < rank_of(
                TextureFormat::Rgba32Float,
                sdr,
            )->0
            &&& rank_of(TextureFormat::Rgba8Unorm, sdr) == rank_of(TextureFormat::Bgra8Unorm, sdr)
            &&& format is Other ==> rank_of(format, pq) is None && rank_of(format, linear) is None
            &&& format is Other && !format.encodes_srgb() ==> rank_of(format, sdr) is None
        }),
{
}

/// Formats are used for no other encodings than those that can be selected.
pub proof fn other_encodings_are_not_used(format: TextureFormat, color_space: SurfaceColorSpace)
    requires
        color_space == SurfaceColorSpace::Auto || color_space == SurfaceColorSpace::DisplayP3
            || color_space == SurfaceColorSpace::ExtendedSrgb || color_space
            == SurfaceColorSpace::ExtendedDisplayP3,
    ensures
        rank_of(format, color_space) is None,
        !hdr_color_space(color_space),
        !selectable(color_space),
{
}

/// Two color spaces that are put together are both supported, and no other is.
pub proof fn supported_color_spaces_are_told_apart(
    first: SurfaceColorSpace,
    second: SurfaceColorSpace,
    other: SurfaceColorSpace,
)
    requires
        first != second,
        first != SurfaceColorSpace::Auto,
        second != SurfaceColorSpace::Auto,
    ensures
        (SurfaceColorSpaces {
            bits: (color_space_bit(first) + color_space_bit(second)) as u32,
        }).has(other) <==> other == first || other == second,
{
}

/// The number that a single-precision bit pattern stands for, if it is a whole
/// number below 2^24.
pub open spec fn is_whole_number(bits: u32, value: int) -> bool {
    let exponent = bits as int / 0x80_0000;
    let significand = 0x80_0000 + bits as int % 0x80_0000;
    &&& 127 <= exponent <= 150
    &&& significand == value * vstd::arithmetic::power2::pow2((150 - exponent) as nat)
}

/// The luminances that the viewer works with, in nits.
pub proof fn reference_luminances()
    ensures
        is_whole_number(HDR_REFERENCE_WHITE_NITS, 203),
        is_whole_number(PQ_ENCODING_PEAK_NITS, 10000),
        is_whole_number(HLG_ENCODING_PEAK_NITS, 1000),
        is_whole_number(FALLBACK_HDR_SOURCE_PEAK_NITS, 1000),
        is_whole_number(EXTENDED_LINEAR_FALLBACK_PEAK_NITS, 1000),
{
    vstd::arithmetic::power2::lemma2_to64();
}

/// An SDR source is mastered for reference white, whatever its metadata say. An
/// HDR source is mastered for the peak that its metadata name, if that is a
/// luminance, and else for a fallback; which HDR encoding it has does not matter.
pub proof fn sources_are_mastered_for_their_peak(peak: u32)
    ensures
        mastering_peak(SourceDynamicRange::Sdr, peak) == HDR_REFERENCE_WHITE_NITS,
        mastering_peak(SourceDynamicRange::Pq, peak) == mastering_peak(
            SourceDynamicRange::Hlg,
            peak,
        ),
        0 < peak < F32_INFINITY ==> mastering_peak(SourceDynamicRange::Pq, peak) == peak,
        peak == 0 || peak >= F32_INFINITY ==> mastering_peak(SourceDynamicRange::Pq, peak)
            == FALLBACK_HDR_SOURCE_PEAK_NITS,
{
}

/// What is signaled is what is shown: a content maximum between reference white
/// and the encoding's peak is signaled as it is, and so is a mastering peak that
/// is no lower; a smaller maximum is signaled as reference white, and what
/// exceeds the encoding's peak as that peak. The black level is the source's own
/// if it is a luminance, and the frame average is left open.
pub proof fn signaled_volume_is_the_shown_one(
    color_space: SurfaceColorSpace,
    mastering: u32,
    exposed_peak: u32,
    source_min: u32,
)
    requires
        hdr_color_space(color_space),
        0 < mastering < F32_INFINITY,
        0 < exposed_peak < F32_INFINITY,
    ensures
        ({
            let metadata = hdr_metadata_of(color_space, mastering, exposed_peak, source_min);
            let limited = color_space != SurfaceColorSpace::ExtendedSrgbLinear;
            let peak = if color_space == SurfaceColorSpace::Bt2100Pq {
                PQ_ENCODING_PEAK_NITS
            } else {
                HLG_ENCODING_PEAK_NITS
            };
            &&& exposed_peak <= HDR_REFERENCE_WHITE_NITS ==> metadata.max_cll_nits
                == HDR_REFERENCE_WHITE_NITS
            &&& exposed_peak >= HDR_REFERENCE_WHITE_NITS && (!limited || exposed_peak <= peak)
                ==> metadata.max_cll_nits == exposed_peak
            &&& limited && exposed_peak >= peak ==> metadata.max_cll_nits == peak
            &&& mastering >= metadata.max_cll_nits && (!limited || mastering <= peak)
                ==> metadata.mastering_max_nits == mastering
            &&& mastering <= metadata.max_cll_nits ==> metadata.mastering_max_nits
                == metadata.max_cll_nits
            &&& limited && mastering >= peak ==> metadata.mastering_max_nits == peak
            &&& source_min < F32_INFINITY ==> metadata.mastering_min_nits == source_min
            &&& F32_INFINITY <= source_min < 0x8000_0000 || source_min > 0x8000_0000
                ==> metadata.mastering_min_nits == 0
            &&& metadata.max_fall_nits == 0
        }),
{
}

/// The shader tells the output encodings apart.
pub proof fn shader_modes_are_told_apart(a: SurfaceColorSpace, b: SurfaceColorSpace)
    requires
        selectable(a),
        selectable(b),
    ensures
        shader_mode_of(a) == shader_mode_of(b) ==> a == b,
        shader_mode_of(a) < 4,
        shader_mode_of(SurfaceColorSpace::Srgb) < shader_mode_of(
            SurfaceColorSpace::ExtendedSrgbLinear,
        ) < shader_mode_of(SurfaceColorSpace::Bt2100Pq) < shader_mode_of(
            SurfaceColorSpace::Bt2100Hlg,
        ),
{
}

/// The viewer dithers to the bits that a format keeps of a color, eight or ten,
/// and not where it keeps more or where that is not known. Whether a format
/// encodes sRGB does not matter.
pub proof fn dither_follows_the_format(format: TextureFormat)
    ensures
        quantization_of(TextureFormat::Rgba8UnormSrgb) == quantization_of(
            TextureFormat::Rgba8Unorm,
        ),
        quantization_of(TextureFormat::Bgra8UnormSrgb) == quantization_of(
            TextureFormat::Bgra8Unorm,
        ),
        quantization_of(TextureFormat::Rgba8Unorm) == 8,
        quantization_of(TextureFormat::Bgra8Unorm) == 8,
        quantization_of(format) == 10 <==> format == TextureFormat::Rgb10a2Unorm,
        format == TextureFormat::Rgba16Unorm || format == TextureFormat::Rgba16Float || format
            == TextureFormat::Rgba32Float || format is Other ==> quantization_of(format) == 0,
{
}

/// The viewer's text is as bright as the display's own SDR white, if the display
/// reports a luminance. On an SDR surface that is also the output's peak; on an
/// HDR surface the peak is that of the encoding, whatever the display reports.
pub proof fn output_peaks_follow_their_encoding(white: u32, reported: Option<u32>)
    ensures
        0 < white < F32_INFINITY ==> white_of(Some(white)) == white,
        white == 0 || white >= F32_INFINITY ==> white_of(Some(white)) == HDR_REFERENCE_WHITE_NITS,
        white_of(None) == HDR_REFERENCE_WHITE_NITS,
        output_peak_of(SurfaceColorSpace::Srgb, reported) == white_of(reported),
        output_peak_of(SurfaceColorSpace::Bt2100Pq, reported) == PQ_ENCODING_PEAK_NITS,
        output_peak_of(SurfaceColorSpace::Bt2100Hlg, reported) == HLG_ENCODING_PEAK_NITS,
        output_peak_of(SurfaceColorSpace::ExtendedSrgbLinear, reported)
            == EXTENDED_LINEAR_FALLBACK_PEAK_NITS,
{
}

/// An output that was requested and cannot be had is told by its name.
pub proof fn unavailable_outputs_are_told(mode: OutputMode)
    requires
        mode == OutputMode::Pq || mode == OutputMode::Hlg || mode == OutputMode::Scrgb,
    ensures
        crate::text::mentions(
            output_error_text(SurfaceOutputError::RequestedModeUnavailable(mode)),
            output_mode_name(mode),
        ),
        output_mode_name(OutputMode::Pq) == "pq"@,
        output_mode_name(OutputMode::Hlg) == "hlg"@,
        output_mode_name(OutputMode::Scrgb) == "scrgb"@,
{
    let start = "requested HDR output mode '"@;
    crate::text::lemma_appended(start, output_mode_name(mode));
    crate::text::lemma_appended(
        start + output_mode_name(mode),
        "' is unavailable on this display; use '--output auto' or '--output sdr'"@,
    );
}

/// A color space can be used exactly where a format that serves it is advertised with
/// it.
pub proof fn advertised_formats_can_be_used(
    capabilities: Seq<SurfaceFormatCapabilities>,
    color_space: SurfaceColorSpace,
)
    ensures
        !is_unusable(capabilities, color_space) <==> exists|i: int|
            #![trigger capabilities[i]]
            0 <= i < capabilities.len() && capabilities[i].color_spaces.has(color_space) && rank_of(
                capabilities[i].format,
                color_space,
            ) is Some,
{
    if !is_unusable(capabilities, color_space) {
        let i = choose|i: int|
            #![trigger capabilities[i]]
            0 <= i < capabilities.len() && capability_rank(capabilities[i], color_space) is Some;
        assert(capabilities[i].color_spaces.has(color_space));
    }
}

/// The format of a color space is the best that is advertised with it, and of several
/// that are equally good the first.
pub proof fn selected_formats_are_the_best(
    capabilities: Seq<SurfaceFormatCapabilities>,
    color_space: SurfaceColorSpace,
    candidate: SurfaceCandidate,
    other: int,
)
    requires
        candidate_for(capabilities, color_space) == Some(candidate),
        0 <= other < capabilities.len(),
        capabilities[other].color_spaces.has(color_space),
        rank_of(capabilities[other].format, color_space) is Some,
    ensures
        candidate.color_space == color_space,
        rank_of(candidate.format, color_space) is Some,
        rank_of(candidate.format, color_space)->0 <= rank_of(
            capabilities[other].format,
            color_space,
        )->0,
        exists|best: int|
            #![trigger capabilities[best]]
            0 <= best < capabilities.len() && capabilities[best].format == candidate.format
                && capabilities[best].color_spaces.has(color_space) && (rank_of(
                capabilities[other].format,
                color_space,
            ) == rank_of(candidate.format, color_space) ==> best <= other),
{
    assert(capability_rank(capabilities[other], color_space) is Some);
    lemma_best_exists(capabilities, color_space);
    let best = choose|best: int| is_best(capabilities, color_space, best);
    assert(capabilities[best].format == candidate.format);
}

} // verus!
