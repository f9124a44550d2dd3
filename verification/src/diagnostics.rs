//! Text reports for GPU startup, image resources, and completed presentation.
use vstd::prelude::*;
use vstd::string::StringExecFns;

use crate::output;
use crate::output::{OutputMode, SourceDynamicRange, SurfaceColorSpace, SurfaceColorSpaces};
use crate::resampler;
use crate::text;
use crate::text::{push_decimal, push_text, push_two_fraction_digits, rounded_quotient};
use crate::units::{bytes_to_kib, u64_from_usize};

verus! {

/// A map of the test pattern that the viewer draws without an image.
pub const HLG_PATTERN_OVERVIEW: &'static str = "ITU-R BT.2111-3-derived HLG source pattern\nsource: narrow-range HLG/BT.2020, nominal peak 1,000 nits\n\n+-----------+---------+----------+---------+---------+---------+----------+---------+-----------+\n|           |  100 W  |  100 Y   |  100 C  |  100 G  |  100 M  |  100 R   |  100 B  |           |\n|           +---------+----------+---------+---------+---------+----------+---------+           |\n|           |         |          |         |         |         |          |         |           |\n|           |         |          |         |         |         |          |         |           |\n|           |         |          |         |         |         |          |         |           |\n|           |         |          |         |         |         |          |         |           |\n|           |         |          |         |         |         |          |         |           |\n| 40% grey  |  75% W  |  75% Y   |  75% C  |  75% G  |  75% M  |  75% R   |  75% B  | 40% grey  |\n|           |         |          |         |         |         |          |         |           |\n|           |         |          |         |         |         |          |         |           |\n|           |         |          |         |         |         |          |         |           |\n|           |         |          |         |         |         |          |         |           |\n|           |         |          |         |         |         |          |         |           |\n|           |         |          |         |         |         |          |         |           |\n|           |         |          |         |         |         |          |         |           |\n+-----------+---------+----+-----+----+----+----+----+----+----+-----+----+----+----+-----------+\n| 75% white |   -7%   | 0  | 10  | 20 | 30 | 40 | 50 | 60 | 70 | 80  | 90 |100 |109 | 75% white |\n+-----------+---------+----+-----+----+-+--+----+----+----+----+-----+----+----+----+------+----+\n| 0% black  |            -7%            |             ramp through 0% and 100%             |109%|\n+---+---+---+------+--+---+--+---+--+---+-------+---------------------+-------------+---+--++---+\n|   |   |   |      |  |   |  |   |  |           |                     |             |   |   |   |\n|   |   |   |      |  |   |  |   |  |           |                     |             |   |   |   |\n| Y | C | G |0% blk|-2| 0 |+2| 0 |+4| 0% black  |      75% white      |  0% black   | M | R | B |\n|   |   |   |      |  |   |  |   |  |           |                     |             |   |   |   |\n|709|709|709|      |  |   |  |   |  |           |                     |             |709|709|709|\n|   |   |   |      |  |   |  |   |  |           |                     |             |   |   |   |\n+---+---+---+------+--+---+--+---+--+-----------+---------------------+-------------+---+---+---+\n\nW/Y/C/G/M/R/B = white/yellow/cyan/green/magenta/red/blue\n709             = BT.709-equivalent colour bars";

/// The work that an image has caused so far.
#[derive(Debug)]
pub struct ImageWorkDiagnostics {
    pub tile_cache: String,
    pub tile_hits: u64,
    pub tile_misses: u64,
    pub viewport_resampler: String,
    pub resampling_scratch_peak_bytes: u64,
    pub gpu_image_budget_bytes: u64,
    pub gpu_memory_limit_bytes: u64,
}

/// What the allocator of the graphics library holds.
#[derive(Clone, Copy, Debug, PartialEq, Eq, Structural)]
pub struct AllocatorTotals {
    pub total_allocated_bytes: u64,
    pub total_reserved_bytes: u64,
}

/// The resources of an image. The exposure comes in words.
#[derive(Debug)]
pub struct ImageDiagnostics<'a> {
    pub background: &'a str,
    pub exposure_stops: &'a str,
    pub hdr_metadata_status: &'a str,
    pub cpu_storage_bytes: usize,
    pub upload_staging_buffer_bytes: usize,
    pub allocator_report: Option<AllocatorTotals>,
    pub coarse_mip_levels: u32,
    pub work: &'a ImageWorkDiagnostics,
}

/// A byte count in MiB with two fraction digits.
pub open spec fn mib(bytes: nat) -> Seq<char> {
    text::two_fraction_digits(resampler::mib_hundredths(bytes))
}

/// Appends a byte count in MiB with two fraction digits.
pub fn push_mib(report: &mut String, bytes: u64)
    ensures
        final(report)@ == old(report)@ + mib(bytes as nat),
{
    let kib: u64 = bytes_to_kib(bytes) as u64;
    push_two_fraction_digits(report, rounded_quotient(kib * 100, 1024));
}

/// The status of the image work, its last line ended or not.
pub open spec fn work_status(work: ImageWorkDiagnostics, trailing_newline: bool) -> Seq<char> {
    "  tile cache: "@ + work.tile_cache@ + " (hits "@ + text::decimal(work.tile_hits as nat)
        + ", misses "@ + text::decimal(work.tile_misses as nat) + ")\n"@
        + "  viewport resampling: "@ + work.viewport_resampler@ + "\n"@
        + "  CPU resampling scratch peak: "@ + mib(work.resampling_scratch_peak_bytes as nat)
        + " MiB"@ + (if trailing_newline {
        "\n"@
    } else {
        Seq::empty()
    })
}

/// The estimate of what an image takes of the graphics-memory budget.
pub open spec fn budget_line(work: ImageWorkDiagnostics) -> Seq<char> {
    "  GPU image budget estimate: "@ + mib(work.gpu_image_budget_bytes as nat) + " MiB of "@ + mib(
        work.gpu_memory_limit_bytes as nat,
    ) + " MiB"@
}

/// What the allocator holds, in words.
pub open spec fn allocator_text(report: Option<AllocatorTotals>) -> Seq<char> {
    match report {
        Some(report) => mib(report.total_allocated_bytes as nat) + " MiB live allocations, "@ + mib(
            report.total_reserved_bytes as nat,
        ) + " MiB reserved blocks"@,
        None => "unavailable"@,
    }
}

/// The report on an image's resources.
pub open spec fn image_report_text(diagnostics: ImageDiagnostics) -> Seq<char> {
    "  background: "@ + diagnostics.background@ + "\n"@ + "  exposure: "@
        + diagnostics.exposure_stops@ + " stops\n"@ + "  HDR metadata state: "@
        + diagnostics.hdr_metadata_status@ + "\n"@ + "  decoded CPU storage: "@ + mib(
        diagnostics.cpu_storage_bytes as nat,
    ) + " MiB (full-resolution RGBA16F + coarse RGBA32F preview)\n"@
        + "  temporary CPU-to-GPU upload buffer: up to "@ + mib(
        diagnostics.upload_staging_buffer_bytes as nat,
    ) + " MiB\n"@ + budget_line(*diagnostics.work) + "\n"@ + "  GPU allocator memory: "@
        + allocator_text(diagnostics.allocator_report) + "\n"@ + "  coarse-preview mip levels: "@
        + text::decimal(diagnostics.coarse_mip_levels as nat) + "\n"@ + work_status(
        *diagnostics.work,
        false,
    )
}

/// Appends the status of the image work.
pub fn write_image_work_status(
    report: &mut String,
    diagnostics: &ImageWorkDiagnostics,
    trailing_newline: bool,
)
    ensures
        final(report)@ == old(report)@ + work_status(*diagnostics, trailing_newline),
{
    push_text(report, "  tile cache: ");
    push_text(report, diagnostics.tile_cache.as_str());
    push_text(report, " (hits ");
    push_decimal(report, diagnostics.tile_hits);
    push_text(report, ", misses ");
    push_decimal(report, diagnostics.tile_misses);
    push_text(report, ")\n");
    push_text(report, "  viewport resampling: ");
    push_text(report, diagnostics.viewport_resampler.as_str());
    push_text(report, "\n");
    push_text(report, "  CPU resampling scratch peak: ");
    push_mib(report, diagnostics.resampling_scratch_peak_bytes);
    push_text(report, " MiB");
    if trailing_newline {
        push_text(report, "\n");
    }
    assert(report@ =~= old(report)@ + work_status(*diagnostics, trailing_newline));
}

/// Appends the estimate of what an image takes of the graphics-memory budget.
fn push_budget_line(report: &mut String, work: &ImageWorkDiagnostics)
    ensures
        final(report)@ == old(report)@ + budget_line(*work),
{
    push_text(report, "  GPU image budget estimate: ");
    push_mib(report, work.gpu_image_budget_bytes);
    push_text(report, " MiB of ");
    push_mib(report, work.gpu_memory_limit_bytes);
    push_text(report, " MiB");
    assert(report@ =~= old(report)@ + budget_line(*work));
}

/// What the allocator holds, in words.
pub fn allocator_memory_status(report: Option<AllocatorTotals>) -> (status: String)
    ensures
        status@ == allocator_text(report),
{
    let mut status = String::new();
    match report {
        Some(report) => {
            push_mib(&mut status, report.total_allocated_bytes);
            push_text(&mut status, " MiB live allocations, ");
            push_mib(&mut status, report.total_reserved_bytes);
            push_text(&mut status, " MiB reserved blocks");
        },
        None => {
            push_text(&mut status, "unavailable");
        },
    }
    assert(status@ =~= allocator_text(report));
    status
}

/// The report on an image's resources.
pub fn image_report(diagnostics: ImageDiagnostics) -> (report: String)
    ensures
        report@ == image_report_text(diagnostics),
{
    let mut report = String::new();
    push_text(&mut report, "  background: ");
    push_text(&mut report, diagnostics.background);
    push_text(&mut report, "\n");
    push_text(&mut report, "  exposure: ");
    push_text(&mut report, diagnostics.exposure_stops);
    push_text(&mut report, " stops\n");
    push_text(&mut report, "  HDR metadata state: ");
    push_text(&mut report, diagnostics.hdr_metadata_status);
    push_text(&mut report, "\n");
    push_text(&mut report, "  decoded CPU storage: ");
    push_mib(&mut report, u64_from_usize(diagnostics.cpu_storage_bytes));
    push_text(&mut report, " MiB (full-resolution RGBA16F + coarse RGBA32F preview)\n");
    push_text(&mut report, "  temporary CPU-to-GPU upload buffer: up to ");
    push_mib(&mut report, u64_from_usize(diagnostics.upload_staging_buffer_bytes));
    push_text(&mut report, " MiB\n");
    push_budget_line(&mut report, diagnostics.work);
    push_text(&mut report, "\n");
    push_text(&mut report, "  GPU allocator memory: ");
    let allocator: String = allocator_memory_status(diagnostics.allocator_report);
    push_text(&mut report, allocator.as_str());
    push_text(&mut report, "\n");
    push_text(&mut report, "  coarse-preview mip levels: ");
    push_decimal(&mut report, diagnostics.coarse_mip_levels as u64);
    push_text(&mut report, "\n");
    write_image_work_status(&mut report, diagnostics.work, false);
    assert(report@ =~= image_report_text(diagnostics));
    report
}

/// The report on an image once its work is done.
pub fn image_finished_report(diagnostics: &ImageWorkDiagnostics) -> (report: String)
    ensures
        report@ == work_status(*diagnostics, true) + budget_line(*diagnostics),
{
    let mut report = String::new();
    write_image_work_status(&mut report, diagnostics, true);
    push_budget_line(&mut report, diagnostics);
    assert(report@ =~= work_status(*diagnostics, true) + budget_line(*diagnostics));
    report
}

/// The character of one hexadecimal digit.
pub open spec fn hex_char(digit: nat) -> char {
    if digit < 10 {
        text::digit_char(digit)
    } else if digit == 10 {
        'a'
    } else if digit == 11 {
        'b'
    } else if digit == 12 {
        'c'
    } else if digit == 13 {
        'd'
    } else if digit == 14 {
        'e'
    } else {
        'f'
    }
}

/// A number in hexadecimal notation with at least `digits` digits.
pub open spec fn hex(value: nat, digits: nat) -> Seq<char>
    decreases value, digits,
{
    if value < 16 && digits <= 1 {
        seq![hex_char(value)]
    } else {
        hex(
            value / 16,
            if digits > 0 {
                (digits - 1) as nat
            } else {
                0
            },
        ).push(hex_char(value % 16))
    }
}

/// Appends a number in hexadecimal notation with at least `digits` digits.
pub fn push_hex(report: &mut String, value: u32, digits: u32)
    ensures
        final(report)@ == old(report)@ + hex(value as nat, digits as nat),
    decreases value, digits,
{
    if value >= 16 || digits > 1 {
        push_hex(report, value / 16, digits.saturating_sub(1));
    }
    let digit: u32 = value % 16;
    let character: char = if digit < 10 {
        text::digit(digit as u64)
    } else if digit == 10 {
        'a'
    } else if digit == 11 {
        'b'
    } else if digit == 12 {
        'c'
    } else if digit == 13 {
        'd'
    } else if digit == 14 {
        'e'
    } else {
        'f'
    };
    report.push(character);
    assert(report@ =~= old(report)@ + hex(value as nat, digits as nat));
}

/// The name of a color space.
pub open spec fn color_space_text(color_space: SurfaceColorSpace) -> Seq<char> {
    match color_space {
        SurfaceColorSpace::Auto => "Auto"@,
        SurfaceColorSpace::Srgb => "Srgb"@,
        SurfaceColorSpace::ExtendedSrgbLinear => "ExtendedSrgbLinear"@,
        SurfaceColorSpace::DisplayP3 => "DisplayP3"@,
        SurfaceColorSpace::Bt2100Pq => "Bt2100Pq"@,
        SurfaceColorSpace::Bt2100Hlg => "Bt2100Hlg"@,
        SurfaceColorSpace::ExtendedSrgb => "ExtendedSrgb"@,
        SurfaceColorSpace::ExtendedDisplayP3 => "ExtendedDisplayP3"@,
    }
}

/// The name of a color space.
pub fn color_space_name(color_space: SurfaceColorSpace) -> (name: &'static str)
    ensures
        name@ == color_space_text(color_space),
{
    match color_space {
        SurfaceColorSpace::Auto => "Auto",
        SurfaceColorSpace::Srgb => "Srgb",
        SurfaceColorSpace::ExtendedSrgbLinear => "ExtendedSrgbLinear",
        SurfaceColorSpace::DisplayP3 => "DisplayP3",
        SurfaceColorSpace::Bt2100Pq => "Bt2100Pq",
        SurfaceColorSpace::Bt2100Hlg => "Bt2100Hlg",
        SurfaceColorSpace::ExtendedSrgb => "ExtendedSrgb",
        SurfaceColorSpace::ExtendedDisplayP3 => "ExtendedDisplayP3",
    }
}

/// The name of a source's dynamic range.
pub open spec fn dynamic_range_text(range: SourceDynamicRange) -> Seq<char> {
    match range {
        SourceDynamicRange::Sdr => "Sdr"@,
        SourceDynamicRange::Pq => "Pq"@,
        SourceDynamicRange::Hlg => "Hlg"@,
    }
}

/// The name of a source's dynamic range.
pub fn dynamic_range_name(range: SourceDynamicRange) -> (name: &'static str)
    ensures
        name@ == dynamic_range_text(range),
{
    match range {
        SourceDynamicRange::Sdr => "Sdr",
        SourceDynamicRange::Pq => "Pq",
        SourceDynamicRange::Hlg => "Hlg",
    }
}

/// What a surface advertises for a format, by the format's name.
#[derive(Debug)]
pub struct FormatDescription {
    pub format: String,
    pub color_spaces: SurfaceColorSpaces,
}

/// What the graphics library says about the adapter and the surface, in words
/// where it only says it in words.
#[derive(Debug)]
pub struct SurfaceDescription {
    pub name: String,
    pub device_type: String,
    pub vendor: u32,
    pub device: u32,
    pub driver: String,
    pub driver_info: String,
    pub backend: String,
    pub formats: Vec<FormatDescription>,
    pub present_modes: String,
    pub alpha_modes: String,
    pub usages: String,
    pub hdr_info: String,
}

/// The color spaces that a report names, in their order.
pub open spec fn explicit_color_spaces() -> Seq<SurfaceColorSpace> {
    seq![
        SurfaceColorSpace::Srgb,
        SurfaceColorSpace::ExtendedSrgbLinear,
        SurfaceColorSpace::DisplayP3,
        SurfaceColorSpace::Bt2100Pq,
        SurfaceColorSpace::Bt2100Hlg,
        SurfaceColorSpace::ExtendedSrgb,
        SurfaceColorSpace::ExtendedDisplayP3,
    ]
}

/// The lines of a format's pairs with the first `count` color spaces.
pub open spec fn pair_lines(
    format: Seq<char>,
    color_spaces: SurfaceColorSpaces,
    count: int,
) -> Seq<char>
    decreases count,
{
    if count <= 0 {
        Seq::empty()
    } else {
        let color_space = explicit_color_spaces()[count - 1];
        let before = pair_lines(format, color_spaces, count - 1);
        if color_spaces.has(color_space) {
            before + "  "@ + format + " + "@ + color_space_text(color_space) + "\n"@
        } else {
            before
        }
    }
}

/// The line of the bits that stand for no known color space.
pub open spec fn unknown_line(format: Seq<char>, color_spaces: SurfaceColorSpaces) -> Seq<char> {
    let unknown = color_spaces.bits as int / 128 * 128;
    if unknown == 0 {
        Seq::empty()
    } else {
        "  "@ + format + " + unknown bits SurfaceColorSpaces(0x"@ + hex(unknown as nat, 1)
            + ")\n"@
    }
}

/// The lines of the first `count` formats.
pub open spec fn format_lines(formats: Seq<FormatDescription>, count: int) -> Seq<char>
    decreases count,
{
    if count <= 0 {
        Seq::empty()
    } else {
        let description = formats[count - 1];
        format_lines(formats, count - 1) + pair_lines(
            description.format@,
            description.color_spaces,
            7,
        ) + unknown_line(description.format@, description.color_spaces)
    }
}

/// No format supports a known color space.
pub open spec fn no_pairs(formats: Seq<FormatDescription>) -> bool {
    forall|i: int, k: int|
        #![trigger formats[i], explicit_color_spaces()[k]]
        0 <= i < formats.len() && 0 <= k < 7 ==> !formats[i].color_spaces.has(
            explicit_color_spaces()[k],
        )
}

/// The report on the adapter.
pub open spec fn adapter_text(description: SurfaceDescription) -> Seq<char> {
    "GPU adapter:\n"@ + "  name: "@ + description.name@ + "\n"@ + "  type: "@
        + description.device_type@ + "\n"@ + "  vendor: 0x"@ + hex(description.vendor as nat, 4)
        + "\n"@ + "  device: 0x"@ + hex(description.device as nat, 4) + "\n"@ + "  driver: "@
        + description.driver@ + " ("@ + description.driver_info@ + ")\n"@ + "  backend: "@
        + description.backend@ + "\n"@ + "\n"@
}

/// The report on what was selected.
pub open spec fn selection_text(
    description: SurfaceDescription,
    output_mode: OutputMode,
    source_dynamic_range: SourceDynamicRange,
    selected_format: Seq<char>,
    selected_color_space: SurfaceColorSpace,
) -> Seq<char> {
    "\n"@ + "Requested output mode: "@ + output::output_mode_name(output_mode) + "\n"@ + (
    if output_mode == OutputMode::Auto {
        "Automatic source class: "@ + dynamic_range_text(source_dynamic_range) + "\n"@
    } else {
        Seq::empty()
    }) + "Selected surface pair: "@ + selected_format + " + "@ + color_space_text(
        selected_color_space,
    ) + "\n"@ + "Present modes: "@ + description.present_modes@ + "\n"@ + "Alpha modes: "@
        + description.alpha_modes@ + "\n"@ + "Surface usages: "@ + description.usages@ + "\n"@
        + "Display HDR information: "@ + description.hdr_info@ + "\n"@
}

/// Appends one line: a label and a value.
fn push_line(report: &mut String, label: &str, value: &str)
    ensures
        final(report)@ == old(report)@ + label@ + value@ + "\n"@,
{
    push_text(report, label);
    push_text(report, value);
    push_text(report, "\n");
}

/// Appends the lines of a format's pairs. Returns whether there are any.
fn write_pairs(report: &mut String, description: &FormatDescription) -> (any: bool)
    ensures
        final(report)@ == old(report)@ + pair_lines(
            description.format@,
            description.color_spaces,
            7,
        ),
        any == exists|k: int|
            #![trigger explicit_color_spaces()[k]]
            0 <= k < 7 && description.color_spaces.has(explicit_color_spaces()[k]),
{
    let spaces: [SurfaceColorSpace; 7] = [
        SurfaceColorSpace::Srgb,
        SurfaceColorSpace::ExtendedSrgbLinear,
        SurfaceColorSpace::DisplayP3,
        SurfaceColorSpace::Bt2100Pq,
        SurfaceColorSpace::Bt2100Hlg,
        SurfaceColorSpace::ExtendedSrgb,
        SurfaceColorSpace::ExtendedDisplayP3,
    ];
    assert(spaces@ =~= explicit_color_spaces());
    let mut any: bool = false;
    let mut index: usize = 0;
    while index < 7
        invariant
            index <= 7,
            spaces@ == explicit_color_spaces(),
            report@ == old(report)@ + pair_lines(
                description.format@,
                description.color_spaces,
                index as int,
            ),
            any == exists|k: int|
                #![trigger explicit_color_spaces()[k]]
                0 <= k < index && description.color_spaces.has(explicit_color_spaces()[k]),
        decreases 7 - index,
    {
        let ghost before = any;
        if description.color_spaces.contains(spaces[index]) {
            push_text(report, "  ");
            push_text(report, description.format.as_str());
            push_text(report, " + ");
            push_text(report, color_space_name(spaces[index]));
            push_text(report, "\n");
            any = true;
            assert(description.color_spaces.has(explicit_color_spaces()[index as int]));
        }
        assert(report@ =~= old(report)@ + pair_lines(
            description.format@,
            description.color_spaces,
            index + 1,
        ));
        proof {
            if before {
                let k = choose|k: int|
                    #![trigger explicit_color_spaces()[k]]
                    0 <= k < index && description.color_spaces.has(explicit_color_spaces()[k]);
                assert(description.color_spaces.has(explicit_color_spaces()[k]));
            }
        }
        index = index + 1;
    }
    any
}

/// Appends a line for the bits that stand for no known color space.
pub fn write_unknown_color_space_bits(
    report: &mut String,
    format: &str,
    advertised: SurfaceColorSpaces,
)
    ensures
        final(report)@ == old(report)@ + unknown_line(format@, advertised),
{
    let unknown: u32 = advertised.bits / 128 * 128;
    if unknown != 0 {
        push_text(report, "  ");
        push_text(report, format);
        push_text(report, " + unknown bits SurfaceColorSpaces(0x");
        push_hex(report, unknown, 1);
        push_text(report, ")\n");
    }
    assert(report@ =~= old(report)@ + unknown_line(format@, advertised));
}

/// Appends the report on the adapter.
fn write_adapter(report: &mut String, description: &SurfaceDescription)
    ensures
        final(report)@ == old(report)@ + adapter_text(*description),
{
    push_text(report, "GPU adapter:\n");
    push_line(report, "  name: ", description.name.as_str());
    push_line(report, "  type: ", description.device_type.as_str());
    push_text(report, "  vendor: 0x");
    push_hex(report, description.vendor, 4);
    push_text(report, "\n");
    push_text(report, "  device: 0x");
    push_hex(report, description.device, 4);
    push_text(report, "\n");
    push_text(report, "  driver: ");
    push_text(report, description.driver.as_str());
    push_text(report, " (");
    push_text(report, description.driver_info.as_str());
    push_text(report, ")\n");
    push_line(report, "  backend: ", description.backend.as_str());
    push_text(report, "\n");
    assert(report@ =~= old(report)@ + adapter_text(*description));
}

/// Appends the lines of every format. Returns whether any supports a known color
/// space.
fn write_formats(report: &mut String, formats: &Vec<FormatDescription>) -> (any: bool)
    ensures
        final(report)@ == old(report)@ + format_lines(formats@, formats@.len() as int),
        any == !no_pairs(formats@),
{
    let mut any: bool = false;
    let mut index: usize = 0;
    assert(report@ =~= old(report)@ + format_lines(formats@, 0));
    while index < formats.len()
        invariant
            index <= formats@.len(),
            report@ == old(report)@ + format_lines(formats@, index as int),
            any == !no_pairs(formats@.take(index as int)),
        decreases formats@.len() - index,
    {
        let format: &FormatDescription = &formats[index];
        let pairs: bool = write_pairs(report, format);
        write_unknown_color_space_bits(report, format.format.as_str(), format.color_spaces);
        assert(report@ =~= old(report)@ + format_lines(formats@, index + 1));
        proof {
            lemma_pairs_of_longer_list(formats@, index as int, pairs);
        }
        if pairs {
            any = true;
        }
        index = index + 1;
    }
    assert(formats@.take(formats@.len() as int) =~= formats@);
    any
}

/// One more format brings a pair exactly where it supports a known color space.
proof fn lemma_pairs_of_longer_list(formats: Seq<FormatDescription>, index: int, pairs: bool)
    requires
        0 <= index < formats.len(),
        pairs == exists|k: int|
            #![trigger explicit_color_spaces()[k]]
            0 <= k < 7 && formats[index].color_spaces.has(explicit_color_spaces()[k]),
    ensures
        no_pairs(formats.take(index + 1)) == (no_pairs(formats.take(index)) && !pairs),
{
    let shorter = formats.take(index);
    let longer = formats.take(index + 1);
    assert(longer[index] == formats[index]);
    if pairs {
        let k = choose|k: int|
            #![trigger explicit_color_spaces()[k]]
            0 <= k < 7 && formats[index].color_spaces.has(explicit_color_spaces()[k]);
        assert(longer[index].color_spaces.has(explicit_color_spaces()[k]));
    }
    if no_pairs(longer) {
        assert forall|i: int, k: int|
            #![trigger shorter[i], explicit_color_spaces()[k]]
            0 <= i < shorter.len() && 0 <= k < 7 implies !shorter[i].color_spaces.has(
            explicit_color_spaces()[k],
        ) by {
            assert(longer[i] == shorter[i]);
        }
    }
    if no_pairs(shorter) && !pairs {
        assert forall|i: int, k: int|
            #![trigger longer[i], explicit_color_spaces()[k]]
            0 <= i < longer.len() && 0 <= k < 7 implies !longer[i].color_spaces.has(
            explicit_color_spaces()[k],
        ) by {
            if i < index {
                assert(longer[i] == shorter[i]);
            }
        }
    }
}

/// Appends the report on what was selected.
fn write_selection(
    report: &mut String,
    description: &SurfaceDescription,
    output_mode: OutputMode,
    source_dynamic_range: SourceDynamicRange,
    selected_format: &str,
    selected_color_space: SurfaceColorSpace,
)
    ensures
        final(report)@ == old(report)@ + selection_text(
            *description,
            output_mode,
            source_dynamic_range,
            selected_format@,
            selected_color_space,
        ),
{
    push_text(report, "\n");
    push_line(report, "Requested output mode: ", output_mode.as_str());
    if output_mode == OutputMode::Auto {
        push_line(report, "Automatic source class: ", dynamic_range_name(source_dynamic_range));
    }
    push_text(report, "Selected surface pair: ");
    push_text(report, selected_format);
    push_text(report, " + ");
    push_text(report, color_space_name(selected_color_space));
    push_text(report, "\n");
    push_line(report, "Present modes: ", description.present_modes.as_str());
    push_line(report, "Alpha modes: ", description.alpha_modes.as_str());
    push_line(report, "Surface usages: ", description.usages.as_str());
    push_line(report, "Display HDR information: ", description.hdr_info.as_str());
    assert(report@ =~= old(report)@ + selection_text(
        *description,
        output_mode,
        source_dynamic_range,
        selected_format@,
        selected_color_space,
    ));
}

/// The report on the adapter, on the pairs that the surface advertises, and on
/// the one that was selected.
pub fn surface_capabilities_report(
    description: &SurfaceDescription,
    output_mode: OutputMode,
    source_dynamic_range: SourceDynamicRange,
    selected_format: &str,
    selected_color_space: SurfaceColorSpace,
) -> (report: String)
    ensures
        report@ == capabilities_text(
            *description,
            output_mode,
            source_dynamic_range,
            selected_format@,
            selected_color_space,
        ),
{
    let mut report = String::new();
    write_adapter(&mut report, description);
    push_text(&mut report, "Advertised surface format/color-space pairs:\n");
    if !write_formats(&mut report, &description.formats) {
        push_text(&mut report, "  (none)\n");
    }
    write_selection(
        &mut report,
        description,
        output_mode,
        source_dynamic_range,
        selected_format,
        selected_color_space,
    );
    assert(report@ =~= capabilities_text(
        *description,
        output_mode,
        source_dynamic_range,
        selected_format@,
        selected_color_space,
    ));
    report
}

/// The report on the adapter, on the pairs that the surface advertises, and on
/// the one that was selected.
pub open spec fn capabilities_text(
    description: SurfaceDescription,
    output_mode: OutputMode,
    source_dynamic_range: SourceDynamicRange,
    selected_format: Seq<char>,
    selected_color_space: SurfaceColorSpace,
) -> Seq<char> {
    adapter_text(description) + "Advertised surface format/color-space pairs:\n"@ + format_lines(
        description.formats@,
        description.formats@.len() as int,
    ) + (if no_pairs(description.formats@) {
        "  (none)\n"@
    } else {
        Seq::empty()
    }) + selection_text(
        description,
        output_mode,
        source_dynamic_range,
        selected_format,
        selected_color_space,
    )
}

/// The report at startup: the capabilities, whether the driver can signal HDR
/// metadata where it is asked, the state of the metadata, and the map of the test
/// pattern if it is shown.
pub fn startup_report(
    capabilities: String,
    metadata_extension: Option<bool>,
    hdr_metadata_status: &str,
    diagnostics_pattern: bool,
) -> (report: String)
    ensures
        report@ == capabilities@ + (match metadata_extension {
            Some(true) => "Vulkan HDR metadata extension: enabled\n"@,
            Some(false) => "Vulkan HDR metadata extension: unavailable\n"@,
            None => Seq::empty(),
        }) + "HDR metadata state: "@ + hdr_metadata_status@ + "\n"@ + (if diagnostics_pattern {
            "\n"@ + HLG_PATTERN_OVERVIEW@
        } else {
            Seq::empty()
        }),
{
    let mut report: String = capabilities;
    match metadata_extension {
        Some(true) => push_text(&mut report, "Vulkan HDR metadata extension: enabled\n"),
        Some(false) => push_text(&mut report, "Vulkan HDR metadata extension: unavailable\n"),
        None => {},
    }
    push_line(&mut report, "HDR metadata state: ", hdr_metadata_status);
    if diagnostics_pattern {
        push_text(&mut report, "\n");
        push_text(&mut report, HLG_PATTERN_OVERVIEW);
    }
    assert(report@ =~= capabilities@ + (match metadata_extension {
        Some(true) => "Vulkan HDR metadata extension: enabled\n"@,
        Some(false) => "Vulkan HDR metadata extension: unavailable\n"@,
        None => Seq::empty(),
    }) + "HDR metadata state: "@ + hdr_metadata_status@ + "\n"@ + (if diagnostics_pattern {
        "\n"@ + HLG_PATTERN_OVERVIEW@
    } else {
        Seq::empty()
    }));
    report
}

/// The number that a hexadecimal digit stands for.
pub open spec fn hex_value(c: char) -> int {
    if c <= '9' {
        c as int - '0' as int
    } else {
        c as int - 'a' as int + 10
    }
}

/// The number that a sequence of hexadecimal digits stands for.
pub open spec fn hex_number(digits: Seq<char>) -> int
    decreases digits.len(),
{
    if digits.len() == 0 {
        0
    } else {
        hex_number(digits.drop_last()) * 16 + hex_value(digits.last())
    }
}

/// A number is read back from its hexadecimal notation, which has at least as many
/// digits as asked for, and more only where the number needs them.
pub proof fn hexadecimals_are_read_back(value: nat, digits: nat)
    ensures
        hex_number(hex(value, digits)) == value,
        hex(value, digits).len() >= digits,
        hex(value, digits).len() >= 1,
        hex(value, digits).len() > digits && digits >= 1 ==> hex(value, digits)[0] != '0',
    decreases value, digits,
{
    if value >= 16 || digits > 1 {
        let fewer = if digits > 0 {
            (digits - 1) as nat
        } else {
            0
        };
        hexadecimals_are_read_back(value / 16, fewer);
        let head = hex(value / 16, fewer);
        let whole = hex(value, digits);
        assert(whole == head.push(hex_char(value % 16)));
        assert(whole.drop_last() =~= head);
        assert(whole[0] == head[0]);
        if digits == 1 {
            lemma_leading_digit(value / 16);
        }
    } else {
        let whole = seq![hex_char(value)];
        assert(whole.drop_last() =~= Seq::<char>::empty());
        assert(hex_number(Seq::<char>::empty()) == 0);
        assert(hex_number(whole) == hex_value(hex_char(value)));
    }
}

/// A number above zero has no leading zero, if no digits are asked for.
proof fn lemma_leading_digit(value: nat)
    ensures
        value > 0 ==> hex(value, 0)[0] != '0',
        hex(value, 0).len() >= 1,
    decreases value,
{
    if value >= 16 {
        lemma_leading_digit(value / 16);
        assert(hex(value, 0)[0] == hex(value / 16, 0)[0]);
    }
}

/// The status of the image work tells how often tiles were hit and missed, each under
/// its name, what the tiles and the viewport are doing, and the peak of the scratch
/// memory.
pub proof fn work_is_told_under_its_name(work: ImageWorkDiagnostics, trailing_newline: bool)
    ensures
        ({
            let told = work_status(work, trailing_newline);
            &&& text::mentions(told, "  tile cache: "@ + work.tile_cache@)
            &&& text::mentions(told, " (hits "@ + text::decimal(work.tile_hits as nat))
            &&& text::mentions(told, ", misses "@ + text::decimal(work.tile_misses as nat))
            &&& text::mentions(told, "  viewport resampling: "@ + work.viewport_resampler@)
            &&& text::mentions(
                told,
                "  CPU resampling scratch peak: "@ + mib(
                    work.resampling_scratch_peak_bytes as nat,
                ) + " MiB"@,
            )
        }),
{
    let hits = text::decimal(work.tile_hits as nat);
    let misses = text::decimal(work.tile_misses as nat);
    let peak = mib(work.resampling_scratch_peak_bytes as nat);
    let end = if trailing_newline {
        "\n"@
    } else {
        Seq::empty()
    };
    let none = Seq::<char>::empty();
    let tiles = "  tile cache: "@ + work.tile_cache@;
    let hit = " (hits "@ + hits;
    let missed = ", misses "@ + misses;
    let viewport = "  viewport resampling: "@ + work.viewport_resampler@;
    let scratch = "  CPU resampling scratch peak: "@ + peak + " MiB"@;
    let first = tiles + hit;
    let second = first + missed + ")\n"@;
    let third = second + viewport + "\n"@;
    text::lemma_grouped(tiles, " (hits "@, hits, none);
    text::lemma_grouped(first, ", misses "@, misses, none);
    text::lemma_grouped(second, "  viewport resampling: "@, work.viewport_resampler@, none);
    text::lemma_grouped(third, "  CPU resampling scratch peak: "@, peak, " MiB"@);
    assert(work_status(work, trailing_newline) == third + scratch + end);
    text::lemma_appended(none, tiles);
    assert(none + tiles =~= tiles);
    text::lemma_appended(tiles, hit);
    text::lemma_appended(first, missed);
    text::lemma_appended(first + missed, ")\n"@);
    text::lemma_appended(second, viewport);
    text::lemma_appended(second + viewport, "\n"@);
    text::lemma_appended(third, scratch);
    text::lemma_appended(third + scratch, end);
}

/// The budget line tells what the image takes, out of the limit, and the allocator's
/// line what is live and what is reserved.
pub proof fn memory_is_told_in_order(work: ImageWorkDiagnostics, totals: AllocatorTotals)
    ensures
        text::mentions(
            budget_line(work),
            "estimate: "@ + mib(work.gpu_image_budget_bytes as nat) + " MiB of "@ + mib(
                work.gpu_memory_limit_bytes as nat,
            ) + " MiB"@,
        ),
        text::mentions(
            allocator_text(Some(totals)),
            mib(totals.total_allocated_bytes as nat) + " MiB live"@,
        ),
        text::mentions(
            allocator_text(Some(totals)),
            mib(totals.total_reserved_bytes as nat) + " MiB reserved"@,
        ),
        allocator_text(None) == "unavailable"@,
{
    reveal_strlit("  GPU image budget estimate: ");
    reveal_strlit("  GPU image budget ");
    reveal_strlit("estimate: ");
    reveal_strlit(" MiB live allocations, ");
    reveal_strlit(" MiB live");
    reveal_strlit(" allocations, ");
    reveal_strlit(" MiB reserved blocks");
    reveal_strlit(" MiB reserved");
    reveal_strlit(" blocks");
    let taken = mib(work.gpu_image_budget_bytes as nat);
    let limit = mib(work.gpu_memory_limit_bytes as nat);
    let estimate = "estimate: "@ + taken + " MiB of "@ + limit + " MiB"@;
    assert("  GPU image budget estimate: "@ =~= "  GPU image budget "@ + "estimate: "@);
    assert(budget_line(work) =~= "  GPU image budget "@ + estimate + Seq::<char>::empty());
    text::lemma_mentions("  GPU image budget "@, estimate, Seq::<char>::empty());
    let live = mib(totals.total_allocated_bytes as nat);
    let reserved = mib(totals.total_reserved_bytes as nat);
    let told = allocator_text(Some(totals));
    assert(" MiB live allocations, "@ =~= " MiB live"@ + " allocations, "@);
    assert(" MiB reserved blocks"@ =~= " MiB reserved"@ + " blocks"@);
    assert(told =~= Seq::<char>::empty() + (live + " MiB live"@) + (" allocations, "@ + reserved
        + " MiB reserved blocks"@));
    text::lemma_mentions(
        Seq::<char>::empty(),
        live + " MiB live"@,
        " allocations, "@ + reserved + " MiB reserved blocks"@,
    );
    assert(told =~= (live + " MiB live allocations, "@) + (reserved + " MiB reserved"@)
        + " blocks"@);
    text::lemma_mentions(
        live + " MiB live allocations, "@,
        reserved + " MiB reserved"@,
        " blocks"@,
    );
}

/// The report on an image tells each of its resources under its name.
pub proof fn image_reports_tell_every_resource(diagnostics: ImageDiagnostics)
    ensures
        ({
            let told = image_report_text(diagnostics);
            &&& text::mentions(told, "  background: "@ + diagnostics.background@)
            &&& text::mentions(told, "  exposure: "@ + diagnostics.exposure_stops@ + " stops\n"@)
            &&& text::mentions(
                told,
                "  HDR metadata state: "@ + diagnostics.hdr_metadata_status@ + "\n"@,
            )
            &&& text::mentions(
                told,
                "  decoded CPU storage: "@ + mib(diagnostics.cpu_storage_bytes as nat),
            )
            &&& text::mentions(
                told,
                "  temporary CPU-to-GPU upload buffer: up to "@ + mib(
                    diagnostics.upload_staging_buffer_bytes as nat,
                ),
            )
            &&& text::mentions(told, budget_line(*diagnostics.work))
            &&& text::mentions(
                told,
                "  GPU allocator memory: "@ + allocator_text(diagnostics.allocator_report),
            )
            &&& text::mentions(
                told,
                "  coarse-preview mip levels: "@ + text::decimal(
                    diagnostics.coarse_mip_levels as nat,
                ),
            )
            &&& text::mentions(told, work_status(*diagnostics.work, false))
        }),
{
    let none = Seq::<char>::empty();
    let work = *diagnostics.work;
    let storage = mib(diagnostics.cpu_storage_bytes as nat);
    let staging = mib(diagnostics.upload_staging_buffer_bytes as nat);
    let allocator = allocator_text(diagnostics.allocator_report);
    let levels = text::decimal(diagnostics.coarse_mip_levels as nat);
    let a = "  background: "@ + diagnostics.background@;
    let b = "  exposure: "@ + diagnostics.exposure_stops@ + " stops\n"@;
    let c = "  HDR metadata state: "@ + diagnostics.hdr_metadata_status@ + "\n"@;
    let d = "  decoded CPU storage: "@ + storage;
    let e = "  temporary CPU-to-GPU upload buffer: up to "@ + staging;
    let f = budget_line(work);
    let g = "  GPU allocator memory: "@ + allocator;
    let h = "  coarse-preview mip levels: "@ + levels;
    let i = work_status(work, false);
    let after_a = a + "\n"@;
    let after_b = after_a + b;
    let after_c = after_b + c;
    let after_d = after_c + d + " MiB (full-resolution RGBA16F + coarse RGBA32F preview)\n"@;
    let after_e = after_d + e + " MiB\n"@;
    let after_f = after_e + f + "\n"@;
    let after_g = after_f + g + "\n"@;
    let after_h = after_g + h + "\n"@;
    text::lemma_grouped(after_a, "  exposure: "@, diagnostics.exposure_stops@, " stops\n"@);
    text::lemma_grouped(
        after_b,
        "  HDR metadata state: "@,
        diagnostics.hdr_metadata_status@,
        "\n"@,
    );
    text::lemma_grouped(after_c, "  decoded CPU storage: "@, storage, none);
    text::lemma_grouped(
        after_d,
        "  temporary CPU-to-GPU upload buffer: up to "@,
        staging,
        none,
    );
    text::lemma_grouped(after_f, "  GPU allocator memory: "@, allocator, none);
    text::lemma_grouped(after_g, "  coarse-preview mip levels: "@, levels, none);
    assert(image_report_text(diagnostics) == after_h + i);
    text::lemma_appended(none, a);
    assert(none + a =~= a);
    text::lemma_appended(a, "\n"@);
    text::lemma_appended(after_a, b);
    text::lemma_appended(after_b, c);
    text::lemma_appended(after_c, d);
    text::lemma_appended(
        after_c + d,
        " MiB (full-resolution RGBA16F + coarse RGBA32F preview)\n"@,
    );
    text::lemma_appended(after_d, e);
    text::lemma_appended(after_d + e, " MiB\n"@);
    text::lemma_appended(after_e, f);
    text::lemma_appended(after_e + f, "\n"@);
    text::lemma_appended(after_f, g);
    text::lemma_appended(after_f + g, "\n"@);
    text::lemma_appended(after_g, h);
    text::lemma_appended(after_g + h, "\n"@);
    text::lemma_appended(after_h, i);
}

/// The report on the adapter tells what it is under its name, and its numbers in
/// hexadecimal notation of at least four digits.
pub proof fn adapters_are_told_by_their_names(description: SurfaceDescription)
    ensures
        ({
            let told = adapter_text(description);
            &&& text::mentions(told, "  name: "@ + description.name@ + "\n"@)
            &&& text::mentions(told, "  type: "@ + description.device_type@ + "\n"@)
            &&& text::mentions(told, "  vendor: 0x"@ + hex(description.vendor as nat, 4) + "\n"@)
            &&& text::mentions(told, "  device: 0x"@ + hex(description.device as nat, 4) + "\n"@)
            &&& text::mentions(
                told,
                "  driver: "@ + description.driver@ + " ("@ + description.driver_info@ + ")\n"@,
            )
            &&& text::mentions(told, "  backend: "@ + description.backend@ + "\n"@)
        }),
{
    let title = "GPU adapter:\n"@;
    let vendor = hex(description.vendor as nat, 4);
    let device = hex(description.device as nat, 4);
    let a = "  name: "@ + description.name@ + "\n"@;
    let b = "  type: "@ + description.device_type@ + "\n"@;
    let c = "  vendor: 0x"@ + vendor + "\n"@;
    let d = "  device: 0x"@ + device + "\n"@;
    let driver = "  driver: "@ + description.driver@ + " ("@;
    let e = driver + description.driver_info@ + ")\n"@;
    let f = "  backend: "@ + description.backend@ + "\n"@;
    let after_a = title + a;
    let after_b = after_a + b;
    let after_c = after_b + c;
    let after_d = after_c + d;
    let after_e = after_d + e;
    text::lemma_grouped(title, "  name: "@, description.name@, "\n"@);
    text::lemma_grouped(after_a, "  type: "@, description.device_type@, "\n"@);
    text::lemma_grouped(after_b, "  vendor: 0x"@, vendor, "\n"@);
    text::lemma_grouped(after_c, "  device: 0x"@, device, "\n"@);
    text::lemma_grouped(after_d, "  driver: "@, description.driver@, " ("@);
    text::lemma_grouped(after_d, driver, description.driver_info@, ")\n"@);
    text::lemma_grouped(after_e, "  backend: "@, description.backend@, "\n"@);
    assert(adapter_text(description) == after_e + f + "\n"@);
    text::lemma_appended(title, a);
    text::lemma_appended(after_a, b);
    text::lemma_appended(after_b, c);
    text::lemma_appended(after_c, d);
    text::lemma_appended(after_d, e);
    text::lemma_appended(after_e, f);
    text::lemma_appended(after_e + f, "\n"@);
}

/// The report on what was selected tells the requested mode, the class of the source
/// where the mode is automatic, and the selected pair.
pub proof fn selections_are_told(
    description: SurfaceDescription,
    output_mode: OutputMode,
    source_dynamic_range: SourceDynamicRange,
    selected_format: Seq<char>,
    selected_color_space: SurfaceColorSpace,
)
    ensures
        ({
            let told = selection_text(
                description,
                output_mode,
                source_dynamic_range,
                selected_format,
                selected_color_space,
            );
            &&& text::mentions(
                told,
                "Requested output mode: "@ + output::output_mode_name(output_mode) + "\n"@,
            )
            &&& output_mode == OutputMode::Auto ==> text::mentions(
                told,
                "Automatic source class: "@ + dynamic_range_text(source_dynamic_range) + "\n"@,
            )
            &&& text::mentions(
                told,
                "Selected surface pair: "@ + selected_format + " + "@ + color_space_text(
                    selected_color_space,
                ) + "\n"@,
            )
            &&& text::mentions(told, "Present modes: "@ + description.present_modes@ + "\n"@)
            &&& text::mentions(told, "Alpha modes: "@ + description.alpha_modes@ + "\n"@)
            &&& text::mentions(told, "Surface usages: "@ + description.usages@ + "\n"@)
            &&& text::mentions(told, "Display HDR information: "@ + description.hdr_info@ + "\n"@)
        }),
{
    let told = selection_text(
        description,
        output_mode,
        source_dynamic_range,
        selected_format,
        selected_color_space,
    );
    let mode = output::output_mode_name(output_mode);
    let range = dynamic_range_text(source_dynamic_range);
    let color_space = color_space_text(selected_color_space);
    let a = "Requested output mode: "@ + mode + "\n"@;
    let b = if output_mode == OutputMode::Auto {
        "Automatic source class: "@ + range + "\n"@
    } else {
        Seq::empty()
    };
    let pair = "Selected surface pair: "@ + selected_format + " + "@;
    let c = pair + color_space + "\n"@;
    let d = "Present modes: "@ + description.present_modes@ + "\n"@;
    let e = "Alpha modes: "@ + description.alpha_modes@ + "\n"@;
    let f = "Surface usages: "@ + description.usages@ + "\n"@;
    let g = "Display HDR information: "@ + description.hdr_info@ + "\n"@;
    let start = "\n"@;
    let after_a = start + a;
    let after_b = after_a + b;
    let after_c = after_b + c;
    let after_d = after_c + d;
    let after_e = after_d + e;
    let after_f = after_e + f;
    text::lemma_grouped(start, "Requested output mode: "@, mode, "\n"@);
    text::lemma_grouped(after_b, "Selected surface pair: "@, selected_format, " + "@);
    text::lemma_grouped(after_b, pair, color_space, "\n"@);
    text::lemma_grouped(after_c, "Present modes: "@, description.present_modes@, "\n"@);
    text::lemma_grouped(after_d, "Alpha modes: "@, description.alpha_modes@, "\n"@);
    text::lemma_grouped(after_e, "Surface usages: "@, description.usages@, "\n"@);
    text::lemma_grouped(after_f, "Display HDR information: "@, description.hdr_info@, "\n"@);
    assert(told == after_f + g);
    text::lemma_appended(start, a);
    text::lemma_appended(after_a, b);
    text::lemma_appended(after_b, c);
    text::lemma_appended(after_c, d);
    text::lemma_appended(after_d, e);
    text::lemma_appended(after_e, f);
    text::lemma_appended(after_f, g);
}

/// The lines of a format name exactly the color spaces that it supports: one that is
/// supported is mentioned with the format.
pub proof fn supported_pairs_are_told(
    format: Seq<char>,
    color_spaces: SurfaceColorSpaces,
    count: int,
    index: int,
)
    requires
        0 <= index < count <= 7,
        color_spaces.has(explicit_color_spaces()[index]),
    ensures
        text::mentions(
            pair_lines(format, color_spaces, count),
            "  "@ + format + " + "@ + color_space_text(explicit_color_spaces()[index]) + "\n"@,
        ),
    decreases count,
{
    let told = pair_lines(format, color_spaces, count);
    let before = pair_lines(format, color_spaces, count - 1);
    let none = Seq::<char>::empty();
    let line = "  "@ + format + " + "@ + color_space_text(explicit_color_spaces()[index]) + "\n"@;
    if index == count - 1 {
        assert(told =~= before + line + none);
        text::lemma_mentions(before, line, none);
    } else {
        supported_pairs_are_told(format, color_spaces, count - 1, index);
        let added = told.skip(before.len() as int);
        assert(told =~= none + before + added);
        text::lemma_mentions_within(none, before, added, line);
    }
}

/// Where no color space is supported, no pair is told.
pub proof fn unsupported_pairs_are_not_told(
    format: Seq<char>,
    color_spaces: SurfaceColorSpaces,
    count: int,
)
    requires
        0 <= count <= 7,
        forall|k: int|
            0 <= k < count ==> !color_spaces.has(#[trigger] explicit_color_spaces()[k]),
    ensures
        pair_lines(format, color_spaces, count).len() == 0,
    decreases count,
{
    if count > 0 {
        assert(!color_spaces.has(explicit_color_spaces()[count - 1]));
        unsupported_pairs_are_not_told(format, color_spaces, count - 1);
    }
}

/// The lines of the formats stand in their order, and the report consists of the
/// adapter, the pairs and the selection; where there are no pairs it says so.
pub proof fn capabilities_are_told_in_order(
    description: SurfaceDescription,
    output_mode: OutputMode,
    source_dynamic_range: SourceDynamicRange,
    selected_format: Seq<char>,
    selected_color_space: SurfaceColorSpace,
    count: int,
)
    requires
        0 <= count < description.formats@.len(),
    ensures
        ({
            let told = capabilities_text(
                description,
                output_mode,
                source_dynamic_range,
                selected_format,
                selected_color_space,
            );
            let selection = selection_text(
                description,
                output_mode,
                source_dynamic_range,
                selected_format,
                selected_color_space,
            );
            let formats = format_lines(description.formats@, description.formats@.len() as int);
            &&& told.take(adapter_text(description).len() as int) == adapter_text(description)
            &&& told.skip(told.len() - selection.len()) == selection
            &&& text::mentions(told, formats)
            &&& no_pairs(description.formats@) ==> text::mentions(told, "  (none)\n"@)
            &&& format_lines(description.formats@, count + 1) == format_lines(
                description.formats@,
                count,
            ) + pair_lines(
                description.formats@[count].format@,
                description.formats@[count].color_spaces,
                7,
            ) + unknown_line(
                description.formats@[count].format@,
                description.formats@[count].color_spaces,
            )
        }),
        format_lines(description.formats@, 0).len() == 0,
{
    let told = capabilities_text(
        description,
        output_mode,
        source_dynamic_range,
        selected_format,
        selected_color_space,
    );
    let adapter = adapter_text(description);
    let title = "Advertised surface format/color-space pairs:\n"@;
    let formats = format_lines(description.formats@, description.formats@.len() as int);
    let none = if no_pairs(description.formats@) {
        "  (none)\n"@
    } else {
        Seq::empty()
    };
    let selection = selection_text(
        description,
        output_mode,
        source_dynamic_range,
        selected_format,
        selected_color_space,
    );
    assert(told.take(adapter.len() as int) =~= adapter);
    assert(told.skip(told.len() - selection.len()) =~= selection);
    assert(told =~= (adapter + title) + formats + (none + selection));
    text::lemma_mentions(adapter + title, formats, none + selection);
    assert(told =~= (adapter + title + formats) + none + selection);
    text::lemma_mentions(adapter + title + formats, none, selection);
}

/// Bits that stand for no known color space are told as what they are: the known ones
/// left out, in hexadecimal notation; and where there are none, nothing is told.
pub proof fn unknown_bits_are_told(format: Seq<char>, known: u32, unknown: u32)
    requires
        known < 128,
        unknown < 0x200_0000,
    ensures
        ({
            let told = unknown_line(
                format,
                SurfaceColorSpaces { bits: (unknown * 128 + known) as u32 },
            );
            &&& unknown == 0 ==> told.len() == 0
            &&& unknown > 0 ==> text::mentions(told, "(0x"@ + hex((unknown * 128) as nat, 1) + ")"@)
            &&& unknown > 0 ==> text::mentions(told, format)
        }),
{
    let spaces = SurfaceColorSpaces { bits: (unknown * 128 + known) as u32 };
    let told = unknown_line(format, spaces);
    if unknown > 0 {
        reveal_strlit(" + unknown bits SurfaceColorSpaces(0x");
        reveal_strlit(" + unknown bits SurfaceColorSpaces");
        reveal_strlit("(0x");
        reveal_strlit(")\n");
        reveal_strlit(")");
        reveal_strlit("\n");
        let number = hex((unknown * 128) as nat, 1);
        let bits = "(0x"@ + number + ")"@;
        let label = " + unknown bits SurfaceColorSpaces"@;
        assert(" + unknown bits SurfaceColorSpaces(0x"@ =~= label + "(0x"@);
        assert(")\n"@ =~= ")"@ + "\n"@);
        assert(told =~= ("  "@ + format + label) + bits + "\n"@);
        text::lemma_mentions("  "@ + format + label, bits, "\n"@);
        assert(told =~= "  "@ + format + (label + bits + "\n"@));
        text::lemma_mentions("  "@, format, label + bits + "\n"@);
    }
}

} // verus!
