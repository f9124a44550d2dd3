//! Layout of the metadata overlay and of the empty state.
//!
//! Text is measured and rasterized outside; the measures come in here, and what
//! is to be drawn where comes out.
use vstd::prelude::*;

use crate::canvas;
use crate::canvas::{draw_horizontal_rule, draw_svg_logo, fill};
use crate::numeric;
use crate::numeric::{max_usize, saturating_add_u64, saturating_mul_u64};
use crate::text::push_text;
use crate::units::{u64_from_usize, usize_from_u32};
use crate::words;
use crate::words::first_characters;

verus! {

/// The most characters of a text that are shown.
pub const MAX_CHARACTERS_PER_CELL: usize = 80;

/// What the empty state says.
pub const EMPTY_STATE_HELP: &'static str = "Use drag and drop or press \"O\" to open a file";

/// The name that the application shows.
pub const APPLICATION_NAME: &'static str = "XL-View";

/// A titled table of the overlay.
#[derive(Debug, Eq, PartialEq)]
pub struct OverlaySection {
    pub title: &'static str,
    pub rows: Vec<(String, String)>,
}

/// How wide the texts of a section are: its title, and the label and the value
/// of each row.
#[derive(Debug)]
pub struct SectionWidths {
    pub title: usize,
    pub rows: Vec<(usize, usize)>,
}

/// The distances of the overlay in pixels.
#[derive(Clone, Copy, Debug, PartialEq, Eq, Structural)]
pub struct UiScale {
    pub column_gap: usize,
    pub padding: usize,
    pub rule_row_gap: usize,
    pub rule_thickness: usize,
    pub section_gap: usize,
    pub title_rule_gap: usize,
}

/// The measures of the two fonts in pixels, rounded up.
#[derive(Clone, Copy, Debug, PartialEq, Eq, Structural)]
pub struct LineMetrics {
    pub row_ascent: u32,
    pub row_line: usize,
    pub title_ascent: u32,
    pub title_line: usize,
}

/// The horizontal measures of an overlay and the heights of its lines.
#[derive(Clone, Copy, Debug, PartialEq, Eq, Structural)]
pub struct OverlayLayout {
    pub content_width: usize,
    pub label_width: usize,
    pub row_ascent: u32,
    pub row_height: usize,
    pub title_ascent: u32,
    pub title_height: usize,
    pub width: usize,
    pub height: usize,
}

/// A font and a colour.
#[derive(Clone, Copy, Debug, PartialEq, Eq, Structural)]
pub enum TextStyle {
    Title,
    Label,
    Value,
    EmptyStateTitle,
    EmptyStateHelp,
}

impl TextStyle {
    /// The linear colour of this style by the bits of its channels.
    pub open spec fn rgb(self) -> Seq<u32> {
        match self {
            TextStyle::Title => seq![0x3f51_eb85u32, 0x3f5c_28f6u32, 0x3f70_a3d7u32],
            TextStyle::Label => seq![0x3f2e_147bu32, 0x3f38_51ecu32, 0x3f47_ae14u32],
            TextStyle::Value => seq![0x3f70_a3d7u32, 0x3f70_a3d7u32, 0x3f70_a3d7u32],
            TextStyle::EmptyStateTitle => seq![0x3f70_a3d7u32, 0x3f73_3333u32, 0x3f78_51ecu32],
            TextStyle::EmptyStateHelp => seq![0x3f19_999au32, 0x3f23_d70au32, 0x3f33_3333u32],
        }
    }

    /// The linear colour of this style by the bits of its channels.
    pub fn color(self) -> (rgb: [u32; 3])
        ensures
            rgb@ == self.rgb(),
    {
        match self {
            TextStyle::Title => [0x3f51_eb85, 0x3f5c_28f6, 0x3f70_a3d7],
            TextStyle::Label => [0x3f2e_147b, 0x3f38_51ec, 0x3f47_ae14],
            TextStyle::Value => [0x3f70_a3d7, 0x3f70_a3d7, 0x3f70_a3d7],
            TextStyle::EmptyStateTitle => [0x3f70_a3d7, 0x3f73_3333, 0x3f78_51ec],
            TextStyle::EmptyStateHelp => [0x3f19_999a, 0x3f23_d70a, 0x3f33_3333],
        }
    }
}

/// A text to draw from a column on a baseline.
#[derive(Debug)]
pub struct TextRun {
    pub x: usize,
    pub baseline: u64,
    pub text: String,
    pub style: TextStyle,
}

/// The model of a text to draw.
pub ghost struct TextRunModel {
    pub x: int,
    pub baseline: int,
    pub text: Seq<char>,
    pub style: TextStyle,
}

impl View for TextRun {
    type V = TextRunModel;

    open spec fn view(&self) -> TextRunModel {
        TextRunModel {
            x: self.x as int,
            baseline: self.baseline as int,
            text: self.text@,
            style: self.style,
        }
    }
}

/// The models of a list of texts to draw.
pub open spec fn run_models(runs: Seq<TextRun>) -> Seq<TextRunModel> {
    runs.map_values(|run: TextRun| run@)
}

/// The shown part of a text.
pub open spec fn shown(text: Seq<char>) -> Seq<char> {
    words::first_chars(text, MAX_CHARACTERS_PER_CELL as nat)
}

/// The sections with rows, by their numbers.
pub open spec fn filled_sections(sections: Seq<OverlaySection>, count: nat) -> Seq<int>
    decreases count,
{
    if count == 0 {
        Seq::empty()
    } else {
        let before = filled_sections(sections, (count - 1) as nat);
        if sections[count - 1].rows@.len() > 0 {
            before.push(count - 1)
        } else {
            before
        }
    }
}

/// The numbers of all sections with rows.
pub open spec fn rendered(sections: Seq<OverlaySection>) -> Seq<int> {
    filled_sections(sections, sections.len())
}

/// The widest of the first labels.
pub open spec fn widest_label(rows: Seq<(usize, usize)>) -> int
    decreases rows.len(),
{
    if rows.len() == 0 {
        0
    } else {
        numeric::larger(widest_label(rows.drop_last()), rows.last().0 as int)
    }
}

/// The widest of the first values.
pub open spec fn widest_value(rows: Seq<(usize, usize)>) -> int
    decreases rows.len(),
{
    if rows.len() == 0 {
        0
    } else {
        numeric::larger(widest_value(rows.drop_last()), rows.last().1 as int)
    }
}

/// The rows above a rendered section.
pub open spec fn rows_above(sections: Seq<OverlaySection>, index: nat) -> int
    decreases index,
{
    if index == 0 {
        0
    } else {
        rows_above(sections, (index - 1) as nat) + sections[rendered(
            sections,
        )[index - 1]].rows@.len()
    }
}

/// The widest label of the first rendered sections.
pub open spec fn label_column(
    sections: Seq<OverlaySection>,
    widths: Seq<SectionWidths>,
    count: nat,
) -> int
    decreases count,
{
    if count == 0 {
        0
    } else {
        numeric::larger(
            label_column(sections, widths, (count - 1) as nat),
            widest_label(widths[rendered(sections)[count - 1]].rows@),
        )
    }
}

/// The widest value of the first rendered sections.
pub open spec fn value_column(
    sections: Seq<OverlaySection>,
    widths: Seq<SectionWidths>,
    count: nat,
) -> int
    decreases count,
{
    if count == 0 {
        0
    } else {
        numeric::larger(
            value_column(sections, widths, (count - 1) as nat),
            widest_value(widths[rendered(sections)[count - 1]].rows@),
        )
    }
}

/// The widest title of the first rendered sections.
pub open spec fn title_column(
    sections: Seq<OverlaySection>,
    widths: Seq<SectionWidths>,
    count: nat,
) -> int
    decreases count,
{
    if count == 0 {
        0
    } else {
        numeric::larger(
            title_column(sections, widths, (count - 1) as nat),
            widths[rendered(sections)[count - 1]].title as int,
        )
    }
}

/// The height of a line: at least one pixel.
pub open spec fn line_height(line: usize) -> int {
    numeric::larger(line as int, 1)
}

/// The width of the table or of the widest title, whichever is wider.
pub open spec fn overlay_content_width(
    sections: Seq<OverlaySection>,
    widths: Seq<SectionWidths>,
    scale: UiScale,
) -> int {
    let count = rendered(sections).len();
    numeric::larger(
        label_column(sections, widths, count) + scale.column_gap + value_column(
            sections,
            widths,
            count,
        ),
        title_column(sections, widths, count),
    )
}

/// The width of an overlay.
pub open spec fn overlay_width(
    sections: Seq<OverlaySection>,
    widths: Seq<SectionWidths>,
    scale: UiScale,
) -> int {
    scale.padding * 2 + overlay_content_width(sections, widths, scale)
}

/// The height of a section above its rows.
pub open spec fn heading_height(scale: UiScale, metrics: LineMetrics) -> int {
    line_height(metrics.title_line) + scale.title_rule_gap + scale.rule_thickness
        + scale.rule_row_gap
}

/// The height of an overlay.
pub open spec fn overlay_height(
    sections: Seq<OverlaySection>,
    scale: UiScale,
    metrics: LineMetrics,
) -> int {
    let count = rendered(sections).len();
    scale.padding * 2 + rows_above(sections, count) * line_height(metrics.row_line) + count
        * heading_height(scale, metrics) + numeric::larger(count - 1, 0) * scale.section_gap
}

/// Whether every text of the sections was measured. A title is at least one
/// pixel wide.
pub open spec fn are_measured(sections: Seq<OverlaySection>, widths: Seq<SectionWidths>) -> bool {
    &&& sections.len() == widths.len()
    &&& forall|i: int| 0 <= i < widths.len() ==> #[trigger] widths[i].title >= 1
    &&& forall|i: int|
        0 <= i < sections.len() ==> #[trigger] widths[i].rows@.len() == sections[i].rows@.len()
}

/// Whether an image has `u32` dimensions and channels that can be counted.
pub open spec fn image_fits(width: int, height: int) -> bool {
    width <= u32::MAX && height <= u32::MAX && width * height * 4 <= usize::MAX
}

/// The layout of an overlay.
pub open spec fn overlay_layout(
    sections: Seq<OverlaySection>,
    widths: Seq<SectionWidths>,
    scale: UiScale,
    metrics: LineMetrics,
) -> OverlayLayout {
    OverlayLayout {
        content_width: overlay_content_width(sections, widths, scale) as usize,
        label_width: label_column(sections, widths, rendered(sections).len()) as usize,
        row_ascent: metrics.row_ascent,
        row_height: line_height(metrics.row_line) as usize,
        title_ascent: metrics.title_ascent,
        title_height: line_height(metrics.title_line) as usize,
        width: overlay_width(sections, widths, scale) as usize,
        height: overlay_height(sections, scale, metrics) as usize,
    }
}

/// The top of a rendered section.
pub open spec fn section_top(
    sections: Seq<OverlaySection>,
    scale: UiScale,
    metrics: LineMetrics,
    index: int,
) -> int {
    scale.padding + index * (heading_height(scale, metrics) + scale.section_gap) + rows_above(
        sections,
        index as nat,
    ) * line_height(metrics.row_line)
}

/// The top of the rule below a title.
pub open spec fn rule_top(scale: UiScale, metrics: LineMetrics, top: int) -> int {
    top + line_height(metrics.title_line) + scale.title_rule_gap
}

/// The texts of the first rows of a section that begins at `top`.
pub open spec fn row_runs(
    rows: Seq<(String, String)>,
    label_width: int,
    scale: UiScale,
    metrics: LineMetrics,
    top: int,
    count: nat,
) -> Seq<TextRunModel>
    decreases count,
{
    if count == 0 {
        Seq::empty()
    } else {
        let row = rows[count - 1];
        let baseline = top + heading_height(scale, metrics) + (count - 1) * line_height(
            metrics.row_line,
        ) + metrics.row_ascent;
        row_runs(rows, label_width, scale, metrics, top, (count - 1) as nat).push(
            TextRunModel {
                x: scale.padding as int,
                baseline,
                text: shown(row.0@),
                style: TextStyle::Label,
            },
        ).push(
            TextRunModel {
                x: scale.padding + label_width + scale.column_gap,
                baseline,
                text: shown(row.1@),
                style: TextStyle::Value,
            },
        )
    }
}

/// The texts of a section that begins at `top`.
pub open spec fn section_runs(
    section: OverlaySection,
    label_width: int,
    scale: UiScale,
    metrics: LineMetrics,
    top: int,
) -> Seq<TextRunModel> {
    seq![
        TextRunModel {
            x: scale.padding as int,
            baseline: top + metrics.title_ascent,
            text: shown(section.title@),
            style: TextStyle::Title,
        },
    ] + row_runs(section.rows@, label_width, scale, metrics, top, section.rows@.len())
}

/// The texts of the first rendered sections.
pub open spec fn overlay_runs(
    sections: Seq<OverlaySection>,
    label_width: int,
    scale: UiScale,
    metrics: LineMetrics,
    count: nat,
) -> Seq<TextRunModel>
    decreases count,
{
    if count == 0 {
        Seq::empty()
    } else {
        overlay_runs(sections, label_width, scale, metrics, (count - 1) as nat) + section_runs(
            sections[rendered(sections)[count - 1]],
            label_width,
            scale,
            metrics,
            section_top(sections, scale, metrics, count - 1),
        )
    }
}

/// The bits of 0.012.
pub const BACKGROUND_GREY: u32 = 0x3c44_9ba6;

/// The bits of 0.84.
pub const BACKGROUND_OPACITY: u32 = 0x3f57_0a3d;

/// The background of an overlay.
pub open spec fn background(channels: nat) -> Seq<u32> {
    Seq::new(
        channels,
        |i: int|
            if i % 4 == 3 {
                BACKGROUND_OPACITY
            } else {
                BACKGROUND_GREY
            },
    )
}

/// The background with the rules of the first rendered sections.
pub open spec fn overlay_pixels(
    sections: Seq<OverlaySection>,
    scale: UiScale,
    metrics: LineMetrics,
    width: int,
    height: int,
    count: nat,
) -> Seq<u32>
    decreases count,
{
    if count == 0 {
        background((width * height * 4) as nat)
    } else {
        canvas::with_rule(
            overlay_pixels(sections, scale, metrics, width, height, (count - 1) as nat),
            width,
            scale.padding as int,
            rule_top(scale, metrics, section_top(sections, scale, metrics, count - 1)),
            width - scale.padding * 2,
            scale.rule_thickness as int,
        )
    }
}

/// Whether a channel lies in the rule of a rendered section.
pub open spec fn in_section_rule(
    sections: Seq<OverlaySection>,
    scale: UiScale,
    metrics: LineMetrics,
    width: int,
    height: int,
    index: int,
    channel: int,
) -> bool {
    canvas::in_rectangle(
        channel,
        (width * height * 4) as nat,
        width,
        scale.padding as int,
        rule_top(scale, metrics, section_top(sections, scale, metrics, index)),
        width - scale.padding * 2,
        scale.rule_thickness as int,
    )
}

/// Before its texts are drawn, an overlay shows the colour of the rules where one
/// of its sections has its rule, and the background everywhere else. The
/// opacity is that of the background throughout.
pub proof fn overlays_show_rules_on_their_background(
    sections: Seq<OverlaySection>,
    scale: UiScale,
    metrics: LineMetrics,
    width: int,
    height: int,
    count: nat,
    channel: int,
)
    requires
        0 <= channel < width * height * 4,
    ensures
        overlay_pixels(sections, scale, metrics, width, height, count).len() == width * height * 4,
        overlay_pixels(sections, scale, metrics, width, height, count)[channel] == if channel % 4
            < 3 && exists|index: int|
            0 <= index < count && #[trigger] in_section_rule(
                sections,
                scale,
                metrics,
                width,
                height,
                index,
                channel,
            ) {
            canvas::rule_color(channel)
        } else {
            background((width * height * 4) as nat)[channel]
        },
    decreases count,
{
    if count > 0 {
        let before = (count - 1) as nat;
        overlays_show_rules_on_their_background(
            sections,
            scale,
            metrics,
            width,
            height,
            before,
            channel,
        );
        if in_section_rule(sections, scale, metrics, width, height, count - 1, channel) {
            assert(0 <= count - 1 < count);
        } else if exists|index: int|
            0 <= index < count && #[trigger] in_section_rule(
                sections,
                scale,
                metrics,
                width,
                height,
                index,
                channel,
            ) {
            let index = choose|index: int|
                0 <= index < count && #[trigger] in_section_rule(
                    sections,
                    scale,
                    metrics,
                    width,
                    height,
                    index,
                    channel,
                );
            assert(index < before);
        }
    }
}

/// An image of four binary32 channels per pixel, each by its bits.
#[derive(Debug)]
pub struct OverlayImage {
    pub height: u32,
    pub pixels: Vec<u32>,
    pub width: u32,
}

/// An overlay before its texts are drawn, and those texts.
#[derive(Debug)]
pub struct OverlayPlan {
    pub image: OverlayImage,
    pub texts: Vec<TextRun>,
}

/// Lists the sections with rows.
fn rendered_sections(sections: &[OverlaySection]) -> (numbers: Vec<usize>)
    ensures
        numbers@.len() == rendered(sections@).len(),
        forall|i: int| 0 <= i < numbers@.len() ==> #[trigger] numbers@[i] == rendered(sections@)[i],
        forall|i: int| 0 <= i < numbers@.len() ==> #[trigger] numbers@[i] < sections@.len(),
{
    let mut numbers: Vec<usize> = Vec::new();
    let mut index: usize = 0;
    while index < sections.len()
        invariant
            index <= sections@.len(),
            numbers@.len() == filled_sections(sections@, index as nat).len(),
            forall|i: int|
                0 <= i < numbers@.len() ==> #[trigger] numbers@[i] == filled_sections(
                    sections@,
                    index as nat,
                )[i],
            forall|i: int| 0 <= i < numbers@.len() ==> #[trigger] numbers@[i] < sections@.len(),
        decreases sections@.len() - index,
    {
        if sections[index].rows.len() > 0 {
            numbers.push(index);
        }
        index += 1;
    }
    numbers
}

/// The widest label and the widest value of some rows.
fn widest_cells(rows: &Vec<(usize, usize)>) -> (widest: (usize, usize))
    ensures
        widest.0 == widest_label(rows@),
        widest.1 == widest_value(rows@),
{
    let mut label: usize = 0;
    let mut value: usize = 0;
    let mut index: usize = 0;
    assert(rows@.take(0) =~= Seq::<(usize, usize)>::empty());
    while index < rows.len()
        invariant
            index <= rows@.len(),
            label == widest_label(rows@.take(index as int)),
            value == widest_value(rows@.take(index as int)),
        decreases rows@.len() - index,
    {
        assert(rows@.take(index + 1).drop_last() =~= rows@.take(index as int));
        label = max_usize(label, rows[index].0);
        value = max_usize(value, rows[index].1);
        index += 1;
    }
    assert(rows@.take(index as int) =~= rows@);
    (label, value)
}

/// Capping both factors does not change a capped product.
proof fn lemma_saturated_product(a: int, b: int)
    requires
        0 <= a,
        0 <= b,
    ensures
        numeric::saturated(numeric::saturated(a) * numeric::saturated(b)) == numeric::saturated(
            a * b,
        ),
{
    let top = u64::MAX as int;
    if a > top || b > top {
        if a == 0 || b == 0 {
            assert(a * b == 0) by (nonlinear_arith)
                requires
                    a == 0 || b == 0,
            ;
            assert(numeric::saturated(a) * numeric::saturated(b) == 0) by (nonlinear_arith)
                requires
                    numeric::saturated(a) == 0 || numeric::saturated(b) == 0,
            ;
        } else {
            assert(a * b >= top) by (nonlinear_arith)
                requires
                    a >= 1,
                    b >= 1,
                    a >= top || b >= top,
                    top >= 1,
            ;
            assert(numeric::saturated(a) * numeric::saturated(b) >= top) by (nonlinear_arith)
                requires
                    numeric::saturated(a) >= 1,
                    numeric::saturated(b) >= 1,
                    numeric::saturated(a) >= top || numeric::saturated(b) >= top,
                    top >= 1,
            ;
        }
    }
}

/// Rows are counted from zero up.
proof fn lemma_rows_above_is_not_negative(sections: Seq<OverlaySection>, index: nat)
    ensures
        0 <= rows_above(sections, index),
    decreases index,
{
    if index > 0 {
        lemma_rows_above_is_not_negative(sections, (index - 1) as nat);
    }
}

/// The dimensions of an image as `usize`, if they fit.
fn fitting_size(width: u64, height: u64) -> (size: Option<(usize, usize)>)
    ensures
        size is Some == image_fits(width as int, height as int),
        size matches Some((w, h)) ==> w == width && h == height,
{
    if width > u32::MAX as u64 || height > u32::MAX as u64 {
        return None;
    }
    assert(width * height <= u32::MAX * u32::MAX) by (nonlinear_arith)
        requires
            0 <= width <= u32::MAX,
            0 <= height <= u32::MAX,
    ;
    let area: u64 = width * height;
    if area > usize::MAX as u64 / 4 {
        None
    } else {
        Some((width as usize, height as usize))
    }
}

/// Lays an overlay out, if its image can be made.
#[verifier::rlimit(30)]
fn lay_out(
    sections: &[OverlaySection],
    widths: &[SectionWidths],
    scale: UiScale,
    metrics: LineMetrics,
    numbers: &Vec<usize>,
) -> (layout: Option<OverlayLayout>)
    requires
        are_measured(sections@, widths@),
        numbers@.len() == rendered(sections@).len(),
        forall|i: int| 0 <= i < numbers@.len() ==> #[trigger] numbers@[i] == rendered(sections@)[i],
        forall|i: int| 0 <= i < numbers@.len() ==> #[trigger] numbers@[i] < sections@.len(),
    ensures
        layout is Some == image_fits(
            overlay_width(sections@, widths@, scale),
            overlay_height(sections@, scale, metrics),
        ),
        layout matches Some(planned) ==> planned == overlay_layout(
            sections@,
            widths@,
            scale,
            metrics,
        ) && planned.content_width == overlay_content_width(sections@, widths@, scale)
            && planned.label_width == label_column(
            sections@,
            widths@,
            rendered(sections@).len(),
        ) && planned.row_height == line_height(metrics.row_line) && planned.title_height
            == line_height(metrics.title_line) && planned.width == overlay_width(
            sections@,
            widths@,
            scale,
        ) && planned.height == overlay_height(sections@, scale, metrics),
{
    let mut label: usize = 0;
    let mut value: usize = 0;
    let mut title: usize = 0;
    let mut rows: u64 = 0;
    let mut index: usize = 0;
    while index < numbers.len()
        invariant
            are_measured(sections@, widths@),
            numbers@.len() == rendered(sections@).len(),
            forall|i: int|
                0 <= i < numbers@.len() ==> #[trigger] numbers@[i] == rendered(sections@)[i],
            forall|i: int| 0 <= i < numbers@.len() ==> #[trigger] numbers@[i] < sections@.len(),
            index <= numbers@.len(),
            label == label_column(sections@, widths@, index as nat),
            value == value_column(sections@, widths@, index as nat),
            title == title_column(sections@, widths@, index as nat),
            rows == numeric::saturated(rows_above(sections@, index as nat)),
        decreases numbers@.len() - index,
    {
        let number: usize = numbers[index];
        let widest: (usize, usize) = widest_cells(&widths[number].rows);
        label = max_usize(label, widest.0);
        value = max_usize(value, widest.1);
        title = max_usize(title, widths[number].title);
        proof {
            lemma_rows_above_is_not_negative(sections@, index as nat);
        }
        rows = saturating_add_u64(rows, u64_from_usize(sections[number].rows.len()));
        index += 1;
    }
    let row_height: usize = max_usize(metrics.row_line, 1);
    let title_height: usize = max_usize(metrics.title_line, 1);
    let ghost count = numbers@.len() as int;
    let ghost all_rows = rows_above(sections@, count as nat);
    let padding: u64 = saturating_mul_u64(u64_from_usize(scale.padding), 2);
    let labels: u64 = saturating_add_u64(u64_from_usize(label), u64_from_usize(scale.column_gap));
    let table: u64 = saturating_add_u64(labels, u64_from_usize(value));
    let content: u64 = numeric::max_u64(table, u64_from_usize(title));
    let width: u64 = saturating_add_u64(padding, content);
    let title_part: u64 = saturating_add_u64(
        u64_from_usize(title_height),
        u64_from_usize(scale.title_rule_gap),
    );
    let rule_part: u64 = saturating_add_u64(title_part, u64_from_usize(scale.rule_thickness));
    let heading: u64 = saturating_add_u64(rule_part, u64_from_usize(scale.rule_row_gap));
    let gaps: usize = if numbers.len() > 0 {
        numbers.len() - 1
    } else {
        0
    };
    let table_height: u64 = saturating_mul_u64(rows, u64_from_usize(row_height));
    let headings: u64 = saturating_mul_u64(u64_from_usize(numbers.len()), heading);
    let gap_height: u64 = saturating_mul_u64(
        u64_from_usize(gaps),
        u64_from_usize(scale.section_gap),
    );
    let height: u64 = saturating_add_u64(
        saturating_add_u64(saturating_add_u64(padding, table_height), headings),
        gap_height,
    );
    proof {
        lemma_rows_above_is_not_negative(sections@, count as nat);
        lemma_saturated_product(all_rows, row_height as int);
        lemma_saturated_product(count, heading_height(scale, metrics));
        assert(heading == numeric::saturated(heading_height(scale, metrics)));
        assert(0 <= all_rows * row_height) by (nonlinear_arith)
            requires
                0 <= all_rows,
                0 <= row_height,
        ;
        assert(0 <= count * heading_height(scale, metrics)) by (nonlinear_arith)
            requires
                0 <= count,
                0 <= heading_height(scale, metrics),
        ;
        assert(0 <= gaps * scale.section_gap) by (nonlinear_arith)
            requires
                0 <= gaps,
                0 <= scale.section_gap,
        ;
        assert(width == numeric::saturated(overlay_width(sections@, widths@, scale)));
        assert(height == numeric::saturated(overlay_height(sections@, scale, metrics)));
    }
    match fitting_size(width, height) {
        Some((width, height)) => Some(
            OverlayLayout {
                content_width: content as usize,
                label_width: label,
                row_ascent: metrics.row_ascent,
                row_height,
                title_ascent: metrics.title_ascent,
                title_height,
                width,
                height,
            },
        ),
        None => None,
    }
}

/// Rows add up along the sections.
proof fn lemma_rows_above_grows(sections: Seq<OverlaySection>, low: nat, high: nat)
    requires
        low <= high,
    ensures
        rows_above(sections, low) <= rows_above(sections, high),
    decreases high,
{
    if low < high {
        lemma_rows_above_grows(sections, low, (high - 1) as nat);
    }
}

/// A section ends one gap above the next one.
proof fn lemma_next_section(
    sections: Seq<OverlaySection>,
    scale: UiScale,
    metrics: LineMetrics,
    index: int,
)
    requires
        0 <= index < rendered(sections).len(),
    ensures
        section_top(sections, scale, metrics, index + 1) == section_top(
            sections,
            scale,
            metrics,
            index,
        ) + heading_height(scale, metrics) + sections[rendered(sections)[index]].rows@.len()
            * line_height(metrics.row_line) + scale.section_gap,
{
    let step = heading_height(scale, metrics) + scale.section_gap;
    let above = rows_above(sections, index as nat);
    let own = sections[rendered(sections)[index]].rows@.len() as int;
    let line = line_height(metrics.row_line);
    assert((index + 1) * step == index * step + step) by (nonlinear_arith);
    assert((above + own) * line == above * line + own * line) by (nonlinear_arith);
}

/// Each section of an overlay ends inside its padding; the last one ends at it.
pub proof fn sections_fill_the_overlay(
    sections: Seq<OverlaySection>,
    scale: UiScale,
    metrics: LineMetrics,
    index: int,
)
    requires
        0 <= index < rendered(sections).len(),
    ensures
        ({
            let bottom = section_top(sections, scale, metrics, index) + heading_height(
                scale,
                metrics,
            ) + sections[rendered(sections)[index]].rows@.len() * line_height(metrics.row_line);
            let end = overlay_height(sections, scale, metrics) - scale.padding;
            &&& bottom <= end
            &&& index == rendered(sections).len() - 1 ==> bottom == end
        }),
{
    let count = rendered(sections).len() as int;
    let heading = heading_height(scale, metrics);
    let gap = scale.section_gap as int;
    let above = rows_above(sections, index as nat);
    let own = sections[rendered(sections)[index]].rows@.len() as int;
    let all = rows_above(sections, count as nat);
    let line = line_height(metrics.row_line);
    assert(rows_above(sections, (index + 1) as nat) == above + own);
    lemma_rows_above_grows(sections, (index + 1) as nat, count as nat);
    assert((above + own) * line == above * line + own * line) by (nonlinear_arith);
    assert((above + own) * line <= all * line) by (nonlinear_arith)
        requires
            above + own <= all,
            line >= 0,
    ;
    assert(index * (heading + gap) + heading == (index + 1) * heading + index * gap)
        by (nonlinear_arith);
    assert((index + 1) * heading <= count * heading) by (nonlinear_arith)
        requires
            index + 1 <= count,
            heading >= 0,
    ;
    assert(index * gap <= (count - 1) * gap) by (nonlinear_arith)
        requires
            index <= count - 1,
            gap >= 0,
    ;
}

/// Some title is at least one pixel wide.
proof fn lemma_titles_have_width(
    sections: Seq<OverlaySection>,
    widths: Seq<SectionWidths>,
    count: nat,
)
    requires
        are_measured(sections, widths),
        count > 0,
        forall|i: int|
            0 <= i < count ==> 0 <= #[trigger] rendered(sections)[i] < sections.len(),
    ensures
        title_column(sections, widths, count) >= 1,
    decreases count,
{
    assert(widths[rendered(sections)[count - 1]].title >= 1);
}

/// Draws the rule of a section and lists its texts. The section begins at `y`;
/// the end of its rows is returned.
fn draw_overlay_section(
    pixels: &mut Vec<u32>,
    texts: &mut Vec<TextRun>,
    section: &OverlaySection,
    scale: UiScale,
    metrics: LineMetrics,
    layout: OverlayLayout,
    y: usize,
) -> (end: usize)
    requires
        layout.row_height == line_height(metrics.row_line),
        layout.title_height == line_height(metrics.title_line),
        layout.width == scale.padding * 2 + layout.content_width,
        layout.width > 0,
        scale.padding + layout.label_width + scale.column_gap <= layout.width,
        y + heading_height(scale, metrics) + section.rows@.len() * layout.row_height <= u32::MAX,
    ensures
        final(pixels)@ == canvas::with_rule(
            old(pixels)@,
            layout.width as int,
            scale.padding as int,
            rule_top(scale, metrics, y as int),
            layout.content_width as int,
            scale.rule_thickness as int,
        ),
        run_models(final(texts)@) == run_models(old(texts)@) + section_runs(
            *section,
            layout.label_width as int,
            scale,
            metrics,
            y as int,
        ),
        end == y + heading_height(scale, metrics) + section.rows@.len() * layout.row_height,
{
    let count: usize = section.rows.len();
    let ghost before = run_models(texts@);
    assert(0 <= count * layout.row_height) by (nonlinear_arith);
    texts.push(
        TextRun {
            x: scale.padding,
            baseline: u64_from_usize(y) + metrics.title_ascent as u64,
            text: first_characters(section.title, MAX_CHARACTERS_PER_CELL),
            style: TextStyle::Title,
        },
    );
    let rule_y: usize = y + layout.title_height + scale.title_rule_gap;
    draw_horizontal_rule(
        pixels,
        layout.width,
        scale.padding,
        rule_y,
        layout.content_width,
        scale.rule_thickness,
    );
    let rows_y: usize = rule_y + scale.rule_thickness + scale.rule_row_gap;
    let ghost opening = section_runs(
        *section,
        layout.label_width as int,
        scale,
        metrics,
        y as int,
    ).take(1);
    assert(run_models(texts@) =~= before + opening);
    let mut index: usize = 0;
    assert(before + opening =~= before + opening + row_runs(
        section.rows@,
        layout.label_width as int,
        scale,
        metrics,
        y as int,
        0,
    ));
    while index < count
        invariant
            index <= count,
            count == section.rows@.len(),
            layout.row_height == line_height(metrics.row_line),
            scale.padding + layout.label_width + scale.column_gap <= layout.width,
            rows_y == y + heading_height(scale, metrics),
            rows_y + count * layout.row_height <= u32::MAX,
            run_models(texts@) == before + opening + row_runs(
                section.rows@,
                layout.label_width as int,
                scale,
                metrics,
                y as int,
                index as nat,
            ),
        decreases count - index,
    {
        assert(0 <= index * layout.row_height <= count * layout.row_height) by (nonlinear_arith)
            requires
                0 <= index <= count,
                0 <= layout.row_height,
        ;
        let baseline: u64 = u64_from_usize(rows_y + index * layout.row_height)
            + metrics.row_ascent as u64;
        let row = &section.rows[index];
        let ghost listed = run_models(texts@);
        texts.push(
            TextRun {
                x: scale.padding,
                baseline,
                text: first_characters(row.0.as_str(), MAX_CHARACTERS_PER_CELL),
                style: TextStyle::Label,
            },
        );
        texts.push(
            TextRun {
                x: scale.padding + layout.label_width + scale.column_gap,
                baseline,
                text: first_characters(row.1.as_str(), MAX_CHARACTERS_PER_CELL),
                style: TextStyle::Value,
            },
        );
        proof {
            let grown = row_runs(
                section.rows@,
                layout.label_width as int,
                scale,
                metrics,
                y as int,
                (index + 1) as nat,
            );
            assert(run_models(texts@) =~= listed.push(texts@[texts@.len() - 2]@).push(
                texts@[texts@.len() - 1]@,
            ));
            assert(grown[grown.len() - 2] == texts@[texts@.len() - 2]@);
            assert(grown[grown.len() - 1] == texts@[texts@.len() - 1]@);
            assert(run_models(texts@) =~= before + opening + grown);
        }
        index += 1;
    }
    assert(run_models(texts@) =~= before + section_runs(
        *section,
        layout.label_width as int,
        scale,
        metrics,
        y as int,
    ));
    rows_y + count * layout.row_height
}

impl OverlayPlan {
    /// Whether this is the one transparent pixel that stands for no overlay.
    pub open spec fn is_placeholder(self) -> bool {
        &&& self.image.width == 1
        &&& self.image.height == 1
        &&& self.image.pixels@ == seq![0u32, 0u32, 0u32, 0u32]
        &&& self.texts@.len() == 0
    }

    /// Whether this is the overlay of the given sections.
    pub open spec fn shows(
        self,
        sections: Seq<OverlaySection>,
        widths: Seq<SectionWidths>,
        scale: UiScale,
        metrics: LineMetrics,
    ) -> bool {
        let count = rendered(sections).len();
        let width = overlay_width(sections, widths, scale);
        let height = overlay_height(sections, scale, metrics);
        &&& self.image.width == width
        &&& self.image.height == height
        &&& self.image.pixels@ == overlay_pixels(sections, scale, metrics, width, height, count)
        &&& run_models(self.texts@) == overlay_runs(
            sections,
            label_column(sections, widths, count),
            scale,
            metrics,
            count,
        )
    }
}

/// The sections with rows, one after another.
pub open spec fn with_rows(sections: Seq<OverlaySection>) -> Seq<OverlaySection> {
    Seq::new(rendered(sections).len(), |i: int| sections[rendered(sections)[i]])
}

/// The measures of the sections with rows.
pub open spec fn measures_with_rows(
    sections: Seq<OverlaySection>,
    widths: Seq<SectionWidths>,
) -> Seq<SectionWidths> {
    Seq::new(rendered(sections).len(), |i: int| widths[rendered(sections)[i]])
}

/// The numbers of sections with rows are those of sections, and these have rows.
proof fn lemma_filled_sections(sections: Seq<OverlaySection>, count: nat)
    requires
        count <= sections.len(),
    ensures
        forall|i: int|
            #![trigger filled_sections(sections, count)[i]]
            0 <= i < filled_sections(sections, count).len() ==> 0 <= filled_sections(
                sections,
                count,
            )[i] < count && sections[filled_sections(sections, count)[i]].rows@.len() > 0,
    decreases count,
{
    if count > 0 {
        let before = filled_sections(sections, (count - 1) as nat);
        let numbers = filled_sections(sections, count);
        lemma_filled_sections(sections, (count - 1) as nat);
        assert forall|i: int| #![trigger numbers[i]] 0 <= i < numbers.len() implies 0 <= numbers[i]
            < count && sections[numbers[i]].rows@.len() > 0 by {
            if i < before.len() {
                assert(numbers[i] == before[i]);
            }
        }
    }
}

/// Where every section has rows, each has its own number.
proof fn lemma_all_filled(sections: Seq<OverlaySection>, count: nat)
    requires
        count <= sections.len(),
        forall|i: int| 0 <= i < sections.len() ==> (#[trigger] sections[i]).rows@.len() > 0,
    ensures
        filled_sections(sections, count).len() == count,
        forall|i: int| 0 <= i < count ==> #[trigger] filled_sections(sections, count)[i] == i,
    decreases count,
{
    if count > 0 {
        lemma_all_filled(sections, (count - 1) as nat);
        assert(sections[count - 1].rows@.len() > 0);
    }
}

/// Sections without rows have no part in the measures, the rules and the texts.
proof fn lemma_only_rows_count(
    sections: Seq<OverlaySection>,
    widths: Seq<SectionWidths>,
    scale: UiScale,
    metrics: LineMetrics,
    label_width: int,
    width: int,
    height: int,
    count: nat,
)
    requires
        count <= rendered(sections).len(),
        rendered(with_rows(sections)).len() == rendered(sections).len(),
        forall|i: int|
            0 <= i < rendered(sections).len() ==> #[trigger] rendered(with_rows(sections))[i] == i,
    ensures
        ({
            let kept = with_rows(sections);
            let measures = measures_with_rows(sections, widths);
            &&& rows_above(kept, count) == rows_above(sections, count)
            &&& label_column(kept, measures, count) == label_column(sections, widths, count)
            &&& value_column(kept, measures, count) == value_column(sections, widths, count)
            &&& title_column(kept, measures, count) == title_column(sections, widths, count)
            &&& overlay_pixels(kept, scale, metrics, width, height, count) == overlay_pixels(
                sections,
                scale,
                metrics,
                width,
                height,
                count,
            )
            &&& overlay_runs(kept, label_width, scale, metrics, count) == overlay_runs(
                sections,
                label_width,
                scale,
                metrics,
                count,
            )
        }),
    decreases count,
{
    if count > 0 {
        let before = (count - 1) as nat;
        lemma_only_rows_count(
            sections,
            widths,
            scale,
            metrics,
            label_width,
            width,
            height,
            before,
        );
        assert(rendered(with_rows(sections))[before as int] == before);
        assert(with_rows(sections)[before as int] == sections[rendered(sections)[before as int]]);
        assert(measures_with_rows(sections, widths)[before as int] == widths[rendered(
            sections,
        )[before as int]]);
        assert(section_top(with_rows(sections), scale, metrics, before as int) == section_top(
            sections,
            scale,
            metrics,
            before as int,
        ));
    }
}

/// A section without rows has no effect: the overlay of sections is that of the
/// sections with rows among them, in its size, its pixels and its texts.
pub proof fn sections_without_rows_have_no_effect(
    plan: OverlayPlan,
    sections: Seq<OverlaySection>,
    widths: Seq<SectionWidths>,
    scale: UiScale,
    metrics: LineMetrics,
)
    ensures
        ({
            let kept = with_rows(sections);
            let measures = measures_with_rows(sections, widths);
            &&& rendered(kept).len() == rendered(sections).len()
            &&& overlay_width(kept, measures, scale) == overlay_width(sections, widths, scale)
            &&& overlay_height(kept, scale, metrics) == overlay_height(sections, scale, metrics)
            &&& plan.shows(kept, measures, scale, metrics) == plan.shows(
                sections,
                widths,
                scale,
                metrics,
            )
            &&& are_measured(sections, widths) ==> are_measured(kept, measures)
        }),
{
    let kept = with_rows(sections);
    let measures = measures_with_rows(sections, widths);
    let count = rendered(sections).len();
    lemma_filled_sections(sections, sections.len());
    assert forall|i: int| 0 <= i < kept.len() implies (#[trigger] kept[i]).rows@.len() > 0 by {
        assert(kept[i] == sections[rendered(sections)[i]]);
    }
    lemma_all_filled(kept, kept.len());
    lemma_only_rows_count(
        sections,
        widths,
        scale,
        metrics,
        label_column(sections, widths, count),
        overlay_width(sections, widths, scale),
        overlay_height(sections, scale, metrics),
        count,
    );
    if are_measured(sections, widths) {
        assert forall|i: int| 0 <= i < measures.len() implies #[trigger] measures[i].title >= 1 by {
            let number = rendered(sections)[i];
            assert(0 <= number < sections.len());
            assert(measures[i] == widths[number]);
        }
        assert forall|i: int| 0 <= i < kept.len() implies #[trigger] measures[i].rows@.len()
            == kept[i].rows@.len() by {
            let number = rendered(sections)[i];
            assert(0 <= number < sections.len());
            assert(measures[i] == widths[number]);
        }
    }
}

/// An image filled with the background of the overlay.
fn background_pixels(width: usize, height: usize) -> (pixels: Vec<u32>)
    requires
        image_fits(width as int, height as int),
    ensures
        pixels@ == background((width * height * 4) as nat),
{
    assert(0 <= width * height) by (nonlinear_arith);
    assert(0 <= width * height <= usize::MAX);
    let channels: usize = width * height * 4;
    let mut pixels: Vec<u32> = vec![0u32; channels];
    fill(
        &mut pixels,
        [BACKGROUND_GREY, BACKGROUND_GREY, BACKGROUND_GREY, BACKGROUND_OPACITY],
    );
    assert(pixels@ =~= background((width * height * 4) as nat));
    pixels
}

/// Plans the table overlay: the background and the rules are drawn, and every
/// text is placed. Sections without rows are left out; without any other
/// section the overlay is one transparent pixel. `None` says that the image
/// would be too large.
pub fn render_text_overlay(
    sections: &[OverlaySection],
    widths: &[SectionWidths],
    scale: UiScale,
    metrics: LineMetrics,
) -> (plan: Option<OverlayPlan>)
    requires
        are_measured(sections@, widths@),
    ensures
        rendered(sections@).len() == 0 ==> plan is Some && plan->0.is_placeholder(),
        rendered(sections@).len() > 0 ==> (plan is Some == image_fits(
            overlay_width(sections@, widths@, scale),
            overlay_height(sections@, scale, metrics),
        )),
        rendered(sections@).len() > 0 && plan is Some ==> plan->0.shows(
            sections@,
            widths@,
            scale,
            metrics,
        ),
{
    let numbers: Vec<usize> = rendered_sections(sections);
    let mut texts: Vec<TextRun> = Vec::new();
    if numbers.len() == 0 {
        let pixels: Vec<u32> = vec![0u32; 4];
        assert(pixels@ =~= seq![0u32, 0u32, 0u32, 0u32]);
        return Some(OverlayPlan { image: OverlayImage { height: 1, pixels, width: 1 }, texts });
    }
    let layout: OverlayLayout = match lay_out(sections, widths, scale, metrics, &numbers) {
        Some(layout) => layout,
        None => return None,
    };
    let ghost count = rendered(sections@).len();
    let ghost label = label_column(sections@, widths@, count);
    proof {
        assert forall|i: int| 0 <= i < count implies 0 <= #[trigger] rendered(sections@)[i]
            < sections@.len() by {
            assert(numbers@[i] < sections@.len());
        }
        lemma_titles_have_width(sections@, widths@, count);
        lemma_columns_are_not_negative(sections@, widths@, count);
    }
    let mut pixels: Vec<u32> = background_pixels(layout.width, layout.height);
    let mut y: usize = scale.padding;
    let mut index: usize = 0;
    assert(run_models(texts@) =~= overlay_runs(sections@, label, scale, metrics, 0));
    while index < numbers.len()
        invariant
            index <= numbers@.len(),
            are_measured(sections@, widths@),
            count == rendered(sections@).len(),
            numbers@.len() == count,
            forall|i: int|
                0 <= i < numbers@.len() ==> #[trigger] numbers@[i] == rendered(sections@)[i],
            forall|i: int| 0 <= i < numbers@.len() ==> #[trigger] numbers@[i] < sections@.len(),
            layout.row_height == line_height(metrics.row_line),
            layout.title_height == line_height(metrics.title_line),
            layout.width == scale.padding * 2 + layout.content_width,
            layout.width > 0,
            scale.padding + layout.label_width + scale.column_gap <= layout.width,
            layout.label_width == label,
            layout.height == overlay_height(sections@, scale, metrics),
            layout.height <= u32::MAX,
            index < count ==> y + if index > 0 {
                scale.section_gap as int
            } else {
                0
            } == section_top(sections@, scale, metrics, index as int),
            pixels@ == overlay_pixels(
                sections@,
                scale,
                metrics,
                layout.width as int,
                layout.height as int,
                index as nat,
            ),
            run_models(texts@) == overlay_runs(sections@, label, scale, metrics, index as nat),
        decreases numbers@.len() - index,
    {
        let number: usize = numbers[index];
        proof {
            sections_fill_the_overlay(sections@, scale, metrics, index as int);
            lemma_next_section(sections@, scale, metrics, index as int);
            assert(0 <= sections@[number as int].rows@.len() * layout.row_height)
                by (nonlinear_arith);
        }
        if index > 0 {
            y = y + scale.section_gap;
        }
        y = draw_overlay_section(
            &mut pixels,
            &mut texts,
            &sections[number],
            scale,
            metrics,
            layout,
            y,
        );
        index += 1;
    }
    Some(
        OverlayPlan {
            image: OverlayImage {
                height: layout.height as u32,
                pixels,
                width: layout.width as u32,
            },
            texts,
        },
    )
}

/// No column is narrower than nothing.
proof fn lemma_columns_are_not_negative(
    sections: Seq<OverlaySection>,
    widths: Seq<SectionWidths>,
    count: nat,
)
    ensures
        label_column(sections, widths, count) >= 0,
        value_column(sections, widths, count) >= 0,
    decreases count,
{
    if count > 0 {
        lemma_columns_are_not_negative(sections, widths, (count - 1) as nat);
    }
}

/// The distances of the empty state in pixels.
#[derive(Clone, Copy, Debug, PartialEq, Eq, Structural)]
pub struct EmptyStateScale {
    pub horizontal_padding: usize,
    pub logo_px: u32,
    pub logo_title_gap: usize,
    pub title_help_gap: usize,
}

/// How wide the two texts of the empty state are, and how high their lines.
#[derive(Clone, Copy, Debug, PartialEq, Eq, Structural)]
pub struct EmptyStateMetrics {
    pub title_width: usize,
    pub title_ascent: u32,
    pub title_line: usize,
    pub help_width: usize,
    pub help_ascent: u32,
    pub help_line: usize,
}

/// A square icon, and the light and the opacity of each byte value.
#[derive(Clone, Copy, Debug)]
pub struct LogoPixels<'a> {
    pub icon: &'a [u8],
    pub linear: &'a [u32],
    pub opacity: &'a [u32],
}

/// The width of the empty state.
pub open spec fn empty_state_width(scale: EmptyStateScale, metrics: EmptyStateMetrics) -> int {
    numeric::larger(
        numeric::larger(scale.logo_px as int, metrics.title_width as int),
        metrics.help_width as int,
    ) + scale.horizontal_padding * 2
}

/// The top of the title of the empty state.
pub open spec fn empty_state_title_top(scale: EmptyStateScale) -> int {
    scale.logo_px + scale.logo_title_gap
}

/// The top of the help text of the empty state.
pub open spec fn empty_state_help_top(scale: EmptyStateScale, metrics: EmptyStateMetrics) -> int {
    empty_state_title_top(scale) + line_height(metrics.title_line) + scale.title_help_gap
}

/// The height of the empty state.
pub open spec fn empty_state_height(scale: EmptyStateScale, metrics: EmptyStateMetrics) -> int {
    empty_state_help_top(scale, metrics) + line_height(metrics.help_line)
}

/// The title of the empty state.
pub open spec fn empty_state_title(version: Seq<char>) -> Seq<char> {
    APPLICATION_NAME@ + " "@ + version
}

/// The title of the empty state.
pub fn application_title(version: &str) -> (title: String)
    ensures
        title@ == empty_state_title(version@),
{
    let mut title = String::new();
    push_text(&mut title, APPLICATION_NAME);
    push_text(&mut title, " ");
    push_text(&mut title, version);
    assert(title@ =~= empty_state_title(version@));
    title
}

/// The texts of the empty state: each is centred.
pub open spec fn empty_state_runs(
    version: Seq<char>,
    scale: EmptyStateScale,
    metrics: EmptyStateMetrics,
) -> Seq<TextRunModel> {
    let width = empty_state_width(scale, metrics);
    seq![
        TextRunModel {
            x: (width - metrics.title_width) / 2,
            baseline: empty_state_title_top(scale) + metrics.title_ascent,
            text: shown(empty_state_title(version)),
            style: TextStyle::EmptyStateTitle,
        },
        TextRunModel {
            x: (width - metrics.help_width) / 2,
            baseline: empty_state_help_top(scale, metrics) + metrics.help_ascent,
            text: shown(EMPTY_STATE_HELP@),
            style: TextStyle::EmptyStateHelp,
        },
    ]
}

/// Plans the empty state: the logo is drawn in the middle of a transparent
/// image, and the two texts below it are placed. `None` says that the image
/// would be too large.
pub fn render_empty_state(
    version: &str,
    scale: EmptyStateScale,
    metrics: EmptyStateMetrics,
    logo: LogoPixels<'_>,
) -> (plan: Option<OverlayPlan>)
    requires
        scale.logo_px > 0,
        logo.linear@.len() == 256,
        logo.opacity@.len() == 256,
    ensures
        plan is Some == image_fits(
            empty_state_width(scale, metrics),
            empty_state_height(scale, metrics),
        ),
        plan is Some ==> {
            let width = empty_state_width(scale, metrics);
            let height = empty_state_height(scale, metrics);
            &&& plan->0.image.width == width
            &&& plan->0.image.height == height
            &&& plan->0.image.pixels@ == canvas::with_icon(
                Seq::new((width * height * 4) as nat, |i: int| 0u32),
                width,
                (width - scale.logo_px) / 2,
                0,
                logo.icon@,
                scale.logo_px as int,
                logo.linear@,
                logo.opacity@,
            )
            &&& run_models(plan->0.texts@) == empty_state_runs(version@, scale, metrics)
        },
{
    let logo_px: usize = usize_from_u32(scale.logo_px);
    let title_height: usize = max_usize(metrics.title_line, 1);
    let help_height: usize = max_usize(metrics.help_line, 1);
    let content: usize = max_usize(max_usize(logo_px, metrics.title_width), metrics.help_width);
    let wide: u64 = saturating_add_u64(
        u64_from_usize(content),
        saturating_mul_u64(u64_from_usize(scale.horizontal_padding), 2),
    );
    let title_end: u64 = saturating_add_u64(
        saturating_add_u64(u64_from_usize(logo_px), u64_from_usize(scale.logo_title_gap)),
        u64_from_usize(title_height),
    );
    let high: u64 = saturating_add_u64(
        saturating_add_u64(title_end, u64_from_usize(scale.title_help_gap)),
        u64_from_usize(help_height),
    );
    assert(wide == numeric::saturated(empty_state_width(scale, metrics)));
    assert(high == numeric::saturated(empty_state_height(scale, metrics)));
    let (width, height): (usize, usize) = match fitting_size(wide, high) {
        Some(size) => size,
        None => return None,
    };
    assert(0 <= width * height) by (nonlinear_arith);
    assert(0 <= width * height <= usize::MAX);
    let mut pixels: Vec<u32> = vec![0u32; width * height * 4];
    assert(pixels@ =~= Seq::new((width * height * 4) as nat, |i: int| 0u32));
    draw_svg_logo(
        &mut pixels,
        width,
        (width - logo_px) / 2,
        0,
        logo.icon,
        scale.logo_px,
        logo.linear,
        logo.opacity,
    );
    let title_y: usize = logo_px + scale.logo_title_gap;
    let help_y: usize = title_y + title_height + scale.title_help_gap;
    let title: String = application_title(version);
    let mut texts: Vec<TextRun> = Vec::new();
    texts.push(
        TextRun {
            x: (width - metrics.title_width) / 2,
            baseline: u64_from_usize(title_y) + metrics.title_ascent as u64,
            text: first_characters(title.as_str(), MAX_CHARACTERS_PER_CELL),
            style: TextStyle::EmptyStateTitle,
        },
    );
    texts.push(
        TextRun {
            x: (width - metrics.help_width) / 2,
            baseline: u64_from_usize(help_y) + metrics.help_ascent as u64,
            text: first_characters(EMPTY_STATE_HELP, MAX_CHARACTERS_PER_CELL),
            style: TextStyle::EmptyStateHelp,
        },
    );
    assert(run_models(texts@) =~= empty_state_runs(version@, scale, metrics));
    Some(
        OverlayPlan {
            image: OverlayImage { height: height as u32, pixels, width: width as u32 },
            texts,
        },
    )
}

/// The widest label or value is as wide as one of them, and none is wider.
pub proof fn columns_hold_their_widest_cell(rows: Seq<(usize, usize)>, index: int)
    requires
        0 <= index < rows.len(),
    ensures
        rows[index].0 <= widest_label(rows),
        rows[index].1 <= widest_value(rows),
        exists|i: int| 0 <= i < rows.len() && (#[trigger] rows[i]).0 == widest_label(rows),
        exists|i: int| 0 <= i < rows.len() && (#[trigger] rows[i]).1 == widest_value(rows),
    decreases rows.len(),
{
    let head = rows.drop_last();
    let last = rows.len() - 1;
    assert(rows[last] == rows.last());
    if head.len() > 0 {
        columns_hold_their_widest_cell(
            head,
            if index < last {
                index
            } else {
                0
            },
        );
        let i = choose|i: int| 0 <= i < head.len() && (#[trigger] head[i]).0 == widest_label(head);
        let j = choose|j: int| 0 <= j < head.len() && (#[trigger] head[j]).1 == widest_value(head);
        assert(rows[i] == head[i]);
        assert(rows[j] == head[j]);
        if index < last {
            assert(head[index] == rows[index]);
        }
    } else {
        assert(widest_label(head) == 0);
        assert(widest_value(head) == 0);
    }
}

/// The columns of an overlay hold every cell of the sections that are shown, and its
/// width every row and every title between the paddings.
pub proof fn overlays_hold_every_cell(
    sections: Seq<OverlaySection>,
    widths: Seq<SectionWidths>,
    scale: UiScale,
    count: nat,
    section: int,
    index: int,
)
    requires
        0 <= section < count <= rendered(sections).len(),
        0 <= index < widths[rendered(sections)[section]].rows@.len(),
    ensures
        ({
            let shown = widths[rendered(sections)[section]];
            &&& shown.rows@[index].0 <= label_column(sections, widths, count)
            &&& shown.rows@[index].1 <= value_column(sections, widths, count)
            &&& shown.title <= title_column(sections, widths, count)
            &&& count == rendered(sections).len() ==> scale.padding + label_column(
                sections,
                widths,
                count,
            ) + scale.column_gap + shown.rows@[index].1 <= overlay_width(sections, widths, scale)
                - scale.padding
            &&& count == rendered(sections).len() ==> scale.padding + shown.title <= overlay_width(
                sections,
                widths,
                scale,
            ) - scale.padding
        }),
    decreases count,
{
    let shown = widths[rendered(sections)[section]];
    columns_hold_their_widest_cell(shown.rows@, index);
    if section < count - 1 {
        lemma_columns_grow(sections, widths, (section + 1) as nat, count);
    }
}

proof fn lemma_columns_grow(
    sections: Seq<OverlaySection>,
    widths: Seq<SectionWidths>,
    fewer: nat,
    more: nat,
)
    requires
        fewer <= more,
    ensures
        label_column(sections, widths, fewer) <= label_column(sections, widths, more),
        value_column(sections, widths, fewer) <= value_column(sections, widths, more),
        title_column(sections, widths, fewer) <= title_column(sections, widths, more),
    decreases more,
{
    if fewer < more {
        lemma_columns_grow(sections, widths, fewer, (more - 1) as nat);
    }
}

/// An overlay is no wider than it has to be: between the paddings lies either the
/// columns with their gap or the widest title, and each column is as wide as one of
/// its cells.
pub proof fn overlays_are_as_narrow_as_their_cells(
    sections: Seq<OverlaySection>,
    widths: Seq<SectionWidths>,
    scale: UiScale,
)
    ensures
        ({
            let count = rendered(sections).len();
            let inner = overlay_width(sections, widths, scale) - 2 * scale.padding;
            ||| inner == label_column(sections, widths, count) + scale.column_gap + value_column(
                sections,
                widths,
                count,
            )
            ||| inner == title_column(sections, widths, count)
        }),
{
}

/// Sections follow each other from the padding down, each below the one before and
/// the gap between them.
pub proof fn sections_follow_each_other(
    sections: Seq<OverlaySection>,
    scale: UiScale,
    metrics: LineMetrics,
    index: int,
)
    requires
        0 <= index < rendered(sections).len(),
    ensures
        section_top(sections, scale, metrics, 0) == scale.padding,
        section_top(sections, scale, metrics, index + 1) == section_top(
            sections,
            scale,
            metrics,
            index,
        ) + heading_height(scale, metrics) + sections[rendered(sections)[index]].rows@.len()
            * line_height(metrics.row_line) + scale.section_gap,
{
    lemma_next_section(sections, scale, metrics, index);
    assert(0 * (heading_height(scale, metrics) + scale.section_gap) == 0) by (nonlinear_arith);
    assert(0 * line_height(metrics.row_line) == 0) by (nonlinear_arith);
}

/// The rule of a section lies below its title and above its rows, with the gaps
/// between them, and a line is at least one pixel high.
pub proof fn rules_lie_between_title_and_rows(scale: UiScale, metrics: LineMetrics, top: int)
    ensures
        rule_top(scale, metrics, top) == top + line_height(metrics.title_line)
            + scale.title_rule_gap,
        rule_top(scale, metrics, top) + scale.rule_thickness + scale.rule_row_gap == top
            + heading_height(scale, metrics),
        line_height(0) == 1,
        metrics.row_line >= 1 ==> line_height(metrics.row_line) == metrics.row_line,
{
}

/// Where the texts of a section stand: its title at the top, and below the heading one
/// line for each row, the label at the padding and the value behind the labels and
/// the gap.
pub proof fn rows_stand_on_lines_of_their_own(
    section: OverlaySection,
    label_width: int,
    scale: UiScale,
    metrics: LineMetrics,
    top: int,
    index: int,
)
    requires
        0 <= index < section.rows@.len(),
    ensures
        ({
            let runs = section_runs(section, label_width, scale, metrics, top);
            let baseline = top + heading_height(scale, metrics) + index * line_height(
                metrics.row_line,
            ) + metrics.row_ascent;
            &&& runs.len() == 1 + 2 * section.rows@.len()
            &&& runs[0].x == scale.padding && runs[0].baseline == top + metrics.title_ascent
            &&& runs[0].text == shown(section.title@) && runs[0].style == TextStyle::Title
            &&& runs[1 + 2 * index].x == scale.padding
            &&& runs[1 + 2 * index].baseline == baseline
            &&& runs[1 + 2 * index].text == shown(section.rows@[index].0@)
            &&& runs[1 + 2 * index].style == TextStyle::Label
            &&& runs[2 + 2 * index].x == scale.padding + label_width + scale.column_gap
            &&& runs[2 + 2 * index].baseline == baseline
            &&& runs[2 + 2 * index].text == shown(section.rows@[index].1@)
            &&& runs[2 + 2 * index].style == TextStyle::Value
        }),
{
    lemma_row_runs(
        section.rows@,
        label_width,
        scale,
        metrics,
        top,
        section.rows@.len(),
        index,
    );
}

proof fn lemma_row_runs(
    rows: Seq<(String, String)>,
    label_width: int,
    scale: UiScale,
    metrics: LineMetrics,
    top: int,
    count: nat,
    index: int,
)
    requires
        0 <= index < count,
    ensures
        ({
            let runs = row_runs(rows, label_width, scale, metrics, top, count);
            let baseline = top + heading_height(scale, metrics) + index * line_height(
                metrics.row_line,
            ) + metrics.row_ascent;
            &&& runs.len() == 2 * count
            &&& runs[2 * index] == (TextRunModel {
                x: scale.padding as int,
                baseline,
                text: shown(rows[index].0@),
                style: TextStyle::Label,
            })
            &&& runs[2 * index + 1] == (TextRunModel {
                x: scale.padding + label_width + scale.column_gap,
                baseline,
                text: shown(rows[index].1@),
                style: TextStyle::Value,
            })
        }),
    decreases count,
{
    if index < count - 1 {
        lemma_row_runs(rows, label_width, scale, metrics, top, (count - 1) as nat, index);
    } else if count > 1 {
        lemma_row_runs(rows, label_width, scale, metrics, top, (count - 1) as nat, 0);
    } else {
        assert(row_runs(rows, label_width, scale, metrics, top, 0).len() == 0);
    }
}

/// An overlay lists the texts of its sections one section after another, each at its
/// own top.
pub proof fn overlays_list_section_after_section(
    sections: Seq<OverlaySection>,
    label_width: int,
    scale: UiScale,
    metrics: LineMetrics,
    count: nat,
)
    ensures
        overlay_runs(sections, label_width, scale, metrics, 0).len() == 0,
        overlay_runs(sections, label_width, scale, metrics, count + 1) == overlay_runs(
            sections,
            label_width,
            scale,
            metrics,
            count,
        ) + section_runs(
            sections[rendered(sections)[count as int]],
            label_width,
            scale,
            metrics,
            section_top(sections, scale, metrics, count as int),
        ),
{
}

/// The sections that are shown are exactly those with rows, in their order.
pub proof fn sections_with_rows_are_shown(sections: Seq<OverlaySection>, number: int)
    requires
        0 <= number < sections.len(),
    ensures
        rendered(sections).contains(number) <==> sections[number].rows@.len() > 0,
        forall|i: int, j: int|
            #![trigger rendered(sections)[i], rendered(sections)[j]]
            0 <= i < j < rendered(sections).len() ==> rendered(sections)[i] < rendered(sections)[j],
{
    lemma_filled_sections(sections, sections.len());
    lemma_filled_in_order(sections, sections.len(), number);
}

proof fn lemma_filled_in_order(sections: Seq<OverlaySection>, count: nat, number: int)
    requires
        count <= sections.len(),
        0 <= number,
    ensures
        number < count && sections[number].rows@.len() > 0 ==> filled_sections(
            sections,
            count,
        ).contains(number),
        forall|i: int, j: int|
            #![trigger filled_sections(sections, count)[i], filled_sections(sections, count)[j]]
            0 <= i < j < filled_sections(sections, count).len() ==> filled_sections(
                sections,
                count,
            )[i] < filled_sections(sections, count)[j],
    decreases count,
{
    if count > 0 {
        let before = filled_sections(sections, (count - 1) as nat);
        let numbers = filled_sections(sections, count);
        lemma_filled_in_order(sections, (count - 1) as nat, number);
        lemma_filled_sections(sections, (count - 1) as nat);
        if number < count && sections[number].rows@.len() > 0 {
            if number < count - 1 {
                let i = choose|i: int| 0 <= i < before.len() && before[i] == number;
                assert(numbers[i] == number);
            } else {
                assert(numbers.last() == number);
            }
        }
        assert forall|i: int, j: int|
            #![trigger numbers[i], numbers[j]]
            0 <= i < j < numbers.len() implies numbers[i] < numbers[j] by {
            if j < before.len() {
                assert(numbers[i] == before[i] && numbers[j] == before[j]);
            } else {
                assert(numbers[i] == before[i]);
                assert(before[i] < count - 1);
            }
        }
    }
}

/// The background of an overlay has one grey in its colours and one opacity, pixel by
/// pixel.
pub proof fn backgrounds_are_grey(channels: nat, pixel: int)
    requires
        0 <= pixel,
        4 * pixel + 3 < channels,
    ensures
        background(channels).len() == channels,
        background(channels)[4 * pixel] == BACKGROUND_GREY,
        background(channels)[4 * pixel + 1] == BACKGROUND_GREY,
        background(channels)[4 * pixel + 2] == BACKGROUND_GREY,
        background(channels)[4 * pixel + 3] == BACKGROUND_OPACITY,
{
}

/// The empty state is centred: each of its texts has as much room to the left as to the
/// right, to the pixel, and at least the padding. Its parts lie below each other
/// without overlapping: the logo, the title and the help.
pub proof fn the_empty_state_is_centred(
    version: Seq<char>,
    scale: EmptyStateScale,
    metrics: EmptyStateMetrics,
)
    ensures
        ({
            let width = empty_state_width(scale, metrics);
            let runs = empty_state_runs(version, scale, metrics);
            let title_room = width - metrics.title_width - runs[0].x;
            let help_room = width - metrics.help_width - runs[1].x;
            &&& runs.len() == 2
            &&& scale.horizontal_padding <= runs[0].x <= title_room <= runs[0].x + 1
            &&& scale.horizontal_padding <= runs[1].x <= help_room <= runs[1].x + 1
            &&& width >= scale.logo_px + 2 * scale.horizontal_padding
            &&& width == 2 * scale.horizontal_padding + scale.logo_px || width == 2
                * scale.horizontal_padding + metrics.title_width || width == 2
                * scale.horizontal_padding + metrics.help_width
            &&& runs[0].baseline - metrics.title_ascent == scale.logo_px + scale.logo_title_gap
            &&& runs[1].baseline - metrics.help_ascent == runs[0].baseline - metrics.title_ascent
                + line_height(metrics.title_line) + scale.title_help_gap
            &&& empty_state_height(scale, metrics) == runs[1].baseline - metrics.help_ascent
                + line_height(metrics.help_line)
            &&& runs[0].style == TextStyle::EmptyStateTitle
            &&& runs[1].style == TextStyle::EmptyStateHelp
            &&& runs[0].text == shown(empty_state_title(version))
            &&& runs[1].text == shown(EMPTY_STATE_HELP@)
        }),
{
}

/// A bit pattern is the single-precision number nearest to a count of thousandths.
pub open spec fn is_thousandths(bits: u32, count: int) -> bool {
    let exponent = bits as int / 0x80_0000;
    let significand = 0x80_0000 + bits as int % 0x80_0000;
    let one = vstd::arithmetic::power2::pow2((150 - exponent) as nat) as int;
    &&& 110 <= exponent < 127
    &&& -1000 <= 2 * (1000 * significand - count * one) <= 1000
}

/// The colours of the overlay, in thousandths of linear light: those of its texts, of its
/// rules and of its background, and the background's opacity.
pub proof fn overlay_colours()
    ensures
        is_thousandths(BACKGROUND_GREY, 12),
        is_thousandths(BACKGROUND_OPACITY, 840),
        is_thousandths(canvas::RULE_RED, 200),
        is_thousandths(canvas::RULE_GREEN, 230),
        is_thousandths(canvas::RULE_BLUE, 290),
        is_thousandths(TextStyle::Title.rgb()[0], 820),
        is_thousandths(TextStyle::Title.rgb()[1], 860),
        is_thousandths(TextStyle::Title.rgb()[2], 940),
        is_thousandths(TextStyle::Label.rgb()[0], 680),
        is_thousandths(TextStyle::Label.rgb()[1], 720),
        is_thousandths(TextStyle::Label.rgb()[2], 780),
        is_thousandths(TextStyle::Value.rgb()[0], 940),
        is_thousandths(TextStyle::Value.rgb()[1], 940),
        is_thousandths(TextStyle::Value.rgb()[2], 940),
        is_thousandths(TextStyle::EmptyStateTitle.rgb()[0], 940),
        is_thousandths(TextStyle::EmptyStateTitle.rgb()[1], 950),
        is_thousandths(TextStyle::EmptyStateTitle.rgb()[2], 970),
        is_thousandths(TextStyle::EmptyStateHelp.rgb()[0], 600),
        is_thousandths(TextStyle::EmptyStateHelp.rgb()[1], 640),
        is_thousandths(TextStyle::EmptyStateHelp.rgb()[2], 700),
{
    vstd::arithmetic::power2::lemma2_to64();
}

/// An image fits where its sides are counted in 32 bits and its channels, four a pixel,
/// by the machine.
pub proof fn fitting_images_can_be_counted(width: int, height: int)
    requires
        0 <= width,
        0 <= height,
    ensures
        image_fits(width, height) ==> width <= 0xffff_ffff && height <= 0xffff_ffff && 4 * (width
            * height) <= usize::MAX,
        width <= 0xffff_ffff && height <= 0xffff_ffff && 4 * (width * height) <= usize::MAX
            ==> image_fits(width, height),
{
}

} // verus!
