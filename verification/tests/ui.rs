use xl_view::canvas::{
    CanvasSize, CoveredPixel, GlyphPlacement, blend_rasterized_glyph, draw_horizontal_rule,
    draw_svg_logo, fill, glyph_origin,
};
use xl_view::ui::{
    EMPTY_STATE_HELP, EmptyStateMetrics, EmptyStateScale, LineMetrics, LogoPixels, OverlayPlan,
    OverlaySection, SectionWidths, TextRun, TextStyle, UiScale, application_title,
    render_empty_state, render_text_overlay,
};

fn sections() -> Vec<OverlaySection> {
    vec![
        OverlaySection {
            title: "IMAGE",
            rows: vec![
                ("File".to_owned(), "photo.jxl".to_owned()),
                ("Dimensions".to_owned(), "4000 x 3000".to_owned()),
            ],
        },
        OverlaySection {
            title: "SOURCE",
            rows: vec![("Range".to_owned(), "HDR (PQ)".to_owned())],
        },
    ]
}

/// A font in which every character is equally wide.
fn measured(sections: &[OverlaySection], factor: usize) -> Vec<SectionWidths> {
    sections
        .iter()
        .map(|section| SectionWidths {
            title: section.title.len() * 8 * factor,
            rows: section
                .rows
                .iter()
                .map(|(label, value)| (label.len() * 9 * factor, value.len() * 9 * factor))
                .collect(),
        })
        .collect()
}

fn scale(factor: usize) -> UiScale {
    UiScale {
        column_gap: 24 * factor,
        padding: 14 * factor,
        rule_row_gap: 7 * factor,
        rule_thickness: factor,
        section_gap: 15 * factor,
        title_rule_gap: 4 * factor,
    }
}

fn metrics(factor: usize) -> LineMetrics {
    LineMetrics {
        row_ascent: 16 * factor as u32,
        row_line: 20 * factor,
        title_ascent: 12 * factor as u32,
        title_line: 16 * factor,
    }
}

fn rendered(sections: &[OverlaySection], factor: usize) -> OverlayPlan {
    render_text_overlay(sections, &measured(sections, factor), scale(factor), metrics(factor))
        .unwrap()
}

fn pixels(plan: &OverlayPlan) -> Vec<[f32; 4]> {
    plan.image
        .pixels
        .chunks_exact(4)
        .map(|pixel| std::array::from_fn(|channel| f32::from_bits(pixel[channel])))
        .collect()
}

fn blend(pixel: &mut [u32], rgb: [f32; 3], coverage: f32) {
    let background_alpha = f32::from_bits(pixel[3]);
    let output_alpha = coverage + background_alpha * (1.0 - coverage);
    for channel in 0..3 {
        let premultiplied = rgb[channel] * coverage
            + f32::from_bits(pixel[channel]) * background_alpha * (1.0 - coverage);
        pixel[channel] = (premultiplied / output_alpha).to_bits();
    }
    pixel[3] = output_alpha.to_bits();
}

/// Draws a half covered and a wholly covered pixel where a text begins.
fn draw_text(plan: &mut OverlayPlan, index: usize) {
    let run = &plan.texts[index];
    let rgb = run.style.color().map(f32::from_bits);
    let (x, y) = glyph_origin(i32::try_from(run.x).unwrap(), 0, run.baseline, 0, 1);
    let canvas = CanvasSize {
        channels: plan.image.pixels.len(),
        width: plan.image.width as usize,
    };
    let glyph = GlyphPlacement { x, y, width: 2, height: 1 };
    for covered in blend_rasterized_glyph(&[128, 255], glyph, canvas) {
        blend(
            &mut plan.image.pixels[covered.offset..covered.offset + 4],
            rgb,
            f32::from(covered.coverage) / 255.0,
        );
    }
}

#[test]
fn empty_overlay_is_a_transparent_placeholder() {
    let plan = rendered(&[], 1);
    assert_eq!((plan.image.width, plan.image.height), (1, 1));
    assert_eq!(pixels(&plan), [[0.0; 4]]);
    assert!(plan.texts.is_empty());
}

#[test]
fn table_overlay_contains_antialiased_text() {
    let mut plan = rendered(&sections(), 1);
    assert!(plan.image.width > 200);
    assert!(plan.image.height > 100);
    for index in 0..plan.texts.len() {
        draw_text(&mut plan, index);
    }
    let pixels = pixels(&plan);
    assert!(pixels.iter().any(|pixel| *pixel == [0.20, 0.23, 0.29, 0.84]));
    assert!(pixels.iter().any(|pixel| *pixel == [0.012, 0.012, 0.012, 0.84]));
    assert!(pixels.iter().any(|pixel| pixel[3] > 0.99));
    assert!(pixels.iter().any(|pixel| pixel[3] > 0.85 && pixel[3] < 0.99));
}

#[test]
fn overlay_scales_for_hidpi() {
    let normal = rendered(&sections(), 1).image;
    let hidpi = rendered(&sections(), 2).image;
    assert_eq!(hidpi.width, normal.width * 2);
    assert_eq!(hidpi.height, normal.height * 2);
}

#[test]
fn empty_sections_are_not_rendered() {
    let empty = [OverlaySection {
        title: "CAPTURE",
        rows: Vec::new(),
    }];
    let plan = rendered(&empty, 1);
    assert_eq!((plan.image.width, plan.image.height), (1, 1));
    assert_eq!(pixels(&plan), [[0.0; 4]]);

    let mut mixed = sections();
    mixed.insert(1, OverlaySection { title: "A VERY LONG TITLE OF NOTHING", rows: Vec::new() });
    let plan = rendered(&mixed, 1);
    let plain = rendered(&sections(), 1);
    assert_eq!(plan.image.pixels, plain.image.pixels);
    assert_eq!(plan.texts.len(), plain.texts.len());
}

fn placed(run: &TextRun) -> (usize, u64, &str, TextStyle) {
    (run.x, run.baseline, run.text.as_str(), run.style)
}

#[test]
fn tables_place_their_texts_and_rules() {
    let plan = rendered(&sections(), 1);
    // The widest label has ten characters, the widest value eleven.
    assert_eq!(plan.image.width, 2 * 14 + 10 * 9 + 24 + 11 * 9);
    assert_eq!(plan.image.height, 2 * 14 + 3 * 20 + 2 * (16 + 4 + 1 + 7) + 15);
    let texts: Vec<_> = plan.texts.iter().map(placed).collect();
    assert_eq!(
        texts,
        [
            (14, 14 + 12, "IMAGE", TextStyle::Title),
            (14, 14 + 28 + 16, "File", TextStyle::Label),
            (128, 14 + 28 + 16, "photo.jxl", TextStyle::Value),
            (14, 14 + 28 + 36, "Dimensions", TextStyle::Label),
            (128, 14 + 28 + 36, "4000 x 3000", TextStyle::Value),
            (14, 97 + 12, "SOURCE", TextStyle::Title),
            (14, 97 + 28 + 16, "Range", TextStyle::Label),
            (128, 97 + 28 + 16, "HDR (PQ)", TextStyle::Value),
        ]
    );
    let width = plan.image.width as usize;
    let pixels = pixels(&plan);
    for (row, rule) in [(33, false), (34, true), (35, false), (117, true)] {
        assert_eq!(pixels[row * width + 14] == [0.20, 0.23, 0.29, 0.84], rule, "{row}");
        assert_ne!(pixels[row * width + 13], [0.20, 0.23, 0.29, 0.84]);
        assert_ne!(pixels[row * width + width - 14], [0.20, 0.23, 0.29, 0.84]);
    }
}

#[test]
fn overlays_that_are_too_large_are_refused() {
    let sections = sections();
    let mut widths = measured(&sections, 1);
    widths[0].title = usize::MAX;
    assert!(render_text_overlay(&sections, &widths, scale(1), metrics(1)).is_none());
    let mut high = metrics(1);
    high.row_line = usize::MAX;
    assert!(render_text_overlay(&sections, &measured(&sections, 1), scale(1), high).is_none());
}

#[test]
fn long_texts_are_cut() {
    let long = [OverlaySection {
        title: "T",
        rows: vec![("x".repeat(100), "y".repeat(80))],
    }];
    let plan = rendered(&long, 1);
    assert_eq!(plan.texts[1].text, "x".repeat(80));
    assert_eq!(plan.texts[2].text, "y".repeat(80));
}

fn empty_state_scale(factor: usize) -> EmptyStateScale {
    EmptyStateScale {
        horizontal_padding: 8 * factor,
        logo_px: 152 * factor as u32,
        logo_title_gap: 24 * factor,
        title_help_gap: 10 * factor,
    }
}

fn empty_state(factor: usize) -> (OverlayPlan, EmptyStateScale, EmptyStateMetrics) {
    let scale = empty_state_scale(factor);
    let title = application_title("0.1.0");
    let metrics = EmptyStateMetrics {
        title_width: title.len() * 15 * factor,
        title_ascent: 26 * factor as u32,
        title_line: 34 * factor,
        help_width: EMPTY_STATE_HELP.len() * 9 * factor,
        help_ascent: 15 * factor as u32,
        help_line: 20 * factor,
    };
    let mut icon = vec![0_u8; (scale.logo_px * scale.logo_px * 4) as usize];
    icon[4..8].copy_from_slice(&[255, 128, 0, 51]);
    let linear: Vec<u32> = (0..256).map(|value| (value as f32 / 255.0).to_bits()).collect();
    let logo = LogoPixels { icon: &icon, linear: &linear, opacity: &linear };
    (render_empty_state("0.1.0", scale, metrics, logo).unwrap(), scale, metrics)
}

#[test]
fn empty_state_contains_the_packaged_logo_and_text() {
    let (mut plan, scale, metrics) = empty_state(1);
    let logo_height = usize::try_from(scale.logo_px).unwrap();
    let required_width = logo_height.max(metrics.title_width).max(metrics.help_width)
        + scale.horizontal_padding * 2;
    let title_y = logo_height + scale.logo_title_gap;
    let help_y = title_y + metrics.title_line + scale.title_help_gap;
    let required_height = help_y + metrics.help_line;
    let width = usize::try_from(plan.image.width).unwrap();
    let height = usize::try_from(plan.image.height).unwrap();
    assert!(width >= required_width);
    assert!(height >= required_height);
    assert_eq!(
        plan.texts.iter().map(placed).collect::<Vec<_>>(),
        [
            (
                (width - metrics.title_width) / 2,
                title_y as u64 + 26,
                "XL-View 0.1.0",
                TextStyle::EmptyStateTitle
            ),
            (
                (width - metrics.help_width) / 2,
                help_y as u64 + 15,
                "Use drag and drop or press \"O\" to open a file",
                TextStyle::EmptyStateHelp
            ),
        ]
    );
    for index in 0..plan.texts.len() {
        draw_text(&mut plan, index);
    }
    let pixels = pixels(&plan);
    assert!(pixels.iter().any(|pixel| pixel[3] == 0.0));
    assert!(pixels[..logo_height * width].iter().any(|pixel| pixel[3] > 0.0));
    assert!(pixels[title_y * width..help_y * width].iter().any(|pixel| pixel[3] > 0.0));
    assert!(pixels[help_y * width..required_height * width].iter().any(|pixel| pixel[3] > 0.0));
    let logo_x = (width - logo_height) / 2;
    assert_eq!(pixels[logo_x + 1], [1.0, 128.0 / 255.0, 0.0, 0.2]);
}

#[test]
fn empty_state_scales_for_hidpi() {
    let normal = empty_state(1).0.image;
    let hidpi = empty_state(2).0.image;
    assert!(hidpi.width.abs_diff(normal.width * 2) <= 1);
    assert!(hidpi.height.abs_diff(normal.height * 2) <= 1);
}

#[test]
fn text_colors_are_linear_light() {
    for (style, rgb) in [
        (TextStyle::Title, [0.82_f32, 0.86, 0.94]),
        (TextStyle::Label, [0.68, 0.72, 0.78]),
        (TextStyle::Value, [0.94, 0.94, 0.94]),
        (TextStyle::EmptyStateTitle, [0.94, 0.95, 0.97]),
        (TextStyle::EmptyStateHelp, [0.60, 0.64, 0.70]),
    ] {
        assert_eq!(style.color(), rgb.map(f32::to_bits));
    }
}

#[test]
fn glyphs_are_clipped_by_the_canvas() {
    let canvas = CanvasSize { channels: 4 * 6, width: 3 };
    let glyph = GlyphPlacement { x: -1, y: 1, width: 3, height: 2 };
    let covered = blend_rasterized_glyph(&[9, 8, 7, 6, 5, 4], glyph, canvas);
    assert_eq!(
        covered,
        [
            CoveredPixel { offset: 12, coverage: 8 },
            CoveredPixel { offset: 16, coverage: 7 }
        ]
    );
    assert!(blend_rasterized_glyph(&[0, 0, 0, 6, 5, 4], glyph, canvas).is_empty());
    let outermost = GlyphPlacement { x: i32::MAX - 2, y: i32::MAX - 1, width: 3, height: 2 };
    assert!(blend_rasterized_glyph(&[1; 6], outermost, canvas).is_empty());
    let empty = GlyphPlacement { x: i32::MAX, y: i32::MAX, width: 0, height: 2 };
    assert!(blend_rasterized_glyph(&[], empty, canvas).is_empty());
    assert_eq!(glyph_origin(5, -2, 20, -3, 10), (3, 13));
    assert_eq!(glyph_origin(5, 0, u64::MAX, 0, 1), (5, i32::MAX - 1));
}

#[test]
fn fills_and_rules_leave_the_rest_alone() {
    let mut pixels = vec![7_u32; 4 * 6 + 2];
    fill(&mut pixels, [1, 2, 3, 4]);
    assert_eq!(&pixels[20..], &[1, 2, 3, 4, 7, 7]);
    draw_horizontal_rule(&mut pixels, 3, 1, 1, usize::MAX, usize::MAX);
    let rule = [0.20_f32.to_bits(), 0.23_f32.to_bits(), 0.29_f32.to_bits(), 4];
    assert_eq!(&pixels[..16], &[1, 2, 3, 4, 1, 2, 3, 4, 1, 2, 3, 4, 1, 2, 3, 4]);
    assert_eq!(&pixels[16..20], &rule);
    assert_eq!(&pixels[20..24], &rule);
    assert_eq!(&pixels[24..], &[7, 7]);
}

#[test]
fn logos_are_clipped_by_the_canvas() {
    let table: Vec<u32> = (1_000..1_256).collect();
    let icon = [1, 2, 3, 4, 5, 6, 7, 0, 9, 10, 11, 12, 13, 14, 15, 16];
    let mut pixels = vec![5_u32; 4 * 4];
    draw_svg_logo(&mut pixels, 2, 1, 0, &icon, 2, &table, &table);
    assert_eq!(&pixels[..4], &[5; 4]);
    assert_eq!(&pixels[4..8], &[1_001, 1_002, 1_003, 1_004]);
    assert_eq!(&pixels[12..], &[1_009, 1_010, 1_011, 1_012]);
    let mut pixels = vec![5_u32; 4 * 4];
    draw_svg_logo(&mut pixels, 2, 0, 0, &icon, 2, &table, &table);
    assert_eq!(&pixels[4..8], &[0; 4]);
}
