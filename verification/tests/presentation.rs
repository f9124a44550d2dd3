use xl_view::presentation::{
    PresentationParams, presentation_field_names, presentation_shader_source, words_in_order,
    words_to_bytes,
};
use xl_view::shader::{declared_field_names, declares_parameters};

/// A shader with the uniform block of the presentation.
const PRESENTATION_SHADER: &str = "
struct VertexOutput {
    @builtin(position) position: vec4<f32>,
};

struct Params {
    mode: u32,
    encode_srgb: u32,
    dither_bits: u32,
    content_mode: u32,
    hdr_reference_white_nits: f32,
    source_peak_nits: f32,
    output_peak_nits: f32,
    exposure_stops: f32,
    viewport_width: u32,
    viewport_height: u32,
    image_width: u32,
    image_height: u32,
    ui_white_nits: f32,
    view_center_x: f32,
    view_center_y: f32,
    view_scale: f32,
    background_mode: u32,
    center_ui: u32,
    source_dynamic_range: u32,
    _padding_0: u32,
    tiled_image: u32,
    tile_size: u32,
    tile_columns: u32,
    tile_gutter: u32,
    resampled_viewport: u32,
    _padding_1: u32,
    _padding_2: u32,
    _padding_3: u32,
};

@group(0) @binding(0) var<uniform> params: Params;
";

fn distinct_parameters() -> PresentationParams {
    PresentationParams {
        mode: 1,
        encode_srgb: true,
        dither_bits: 3,
        content_mode: 4,
        hdr_reference_white_nits: 5.0_f32.to_bits(),
        source_peak_nits: 6.0_f32.to_bits(),
        output_peak_nits: 7.0_f32.to_bits(),
        exposure_stops: 8.0_f32.to_bits(),
        viewport_width: 9,
        viewport_height: 10,
        image_width: 11,
        image_height: 12,
        ui_white_nits: 13.0_f32.to_bits(),
        view_center_x: 14.0_f32.to_bits(),
        view_center_y: 15.0_f32.to_bits(),
        view_scale: 16.0_f32.to_bits(),
        background_mode: 17,
        center_ui: true,
        source_dynamic_range: 19,
        tiled_image: true,
        tile_size: 22,
        tile_columns: 23,
        tile_gutter: 24,
        resampled_viewport: true,
    }
}

#[test]
fn parameters_serialize_in_wgsl_word_order() {
    assert_eq!(
        distinct_parameters().to_words(),
        [
            1,                  // 0: mode
            1,                  // 1: encode_srgb
            3,                  // 2: dither_bits
            4,                  // 3: content_mode
            5.0_f32.to_bits(),  // 4: hdr_reference_white_nits
            6.0_f32.to_bits(),  // 5: source_peak_nits
            7.0_f32.to_bits(),  // 6: output_peak_nits
            8.0_f32.to_bits(),  // 7: exposure_stops
            9,                  // 8: viewport_width
            10,                 // 9: viewport_height
            11,                 // 10: image_width
            12,                 // 11: image_height
            13.0_f32.to_bits(), // 12: ui_white_nits
            14.0_f32.to_bits(), // 13: view_center_x
            15.0_f32.to_bits(), // 14: view_center_y
            16.0_f32.to_bits(), // 15: view_scale
            17,                 // 16: background_mode
            1,                  // 17: center_ui
            19,                 // 18: source_dynamic_range
            0,                  // 19: _padding_0
            1,                  // 20: tiled_image
            22,                 // 21: tile_size
            23,                 // 22: tile_columns
            24,                 // 23: tile_gutter
            1,                  // 24: resampled_viewport
            0,                  // 25: _padding_1
            0,                  // 26: _padding_2
            0,                  // 27: _padding_3
        ]
    );
}

#[test]
fn rust_serializer_tracks_the_wgsl_field_sequence() {
    let fields = declared_field_names(PRESENTATION_SHADER).unwrap();
    assert_eq!(fields, presentation_field_names());
    assert!(declares_parameters(PRESENTATION_SHADER));
    assert_eq!(
        fields,
        [
            "mode",
            "encode_srgb",
            "dither_bits",
            "content_mode",
            "hdr_reference_white_nits",
            "source_peak_nits",
            "output_peak_nits",
            "exposure_stops",
            "viewport_width",
            "viewport_height",
            "image_width",
            "image_height",
            "ui_white_nits",
            "view_center_x",
            "view_center_y",
            "view_scale",
            "background_mode",
            "center_ui",
            "source_dynamic_range",
            "_padding_0",
            "tiled_image",
            "tile_size",
            "tile_columns",
            "tile_gutter",
            "resampled_viewport",
            "_padding_1",
            "_padding_2",
            "_padding_3",
        ]
    );
}

#[test]
fn other_declarations_are_told_apart() {
    let swapped = PRESENTATION_SHADER
        .replace("tile_size: u32,", "tile_columns: u32,")
        .replacen("tile_columns: u32,\n    tile_columns", "tile_columns: u32,\n    tile_size", 1);
    let fields = declared_field_names(&swapped).unwrap();
    assert_eq!(fields[21..23], ["tile_columns", "tile_size"]);
    assert!(!declares_parameters(&swapped));
    let short = PRESENTATION_SHADER.replace("    _padding_3: u32,\n", "");
    assert_eq!(declared_field_names(&short).unwrap().len(), 27);
    assert!(!declares_parameters(&short));
    assert!(!declares_parameters("struct Other { mode: u32, }"));
    assert_eq!(declared_field_names("struct Other { mode: u32, }"), None);
    assert_eq!(declared_field_names("struct Params { mode: u32,"), None);
    assert!(!declares_parameters("struct Params { mode: u32,"));
}

#[test]
fn lines_without_a_field_are_left_out() {
    let shader = "struct Params {\r\n\tfirst : vec2<f32> , \r\n // a note\n\n  second: u32\n\
        third\u{a0}: array<u32, 4>,\n no_type,\n}\nstruct Params { mode: u32, }";
    assert_eq!(declared_field_names(shader).unwrap(), ["first", "third"]);
    assert_eq!(declared_field_names("struct Params {}").unwrap(), [""; 0]);
}

#[test]
fn put_together_shaders_declare_the_same_fields() {
    let source = presentation_shader_source("a", "struct Pattern {}", "c\n", PRESENTATION_SHADER);
    assert_eq!(declared_field_names(&source), declared_field_names(PRESENTATION_SHADER));
    assert!(declares_parameters(&source));
}

#[test]
fn words_have_one_byte_order() {
    let words = [0x0102_0304, 0xa0b0_c0d0];
    assert_eq!(words_in_order(&words, true), [4, 3, 2, 1, 0xd0, 0xc0, 0xb0, 0xa0]);
    assert_eq!(words_in_order(&words, false), [1, 2, 3, 4, 0xa0, 0xb0, 0xc0, 0xd0]);
    assert!(words_in_order(&[], true).is_empty());
    let little = 1_u32.to_ne_bytes()[0] == 1;
    assert_eq!(words_to_bytes(&words), words_in_order(&words, little));
}

#[test]
fn words_become_native_bytes() {
    let expected: Vec<u8> =
        [0x0102_0304_u32, 7].iter().flat_map(|word| word.to_ne_bytes()).collect();
    assert_eq!(words_to_bytes(&[0x0102_0304, 7]), expected);
    let parameters: Vec<u8> =
        distinct_parameters().to_words().iter().flat_map(|word| word.to_ne_bytes()).collect();
    assert_eq!(distinct_parameters().to_ne_bytes(), parameters);
}

#[test]
fn equal_words_mean_equal_parameters() {
    let mut other = distinct_parameters();
    other.tile_gutter = 25;
    assert_ne!(other.to_words(), distinct_parameters().to_words());
    assert_ne!(other.to_ne_bytes(), distinct_parameters().to_ne_bytes());
    other.tile_gutter = 24;
    assert_eq!(other.to_words(), distinct_parameters().to_words());
    assert_eq!(other.to_ne_bytes(), distinct_parameters().to_ne_bytes());
    assert_eq!(other, distinct_parameters());
}

#[test]
fn shader_sources_are_joined_in_their_order() {
    assert_eq!(presentation_shader_source("a", "b", "c", "d"), "a\nb\nc\nd");
}
