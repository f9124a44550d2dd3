use xl_view::hdr_metadata::SignalStatus;
use xl_view::mip::{mip_level_count, rgba16f_texture_budget_bytes};
use xl_view::output::{
    BackgroundMode, HDR_REFERENCE_WHITE_NITS, OutputMode, RenderingOptions, SourceDynamicRange,
    SurfaceCandidate, SurfaceColorSpace, SurfaceColorSpaces, SurfaceFormatCapabilities,
    SurfaceOutputError, TextureFormat,
};
use xl_view::presentation::PresentationParams;
use xl_view::renderer::{
    GpuOperationError, GpuState, GpuStep, ImageState, SurfaceFrame, initialize,
};
use xl_view::resampler::{ViewportResampler, required_resampling_gpu_bytes};
use xl_view::resampling::sanitize_alpha;
use xl_view::surface::{
    GpuFailure, GpuInitializationError, HLG_PATTERN_SOURCE_PEAK_NITS,
    ImageMemoryError, ImageMemoryRequest, ResamplingReservation, SourceLight,
    SurfaceSelection, SurfaceSummary, ViewUniform, background_shader_mode,
    backend_unavailable_message,
    image_gpu_budget_bytes, image_source_light, limited_exposure_stops, next_background,
    note_resampling_reservation, plan_image_memory, rebudget_tile_cache, resampling_reservation,
    select_surface, shader_parameters, ui_summary_rows, with_image_bindings,
};
use xl_view::tile_cache::{TileCache, TileCacheError};
use xl_view::tiles::{maximum_capacity, tile_texture_extent};
use xl_view::upload::encode_rgba16f_row;

const RENDERING_OPTIONS: RenderingOptions = RenderingOptions {
    exposure_stops: 0,
    background: BackgroundMode::Black,
};

const SRGB: SurfaceCandidate = SurfaceCandidate {
    color_space: SurfaceColorSpace::Srgb,
    format: TextureFormat::Bgra8UnormSrgb,
};

const PQ: SurfaceCandidate = SurfaceCandidate {
    color_space: SurfaceColorSpace::Bt2100Pq,
    format: TextureFormat::Rgb10a2Unorm,
};

/// The number by which the shader knows HLG.
const HLG_CODE: u32 = 2;

#[test]
fn unavailable_native_backend_has_a_distinct_category_and_guidance() {
    let source = wgpu::RequestAdapterError::EnvNotSet.to_string();
    let error = GpuInitializationError::backend_unavailable(source.clone());
    assert_eq!(error.category(), "gpu_backend_unavailable");
    assert!(error.message().starts_with(backend_unavailable_message()));
    assert!(error.message().ends_with(&format!(" ({source})")));

    let output_error = GpuInitializationError::OutputUnavailable(SurfaceOutputError::NoUsablePair);
    assert_eq!(output_error.category(), "gpu_output_unavailable");
}

#[test]
fn every_output_space_selects_its_explicit_shader_transform() {
    for (color_space, format, expected_mode, expected_encode, expected_bits) in [
        (SurfaceColorSpace::Srgb, TextureFormat::Bgra8UnormSrgb, 0, false, 8),
        (SurfaceColorSpace::Srgb, TextureFormat::Bgra8Unorm, 0, true, 8),
        (SurfaceColorSpace::ExtendedSrgbLinear, TextureFormat::Rgba16Float, 1, false, 0),
        (SurfaceColorSpace::Bt2100Pq, TextureFormat::Rgb10a2Unorm, 2, false, 10),
        (SurfaceColorSpace::Bt2100Hlg, TextureFormat::Rgb10a2Unorm, 3, false, 10),
    ] {
        let parameters = shader_parameters(
            SurfaceCandidate { color_space, format },
            RENDERING_OPTIONS,
            None,
            None,
            HLG_CODE,
            HLG_PATTERN_SOURCE_PEAK_NITS,
            (1_920, 1_080),
            None,
            true,
            false,
        );
        assert_eq!(parameters.mode, expected_mode);
        assert_eq!(parameters.encode_srgb, expected_encode);
        assert_eq!(parameters.dither_bits, expected_bits);
        assert_eq!(parameters.hdr_reference_white_nits, HDR_REFERENCE_WHITE_NITS);
        assert_eq!(parameters.hdr_reference_white_nits, 203.0_f32.to_bits());
        assert_eq!(parameters.source_peak_nits, HLG_PATTERN_SOURCE_PEAK_NITS);
    }
}

#[test]
fn shader_parameters_carry_exposure_as_a_uniform() {
    let options = RenderingOptions {
        exposure_stops: (-1.25_f32).to_bits(),
        ..RENDERING_OPTIONS
    };
    let parameters = shader_parameters(
        SRGB,
        options,
        None,
        None,
        HLG_CODE,
        HLG_PATTERN_SOURCE_PEAK_NITS,
        (1_920, 1_080),
        None,
        true,
        false,
    );
    assert_eq!(parameters.exposure_stops, (-1.25_f32).to_bits());
}

fn pattern_parameters(
    image_dimensions: Option<(u32, u32)>,
    diagnostics_pattern: bool,
    ui_centered: bool,
) -> PresentationParams {
    shader_parameters(
        SRGB,
        RENDERING_OPTIONS,
        None,
        image_dimensions,
        HLG_CODE,
        HLG_PATTERN_SOURCE_PEAK_NITS,
        (1_920, 1_080),
        None,
        diagnostics_pattern,
        ui_centered,
    )
}

#[test]
fn diagnostics_pattern_requires_the_explicit_startup_option() {
    assert_eq!(pattern_parameters(None, false, true).content_mode, 0);
    assert_eq!(pattern_parameters(None, true, false).content_mode, 1);
    assert_eq!(pattern_parameters(Some((800, 600)), true, false).content_mode, 2);
    assert!(pattern_parameters(None, false, true).center_ui);
    assert_eq!(pattern_parameters(None, false, true).source_dynamic_range, HLG_CODE);
}

#[test]
fn parameters_show_the_view_and_the_bindings() {
    let view = ViewUniform {
        center_x: 12.5_f32.to_bits(),
        center_y: 7.0_f32.to_bits(),
        scale: 2.0_f32.to_bits(),
    };
    let parameters = shader_parameters(
        SRGB,
        RENDERING_OPTIONS,
        Some(180.0_f32.to_bits()),
        Some((800, 600)),
        HLG_CODE,
        HLG_PATTERN_SOURCE_PEAK_NITS,
        (1_920, 1_080),
        Some(view),
        false,
        false,
    );
    assert_eq!((parameters.image_width, parameters.image_height), (800, 600));
    assert_eq!((parameters.viewport_width, parameters.viewport_height), (1_920, 1_080));
    assert_eq!(parameters.view_center_x, view.center_x);
    assert_eq!(parameters.view_scale, view.scale);
    assert_eq!(parameters.ui_white_nits, 180.0_f32.to_bits());
    assert_eq!((parameters.tile_size, parameters.tile_gutter), (512, 8));
    let idle = pattern_parameters(None, false, false);
    assert_eq!((idle.image_width, idle.image_height), (1, 1));
    assert_eq!(idle.view_center_x, 0.5_f32.to_bits());
    assert_eq!(idle.view_scale, 1.0_f32.to_bits());

    let cache = TileCache::with_capacity(3, 2, 4, 2);
    let bound = with_image_bindings(
        parameters,
        &cache,
        &ViewportResampler::fallback(0),
        Some(1.0_f64.to_bits()),
    );
    assert!(bound.tiled_image);
    assert_eq!(bound.tile_columns, 3);
    assert!(!bound.resampled_viewport);
}

#[test]
fn background_modes_have_stable_shader_values_and_cycle() {
    let modes = [
        (BackgroundMode::Black, 0),
        (BackgroundMode::MiddleGray, 3),
        (BackgroundMode::White, 2),
        (BackgroundMode::Checkerboard, 1),
    ];
    for (index, &(mode, shader_value)) in modes.iter().enumerate() {
        assert_eq!(background_shader_mode(mode), shader_value);
        assert_eq!(next_background(mode), modes[(index + 1) % modes.len()].0);
    }
}

/// The scale at which an image fits a viewport.
fn fit_scale(image: (u32, u32), viewport: (u32, u32)) -> f64 {
    (f64::from(viewport.0) / f64::from(image.0)).min(f64::from(viewport.1) / f64::from(image.1))
}

#[test]
fn resampling_reserves_gpu_memory_before_tiles() {
    let viewport = (3840, 2160);
    let scale = fit_scale((8000, 4000), viewport).to_bits();
    let required =
        required_resampling_gpu_bytes(viewport, scale, 16_384).expect("non-1:1 view");
    let coarse_bytes = 32 * 1024 * 1024;
    let total_bytes = coarse_bytes + required;
    let reservation =
        resampling_reservation(viewport, Some(scale), 16_384, total_bytes - coarse_bytes);
    let reserved = reservation.bytes();

    assert_eq!(reservation, ResamplingReservation::Reserved(required));
    assert_eq!(reserved, required);
    assert_eq!(
        maximum_capacity(100, total_bytes - coarse_bytes - reserved, u32::MAX),
        0
    );
    assert_eq!(
        resampling_reservation(viewport, Some(scale), 16_384, required - 1),
        ResamplingReservation::Insufficient {
            required,
            available: required - 1,
        }
    );

    let one_tile = rgba16f_texture_budget_bytes(
        tile_texture_extent(),
        tile_texture_extent(),
        mip_level_count(tile_texture_extent(), tile_texture_extent()),
        1,
    );
    assert_eq!(maximum_capacity(100, one_tile - 1, u32::MAX), 0);
    assert_eq!(maximum_capacity(100, one_tile, u32::MAX), 1);

    let unit_scale = fit_scale(viewport, viewport).to_bits();
    assert_eq!(
        resampling_reservation(viewport, Some(unit_scale), 16_384, u64::MAX),
        ResamplingReservation::NotRequired
    );
    assert_eq!(
        resampling_reservation(viewport, None, 16_384, u64::MAX),
        ResamplingReservation::NotRequired
    );
}

#[test]
fn upload_repack_premultiplies_linear_rgb() {
    let rgba = [1.0_f32, 0.5, 0.25, 0.5];
    let alpha = f32::from_bits(sanitize_alpha(rgba[3].to_bits()));
    let halves: Vec<u16> = [rgba[0] * alpha, rgba[1] * alpha, rgba[2] * alpha, alpha]
        .iter()
        .map(|value| half::f16::from_f32(*value).to_bits())
        .collect();
    let mut encoded = [0_u8; 8];
    encode_rgba16f_row(&halves, &mut encoded);
    let decoded: [f32; 4] = std::array::from_fn(|channel| {
        let start = channel * 2;
        half::f16::from_bits(u16::from_le_bytes(
            encoded[start..start + 2].try_into().unwrap(),
        ))
        .to_f32()
    });
    for (actual, expected) in decoded.into_iter().zip([0.5, 0.25, 0.125, 0.5]) {
        assert!((actual - expected).abs() < f32::EPSILON);
    }
}

#[test]
fn gpu_failures_have_actionable_messages() {
    let device_lost = GpuFailure::DeviceLost {
        reason: format!("{:?}", wgpu::DeviceLostReason::Unknown),
        message: "driver reset".to_owned(),
    };
    assert_eq!(
        device_lost.message(),
        "the GPU device was lost (Unknown): driver reset; restart xl-view"
    );
    assert_eq!(device_lost.category(), "gpu_device_lost");
    let silent = GpuFailure::DeviceLost { reason: "Destroyed".to_owned(), message: String::new() };
    assert_eq!(silent.message(), "the GPU device was lost (Destroyed); restart xl-view");
    let out_of_memory = GpuFailure::OutOfMemory;
    assert!(out_of_memory.message().contains("smaller image"));
    assert_eq!(out_of_memory.category(), "gpu_out_of_memory");
    assert_eq!(
        GpuFailure::Validation("bad binding".to_owned()).message(),
        "the GPU rejected a rendering operation: bad binding"
    );
    assert_eq!(
        GpuFailure::Internal("queue failure".to_owned()).message(),
        "an internal GPU error occurred: queue failure"
    );
    assert_eq!(GpuFailure::Internal(String::new()).category(), "gpu_internal");
    assert_eq!(GpuFailure::Validation(String::new()).category(), "gpu_validation");
}

#[test]
fn initialization_and_operation_errors_have_messages() {
    assert_eq!(
        GpuInitializationError::SurfaceCreation("no window".to_owned()).message(),
        "failed to create the GPU presentation surface: no window"
    );
    let device = GpuInitializationError::DeviceCreation("lost".to_owned());
    assert_eq!(device.message(), "failed to create the GPU device: lost");
    assert_eq!(device.category(), "gpu_initialization");
    let backend = GpuInitializationError::BackendUnavailable {
        message: "install a driver",
        source: "none".to_owned(),
    };
    assert_eq!(backend.message(), "install a driver (none)");
    assert_eq!(
        GpuOperationError::SurfaceValidation.message(),
        "surface texture acquisition failed validation"
    );
    assert_eq!(GpuOperationError::ImageResources("a".to_owned()).message(), "a");
    assert_eq!(GpuOperationError::SurfaceCreation("b".to_owned()).message(), "b");
    assert!(
        GpuOperationError::OutputUnavailable(SurfaceOutputError::NoUsablePair)
            .message()
            .contains("no usable output")
    );
}

fn memory_request() -> ImageMemoryRequest {
    ImageMemoryRequest {
        gpu_memory_limit_bytes: 512 * 1024 * 1024,
        coarse_width: 500,
        coarse_height: 250,
        viewport: (1_920, 1_080),
        view_scale: 0.24_f64.to_bits(),
        maximum_texture_dimension: 16_384,
        maximum_array_layers: 256,
        tile_columns: 16,
        tile_rows: 8,
    }
}

#[test]
fn installed_images_stay_within_the_memory_limit() {
    let request = memory_request();
    let plan = plan_image_memory(request).unwrap();
    assert_eq!(plan.coarse_mip_levels, 9);
    assert_eq!(
        plan.coarse_gpu_bytes,
        rgba16f_texture_budget_bytes(500, 250, 9, 1)
    );
    let required = required_resampling_gpu_bytes((1_920, 1_080), request.view_scale, 16_384);
    assert_eq!(plan.reservation, ResamplingReservation::Reserved(required.unwrap()));
    assert_eq!(plan.tile_capacity, 42);
    assert!(
        plan.base_gpu_budget_bytes + plan.resampling_gpu_bytes <= request.gpu_memory_limit_bytes
    );
    assert_eq!(plan.upload_staging_buffer_bytes, 4_352 * 528);
    assert_eq!(
        image_gpu_budget_bytes(Some((
            plan.base_gpu_budget_bytes,
            ViewportResampler::fallback(plan.resampling_gpu_bytes)
        ))),
        plan.base_gpu_budget_bytes
    );
    assert_eq!(image_gpu_budget_bytes(None), 8);
}

#[test]
fn images_that_cannot_be_installed_are_refused() {
    let small = ImageMemoryRequest { gpu_memory_limit_bytes: 1024 * 1024, ..memory_request() };
    assert_eq!(
        plan_image_memory(small).unwrap_err().message(),
        "the 1 MiB GPU memory budget cannot hold the 2.00 MiB coarse image preview"
    );
    let many = ImageMemoryRequest { tile_columns: 65_536, tile_rows: 65_536, ..memory_request() };
    assert_eq!(
        plan_image_memory(many).unwrap_err(),
        ImageMemoryError::Tiles(TileCacheError::LogicalTileCount)
    );
    assert_eq!(
        plan_image_memory(many).unwrap_err().message(),
        "logical tile count overflowed"
    );
    assert_eq!(
        ImageMemoryError::Tiles(TileCacheError::WorkerStopped).message(),
        "the tile-cache worker stopped unexpectedly"
    );
}

#[test]
fn tile_slots_follow_the_window() {
    let capacity = |current| {
        rebudget_tile_cache(u64::MAX, 0, 0, (16, 8), (1_024, 682), 256, current)
    };
    assert_eq!(capacity(25), None);
    assert_eq!(capacity(42), Some(25));
    assert_eq!(rebudget_tile_cache(0, 0, 0, (16, 8), (1_024, 682), 256, 42), Some(0));
    assert_eq!(
        rebudget_tile_cache(u64::MAX, 0, 0, (65_536, 65_536), (1_024, 682), 256, 0),
        Some(25)
    );
}

#[test]
fn a_memory_shortfall_warns_once() {
    let mut shortfall = None;
    let lacking = ResamplingReservation::Insufficient { required: 9, available: 4 };
    assert!(note_resampling_reservation(&mut shortfall, lacking));
    assert_eq!(shortfall, Some((9, 4)));
    assert!(!note_resampling_reservation(&mut shortfall, lacking));
    assert!(!note_resampling_reservation(&mut shortfall, ResamplingReservation::Reserved(9)));
    assert_eq!(shortfall, None);
    assert_eq!(lacking.bytes(), 0);
}

#[test]
fn source_light_comes_from_the_metadata() {
    let light = image_source_light(
        SourceDynamicRange::Pq,
        4_000.0_f32.to_bits(),
        0.005_f32.to_bits(),
    );
    assert_eq!(light.peak_nits, 4_000.0_f32.to_bits());
    assert_eq!(light.min_nits, 0.005_f32.to_bits());
    let light = image_source_light(SourceDynamicRange::Hlg, 0, f32::NAN.to_bits());
    assert_eq!(light.peak_nits, 1_000.0_f32.to_bits());
    assert_eq!(light.min_nits, 0);
}

#[test]
fn frames_ask_for_what_their_state_needs() {
    let state = started();
    let planned = |frame| {
        let plan = state.render(frame).unwrap();
        (plan.present, plan.steps)
    };
    let reconfigured =
        |reason| vec![GpuStep::Reconfigure { reason }, GpuStep::Redraw];
    assert_eq!(planned(SurfaceFrame::Success), (true, Vec::new()));
    assert_eq!(
        planned(SurfaceFrame::Suboptimal),
        (true, reconfigured("surface became suboptimal"))
    );
    assert_eq!(planned(SurfaceFrame::Timeout), (false, Vec::new()));
    assert_eq!(planned(SurfaceFrame::Occluded), (false, Vec::new()));
    assert_eq!(
        planned(SurfaceFrame::Outdated),
        (false, reconfigured("surface became outdated"))
    );
    assert_eq!(
        planned(SurfaceFrame::Lost),
        (
            false,
            vec![
                GpuStep::RecreateSurface,
                GpuStep::Reconfigure { reason: "surface was lost and recreated" },
                GpuStep::Redraw
            ]
        )
    );
    assert_eq!(
        state.render(SurfaceFrame::Validation).unwrap_err().message(),
        "surface texture acquisition failed validation"
    );
}

#[test]
fn summaries_list_what_the_surface_shows() {
    let rows = ui_summary_rows(SurfaceSummary {
        hdr_surface: true,
        format: "Rgb10a2Unorm",
        color_space: "Bt2100Pq",
        peak_nits: Some("1500"),
        headroom: Some("2.50"),
        dynamic_range: SourceDynamicRange::Hlg,
        metadata_status: SignalStatus::Signaled,
        exposure_stops: "+0.50",
    });
    let expected = [
        ("Output surface", "HDR selected (Rgb10a2Unorm/Bt2100Pq)"),
        ("Display capability", "peak 1500 nits, headroom 2.50x"),
        ("HDR mapping", "Compositor"),
        ("HDR metadata", "Metadata signaled"),
        ("Exposure", "+0.50 stops"),
    ]
    .map(|(label, value)| (label.to_owned(), value.to_owned()));
    assert_eq!(rows, expected);
    let rows = ui_summary_rows(SurfaceSummary {
        hdr_surface: false,
        format: "Bgra8UnormSrgb",
        color_space: "Srgb",
        peak_nits: None,
        headroom: None,
        dynamic_range: SourceDynamicRange::Sdr,
        metadata_status: SignalStatus::Unsupported,
        exposure_stops: "+0.00",
    });
    assert_eq!(rows.len(), 4);
    assert_eq!(rows[0].1, "SDR selected (Bgra8UnormSrgb/Srgb)");
    assert_eq!(rows[1].1, "Not required");
    assert_eq!(rows[2].1, "Metadata unsupported");
}

fn capabilities() -> Vec<SurfaceFormatCapabilities> {
    [SRGB, PQ]
        .map(|candidate| SurfaceFormatCapabilities {
            format: candidate.format,
            color_spaces: SurfaceColorSpaces::of(candidate.color_space),
        })
        .to_vec()
}

fn started() -> GpuState {
    initialize(&capabilities(), OutputMode::Auto, RENDERING_OPTIONS, false, (800, 600))
        .unwrap()
        .0
}

fn pq_image() -> ImageState {
    ImageState {
        dimensions: (4_000, 3_000),
        light: SourceLight {
            dynamic_range: SourceDynamicRange::Pq,
            peak_nits: 4_000.0_f32.to_bits(),
            min_nits: 0,
        },
    }
}

#[test]
fn renderers_start_with_the_output_of_what_they_show() {
    let (state, settings) = initialize(
        &capabilities(),
        OutputMode::Auto,
        RENDERING_OPTIONS,
        true,
        (0, 600),
    )
    .unwrap();
    assert_eq!(state.selection.candidate, PQ);
    assert_eq!((settings.width, settings.height), (1, 600));
    assert!(state.is_hdr_surface());
    assert!(!state.hdr_encoding_unavailable());
    assert_eq!(state.source_light().dynamic_range, SourceDynamicRange::Hlg);
    assert_eq!(state.hdr_metadata_summary(), "Metadata not requested");
    assert_eq!(started().selection.candidate, SRGB);
    assert_eq!(
        initialize(&[], OutputMode::Auto, RENDERING_OPTIONS, false, (800, 600))
            .unwrap_err(),
        SurfaceOutputError::NoUsablePair
    );
}

#[test]
fn installed_images_bring_their_output() {
    let mut state = started();
    let selection =
        select_surface(&capabilities(), OutputMode::Auto, SourceDynamicRange::Pq).unwrap();
    let steps = state.set_image(pq_image(), selection);
    assert_eq!(
        steps,
        [
            GpuStep::NoteReservation,
            GpuStep::RequestTiles,
            GpuStep::RequestResampling,
            GpuStep::ConfigureSurface { reason: "source dynamic range changed" },
            GpuStep::Redraw
        ]
    );
    assert_eq!(state.selection.candidate, SRGB);
    let update = state.configure_surface(selection, (1_024, 768));
    assert!(update.candidate_changed && update.rebuild_pipeline);
    assert_eq!(state.selection.candidate, PQ);
    assert_eq!((state.width, state.height), (1_024, 768));
    let steps = state.set_image(pq_image(), selection);
    assert_eq!(
        steps,
        [
            GpuStep::NoteReservation,
            GpuStep::RequestTiles,
            GpuStep::RequestResampling,
            GpuStep::RebuildBindings,
            GpuStep::UpdateParameters,
            GpuStep::RefreshMetadata { reason: "image changed" },
            GpuStep::Redraw
        ]
    );
    let parameters = state.shader_parameters(None, 1, None);
    assert_eq!(parameters.source_peak_nits, 4_000.0_f32.to_bits());
    assert_eq!((parameters.image_width, parameters.image_height), (4_000, 3_000));
    let metadata = state.current_hdr_metadata(4_000.0_f32.to_bits()).unwrap();
    assert_eq!(metadata.max_cll_nits, 4_000.0_f32.to_bits());
    assert!(state.set_hdr_metadata_status(SignalStatus::Signaled));
    assert!(!state.set_hdr_metadata_status(SignalStatus::Signaled));
}

#[test]
fn events_list_their_steps() {
    let mut state = started();
    assert_eq!(state.resize((0, 10)), []);
    assert_eq!((state.width, state.height), (800, 600));
    assert_eq!(
        state.resize((640, 480)),
        [GpuStep::RequestViewWork, GpuStep::Reconfigure { reason: "window resized" }]
    );
    assert_eq!((state.width, state.height), (640, 480));
    assert_eq!(
        state.fit_view(),
        [GpuStep::RequestViewWork, GpuStep::UpdateParameters, GpuStep::Redraw]
    );
    assert_eq!(state.process_background_work(true, true), []);
    state.image = Some(pq_image());
    let moved = [
        GpuStep::MoveView,
        GpuStep::RequestViewWork,
        GpuStep::UpdateParameters,
        GpuStep::Redraw,
    ];
    assert_eq!(state.one_to_one(), moved);
    assert_eq!(state.zoom_at(), moved);
    assert_eq!(state.pan_by(), moved);
    assert_eq!(
        state.scale_factor_changed((641, 480)),
        [
            GpuStep::MoveView,
            GpuStep::RequestViewWork,
            GpuStep::Reconfigure { reason: "window scale factor changed" }
        ]
    );
    assert_eq!(
        state.adjust_exposure(11.5_f32.to_bits()),
        [
            GpuStep::UpdateParameters,
            GpuStep::RefreshMetadata { reason: "exposure changed" },
            GpuStep::Redraw
        ]
    );
    assert_eq!(state.rendering_options.exposure_stops, 10.0_f32.to_bits());
    assert_eq!(state.reset_view_and_exposure().len(), 5);
    assert_eq!(state.rendering_options.exposure_stops, 0);
    assert_eq!(state.cycle_background(), [GpuStep::UpdateParameters, GpuStep::Redraw]);
    assert_eq!(state.rendering_options.background, BackgroundMode::MiddleGray);
    assert_eq!(
        state.refresh_display("monitor changed"),
        [GpuStep::Reconfigure { reason: "monitor changed" }, GpuStep::Redraw]
    );
    assert_eq!(state.set_ui_overlay(true).len(), 3);
    assert!(state.ui_centered);
    assert_eq!(state.process_background_work(true, false), [GpuStep::Redraw]);
    assert_eq!(state.process_background_work(false, true).len(), 3);
    assert_eq!(state.process_background_work(false, false), []);
    assert!(state.request_view_work(false, true));
    assert!(!state.request_view_work(false, false));
    assert_eq!(limited_exposure_stops((-99.0_f32).to_bits()), (-10.0_f32).to_bits());
    let selection = SurfaceSelection { candidate: SRGB, hdr_encoding_available: false };
    assert!(!state.configure_surface(selection, (0, 0)).candidate_changed);
    assert_eq!((state.width, state.height), (641, 480));
    assert!(state.hdr_encoding_unavailable());
}
