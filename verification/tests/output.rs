use xl_view::hdr_metadata::HdrMetadata;
use xl_view::output::{
    BackgroundMode, EXTENDED_LINEAR_FALLBACK_PEAK_NITS, FALLBACK_HDR_SOURCE_PEAK_NITS,
    HDR_REFERENCE_WHITE_NITS, HLG_ENCODING_PEAK_NITS, OutputMode, PQ_ENCODING_PEAK_NITS,
    SourceDynamicRange, SurfaceCandidate, SurfaceColorSpace, SurfaceColorSpaces,
    SurfaceFormatCapabilities, SurfaceOutputError, TextureFormat, applied_exposure_stops,
    finite_non_negative, format_rank, has_hdr_encoding_candidate, hdr_mapping_summary,
    is_hdr_color_space, quantization_bits, resolved_output_peak_nits, resolved_ui_white_nits,
    select_required_surface_candidate, select_surface_candidate, shader_mode,
    source_mastering_peak_nits, surface_configuration, surface_hdr_metadata,
};

#[derive(Clone, Copy)]
struct RenderingOptions {
    exposure_stops: f32,
    #[allow(dead_code)]
    background: BackgroundMode,
}

const RENDERING_OPTIONS: RenderingOptions = RenderingOptions {
    exposure_stops: 0.0,
    background: BackgroundMode::Black,
};

fn spaces(color_space: SurfaceColorSpace) -> SurfaceColorSpaces {
    SurfaceColorSpaces::of(color_space)
}

fn bt2020(max: f32, min: f32, cll: f32, fall: f32) -> HdrMetadata {
    HdrMetadata::bt2020(max.to_bits(), min.to_bits(), cll.to_bits(), fall.to_bits())
}

/// The metadata of a source after the exposure was applied to its peak.
fn signaled(
    candidate: SurfaceCandidate,
    options: RenderingOptions,
    source_dynamic_range: SourceDynamicRange,
    source_peak_nits: f32,
    source_min_nits: f32,
) -> Option<HdrMetadata> {
    let mastering = f32::from_bits(source_mastering_peak_nits(
        source_dynamic_range,
        source_peak_nits.to_bits(),
    ));
    let stops = f32::from_bits(applied_exposure_stops(options.exposure_stops.to_bits()));
    surface_hdr_metadata(
        candidate,
        source_dynamic_range,
        source_peak_nits.to_bits(),
        source_min_nits.to_bits(),
        (mastering * stops.exp2()).to_bits(),
    )
}

fn capability(
    format: TextureFormat,
    color_spaces: SurfaceColorSpaces,
) -> SurfaceFormatCapabilities {
    SurfaceFormatCapabilities {
        format,
        color_spaces,
    }
}

#[test]
fn hdr_candidate_detection_requires_a_usable_encoding() {
    let unusable = [
        capability(TextureFormat::Bgra8UnormSrgb, spaces(SurfaceColorSpace::Srgb)),
        capability(TextureFormat::Rgba8Unorm, spaces(SurfaceColorSpace::Bt2100Pq)),
    ];
    assert!(!has_hdr_encoding_candidate(&unusable));

    for candidate in [
        capability(TextureFormat::Rgb10a2Unorm, spaces(SurfaceColorSpace::Bt2100Pq)),
        capability(TextureFormat::Rgb10a2Unorm, spaces(SurfaceColorSpace::Bt2100Hlg)),
        capability(
            TextureFormat::Rgba16Float,
            spaces(SurfaceColorSpace::ExtendedSrgbLinear),
        ),
    ] {
        assert!(has_hdr_encoding_candidate(&[candidate]));
    }
}

#[test]
fn pq_ten_bit_beats_advertised_eight_bit_and_other_color_spaces() {
    let capabilities = [
        capability(TextureFormat::Rgba8Unorm, spaces(SurfaceColorSpace::Bt2100Pq)),
        capability(
            TextureFormat::Rgba16Float,
            spaces(SurfaceColorSpace::ExtendedSrgbLinear),
        ),
        capability(TextureFormat::Rgb10a2Unorm, spaces(SurfaceColorSpace::Bt2100Pq)),
    ];

    assert_eq!(
        select_surface_candidate(&capabilities, OutputMode::Auto, SourceDynamicRange::Pq),
        Some(SurfaceCandidate {
            format: TextureFormat::Rgb10a2Unorm,
            color_space: SurfaceColorSpace::Bt2100Pq,
        })
    );
}

#[test]
fn automatic_output_prefers_the_matching_source_encoding() {
    let capabilities = [
        capability(TextureFormat::Rgb10a2Unorm, spaces(SurfaceColorSpace::Bt2100Pq)),
        capability(TextureFormat::Rgb10a2Unorm, spaces(SurfaceColorSpace::Bt2100Hlg)),
        capability(TextureFormat::Bgra8UnormSrgb, spaces(SurfaceColorSpace::Srgb)),
    ];

    for (source_dynamic_range, format, color_space) in [
        (
            SourceDynamicRange::Sdr,
            TextureFormat::Bgra8UnormSrgb,
            SurfaceColorSpace::Srgb,
        ),
        (
            SourceDynamicRange::Pq,
            TextureFormat::Rgb10a2Unorm,
            SurfaceColorSpace::Bt2100Pq,
        ),
        (
            SourceDynamicRange::Hlg,
            TextureFormat::Rgb10a2Unorm,
            SurfaceColorSpace::Bt2100Hlg,
        ),
    ] {
        assert_eq!(
            select_surface_candidate(&capabilities, OutputMode::Auto, source_dynamic_range,),
            Some(SurfaceCandidate {
                color_space,
                format
            })
        );
    }
}

#[test]
fn hlg_falls_back_to_pq_when_hlg_has_no_suitable_format() {
    let capabilities = [
        capability(TextureFormat::Rgb10a2Unorm, spaces(SurfaceColorSpace::Bt2100Pq)),
        capability(TextureFormat::Rgba8Unorm, spaces(SurfaceColorSpace::Bt2100Hlg)),
    ];

    assert_eq!(
        select_surface_candidate(&capabilities, OutputMode::Auto, SourceDynamicRange::Hlg),
        Some(SurfaceCandidate {
            format: TextureFormat::Rgb10a2Unorm,
            color_space: SurfaceColorSpace::Bt2100Pq,
        })
    );
}

#[test]
fn format_and_color_space_capabilities_are_never_mixed_across_pairs() {
    let capabilities = [
        capability(TextureFormat::Rgba8Unorm, spaces(SurfaceColorSpace::Bt2100Pq)),
        capability(TextureFormat::Rgb10a2Unorm, spaces(SurfaceColorSpace::Srgb)),
    ];

    assert_eq!(
        select_surface_candidate(&capabilities, OutputMode::Auto, SourceDynamicRange::Hlg),
        Some(SurfaceCandidate {
            format: TextureFormat::Rgb10a2Unorm,
            color_space: SurfaceColorSpace::Srgb,
        })
    );
    assert_eq!(
        select_surface_candidate(&capabilities, OutputMode::Pq, SourceDynamicRange::Sdr),
        None
    );
}

#[test]
fn extended_linear_requires_a_float_format() {
    let capabilities = [
        capability(
            TextureFormat::Rgba16Unorm,
            spaces(SurfaceColorSpace::ExtendedSrgbLinear),
        ),
        capability(
            TextureFormat::Rgba16Float,
            spaces(SurfaceColorSpace::ExtendedSrgbLinear),
        ),
    ];

    assert_eq!(
        select_surface_candidate(&capabilities, OutputMode::Auto, SourceDynamicRange::Hlg),
        Some(SurfaceCandidate {
            format: TextureFormat::Rgba16Float,
            color_space: SurfaceColorSpace::ExtendedSrgbLinear,
        })
    );
}

#[test]
fn srgb_is_the_final_fallback() {
    let capabilities = [capability(
        TextureFormat::Bgra8UnormSrgb,
        spaces(SurfaceColorSpace::Srgb),
    )];

    assert_eq!(
        select_surface_candidate(&capabilities, OutputMode::Auto, SourceDynamicRange::Hlg),
        Some(SurfaceCandidate {
            format: TextureFormat::Bgra8UnormSrgb,
            color_space: SurfaceColorSpace::Srgb,
        })
    );
}

#[test]
fn a_non_srgb_format_is_a_secondary_sdr_fallback() {
    let capabilities = [
        capability(TextureFormat::Rgba16Float, spaces(SurfaceColorSpace::Srgb)),
        capability(TextureFormat::Bgra8Unorm, spaces(SurfaceColorSpace::Srgb)),
    ];

    assert_eq!(
        select_surface_candidate(&capabilities, OutputMode::Auto, SourceDynamicRange::Hlg),
        Some(SurfaceCandidate {
            format: TextureFormat::Bgra8Unorm,
            color_space: SurfaceColorSpace::Srgb,
        })
    );
}

#[test]
fn eight_bit_hdr_without_sdr_fallback_is_unusable() {
    let capabilities = [capability(
        TextureFormat::Rgba8Unorm,
        spaces(SurfaceColorSpace::Bt2100Pq),
    )];

    assert_eq!(
        select_surface_candidate(&capabilities, OutputMode::Auto, SourceDynamicRange::Hlg),
        None
    );
}

#[test]
fn forced_sdr_ignores_available_hdr_pairs() {
    let capabilities = [
        capability(TextureFormat::Rgb10a2Unorm, spaces(SurfaceColorSpace::Bt2100Pq)),
        capability(TextureFormat::Bgra8UnormSrgb, spaces(SurfaceColorSpace::Srgb)),
    ];

    assert_eq!(
        select_surface_candidate(&capabilities, OutputMode::Sdr, SourceDynamicRange::Hlg),
        Some(SurfaceCandidate {
            format: TextureFormat::Bgra8UnormSrgb,
            color_space: SurfaceColorSpace::Srgb,
        })
    );
}

#[test]
fn forced_output_fails_instead_of_falling_back() {
    let capabilities = [
        capability(TextureFormat::Rgb10a2Unorm, spaces(SurfaceColorSpace::Bt2100Pq)),
        capability(TextureFormat::Bgra8UnormSrgb, spaces(SurfaceColorSpace::Srgb)),
    ];

    assert_eq!(
        select_surface_candidate(&capabilities, OutputMode::Hlg, SourceDynamicRange::Sdr),
        None
    );

    let error =
        select_required_surface_candidate(&capabilities, OutputMode::Hlg, SourceDynamicRange::Sdr)
            .unwrap_err();
    assert_eq!(
        error,
        SurfaceOutputError::RequestedModeUnavailable(OutputMode::Hlg)
    );
    assert_eq!(
        error.message(),
        "requested HDR output mode 'hlg' is unavailable on this display; use '--output auto' or '--output sdr'"
    );
}

#[test]
fn automatic_output_reports_a_distinct_missing_surface_pair() {
    let error = select_required_surface_candidate(&[], OutputMode::Auto, SourceDynamicRange::Sdr)
        .unwrap_err();

    assert_eq!(error, SurfaceOutputError::NoUsablePair);
    assert_eq!(
        error.message(),
        "the GPU surface advertises no usable output format/color-space pair; check the display connection and GPU driver"
    );
}

#[test]
fn hdr_peaks_are_container_defined_and_sdr_uses_reported_white() {
    let reported = wgpu::DisplayHdrInfo {
        luminance: Some(wgpu::DisplayLuminance {
            max_nits: Some(1_500.0),
            sdr_white_nits: Some(180.0),
            ..Default::default()
        }),
        ..Default::default()
    };
    let white = reported
        .luminance
        .and_then(|luminance| luminance.sdr_white_nits)
        .map(f32::to_bits);
    assert_eq!(
        resolved_output_peak_nits(SurfaceColorSpace::Bt2100Pq, white),
        10_000.0_f32.to_bits(),
    );
    assert_eq!(
        resolved_output_peak_nits(SurfaceColorSpace::Bt2100Pq, white),
        PQ_ENCODING_PEAK_NITS,
    );
    assert_eq!(
        resolved_output_peak_nits(SurfaceColorSpace::Bt2100Hlg, white),
        HLG_ENCODING_PEAK_NITS,
    );
    assert_eq!(
        resolved_output_peak_nits(SurfaceColorSpace::ExtendedSrgbLinear, white),
        EXTENDED_LINEAR_FALLBACK_PEAK_NITS,
    );
    assert_eq!(
        resolved_output_peak_nits(SurfaceColorSpace::Srgb, white),
        180.0_f32.to_bits(),
    );
    assert_eq!(resolved_ui_white_nits(white), 180.0_f32.to_bits());

    assert_eq!(
        resolved_output_peak_nits(SurfaceColorSpace::Srgb, None),
        HDR_REFERENCE_WHITE_NITS,
    );
    assert_eq!(resolved_ui_white_nits(None), HDR_REFERENCE_WHITE_NITS);
}

#[test]
fn hdr_mapping_summary_distinguishes_surface_and_source_roles() {
    assert_eq!(
        hdr_mapping_summary(true, SourceDynamicRange::Hlg),
        "Compositor"
    );
    assert_eq!(
        hdr_mapping_summary(true, SourceDynamicRange::Sdr),
        "Compositor"
    );
    assert_eq!(
        hdr_mapping_summary(false, SourceDynamicRange::Pq),
        "Application tone mapping to SDR"
    );
    assert_eq!(
        hdr_mapping_summary(false, SourceDynamicRange::Sdr),
        "Not required"
    );
}

#[test]
fn pq_surface_metadata_uses_hlg_intensity_target_as_max_cll() {
    let metadata = signaled(
        SurfaceCandidate {
            color_space: SurfaceColorSpace::Bt2100Pq,
            format: TextureFormat::Rgb10a2Unorm,
        },
        RENDERING_OPTIONS,
        SourceDynamicRange::Hlg,
        1_000.0,
        0.0,
    );
    assert_eq!(
        metadata,
        Some(bt2020(1_000.0, 0.0, 1_000.0, 0.0))
    );
}

#[test]
fn pq_metadata_uses_intensity_target_for_mastering_and_max_cll() {
    let metadata = signaled(
        SurfaceCandidate {
            color_space: SurfaceColorSpace::Bt2100Pq,
            format: TextureFormat::Rgb10a2Unorm,
        },
        RENDERING_OPTIONS,
        SourceDynamicRange::Pq,
        10_000.0,
        0.005,
    );
    assert_eq!(
        metadata,
        Some(bt2020(10_000.0, 0.005, 10_000.0, 0.0))
    );
}

#[test]
fn exposure_expands_the_signaled_hdr_volume() {
    let options = RenderingOptions {
        exposure_stops: 1.0,
        ..RENDERING_OPTIONS
    };
    let metadata = signaled(
        SurfaceCandidate {
            color_space: SurfaceColorSpace::Bt2100Pq,
            format: TextureFormat::Rgb10a2Unorm,
        },
        options,
        SourceDynamicRange::Hlg,
        1_000.0,
        0.0,
    );
    assert_eq!(
        metadata,
        Some(bt2020(2_000.0, 0.0, 2_000.0, 0.0))
    );
}

#[test]
fn invalid_hdr_numbers_fall_back_to_safe_metadata() {
    let candidate = SurfaceCandidate {
        color_space: SurfaceColorSpace::Bt2100Pq,
        format: TextureFormat::Rgb10a2Unorm,
    };
    let expected = Some(HdrMetadata::bt2020(
        FALLBACK_HDR_SOURCE_PEAK_NITS,
        0,
        FALLBACK_HDR_SOURCE_PEAK_NITS,
        0,
    ));

    for (exposure_stops, source_peak_nits, source_min_nits) in [
        (f32::NAN, f32::NAN, f32::NAN),
        (f32::INFINITY, f32::INFINITY, f32::INFINITY),
        (f32::NEG_INFINITY, f32::NEG_INFINITY, f32::NEG_INFINITY),
        (f32::NAN, -1.0, -1.0),
    ] {
        let options = RenderingOptions {
            exposure_stops,
            ..RENDERING_OPTIONS
        };
        assert_eq!(
            signaled(
                candidate,
                options,
                SourceDynamicRange::Pq,
                source_peak_nits,
                source_min_nits,
            ),
            expected
        );
    }
}

#[test]
fn sdr_surfaces_do_not_request_vulkan_hdr_metadata() {
    assert_eq!(
        signaled(
            SurfaceCandidate {
                color_space: SurfaceColorSpace::Srgb,
                format: TextureFormat::Bgra8UnormSrgb,
            },
            RENDERING_OPTIONS,
            SourceDynamicRange::Sdr,
            f32::from_bits(HDR_REFERENCE_WHITE_NITS),
            0.0,
        ),
        None
    );
}

#[test]
fn hdr_surface_classification_includes_hdr_encodings_and_scrgb() {
    for color_space in [
        SurfaceColorSpace::Bt2100Pq,
        SurfaceColorSpace::Bt2100Hlg,
        SurfaceColorSpace::ExtendedSrgbLinear,
    ] {
        assert!(is_hdr_color_space(color_space));
    }
    assert!(!is_hdr_color_space(SurfaceColorSpace::Srgb));
}

#[test]
fn color_space_sets_match_the_graphics_library() {
    for (own, theirs) in [
        (SurfaceColorSpace::Srgb, wgpu::SurfaceColorSpaces::SRGB),
        (
            SurfaceColorSpace::ExtendedSrgbLinear,
            wgpu::SurfaceColorSpaces::EXTENDED_SRGB_LINEAR,
        ),
        (SurfaceColorSpace::DisplayP3, wgpu::SurfaceColorSpaces::DISPLAY_P3),
        (SurfaceColorSpace::Bt2100Pq, wgpu::SurfaceColorSpaces::BT2100_PQ),
        (SurfaceColorSpace::Bt2100Hlg, wgpu::SurfaceColorSpaces::BT2100_HLG),
    ] {
        assert_eq!(u64::from(spaces(own).bits), u64::from(theirs.bits()));
        assert!(spaces(own).contains(own));
    }
    assert!(!spaces(SurfaceColorSpace::Srgb).contains(SurfaceColorSpace::Bt2100Pq));
    assert!(!spaces(SurfaceColorSpace::Srgb).contains(SurfaceColorSpace::Auto));
}

#[test]
fn forced_sdr_failure_names_the_sdr_mode() {
    let error =
        select_required_surface_candidate(&[], OutputMode::Sdr, SourceDynamicRange::Pq).unwrap_err();
    assert_eq!(
        error.message(),
        "requested SDR output mode is unavailable on this display; use '--output auto' or check the display and GPU driver"
    );
    let error =
        select_required_surface_candidate(&[], OutputMode::Scrgb, SourceDynamicRange::Pq)
            .unwrap_err();
    assert_eq!(
        error.message(),
        "requested HDR output mode 'scrgb' is unavailable on this display; use '--output auto' or '--output sdr'"
    );
}

#[test]
fn surfaces_keep_at_least_one_pixel() {
    let candidate = SurfaceCandidate {
        color_space: SurfaceColorSpace::Srgb,
        format: TextureFormat::Bgra8UnormSrgb,
    };
    let settings = surface_configuration(candidate, (0, 600));
    assert_eq!((settings.width, settings.height), (1, 600));
    assert_eq!(settings.candidate, candidate);
    assert_eq!(settings.desired_maximum_frame_latency, 2);
}

#[test]
fn luminances_are_kept_only_where_they_are_numbers() {
    assert_eq!(finite_non_negative(0.25_f32.to_bits()), 0.25_f32.to_bits());
    for value in [f32::NAN, f32::INFINITY, f32::NEG_INFINITY, -1.0] {
        assert_eq!(finite_non_negative(value.to_bits()), 0);
    }
    assert_eq!(
        source_mastering_peak_nits(SourceDynamicRange::Sdr, 4_000.0_f32.to_bits()),
        HDR_REFERENCE_WHITE_NITS
    );
    assert_eq!(
        source_mastering_peak_nits(SourceDynamicRange::Pq, 4_000.0_f32.to_bits()),
        4_000.0_f32.to_bits()
    );
    assert_eq!(
        source_mastering_peak_nits(SourceDynamicRange::Pq, f32::NAN.to_bits()),
        FALLBACK_HDR_SOURCE_PEAK_NITS
    );
}

#[test]
fn formats_rank_by_their_precision() {
    assert_eq!(quantization_bits(TextureFormat::Bgra8Unorm), 8);
    assert_eq!(quantization_bits(TextureFormat::Rgb10a2Unorm), 10);
    assert_eq!(quantization_bits(TextureFormat::Rgba16Float), 0);
    assert_eq!(
        format_rank(TextureFormat::Rgba8Unorm, SurfaceColorSpace::Bt2100Pq),
        None
    );
    assert!(
        format_rank(TextureFormat::Rgb10a2Unorm, SurfaceColorSpace::Bt2100Pq).is_some()
    );
    assert_eq!(shader_mode(SurfaceColorSpace::Srgb), 0);
    assert_eq!(shader_mode(SurfaceColorSpace::ExtendedSrgbLinear), 1);
    assert_eq!(shader_mode(SurfaceColorSpace::Bt2100Pq), 2);
    assert_eq!(shader_mode(SurfaceColorSpace::Bt2100Hlg), 3);
}
