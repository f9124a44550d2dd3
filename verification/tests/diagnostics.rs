use xl_view::diagnostics::{
    AllocatorTotals, FormatDescription, HLG_PATTERN_OVERVIEW, ImageDiagnostics,
    ImageWorkDiagnostics, SurfaceDescription, allocator_memory_status, image_finished_report,
    image_report, push_hex, push_mib, startup_report, surface_capabilities_report,
    write_image_work_status, write_unknown_color_space_bits,
};
use xl_view::hdr_metadata::{HdrMetadata, SignalStatus, metadata_status};
use xl_view::output::{OutputMode, SourceDynamicRange, SurfaceColorSpace, SurfaceColorSpaces};
use xl_view::resampler::ViewportResampler;

const MIB: u64 = 1024 * 1024;

#[test]
fn allocator_diagnostics_distinguish_live_allocations_from_reserved_blocks() {
    let report = wgpu::AllocatorReport {
        allocations: Vec::new(),
        blocks: Vec::new(),
        total_allocated_bytes: 96 * MIB,
        total_reserved_bytes: 160 * MIB,
    };
    assert_eq!(
        allocator_memory_status(Some(AllocatorTotals {
            total_allocated_bytes: report.total_allocated_bytes,
            total_reserved_bytes: report.total_reserved_bytes,
        })),
        "96.00 MiB live allocations, 160.00 MiB reserved blocks"
    );
    assert_eq!(allocator_memory_status(None), "unavailable");
}

#[test]
fn image_reports_preserve_their_line_and_newline_contracts() {
    let work = image_work_diagnostics();
    let report = image_report(ImageDiagnostics {
        background: "black",
        exposure_stops: &format!("{:+.2}", 1.25_f32),
        hdr_metadata_status: SignalStatus::NotRequested.message().unwrap(),
        cpu_storage_bytes: usize::try_from(2 * MIB).unwrap(),
        upload_staging_buffer_bytes: usize::try_from(MIB / 2).unwrap(),
        allocator_report: None,
        coarse_mip_levels: 4,
        work: &work,
    });

    assert_eq!(
        report,
        [
            "  background: black\n",
            "  exposure: +1.25 stops\n",
            "  HDR metadata state: HDR metadata not requested\n",
            "  decoded CPU storage: 2.00 MiB ",
            "(full-resolution RGBA16F + coarse RGBA32F preview)\n",
            "  temporary CPU-to-GPU upload buffer: up to 0.50 MiB\n",
            "  GPU image budget estimate: 1.50 MiB of 4.00 MiB\n",
            "  GPU allocator memory: unavailable\n",
            "  coarse-preview mip levels: 4\n",
            "  tile cache: 2 of 3 working-set slots resident (hits 8, misses 5)\n",
            "  viewport resampling: active 800x600\n",
            "  CPU resampling scratch peak: 0.25 MiB",
        ]
        .concat()
    );

    assert_eq!(
        image_finished_report(&image_work_diagnostics()),
        [
            "  tile cache: 2 of 3 working-set slots resident (hits 8, misses 5)\n",
            "  viewport resampling: active 800x600\n",
            "  CPU resampling scratch peak: 0.25 MiB\n",
            "  GPU image budget estimate: 1.50 MiB of 4.00 MiB",
        ]
        .concat()
    );
    let mut status = String::new();
    write_image_work_status(&mut status, &work, true);
    assert!(status.ends_with("0.25 MiB\n"));
}

fn image_work_diagnostics() -> ImageWorkDiagnostics {
    ImageWorkDiagnostics {
        tile_cache: "2 of 3 working-set slots resident".to_owned(),
        tile_hits: 8,
        tile_misses: 5,
        viewport_resampler: "active 800x600".to_owned(),
        resampling_scratch_peak_bytes: MIB / 4,
        gpu_image_budget_bytes: MIB / 2 * 3,
        gpu_memory_limit_bytes: 4 * MIB,
    }
}

#[test]
fn mebibytes_round_like_float_formatting() {
    for kib in (0..3_000_u64).chain([1_048_577, 4_294_967_295]) {
        let mut text = String::new();
        push_mib(&mut text, kib * 1024);
        assert_eq!(text, format!("{:.2}", kib as f64 / 1024.0), "{kib}");
    }
}

#[test]
fn hexadecimal_numbers_are_padded() {
    for (value, digits) in [(0_u32, 4_u32), (0x10de, 4), (0xabcd_ef01, 4), (0x2f, 8)] {
        let mut text = String::new();
        push_hex(&mut text, value, digits);
        assert_eq!(text, format!("{value:0width$x}", width = digits as usize));
    }
}

#[test]
fn unknown_color_space_bits_are_named_like_the_graphics_library_does() {
    let mut report = String::new();
    write_unknown_color_space_bits(&mut report, "Rgba8Unorm", SurfaceColorSpaces { bits: 1 });
    assert_eq!(report, "");
    write_unknown_color_space_bits(
        &mut report,
        "Rgba8Unorm",
        SurfaceColorSpaces { bits: 0x8000_0001 },
    );
    let unknown = wgpu::SurfaceColorSpaces::from_bits_retain(0x8000_0000);
    assert!(report.contains(&format!("{unknown:?}")), "{report}");
}

fn description() -> SurfaceDescription {
    SurfaceDescription {
        name: "Example".to_owned(),
        device_type: "DiscreteGpu".to_owned(),
        vendor: 0x10de,
        device: 0x2684,
        driver: "driver".to_owned(),
        driver_info: "1.2.3".to_owned(),
        backend: "Vulkan".to_owned(),
        formats: vec![FormatDescription {
            format: "Rgb10a2Unorm".to_owned(),
            color_spaces: SurfaceColorSpaces::of(SurfaceColorSpace::Bt2100Pq),
        }],
        present_modes: "[Fifo]".to_owned(),
        alpha_modes: "[Opaque]".to_owned(),
        usages: "RENDER_ATTACHMENT".to_owned(),
        hdr_info: "none".to_owned(),
    }
}

#[test]
fn capability_reports_name_the_selected_pair() {
    let report = surface_capabilities_report(
        &description(),
        OutputMode::Auto,
        SourceDynamicRange::Pq,
        "Rgb10a2Unorm",
        SurfaceColorSpace::Bt2100Pq,
    );
    for part in ["Example", "10de", "2684", "Rgb10a2Unorm", "Bt2100Pq", "Vulkan", "auto"] {
        assert!(report.contains(part), "{part} in {report}");
    }
    let with_pattern = startup_report(report.clone(), Some(true), "signaled", true);
    assert!(with_pattern.contains(HLG_PATTERN_OVERVIEW));
    let without = startup_report(report, None, "signaled", false);
    assert!(!without.contains(HLG_PATTERN_OVERVIEW));
}

#[test]
fn metadata_is_left_to_a_backend_that_manages_it() {
    let metadata = HdrMetadata::bt2020(1, 2, 3, 4);
    assert_eq!(metadata_status(Some(metadata), true), SignalStatus::BackendManaged);
    assert_eq!(metadata_status(Some(metadata), false), SignalStatus::NotRequested);
    assert_eq!(metadata_status(None, true), SignalStatus::NotRequested);
    assert_eq!(SignalStatus::BackendManaged.message(), Some("managed by Metal"));
    assert_eq!(SignalStatus::SurfaceUnavailable.summary(), "Metadata unavailable");
    assert_eq!(
        (metadata.mastering_max_nits, metadata.mastering_min_nits),
        (1, 2)
    );
    assert_eq!((metadata.max_cll_nits, metadata.max_fall_nits), (3, 4));
}

#[test]
fn resampler_statuses_count_their_work() {
    let mut resampler = ViewportResampler::fallback(0);
    assert_eq!(
        resampler.status(None),
        "inactive (requests 0, completions 0, discarded 0, last resample n/a, source 0.00 MiB)"
    );
    resampler.requests = 3;
    resampler.completions = 2;
    resampler.last_source_bytes = 3 * 1024 * 1024 / 2;
    assert_eq!(
        resampler.status(Some("1.5ms")),
        "inactive (requests 3, completions 2, discarded 0, last resample 1.5ms, source 1.50 MiB)"
    );
    assert_eq!(ViewportResampler::fallback(7).gpu_bytes(), 0);
}
