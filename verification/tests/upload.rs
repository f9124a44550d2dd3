use xl_view::units::{bytes_to_kib, format_mib, u64_from_usize, usize_from_u32};
use xl_view::upload::{
    MAX_STAGING_BYTES, TextureUploadLayout, UploadError, UploadStripe, encode_rgba16f_row,
    upload_staging_buffer_bytes,
};

#[test]
fn rgba16f_layout_aligns_rows_and_bounds_the_staging_allocation() {
    let layout = TextureUploadLayout::rgba16f(528, 528, "test upload").unwrap();

    assert_eq!(layout.source_bytes(), 528 * 528 * 8);
    assert_eq!(layout.staging_bytes(), 4_352 * 528);
    assert!(layout.staging_bytes() <= MAX_STAGING_BYTES);
    assert_eq!(
        layout.stripes().collect(),
        [UploadStripe {
            first_row: 0,
            row_count: 528,
        }]
    );
}

#[test]
fn stripe_iteration_covers_large_images_once_without_exceeding_the_buffer() {
    let layout = TextureUploadLayout::rgba16f(4_096, 1_025, "test upload").unwrap();
    let stripes = layout.stripes().collect();

    assert_eq!(
        stripes,
        [
            UploadStripe {
                first_row: 0,
                row_count: 512,
            },
            UploadStripe {
                first_row: 512,
                row_count: 512,
            },
            UploadStripe {
                first_row: 1_024,
                row_count: 1,
            },
        ]
    );
    assert_eq!(layout.staging_bytes(), MAX_STAGING_BYTES);
}

#[test]
fn byte_copy_preserves_rows_and_leaves_alignment_padding_zeroed() {
    let layout = TextureUploadLayout::rgba16f(3, 2, "test upload").unwrap();
    let source = (0..layout.source_bytes())
        .map(|byte| u8::try_from(byte).unwrap())
        .collect::<Vec<_>>();
    let mut staging = layout.allocate_staging();
    let stripe = layout.stripes().next().unwrap();

    layout.copy_stripe(&source, stripe, &mut staging);

    assert_eq!(&staging[..24], &source[..24]);
    assert!(staging[24..256].iter().all(|&byte| byte == 0));
    assert_eq!(&staging[256..280], &source[24..48]);
    assert!(staging[280..512].iter().all(|&byte| byte == 0));
    assert_eq!(layout.stripe_data(&staging, stripe), &staging[..512]);
}

#[test]
fn layout_rejects_invalid_geometry_and_source_lengths_at_the_boundary() {
    assert!(
        TextureUploadLayout::rgba16f(0, 1, "test upload")
            .unwrap_err()
            .message()
            .contains("dimensions must be non-zero")
    );
    assert!(
        TextureUploadLayout::rgba16f(u32::MAX, 1, "test upload")
            .unwrap_err()
            .message()
            .contains("row size overflowed")
    );
    let layout = TextureUploadLayout::rgba16f(1, 1, "test upload").unwrap();
    assert_eq!(
        layout.validate_source_len(7).unwrap_err().message(),
        "test upload expected 8 bytes, got 7"
    );
    assert!(layout.validate_source_len(8).is_ok());
}

#[test]
fn upload_errors_have_their_messages() {
    let alignment = TextureUploadLayout::rgba16f(u32::MAX / 8, 1, "wide").unwrap_err();
    assert_eq!(alignment, UploadError::RowAlignment { context: "wide" });
    assert_eq!(alignment.message(), "wide row alignment overflowed");
    assert_eq!(
        UploadError::SourceSize { context: "x" }.message(),
        "x source size overflowed"
    );
    assert_eq!(
        UploadError::StagingSize { context: "x" }.message(),
        "x staging size overflowed"
    );
    assert_eq!(
        UploadError::SampleCountOverflow { context: "x" }.message(),
        "x sample count overflowed"
    );
}

#[test]
fn textures_take_four_samples_per_pixel() {
    let layout = TextureUploadLayout::rgba16f_texture(3, 2, 24, "image").unwrap();
    assert_eq!(layout.source_sample_range(0), 0..12);
    assert_eq!(layout.source_sample_range(1), 12..24);
    assert_eq!(layout.source_row_range(1), 24..48);
    assert_eq!(
        TextureUploadLayout::rgba16f_texture(3, 2, 23, "image").unwrap_err().message(),
        "image expected 24 samples, got 23"
    );
    assert_eq!(
        TextureUploadLayout::rgba16f_texture(0, 2, 0, "image").unwrap_err().message(),
        "image dimensions must be non-zero"
    );
}

#[test]
fn copies_describe_their_rows() {
    let layout = TextureUploadLayout::rgba16f(3, 2, "test upload").unwrap();
    let stripe = layout.stripes().next().unwrap();
    assert_eq!((stripe.first_row(), stripe.row_count()), (0, 2));
    let buffer = layout.copy_buffer_layout(stripe);
    assert_eq!(
        (buffer.offset, buffer.bytes_per_row, buffer.rows_per_image),
        (0, wgpu::COPY_BYTES_PER_ROW_ALIGNMENT, 2)
    );
    let extent = layout.copy_extent(stripe);
    assert_eq!((extent.width, extent.height, extent.depth_or_array_layers), (3, 2, 1));
    let mut staging = layout.allocate_staging();
    layout.staging_row_mut(&mut staging, 1).fill(9);
    assert!(staging[256..280].iter().all(|&byte| byte == 9));
    assert!(staging[..256].iter().all(|&byte| byte == 0));
}

#[test]
fn staging_bytes_cover_every_image() {
    assert_eq!(upload_staging_buffer_bytes(0, 5), 0);
    assert_eq!(upload_staging_buffer_bytes(528, 528), 4_352 * 528);
    assert_eq!(upload_staging_buffer_bytes(u32::MAX, 1), usize::MAX);
}

#[test]
fn half_samples_are_written_low_byte_first() {
    let mut row = [0xaa_u8; 20];
    encode_rgba16f_row(&[0x0102, 0x0304, 0x0506, 0x0708, 0x090a], &mut row);
    assert_eq!(&row[..8], &[2, 1, 4, 3, 6, 5, 8, 7]);
    assert!(row[8..].iter().all(|&byte| byte == 0xaa));
}

#[test]
fn mib_format_omits_only_a_zero_fraction() {
    assert_eq!(format_mib(0), "0");
    assert_eq!(format_mib(1024 * 1024), "1");
    assert_eq!(format_mib(3 * 1024 * 1024 / 2), "1.5");
}

#[test]
fn mib_format_rounds_like_float_formatting() {
    for kib in (0..5_000_u64).chain([1_048_575, 1_048_576, 9_999_999, 4_294_967_295]) {
        let formatted = format!("{:.1}", kib as f64 / 1024.0);
        let expected = formatted.strip_suffix(".0").unwrap_or(&formatted);
        assert_eq!(format_mib(kib * 1024), expected, "{kib}");
    }
    assert_eq!(bytes_to_kib(1_025), 1);
    assert_eq!(bytes_to_kib(u64::MAX), u32::MAX);
    assert_eq!(usize_from_u32(7), 7);
    assert_eq!(u64_from_usize(7), 7);
}
