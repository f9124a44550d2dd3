//! Decisions of the stateful renderer: how an image divides the graphics-memory
//! budget, which output a surface gets, and which parameters the shader gets.
use vstd::prelude::*;
use vstd::string::StringExecFns;

use crate::float_bits;
use crate::float_bits::{F32_ONE, clamp32, is_finite32, is_less32};
use crate::hdr_metadata::SignalStatus;
use crate::mip;
use crate::mip::{MIB_BYTES, mip_level_count, rgba16f_texture_budget_bytes};
use crate::numeric;
use crate::numeric::max_usize;
use crate::output;
use crate::output::{
    BackgroundMode, HDR_REFERENCE_WHITE_NITS, RenderingOptions, SourceDynamicRange,
    SurfaceCandidate, SurfaceColorSpace, SurfaceOutputError, SurfaceSettings, hdr_mapping_summary,
    quantization_bits, resolved_output_peak_nits, resolved_ui_white_nits, shader_mode,
    source_mastering_peak_nits, surface_configuration,
};
use crate::presentation::PresentationParams;
use crate::resampler;
use crate::resampler::{ViewportResampler, required_resampling_gpu_bytes};
use crate::text;
use crate::text::{push_decimal, push_text, push_two_fraction_digits, rounded_quotient};
use crate::tile_cache::{TileCache, TileCacheError};
use crate::tiles;
use crate::tiles::{
    TILE_GUTTER, TILE_SIZE, tile_array_budget_bytes, tile_texture_extent, working_set_capacity,
};
use crate::units::bytes_to_kib;
use crate::upload;
use crate::upload::{RGBA16F_BYTES_PER_PIXEL, upload_staging_buffer_bytes};

verus! {

/// The bits of the peak of the diagnostics pattern, 1000 nits.
pub const HLG_PATTERN_SOURCE_PEAK_NITS: u32 = 0x447a_0000;

/// What the textures are charged while no image is shown.
pub const FALLBACK_IMAGE_GPU_BYTES: u64 = 8;

/// The staging bytes of the textures while no image is shown.
pub const FALLBACK_UPLOAD_STAGING_BUFFER_BYTES: usize = 256;

/// Why the device stopped working.
#[derive(Debug)]
pub enum GpuFailure {
    DeviceLost { reason: String, message: String },
    OutOfMemory,
    Internal(String),
    Validation(String),
}

/// The text of a device failure.
pub open spec fn gpu_failure_text(failure: GpuFailure) -> Seq<char> {
    match failure {
        GpuFailure::DeviceLost { reason, message } => if message@.len() == 0 {
            "the GPU device was lost ("@ + reason@ + "); restart xl-view"@
        } else {
            "the GPU device was lost ("@ + reason@ + "): "@ + message@ + "; restart xl-view"@
        },
        GpuFailure::OutOfMemory =>
            "the GPU ran out of memory; close other GPU-intensive applications or open a smaller image"@,
        GpuFailure::Internal(message) => "an internal GPU error occurred: "@ + message@,
        GpuFailure::Validation(message) => "the GPU rejected a rendering operation: "@ + message@,
    }
}

/// The category by which a device failure is reported.
pub open spec fn gpu_failure_category(failure: GpuFailure) -> Seq<char> {
    match failure {
        GpuFailure::DeviceLost { .. } => "gpu_device_lost"@,
        GpuFailure::OutOfMemory => "gpu_out_of_memory"@,
        GpuFailure::Internal(_) => "gpu_internal"@,
        GpuFailure::Validation(_) => "gpu_validation"@,
    }
}

impl GpuFailure {
    /// The message shown for the failure.
    pub fn message(&self) -> (text: String)
        ensures
            text@ == gpu_failure_text(*self),
    {
        let mut text = String::new();
        match self {
            GpuFailure::DeviceLost { reason, message } => {
                push_text(&mut text, "the GPU device was lost (");
                push_text(&mut text, reason.as_str());
                if message.as_str().unicode_len() == 0 {
                    push_text(&mut text, "); restart xl-view");
                } else {
                    push_text(&mut text, "): ");
                    push_text(&mut text, message.as_str());
                    push_text(&mut text, "; restart xl-view");
                }
            },
            GpuFailure::OutOfMemory => {
                push_text(
                    &mut text,
                    "the GPU ran out of memory; close other GPU-intensive applications or open a smaller image",
                );
            },
            GpuFailure::Internal(message) => {
                push_text(&mut text, "an internal GPU error occurred: ");
                push_text(&mut text, message.as_str());
            },
            GpuFailure::Validation(message) => {
                push_text(&mut text, "the GPU rejected a rendering operation: ");
                push_text(&mut text, message.as_str());
            },
        }
        assert(text@ =~= gpu_failure_text(*self));
        text
    }

    /// The category by which the failure is reported.
    pub fn category(&self) -> (category: &'static str)
        ensures
            category@ == gpu_failure_category(*self),
    {
        match self {
            GpuFailure::DeviceLost { .. } => "gpu_device_lost",
            GpuFailure::OutOfMemory => "gpu_out_of_memory",
            GpuFailure::Internal(_) => "gpu_internal",
            GpuFailure::Validation(_) => "gpu_validation",
        }
    }
}

/// Why the renderer could not be started. What the graphics library says is kept
/// in words.
#[derive(Debug)]
pub enum GpuInitializationError {
    BackendUnavailable { message: &'static str, source: String },
    OutputUnavailable(SurfaceOutputError),
    SurfaceCreation(String),
    DeviceCreation(String),
}

/// The text of an initialization error.
pub open spec fn initialization_error_text(error: GpuInitializationError) -> Seq<char> {
    match error {
        GpuInitializationError::BackendUnavailable { message, source } => message@ + " ("@ + source@
            + ")"@,
        GpuInitializationError::OutputUnavailable(error) => output::output_error_text(error),
        GpuInitializationError::SurfaceCreation(source) =>
            "failed to create the GPU presentation surface: "@ + source@,
        GpuInitializationError::DeviceCreation(source) => "failed to create the GPU device: "@
            + source@,
    }
}

/// What is said where no graphics backend of the system can be used.
pub open spec fn backend_unavailable_text() -> Seq<char> {
    "no native GPU backend is available; install or update the GPU driver"@
}

/// What is said where no graphics backend of the system can be used.
pub fn backend_unavailable_message() -> (message: &'static str)
    ensures
        message@ == backend_unavailable_text(),
{
    "no native GPU backend is available; install or update the GPU driver"
}

impl GpuInitializationError {
    /// No graphics backend of the system can be used, for a reason in words.
    pub fn backend_unavailable(source: String) -> (error: Self)
        ensures
            error matches GpuInitializationError::BackendUnavailable {
                message,
                source: reason,
            } && message@ == backend_unavailable_text() && reason == source,
    {
        GpuInitializationError::BackendUnavailable {
            message: backend_unavailable_message(),
            source,
        }
    }

    /// The message shown for the error.
    pub fn message(&self) -> (text: String)
        requires
            *self matches GpuInitializationError::OutputUnavailable(error) ==> error
                != SurfaceOutputError::RequestedModeUnavailable(output::OutputMode::Auto),
        ensures
            text@ == initialization_error_text(*self),
    {
        let mut text = String::new();
        match self {
            GpuInitializationError::BackendUnavailable { message, source } => {
                push_text(&mut text, message);
                push_text(&mut text, " (");
                push_text(&mut text, source.as_str());
                push_text(&mut text, ")");
            },
            GpuInitializationError::OutputUnavailable(error) => {
                return error.message();
            },
            GpuInitializationError::SurfaceCreation(source) => {
                push_text(&mut text, "failed to create the GPU presentation surface: ");
                push_text(&mut text, source.as_str());
            },
            GpuInitializationError::DeviceCreation(source) => {
                push_text(&mut text, "failed to create the GPU device: ");
                push_text(&mut text, source.as_str());
            },
        }
        assert(text@ =~= initialization_error_text(*self));
        text
    }

    /// The category by which the error is reported.
    pub fn category(&self) -> (category: &'static str)
        ensures
            category@ == (match *self {
                GpuInitializationError::BackendUnavailable { .. } => "gpu_backend_unavailable"@,
                GpuInitializationError::OutputUnavailable(_) => "gpu_output_unavailable"@,
                GpuInitializationError::SurfaceCreation(_) => "gpu_initialization"@,
                GpuInitializationError::DeviceCreation(_) => "gpu_initialization"@,
            }),
    {
        match self {
            GpuInitializationError::BackendUnavailable { .. } => "gpu_backend_unavailable",
            GpuInitializationError::OutputUnavailable(_) => "gpu_output_unavailable",
            GpuInitializationError::SurfaceCreation(_) => "gpu_initialization",
            GpuInitializationError::DeviceCreation(_) => "gpu_initialization",
        }
    }
}

/// What graphics memory a resampled viewport gets.
#[derive(Clone, Copy, Debug, PartialEq, Eq, Structural)]
pub enum ResamplingReservation {
    NotRequired,
    Reserved(u64),
    Insufficient { required: u64, available: u64 },
}

impl ResamplingReservation {
    /// The reserved bytes.
    pub open spec fn reserved(&self) -> int {
        match *self {
            ResamplingReservation::Reserved(bytes) => bytes as int,
            _ => 0,
        }
    }

    /// The reserved bytes.
    pub fn bytes(self) -> (bytes: u64)
        ensures
            bytes == self.reserved(),
    {
        match self {
            ResamplingReservation::Reserved(bytes) => bytes,
            _ => 0,
        }
    }
}

/// The reservation for a view: what its target is charged, if that is available.
pub open spec fn reservation_for(
    viewport: (u32, u32),
    scale: Option<u64>,
    maximum_texture_dimension: u32,
    available: u64,
) -> ResamplingReservation {
    match scale {
        None => ResamplingReservation::NotRequired,
        Some(scale) => match resampler::target_of(
            viewport,
            scale,
            u64::MAX as int,
            maximum_texture_dimension,
        ) {
            None => ResamplingReservation::NotRequired,
            Some(target) => if target.budget() <= available {
                ResamplingReservation::Reserved(target.budget() as u64)
            } else {
                ResamplingReservation::Insufficient {
                    required: target.budget() as u64,
                    available,
                }
            },
        },
    }
}

/// Reserves graphics memory for the resampled view, whose scale is given as
/// double-precision bits.
pub fn resampling_reservation(
    viewport_dimensions: (u32, u32),
    scale: Option<u64>,
    maximum_texture_dimension: u32,
    available_gpu_bytes: u64,
) -> (reservation: ResamplingReservation)
    ensures
        reservation == reservation_for(
            viewport_dimensions,
            scale,
            maximum_texture_dimension,
            available_gpu_bytes,
        ),
        reservation.reserved() <= available_gpu_bytes,
{
    match scale {
        None => ResamplingReservation::NotRequired,
        Some(scale) => match required_resampling_gpu_bytes(
            viewport_dimensions,
            scale,
            maximum_texture_dimension,
        ) {
            None => ResamplingReservation::NotRequired,
            Some(required) => if required <= available_gpu_bytes {
                ResamplingReservation::Reserved(required)
            } else {
                ResamplingReservation::Insufficient { required, available: available_gpu_bytes }
            },
        },
    }
}

/// What an image and the device say about the memory that it needs.
#[derive(Clone, Copy, Debug, PartialEq, Eq)]
pub struct ImageMemoryRequest {
    pub gpu_memory_limit_bytes: u64,
    pub coarse_width: u32,
    pub coarse_height: u32,
    pub viewport: (u32, u32),
    pub view_scale: u64,
    pub maximum_texture_dimension: u32,
    pub maximum_array_layers: u32,
    pub tile_columns: u32,
    pub tile_rows: u32,
}

/// How an image divides the graphics-memory budget: the coarse preview first,
/// then the resampled viewport, and tiles with the rest.
#[derive(Clone, Copy, Debug, PartialEq, Eq, Structural)]
pub struct ImageMemoryPlan {
    pub coarse_gpu_bytes: u64,
    pub coarse_mip_levels: u32,
    pub reservation: ResamplingReservation,
    pub resampling_gpu_bytes: u64,
    pub tile_gpu_bytes: u64,
    pub tile_capacity: u32,
    pub base_gpu_budget_bytes: u64,
    pub upload_staging_buffer_bytes: usize,
}

/// Why an image cannot be installed.
#[derive(Clone, Copy, Debug, PartialEq, Eq, Structural)]
pub enum ImageMemoryError {
    CoarsePreview { limit_bytes: u64, coarse_bytes: u64 },
    Tiles(TileCacheError),
}

/// The text of an image memory error.
pub open spec fn image_memory_error_text(error: ImageMemoryError) -> Seq<char> {
    match error {
        ImageMemoryError::CoarsePreview { limit_bytes, coarse_bytes } => "the "@ + text::decimal(
            (limit_bytes / MIB_BYTES) as nat,
        ) + " MiB GPU memory budget cannot hold the "@ + text::two_fraction_digits(
            resampler::mib_hundredths(coarse_bytes as nat),
        ) + " MiB coarse image preview"@,
        ImageMemoryError::Tiles(TileCacheError::LogicalTileCount) =>
            "logical tile count overflowed"@,
        ImageMemoryError::Tiles(TileCacheError::WorkerStopped) =>
            "the tile-cache worker stopped unexpectedly"@,
    }
}

impl ImageMemoryError {
    /// The message shown for the error.
    pub fn message(self) -> (message: String)
        ensures
            message@ == image_memory_error_text(self),
    {
        let mut message = String::new();
        match self {
            ImageMemoryError::CoarsePreview { limit_bytes, coarse_bytes } => {
                push_text(&mut message, "the ");
                push_decimal(&mut message, limit_bytes / MIB_BYTES);
                push_text(&mut message, " MiB GPU memory budget cannot hold the ");
                let kib: u64 = bytes_to_kib(coarse_bytes) as u64;
                push_two_fraction_digits(&mut message, rounded_quotient(kib * 100, 1024));
                push_text(&mut message, " MiB coarse image preview");
            },
            ImageMemoryError::Tiles(error) => {
                push_text(&mut message, error.message());
            },
        }
        assert(message@ =~= image_memory_error_text(self));
        message
    }
}

/// The budget charge of the coarse preview, if its mip chain has `levels`
/// levels.
pub open spec fn coarse_budget(request: ImageMemoryRequest, levels: u32) -> int {
    mip::texture_budget(
        request.coarse_width as int,
        request.coarse_height as int,
        levels as int,
        1,
    )
}

/// A plan divides the budget as it should.
pub open spec fn is_memory_plan(request: ImageMemoryRequest, plan: ImageMemoryPlan) -> bool {
    let limit = request.gpu_memory_limit_bytes;
    &&& plan.coarse_gpu_bytes == coarse_budget(request, plan.coarse_mip_levels)
    &&& plan.coarse_gpu_bytes <= limit
    &&& plan.reservation == reservation_for(
        request.viewport,
        Some(request.view_scale),
        request.maximum_texture_dimension,
        (limit - plan.coarse_gpu_bytes) as u64,
    )
    &&& plan.resampling_gpu_bytes == plan.reservation.reserved()
    &&& plan.tile_gpu_bytes == limit - plan.coarse_gpu_bytes - plan.resampling_gpu_bytes
    &&& tiles::is_largest_capacity(
        plan.tile_capacity as int,
        numeric::smaller(
            numeric::smaller(
                request.tile_columns * request.tile_rows,
                tiles::working_set_tiles(request.viewport.0 as int, request.viewport.1 as int),
            ),
            request.maximum_array_layers as int,
        ),
        plan.tile_gpu_bytes as int,
    )
    &&& plan.base_gpu_budget_bytes == plan.coarse_gpu_bytes + (if plan.tile_capacity == 0 {
        0
    } else {
        tiles::tile_array_budget(plan.tile_capacity as int)
    })
    &&& plan.upload_staging_buffer_bytes == numeric::larger(
        staging_bytes_of(request.coarse_width, request.coarse_height),
        staging_bytes_of(528, 528),
    )
}

/// The staging bytes of an upload.
pub open spec fn staging_bytes_of(width: u32, height: u32) -> int {
    if width == 0 || height == 0 {
        0
    } else {
        match upload::planned_layout(width, height, RGBA16F_BYTES_PER_PIXEL, "RGBA16F upload") {
            Ok(layout) => layout.staging_bytes as int,
            Err(_) => usize::MAX as int,
        }
    }
}

/// Divides the graphics-memory budget for an image.
pub fn plan_image_memory(request: ImageMemoryRequest) -> (planned: Result<
    ImageMemoryPlan,
    ImageMemoryError,
>)
    ensures
        ({
            let levels = mip::level_count(request.coarse_width as int, request.coarse_height as int);
            let coarse = coarse_budget(request, levels as u32);
            match planned {
                Ok(plan) => {
                    &&& coarse <= request.gpu_memory_limit_bytes
                    &&& request.tile_columns * request.tile_rows <= u32::MAX
                    &&& plan.coarse_mip_levels == levels
                    &&& is_memory_plan(request, plan)
                },
                Err(ImageMemoryError::CoarsePreview { limit_bytes, coarse_bytes }) => {
                    &&& coarse > request.gpu_memory_limit_bytes
                    &&& limit_bytes == request.gpu_memory_limit_bytes
                    &&& coarse_bytes == coarse
                },
                Err(ImageMemoryError::Tiles(error)) => {
                    &&& coarse <= request.gpu_memory_limit_bytes
                    &&& request.tile_columns * request.tile_rows > u32::MAX
                    &&& error == TileCacheError::LogicalTileCount
                },
            }
        }),
{
    let coarse_mip_levels: u32 = mip_level_count(request.coarse_width, request.coarse_height);
    let coarse_gpu_bytes: u64 = rgba16f_texture_budget_bytes(
        request.coarse_width,
        request.coarse_height,
        coarse_mip_levels,
        1,
    );
    let limit: u64 = request.gpu_memory_limit_bytes;
    if coarse_gpu_bytes > limit {
        return Err(
            ImageMemoryError::CoarsePreview { limit_bytes: limit, coarse_bytes: coarse_gpu_bytes },
        );
    }
    let reservation: ResamplingReservation = resampling_reservation(
        request.viewport,
        Some(request.view_scale),
        request.maximum_texture_dimension,
        limit - coarse_gpu_bytes,
    );
    let resampling_gpu_bytes: u64 = reservation.bytes();
    let tile_gpu_bytes: u64 = limit - coarse_gpu_bytes - resampling_gpu_bytes;
    let tile_capacity: u32 = match TileCache::plan_capacity(
        request.tile_columns,
        request.tile_rows,
        tile_gpu_bytes,
        request.viewport,
        request.maximum_array_layers,
    ) {
        Ok(capacity) => capacity,
        Err(error) => {
            return Err(ImageMemoryError::Tiles(error));
        },
    };
    let tile_bytes: u64 = if tile_capacity == 0 {
        0
    } else {
        tile_array_budget_bytes(tile_capacity)
    };
    let extent: u32 = tile_texture_extent();
    Ok(
        ImageMemoryPlan {
            coarse_gpu_bytes,
            coarse_mip_levels,
            reservation,
            resampling_gpu_bytes,
            tile_gpu_bytes,
            tile_capacity,
            base_gpu_budget_bytes: coarse_gpu_bytes + tile_bytes,
            upload_staging_buffer_bytes: max_usize(
                upload_staging_buffer_bytes(request.coarse_width, request.coarse_height),
                upload_staging_buffer_bytes(extent, extent),
            ),
        },
    )
}

/// The budget is never overdrawn: the coarse preview, the tiles and the reserved
/// viewport of an installed image fit the limit together.
pub proof fn installed_images_fit_the_budget(request: ImageMemoryRequest, plan: ImageMemoryPlan)
    requires
        is_memory_plan(request, plan),
    ensures
        plan.base_gpu_budget_bytes + plan.resampling_gpu_bytes <= request.gpu_memory_limit_bytes,
        plan.coarse_gpu_bytes + plan.resampling_gpu_bytes <= request.gpu_memory_limit_bytes,
{
}

/// What an installed image is charged, with the resampled viewport that it
/// shows.
pub open spec fn image_charge(base_gpu_budget_bytes: u64, resampler: ViewportResampler) -> int {
    numeric::saturated(
        base_gpu_budget_bytes + (match resampler.lifecycle.shown() {
            Some(request) => request.target.budget(),
            None => 0,
        }),
    )
}

/// What the textures are charged: those of the installed image, or those that
/// stand in for one.
pub fn image_gpu_budget_bytes(installed: Option<(u64, ViewportResampler)>) -> (bytes: u64)
    ensures
        bytes == (match installed {
            Some((base_gpu_budget_bytes, resampler)) => image_charge(
                base_gpu_budget_bytes,
                resampler,
            ),
            None => FALLBACK_IMAGE_GPU_BYTES as int,
        }),
{
    match installed {
        Some((base_gpu_budget_bytes, resampler)) => base_gpu_budget_bytes.saturating_add(
            resampler.gpu_bytes(),
        ),
        None => FALLBACK_IMAGE_GPU_BYTES,
    }
}

/// Whatever view is resampled within its reservation, the image stays within the
/// graphics-memory limit.
pub proof fn shown_images_fit_the_budget(
    request: ImageMemoryRequest,
    plan: ImageMemoryPlan,
    resampler: ViewportResampler,
)
    requires
        is_memory_plan(request, plan),
        resampler.memory_limit_bytes == plan.resampling_gpu_bytes,
        resampler.within_limit(),
    ensures
        image_charge(plan.base_gpu_budget_bytes, resampler) <= request.gpu_memory_limit_bytes,
{
}

/// The same holds after the window or the view has changed: with the slots that
/// the rest of the budget allows, and a view resampled within its new
/// reservation, the image stays within the graphics-memory limit.
pub proof fn resized_images_fit_the_budget(
    gpu_memory_limit_bytes: u64,
    coarse_gpu_bytes: u64,
    reservation: ResamplingReservation,
    capacity: u32,
    most_tiles: int,
    resampler: ViewportResampler,
)
    requires
        coarse_gpu_bytes <= gpu_memory_limit_bytes,
        reservation.reserved() <= gpu_memory_limit_bytes - coarse_gpu_bytes,
        tiles::is_largest_capacity(
            capacity as int,
            most_tiles,
            gpu_memory_limit_bytes - coarse_gpu_bytes - reservation.reserved(),
        ),
        resampler.memory_limit_bytes == reservation.reserved(),
        resampler.within_limit(),
    ensures
        image_charge(
            (coarse_gpu_bytes + tiles::tile_array_budget(capacity as int)) as u64,
            resampler,
        ) <= gpu_memory_limit_bytes,
{
    mip::budget_grows_with_layers(tiles::tile_extent(), tiles::tile_extent(), 10, 0, capacity as int);
}

/// The tile slots for a changed window or view, if they differ from those that
/// the cache has.
pub fn rebudget_tile_cache(
    gpu_memory_limit_bytes: u64,
    coarse_gpu_bytes: u64,
    resampling_gpu_bytes: u64,
    tile_grid: (u32, u32),
    viewport: (u32, u32),
    maximum_array_layers: u32,
    current_capacity: u32,
) -> (capacity: Option<u32>)
    ensures
        ({
            let budget = numeric::larger(
                numeric::larger(gpu_memory_limit_bytes - coarse_gpu_bytes, 0)
                    - resampling_gpu_bytes,
                0,
            );
            let limit = numeric::smaller(
                numeric::smaller(
                    numeric::smaller(tile_grid.0 * tile_grid.1, u32::MAX as int),
                    tiles::working_set_tiles(viewport.0 as int, viewport.1 as int),
                ),
                maximum_array_layers as int,
            );
            match capacity {
                Some(slots) => slots != current_capacity && tiles::is_largest_capacity(
                    slots as int,
                    limit,
                    budget,
                ),
                None => tiles::is_largest_capacity(current_capacity as int, limit, budget),
            }
        }),
{
    let tile_gpu_bytes: u64 = gpu_memory_limit_bytes.saturating_sub(
        coarse_gpu_bytes,
    ).saturating_sub(resampling_gpu_bytes);
    let logical_tiles: u32 = match tile_grid.0.checked_mul(tile_grid.1) {
        Some(tiles) => tiles,
        None => u32::MAX,
    };
    let desired: u32 = working_set_capacity(
        logical_tiles,
        viewport,
        tile_gpu_bytes,
        maximum_array_layers,
    );
    if desired == current_capacity {
        None
    } else {
        Some(desired)
    }
}

/// Remembers whether the resampled viewport lacks memory. Returns whether that is
/// new.
pub fn note_resampling_reservation(
    shortfall: &mut Option<(u64, u64)>,
    reservation: ResamplingReservation,
) -> (warn: bool)
    ensures
        match reservation {
            ResamplingReservation::Insufficient { required, available } => {
                &&& *final(shortfall) == Some((required, available))
                &&& warn == (*old(shortfall) is None)
            },
            _ => *final(shortfall) is None && !warn,
        },
{
    match reservation {
        ResamplingReservation::Insufficient { required, available } => {
            let warn: bool = shortfall.is_none();
            *shortfall = Some((required, available));
            warn
        },
        _ => {
            *shortfall = None;
            false
        },
    }
}

/// What the source of the diagnostics pattern, or of no image, is.
pub open spec fn idle_range(diagnostics_pattern: bool) -> SourceDynamicRange {
    if diagnostics_pattern {
        SourceDynamicRange::Hlg
    } else {
        SourceDynamicRange::Sdr
    }
}

/// How a source encodes luminance. The peak and the minimum are single-precision
/// bits.
#[derive(Clone, Copy, Debug, PartialEq, Eq, Structural)]
pub struct SourceLight {
    pub dynamic_range: SourceDynamicRange,
    pub peak_nits: u32,
    pub min_nits: u32,
}

/// The light of an image whose metadata names a peak and a minimum.
pub fn image_source_light(
    dynamic_range: SourceDynamicRange,
    intensity_target_nits: u32,
    min_nits: u32,
) -> (light: SourceLight)
    ensures
        light == (SourceLight {
            dynamic_range,
            peak_nits: output::mastering_peak(dynamic_range, intensity_target_nits),
            min_nits: if float_bits::finite32(min_nits) && !float_bits::less32(min_nits, 0) {
                min_nits
            } else {
                0
            },
        }),
{
    SourceLight {
        dynamic_range,
        peak_nits: source_mastering_peak_nits(dynamic_range, intensity_target_nits),
        min_nits: if is_finite32(min_nits) && !is_less32(min_nits, 0) {
            min_nits
        } else {
            0
        },
    }
}

/// The light of what is shown: the image's, or that of the pattern.
pub fn shown_source_light(image: Option<SourceLight>, diagnostics_pattern: bool) -> (light: SourceLight)
    ensures
        light == (match image {
            Some(light) => light,
            None => SourceLight {
                dynamic_range: idle_range(diagnostics_pattern),
                peak_nits: HLG_PATTERN_SOURCE_PEAK_NITS,
                min_nits: 0,
            },
        }),
{
    match image {
        Some(light) => light,
        None => SourceLight {
            dynamic_range: if diagnostics_pattern {
                SourceDynamicRange::Hlg
            } else {
                SourceDynamicRange::Sdr
            },
            peak_nits: HLG_PATTERN_SOURCE_PEAK_NITS,
            min_nits: 0,
        },
    }
}

/// An output that was selected for a surface.
#[derive(Clone, Copy, Debug, PartialEq, Eq, Structural)]
pub struct SurfaceSelection {
    pub candidate: SurfaceCandidate,
    pub hdr_encoding_available: bool,
}

/// No HDR encoding can be shown.
pub open spec fn hdr_unavailable(
    capabilities: Seq<output::SurfaceFormatCapabilities>,
) -> bool {
    output::is_unusable(capabilities, SurfaceColorSpace::Bt2100Pq) && output::is_unusable(
        capabilities,
        SurfaceColorSpace::Bt2100Hlg,
    ) && output::is_unusable(capabilities, SurfaceColorSpace::ExtendedSrgbLinear)
}

/// Selects the output of a surface for a source.
pub fn select_surface(
    capabilities: &[output::SurfaceFormatCapabilities],
    output_mode: output::OutputMode,
    source_dynamic_range: SourceDynamicRange,
) -> (selection: Result<SurfaceSelection, SurfaceOutputError>)
    ensures
        selection == (match output::first_candidate(
            capabilities@,
            output::color_space_priority(output_mode, source_dynamic_range),
        ) {
            Some(candidate) => Ok::<SurfaceSelection, SurfaceOutputError>(
                SurfaceSelection {
                    candidate,
                    hdr_encoding_available: !hdr_unavailable(capabilities@),
                },
            ),
            None => Err(
                if output_mode == output::OutputMode::Auto {
                    SurfaceOutputError::NoUsablePair
                } else {
                    SurfaceOutputError::RequestedModeUnavailable(output_mode)
                },
            ),
        }),
        selection matches Ok(selected) ==> output::selectable(selected.candidate.color_space),
{
    match output::select_required_surface_candidate(
        capabilities,
        output_mode,
        source_dynamic_range,
    ) {
        Ok(candidate) => {
            proof {
                let priority = output::color_space_priority(output_mode, source_dynamic_range);
                output::selected_pairs_are_advertised(capabilities@, priority, candidate);
                let i = choose|i: int|
                    0 <= i < priority.len() && priority[i] == candidate.color_space;
                assert(output::selectable(priority[i]));
            }
            Ok(
                SurfaceSelection {
                    candidate,
                    hdr_encoding_available: output::has_hdr_encoding_candidate(capabilities),
                },
            )
        },
        Err(error) => Err(error),
    }
}

/// What a newly selected output changes.
#[derive(Clone, Copy, Debug, PartialEq, Eq, Structural)]
pub struct SurfaceUpdate {
    pub settings: SurfaceSettings,
    pub candidate_changed: bool,
    pub rebuild_pipeline: bool,
}

/// Plans the configuration of a surface: it follows the window's size unless the
/// window has none, and the pipeline follows the format.
pub fn plan_surface_update(
    previous: SurfaceCandidate,
    selected: SurfaceCandidate,
    configured_size: (u32, u32),
    window_size: (u32, u32),
) -> (update: SurfaceUpdate)
    ensures
        ({
            let size = if window_size.0 > 0 && window_size.1 > 0 {
                window_size
            } else {
                configured_size
            };
            &&& update.settings == (SurfaceSettings {
                candidate: selected,
                width: numeric::larger(size.0 as int, 1) as u32,
                height: numeric::larger(size.1 as int, 1) as u32,
                desired_maximum_frame_latency: 2,
            })
            &&& update.candidate_changed == (selected != previous)
            &&& update.rebuild_pipeline == (selected.format != previous.format)
        }),
{
    let size: (u32, u32) = if window_size.0 > 0 && window_size.1 > 0 {
        window_size
    } else {
        configured_size
    };
    SurfaceUpdate {
        settings: surface_configuration(selected, size),
        candidate_changed: selected != previous,
        rebuild_pipeline: selected.format != previous.format,
    }
}

/// An exposure, as single-precision bits, kept within ten stops.
pub fn limited_exposure_stops(exposure_stops: u32) -> (limited: u32)
    ensures
        limited == float_bits::clamped32(exposure_stops, 0xc120_0000, 0x4120_0000),
{
    clamp32(exposure_stops, 0xc120_0000, 0x4120_0000)
}

/// The view of an image as the shader gets it: single-precision bits.
#[derive(Clone, Copy, Debug, PartialEq, Eq, Structural)]
pub struct ViewUniform {
    pub center_x: u32,
    pub center_y: u32,
    pub scale: u32,
}

/// The shader's parameters for an output, a source and a view.
pub open spec fn parameters_for(
    candidate: SurfaceCandidate,
    rendering_options: RenderingOptions,
    sdr_white_nits: Option<u32>,
    image_dimensions: Option<(u32, u32)>,
    source_range_code: u32,
    source_peak_nits: u32,
    viewport: (u32, u32),
    view: Option<ViewUniform>,
    diagnostics_pattern: bool,
    ui_centered: bool,
) -> PresentationParams {
    let image = match image_dimensions {
        Some(dimensions) => dimensions,
        None => (1u32, 1u32),
    };
    let uniform = match view {
        Some(view) => view,
        None => ViewUniform { center_x: 0x3f00_0000, center_y: 0x3f00_0000, scale: F32_ONE },
    };
    PresentationParams {
        mode: output::shader_mode_of(candidate.color_space),
        encode_srgb: candidate.color_space == SurfaceColorSpace::Srgb
            && !candidate.format.encodes_srgb(),
        dither_bits: output::quantization_of(candidate.format) as u32,
        content_mode: if image_dimensions is Some {
            2
        } else if diagnostics_pattern {
            1
        } else {
            0
        },
        hdr_reference_white_nits: HDR_REFERENCE_WHITE_NITS,
        source_peak_nits,
        output_peak_nits: output::output_peak_of(candidate.color_space, sdr_white_nits),
        exposure_stops: rendering_options.exposure_stops,
        viewport_width: viewport.0,
        viewport_height: viewport.1,
        image_width: image.0,
        image_height: image.1,
        ui_white_nits: output::white_of(sdr_white_nits),
        view_center_x: uniform.center_x,
        view_center_y: uniform.center_y,
        view_scale: uniform.scale,
        background_mode: background_mode_of(rendering_options.background),
        center_ui: ui_centered,
        source_dynamic_range: source_range_code,
        tiled_image: false,
        tile_size: TILE_SIZE,
        tile_columns: 0,
        tile_gutter: TILE_GUTTER,
        resampled_viewport: false,
    }
}

/// The shader's parameters for an output, a source and a view.
/// `source_range_code` is the number by which the shader knows the source's
/// dynamic range.
pub fn shader_parameters(
    candidate: SurfaceCandidate,
    rendering_options: RenderingOptions,
    sdr_white_nits: Option<u32>,
    image_dimensions: Option<(u32, u32)>,
    source_range_code: u32,
    source_peak_nits: u32,
    viewport_dimensions: (u32, u32),
    view: Option<ViewUniform>,
    diagnostics_pattern: bool,
    ui_centered: bool,
) -> (parameters: PresentationParams)
    requires
        output::selectable(candidate.color_space),
    ensures
        parameters == parameters_for(
            candidate,
            rendering_options,
            sdr_white_nits,
            image_dimensions,
            source_range_code,
            source_peak_nits,
            viewport_dimensions,
            view,
            diagnostics_pattern,
            ui_centered,
        ),
        view matches Some(shown) ==> parameters.view_center_x == shown.center_x
            && parameters.view_center_y == shown.center_y && parameters.view_scale == shown.scale,
        image_dimensions matches Some(size) ==> parameters.image_width == size.0
            && parameters.image_height == size.1,
        parameters.viewport_width == viewport_dimensions.0,
        parameters.viewport_height == viewport_dimensions.1,
{
    let (image_width, image_height): (u32, u32) = match image_dimensions {
        Some((width, height)) => (width, height),
        None => (1, 1),
    };
    let uniform: ViewUniform = match view {
        Some(view) => view,
        None => ViewUniform { center_x: 0x3f00_0000, center_y: 0x3f00_0000, scale: F32_ONE },
    };
    let content_mode: u32 = if image_dimensions.is_some() {
        2
    } else if diagnostics_pattern {
        1
    } else {
        0
    };
    PresentationParams {
        mode: shader_mode(candidate.color_space),
        encode_srgb: candidate.color_space == SurfaceColorSpace::Srgb
            && !candidate.format.is_srgb(),
        dither_bits: quantization_bits(candidate.format) as u32,
        content_mode,
        hdr_reference_white_nits: HDR_REFERENCE_WHITE_NITS,
        source_peak_nits,
        output_peak_nits: resolved_output_peak_nits(candidate.color_space, sdr_white_nits),
        exposure_stops: rendering_options.exposure_stops,
        viewport_width: viewport_dimensions.0,
        viewport_height: viewport_dimensions.1,
        image_width,
        image_height,
        ui_white_nits: resolved_ui_white_nits(sdr_white_nits),
        view_center_x: uniform.center_x,
        view_center_y: uniform.center_y,
        view_scale: uniform.scale,
        background_mode: background_shader_mode(rendering_options.background),
        center_ui: ui_centered,
        source_dynamic_range: source_range_code,
        tiled_image: false,
        tile_size: TILE_SIZE,
        tile_columns: 0,
        tile_gutter: TILE_GUTTER,
        resampled_viewport: false,
    }
}

/// The parameters with what the tiles and the resampled viewport show of a view.
/// `scale` is the view's scale as double-precision bits.
pub fn with_image_bindings(
    parameters: PresentationParams,
    tile_cache: &TileCache,
    resampler: &ViewportResampler,
    scale: Option<u64>,
) -> (bound: PresentationParams)
    ensures
        bound == (PresentationParams {
            tiled_image: tile_cache.samples(scale),
            tile_columns: tile_cache.tile_columns,
            resampled_viewport: resampler.lifecycle.shown() is Some,
            ..parameters
        }),
{
    let mut bound: PresentationParams = parameters;
    bound.tiled_image = tile_cache.should_sample(scale);
    bound.tile_columns = tile_cache.tile_columns();
    bound.resampled_viewport = resampler.is_active();
    bound
}

/// The number by which the shader knows a background.
pub open spec fn background_mode_of(background: BackgroundMode) -> u32 {
    match background {
        BackgroundMode::Black => 0,
        BackgroundMode::Checkerboard => 1,
        BackgroundMode::White => 2,
        BackgroundMode::MiddleGray => 3,
    }
}

/// The background that follows another.
pub open spec fn background_after(background: BackgroundMode) -> BackgroundMode {
    match background {
        BackgroundMode::Black => BackgroundMode::MiddleGray,
        BackgroundMode::MiddleGray => BackgroundMode::White,
        BackgroundMode::White => BackgroundMode::Checkerboard,
        BackgroundMode::Checkerboard => BackgroundMode::Black,
    }
}

/// The number by which the shader knows a background.
pub fn background_shader_mode(background: BackgroundMode) -> (mode: u32)
    ensures
        mode == background_mode_of(background),
{
    match background {
        BackgroundMode::Black => 0,
        BackgroundMode::Checkerboard => 1,
        BackgroundMode::White => 2,
        BackgroundMode::MiddleGray => 3,
    }
}

/// The background that follows another.
pub fn next_background(background: BackgroundMode) -> (next: BackgroundMode)
    ensures
        next == background_after(background),
{
    match background {
        BackgroundMode::Black => BackgroundMode::MiddleGray,
        BackgroundMode::MiddleGray => BackgroundMode::White,
        BackgroundMode::White => BackgroundMode::Checkerboard,
        BackgroundMode::Checkerboard => BackgroundMode::Black,
    }
}

/// The backgrounds cycle: after four steps every one of them comes back, having
/// passed through all others, and no two share a shader value.
pub proof fn backgrounds_cycle(background: BackgroundMode, other: BackgroundMode)
    ensures
        background_after(
            background_after(background_after(background_after(background))),
        ) == background,
        other == background || other == background_after(background) || other == background_after(
            background_after(background),
        ) || other == background_after(background_after(background_after(background))),
        background_mode_of(background) == background_mode_of(other) ==> background == other,
{
}

/// One row of the summary: its label and its value.
pub open spec fn row(label: Seq<char>, value: Seq<char>) -> (Seq<char>, Seq<char>) {
    (label, value)
}

/// The display's capability in words: the parts that it reports.
pub open spec fn capability_text(
    peak: Option<Seq<char>>,
    headroom: Option<Seq<char>>,
) -> Seq<char> {
    match (peak, headroom) {
        (Some(peak), Some(headroom)) => "peak "@ + peak + " nits"@ + ", "@ + "headroom "@ + headroom
            + "x"@,
        (Some(peak), None) => "peak "@ + peak + " nits"@,
        (None, Some(headroom)) => "headroom "@ + headroom + "x"@,
        (None, None) => Seq::empty(),
    }
}

/// What the summary says of the output surface.
pub open spec fn surface_text(
    hdr_surface: bool,
    format: Seq<char>,
    color_space: Seq<char>,
) -> Seq<char> {
    (if hdr_surface {
        "HDR"@
    } else {
        "SDR"@
    }) + " selected ("@ + format + "/"@ + color_space + ")"@
}

/// What the summary says of who maps luminance.
pub open spec fn mapping_text(hdr_surface: bool, range: SourceDynamicRange) -> Seq<char> {
    if hdr_surface {
        "Compositor"@
    } else if range != SourceDynamicRange::Sdr {
        "Application tone mapping to SDR"@
    } else {
        "Not required"@
    }
}

/// What the summary of the surface is made of. Numbers of the display and of the
/// graphics library come in words.
#[derive(Clone, Copy, Debug)]
pub struct SurfaceSummary<'a> {
    pub hdr_surface: bool,
    pub format: &'a str,
    pub color_space: &'a str,
    pub peak_nits: Option<&'a str>,
    pub headroom: Option<&'a str>,
    pub dynamic_range: SourceDynamicRange,
    pub metadata_status: SignalStatus,
    pub exposure_stops: &'a str,
}

/// The text of an optional string.
pub open spec fn optional_text(value: Option<&str>) -> Option<Seq<char>> {
    match value {
        Some(value) => Some(value@),
        None => None,
    }
}

/// The rows of the summary: the output, the display where it reports anything,
/// the mapping, the metadata and the exposure.
pub open spec fn summary_rows(summary: SurfaceSummary) -> Seq<(Seq<char>, Seq<char>)> {
    let capability = capability_text(
        optional_text(summary.peak_nits),
        optional_text(summary.headroom),
    );
    let first = seq![
        row(
            "Output surface"@,
            surface_text(summary.hdr_surface, summary.format@, summary.color_space@),
        ),
    ];
    let display = if summary.peak_nits is Some || summary.headroom is Some {
        seq![row("Display capability"@, capability)]
    } else {
        Seq::empty()
    };
    first + display + seq![
        row("HDR mapping"@, mapping_text(summary.hdr_surface, summary.dynamic_range)),
        row(
            "HDR metadata"@,
            crate::hdr_metadata::status_summary(summary.metadata_status),
        ),
        row("Exposure"@, summary.exposure_stops@ + " stops"@),
    ]
}

/// The character sequences of rows.
pub open spec fn row_views(rows: Seq<(String, String)>) -> Seq<(Seq<char>, Seq<char>)> {
    rows.map_values(|row: (String, String)| (row.0@, row.1@))
}

/// Adds a row.
fn push_row(rows: &mut Vec<(String, String)>, label: &str, value: String)
    ensures
        row_views(final(rows)@) == row_views(old(rows)@).push((label@, value@)),
{
    let mut name = String::new();
    push_text(&mut name, label);
    assert(name@ =~= label@);
    rows.push((name, value));
    assert(row_views(rows@) =~= row_views(old(rows)@).push((label@, value@)));
}

/// A string of its own.
fn owned(text: &str) -> (copy: String)
    ensures
        copy@ == text@,
{
    let mut copy = String::new();
    push_text(&mut copy, text);
    assert(copy@ =~= text@);
    copy
}

/// The rows that summarize the surface in the overlay.
pub fn ui_summary_rows(summary: SurfaceSummary) -> (rows: Vec<(String, String)>)
    ensures
        row_views(rows@) == summary_rows(summary),
{
    let mut rows: Vec<(String, String)> = Vec::new();
    let mut surface = String::new();
    if summary.hdr_surface {
        push_text(&mut surface, "HDR");
    } else {
        push_text(&mut surface, "SDR");
    }
    push_text(&mut surface, " selected (");
    push_text(&mut surface, summary.format);
    push_text(&mut surface, "/");
    push_text(&mut surface, summary.color_space);
    push_text(&mut surface, ")");
    assert(surface@ =~= surface_text(summary.hdr_surface, summary.format@, summary.color_space@));
    push_row(&mut rows, "Output surface", surface);
    let mut capability = String::new();
    if let Some(peak) = summary.peak_nits {
        push_text(&mut capability, "peak ");
        push_text(&mut capability, peak);
        push_text(&mut capability, " nits");
        if summary.headroom.is_some() {
            push_text(&mut capability, ", ");
        }
    }
    if let Some(headroom) = summary.headroom {
        push_text(&mut capability, "headroom ");
        push_text(&mut capability, headroom);
        push_text(&mut capability, "x");
    }
    assert(capability@ =~= capability_text(
        optional_text(summary.peak_nits),
        optional_text(summary.headroom),
    ));
    if summary.peak_nits.is_some() || summary.headroom.is_some() {
        push_row(&mut rows, "Display capability", capability);
    }
    push_row(
        &mut rows,
        "HDR mapping",
        owned(hdr_mapping_summary(summary.hdr_surface, summary.dynamic_range)),
    );
    push_row(&mut rows, "HDR metadata", owned(summary.metadata_status.summary()));
    let mut exposure = String::new();
    push_text(&mut exposure, summary.exposure_stops);
    push_text(&mut exposure, " stops");
    assert(exposure@ =~= summary.exposure_stops@ + " stops"@);
    push_row(&mut rows, "Exposure", exposure);
    assert(row_views(rows@) =~= summary_rows(summary));
    rows
}

/// The parameters carry what they are made of: the view, the image's and the
/// window's size, the exposure, the source's range and peak, and where the overlay
/// stands. Without an image a single pixel stands for it, and without a view that
/// pixel is shown in the middle, as large as it is.
pub proof fn parameters_carry_what_is_shown(
    candidate: SurfaceCandidate,
    rendering_options: RenderingOptions,
    sdr_white_nits: Option<u32>,
    image_dimensions: Option<(u32, u32)>,
    source_range_code: u32,
    source_peak_nits: u32,
    viewport: (u32, u32),
    view: Option<ViewUniform>,
    diagnostics_pattern: bool,
    ui_centered: bool,
)
    ensures
        ({
            let parameters = parameters_for(
                candidate,
                rendering_options,
                sdr_white_nits,
                image_dimensions,
                source_range_code,
                source_peak_nits,
                viewport,
                view,
                diagnostics_pattern,
                ui_centered,
            );
            &&& view matches Some(shown) ==> (ViewUniform {
                center_x: parameters.view_center_x,
                center_y: parameters.view_center_y,
                scale: parameters.view_scale,
            }) == shown
            &&& view is None ==> parameters.view_center_x == 0x3f00_0000 && parameters.view_center_y
                == 0x3f00_0000 && parameters.view_scale == 0x3f80_0000
            &&& image_dimensions matches Some(size) ==> (
                parameters.image_width,
                parameters.image_height,
            ) == size
            &&& image_dimensions is None ==> (parameters.image_width, parameters.image_height) == (
                1u32,
                1u32,
            )
            &&& (parameters.viewport_width, parameters.viewport_height) == viewport
            &&& parameters.exposure_stops == rendering_options.exposure_stops
            &&& parameters.source_dynamic_range == source_range_code
            &&& parameters.source_peak_nits == source_peak_nits
            &&& parameters.hdr_reference_white_nits == HDR_REFERENCE_WHITE_NITS
            &&& parameters.center_ui == ui_centered
            &&& !parameters.tiled_image && !parameters.resampled_viewport
            &&& parameters.tile_columns == 0
            &&& parameters.tile_size == 512
            &&& parameters.tile_gutter == 8
        }),
{
}

/// The parameters say how the output encodes: sRGB is encoded exactly once, by the
/// shader or by the format, and only on an SDR surface; the encoding, its peak, the
/// brightness of text and the dither are those of the output; and the shader is
/// told whether it shows an image, which comes before the pattern, the pattern, or
/// neither.
pub proof fn parameters_follow_the_output(
    candidate: SurfaceCandidate,
    rendering_options: RenderingOptions,
    sdr_white_nits: Option<u32>,
    image_dimensions: Option<(u32, u32)>,
    source_range_code: u32,
    source_peak_nits: u32,
    viewport: (u32, u32),
    view: Option<ViewUniform>,
    diagnostics_pattern: bool,
    ui_centered: bool,
)
    ensures
        ({
            let parameters = parameters_for(
                candidate,
                rendering_options,
                sdr_white_nits,
                image_dimensions,
                source_range_code,
                source_peak_nits,
                viewport,
                view,
                diagnostics_pattern,
                ui_centered,
            );
            &&& candidate.color_space == SurfaceColorSpace::Srgb ==> parameters.encode_srgb
                != candidate.format.encodes_srgb()
            &&& candidate.color_space != SurfaceColorSpace::Srgb ==> !parameters.encode_srgb
            &&& parameters.mode == output::shader_mode_of(candidate.color_space)
            &&& parameters.dither_bits == output::quantization_of(candidate.format)
            &&& parameters.output_peak_nits == output::output_peak_of(
                candidate.color_space,
                sdr_white_nits,
            )
            &&& parameters.ui_white_nits == output::white_of(sdr_white_nits)
            &&& parameters.background_mode == background_mode_of(rendering_options.background)
            &&& parameters.content_mode == 2 <==> image_dimensions is Some
            &&& parameters.content_mode == 1 <==> image_dimensions is None && diagnostics_pattern
            &&& parameters.content_mode == 0 <==> image_dimensions is None && !diagnostics_pattern
        }),
{
}

/// Different views never give the same parameters, nor do images or windows of
/// different sizes.
pub proof fn views_are_told_apart(
    candidate: SurfaceCandidate,
    rendering_options: RenderingOptions,
    sdr_white_nits: Option<u32>,
    source_range_code: u32,
    source_peak_nits: u32,
    diagnostics_pattern: bool,
    ui_centered: bool,
    images: ((u32, u32), (u32, u32)),
    viewports: ((u32, u32), (u32, u32)),
    views: (ViewUniform, ViewUniform),
)
    requires
        parameters_for(
            candidate,
            rendering_options,
            sdr_white_nits,
            Some(images.0),
            source_range_code,
            source_peak_nits,
            viewports.0,
            Some(views.0),
            diagnostics_pattern,
            ui_centered,
        ) == parameters_for(
            candidate,
            rendering_options,
            sdr_white_nits,
            Some(images.1),
            source_range_code,
            source_peak_nits,
            viewports.1,
            Some(views.1),
            diagnostics_pattern,
            ui_centered,
        ),
    ensures
        images.0 == images.1,
        viewports.0 == viewports.1,
        views.0 == views.1,
{
}

/// Backgrounds follow each other from black over middle gray and white to the
/// checkerboard, and have the numbers that the shader knows them by.
pub proof fn backgrounds_get_lighter(background: BackgroundMode)
    ensures
        background_after(BackgroundMode::Black) == BackgroundMode::MiddleGray,
        background_after(BackgroundMode::MiddleGray) == BackgroundMode::White,
        background_after(BackgroundMode::White) == BackgroundMode::Checkerboard,
        background_after(BackgroundMode::Checkerboard) == BackgroundMode::Black,
        background_mode_of(background) < 4,
        background_mode_of(BackgroundMode::Black) < background_mode_of(
            BackgroundMode::Checkerboard,
        ) < background_mode_of(BackgroundMode::White) < background_mode_of(
            BackgroundMode::MiddleGray,
        ),
{
}

/// A viewport gets the memory of its texture, all of it or none. Memory is required
/// exactly where a view is shown at another scale than one to one, in a window
/// that has pixels and that a texture can hold; it is reserved where it is
/// available, and else the shortage is told.
pub proof fn reservations_hold_the_whole_viewport(
    viewport: (u32, u32),
    scale: Option<u64>,
    maximum_texture_dimension: u32,
    available: u64,
)
    ensures
        ({
            let reservation = reservation_for(
                viewport,
                scale,
                maximum_texture_dimension,
                available,
            );
            let required = mip::texture_budget(viewport.0 as int, viewport.1 as int, 1, 1);
            let resampled = scale is Some && 0 < scale->0 < 0x7ff0_0000_0000_0000 && scale->0
                != 0x3ff0_0000_0000_0000 && 0 < viewport.0 <= maximum_texture_dimension && 0
                < viewport.1 <= maximum_texture_dimension;
            &&& !resampled <==> reservation is NotRequired
            &&& reservation matches ResamplingReservation::Reserved(bytes) ==> bytes == required
                && required <= available
            &&& reservation matches ResamplingReservation::Insufficient {
                required: needed,
                available: left,
            } ==> needed == required && left == available && required > available
            &&& reservation is Reserved ==> reservation.reserved() >= numeric::saturated(
                viewport.0 * 8 * viewport.1,
            )
        }),
{
    if viewport.0 > 0 && viewport.1 > 0 {
        mip::budget_covers_the_texture(viewport.0 as int, viewport.1 as int, 1, 1);
    }
}

/// An image is charged for its own textures, and for the resampled viewport only
/// while that is shown.
pub proof fn images_are_charged_for_what_they_show(base: u64, resampler: ViewportResampler)
    ensures
        resampler.lifecycle.shown() is None ==> image_charge(base, resampler) == base,
        resampler.lifecycle.shown() matches Some(request) ==> {
            let viewport = mip::texture_budget(
                request.target.width as int,
                request.target.height as int,
                1,
                1,
            );
            base + viewport <= u64::MAX ==> image_charge(base, resampler) == base + viewport
        },
{
}

/// The budget is spent on the coarse preview first, then on the resampled viewport
/// of the view, and the tiles get all that is left, but no more than the image or
/// the window have use for.
pub proof fn the_budget_is_spent_in_order(
    request: ImageMemoryRequest,
    plan: ImageMemoryPlan,
    more: int,
)
    requires
        is_memory_plan(request, plan),
        plan.tile_capacity < more,
        more <= request.tile_columns * request.tile_rows,
        more <= tiles::working_set_tiles(request.viewport.0 as int, request.viewport.1 as int),
        more <= request.maximum_array_layers,
    ensures
        plan.coarse_gpu_bytes + plan.resampling_gpu_bytes + plan.tile_gpu_bytes
            == request.gpu_memory_limit_bytes,
        plan.coarse_gpu_bytes + plan.resampling_gpu_bytes + tiles::tile_array_budget(more)
            > request.gpu_memory_limit_bytes,
        plan.tile_capacity <= request.tile_columns * request.tile_rows,
        plan.tile_capacity <= request.maximum_array_layers,
{
}

/// A device failure is told with what the graphics library says of it, and advises what
/// to do where something can be done.
pub proof fn failures_tell_their_reason(reason: String, message: String)
    ensures
        ({
            let lost = gpu_failure_text(GpuFailure::DeviceLost { reason, message });
            &&& text::mentions(lost, reason@)
            &&& text::mentions(lost, message@)
            &&& text::mentions(lost, "; restart xl-view"@)
        }),
        text::mentions(gpu_failure_text(GpuFailure::Internal(message)), message@),
        text::mentions(gpu_failure_text(GpuFailure::Validation(message)), message@),
        gpu_failure_text(GpuFailure::Internal(message)) != gpu_failure_text(
            GpuFailure::Validation(message),
        ),
{
    reveal_strlit("); restart xl-view");
    reveal_strlit("; restart xl-view");
    reveal_strlit(")");
    reveal_strlit("an internal GPU error occurred: ");
    reveal_strlit("the GPU rejected a rendering operation: ");
    let none = Seq::<char>::empty();
    let start = "the GPU device was lost ("@;
    let advice = "; restart xl-view"@;
    assert("); restart xl-view"@ =~= ")"@ + advice);
    text::lemma_appended(start, reason@);
    if message@.len() == 0 {
        let told = start + reason@;
        text::lemma_grouped(told, ")"@, advice, none);
        text::lemma_appended(told, ")"@);
        text::lemma_appended(told + ")"@, advice);
        let lost = gpu_failure_text(GpuFailure::DeviceLost { reason, message });
        assert(lost == told + ")"@ + advice);
        assert(lost.subrange(0, 0int + message@.len()) =~= message@);
    } else {
        let told = start + reason@ + "): "@;
        text::lemma_appended(start + reason@, "): "@);
        text::lemma_appended(told, message@);
        text::lemma_appended(told + message@, advice);
    }
    let internal = gpu_failure_text(GpuFailure::Internal(message));
    let rejected = gpu_failure_text(GpuFailure::Validation(message));
    text::lemma_appended("an internal GPU error occurred: "@, message@);
    text::lemma_appended("the GPU rejected a rendering operation: "@, message@);
    assert(internal[0] == 'a');
    assert(rejected[0] == 't');
}

/// Different failures are reported under different categories.
pub proof fn failure_categories_are_told_apart(
    reason: String,
    message: String,
    internal: String,
    rejected: String,
)
    ensures
        ({
            let lost = gpu_failure_category(GpuFailure::DeviceLost { reason, message });
            let memory = gpu_failure_category(GpuFailure::OutOfMemory);
            let inner = gpu_failure_category(GpuFailure::Internal(internal));
            let invalid = gpu_failure_category(GpuFailure::Validation(rejected));
            &&& lost != memory && lost != inner && lost != invalid
            &&& memory != inner && memory != invalid && inner != invalid
        }),
{
    reveal_strlit("gpu_device_lost");
    reveal_strlit("gpu_out_of_memory");
    reveal_strlit("gpu_internal");
    reveal_strlit("gpu_validation");
    assert("gpu_device_lost"@.len() == 15);
    assert("gpu_out_of_memory"@.len() == 17);
    assert("gpu_internal"@.len() == 12);
    assert("gpu_validation"@.len() == 14);
}

/// An image whose preview is too large is told with the limit, in whole MiB, and with
/// what the preview takes, in that order.
pub proof fn memory_errors_tell_limit_and_need(limit_bytes: u64, coarse_bytes: u64)
    ensures
        ({
            let told = image_memory_error_text(
                ImageMemoryError::CoarsePreview { limit_bytes, coarse_bytes },
            );
            &&& text::mentions(
                told,
                text::decimal((limit_bytes / 1048576) as nat) + " MiB GPU memory budget"@,
            )
            &&& text::mentions(
                told,
                text::two_fraction_digits(resampler::mib_hundredths(coarse_bytes as nat))
                    + " MiB coarse image preview"@,
            )
        }),
{
    reveal_strlit(" MiB GPU memory budget cannot hold the ");
    reveal_strlit(" MiB GPU memory budget");
    reveal_strlit(" cannot hold the ");
    let none = Seq::<char>::empty();
    let limit = text::decimal((limit_bytes / MIB_BYTES) as nat);
    let need = text::two_fraction_digits(resampler::mib_hundredths(coarse_bytes as nat));
    let budget = limit + " MiB GPU memory budget"@;
    let preview = need + " MiB coarse image preview"@;
    let start = "the "@ + budget + " cannot hold the "@;
    assert(" MiB GPU memory budget cannot hold the "@ =~= " MiB GPU memory budget"@
        + " cannot hold the "@);
    text::lemma_grouped("the "@, limit, " MiB GPU memory budget"@, none);
    text::lemma_grouped("the "@ + limit, " MiB GPU memory budget"@, " cannot hold the "@, none);
    text::lemma_grouped(start, need, " MiB coarse image preview"@, none);
    text::lemma_appended("the "@, budget);
    text::lemma_appended("the "@ + budget, " cannot hold the "@);
    text::lemma_appended(start, preview);
}

/// The summary of a surface has a row for the output, which says whether it is HDR, one
/// for the display where it reports anything, and one each for the mapping, the
/// metadata and the exposure, in this order.
pub proof fn summaries_tell_the_output(summary: SurfaceSummary)
    ensures
        ({
            let rows = summary_rows(summary);
            let reported = summary.peak_nits is Some || summary.headroom is Some;
            let last = rows.len() - 1;
            &&& rows.len() == (if reported {
                5nat
            } else {
                4nat
            })
            &&& rows[0].0 == "Output surface"@
            &&& rows[0].1 == surface_text(
                summary.hdr_surface,
                summary.format@,
                summary.color_space@,
            )
            &&& reported ==> rows[1].0 == "Display capability"@
            &&& summary.peak_nits matches Some(peak) ==> text::mentions(
                rows[1].1,
                "peak "@ + peak@ + " nits"@,
            )
            &&& summary.headroom matches Some(headroom) ==> text::mentions(
                rows[1].1,
                "headroom "@ + headroom@ + "x"@,
            )
            &&& rows[last - 2].0 == "HDR mapping"@
            &&& rows[last - 1].0 == "HDR metadata"@
            &&& rows[last].0 == "Exposure"@
            &&& text::mentions(rows[last].1, summary.exposure_stops@)
        }),
        text::mentions(surface_text(true, summary.format@, summary.color_space@), "HDR"@),
        text::mentions(surface_text(false, summary.format@, summary.color_space@), "SDR"@),
        text::mentions(
            surface_text(summary.hdr_surface, summary.format@, summary.color_space@),
            summary.format@ + "/"@ + summary.color_space@,
        ),
{
    let none = Seq::<char>::empty();
    text::lemma_appended(none, summary.exposure_stops@);
    assert(none + summary.exposure_stops@ =~= summary.exposure_stops@);
    text::lemma_appended(summary.exposure_stops@, " stops"@);
    if let Some(peak) = summary.peak_nits {
        let first = "peak "@ + peak@ + " nits"@;
        text::lemma_appended(none, first);
        assert(none + first =~= first);
        text::lemma_appended(first, ", "@);
        if let Some(headroom) = summary.headroom {
            let second = "headroom "@ + headroom@ + "x"@;
            text::lemma_grouped(first + ", "@, "headroom "@, headroom@, "x"@);
            text::lemma_appended(first + ", "@, second);
        }
    } else if let Some(headroom) = summary.headroom {
        let second = "headroom "@ + headroom@ + "x"@;
        text::lemma_appended(none, second);
        assert(none + second =~= second);
    }
    let pair = summary.format@ + "/"@ + summary.color_space@;
    text::lemma_appended(none, "HDR"@);
    text::lemma_appended(none, "SDR"@);
    assert(none + "HDR"@ =~= "HDR"@);
    assert(none + "SDR"@ =~= "SDR"@);
    text::lemma_told_pair("HDR"@, summary.format@, summary.color_space@);
    text::lemma_told_pair("SDR"@, summary.format@, summary.color_space@);
}

/// What cannot be started is told with what the graphics library says of it, and a
/// missing backend with advice.
pub proof fn initialization_errors_tell_their_source(message: &'static str, source: String)
    ensures
        text::mentions(
            initialization_error_text(
                GpuInitializationError::BackendUnavailable { message, source },
            ),
            source@,
        ),
        text::mentions(
            initialization_error_text(
                GpuInitializationError::BackendUnavailable { message, source },
            ),
            message@,
        ),
        text::mentions(
            initialization_error_text(GpuInitializationError::SurfaceCreation(source)),
            source@,
        ),
        text::mentions(
            initialization_error_text(GpuInitializationError::DeviceCreation(source)),
            source@,
        ),
{
    let none = Seq::<char>::empty();
    text::lemma_appended(none, message@);
    assert(none + message@ =~= message@);
    text::lemma_appended(message@, " ("@);
    text::lemma_appended(message@ + " ("@, source@);
    text::lemma_appended(message@ + " ("@ + source@, ")"@);
    text::lemma_appended("failed to create the GPU presentation surface: "@, source@);
    text::lemma_appended("failed to create the GPU device: "@, source@);
}

/// HDR is unavailable exactly where none of its encodings can be used.
pub proof fn hdr_is_available_with_any_encoding(
    capabilities: Seq<output::SurfaceFormatCapabilities>,
    color_space: SurfaceColorSpace,
)
    requires
        color_space == SurfaceColorSpace::Bt2100Pq || color_space == SurfaceColorSpace::Bt2100Hlg
            || color_space == SurfaceColorSpace::ExtendedSrgbLinear,
    ensures
        !output::is_unusable(capabilities, color_space) ==> !hdr_unavailable(capabilities),
        output::is_unusable(capabilities, SurfaceColorSpace::Bt2100Pq) && output::is_unusable(
            capabilities,
            SurfaceColorSpace::Bt2100Hlg,
        ) && output::is_unusable(capabilities, SurfaceColorSpace::ExtendedSrgbLinear)
            ==> hdr_unavailable(capabilities),
{
}

/// The preview is charged as one texture with its mip levels, and uploads through the
/// staging memory of its size or of a tile, whichever is larger.
pub proof fn previews_are_charged_with_their_levels(
    request: ImageMemoryRequest,
    plan: ImageMemoryPlan,
)
    requires
        is_memory_plan(request, plan),
    ensures
        plan.coarse_gpu_bytes == mip::texture_budget(
            request.coarse_width as int,
            request.coarse_height as int,
            plan.coarse_mip_levels as int,
            1,
        ),
        plan.base_gpu_budget_bytes == plan.coarse_gpu_bytes + mip::texture_budget(
            528,
            528,
            10,
            plan.tile_capacity as int,
        ),
        plan.upload_staging_buffer_bytes >= staging_bytes_of(
            request.coarse_width,
            request.coarse_height,
        ),
        plan.upload_staging_buffer_bytes >= staging_bytes_of(528, 528),
        plan.upload_staging_buffer_bytes == staging_bytes_of(
            request.coarse_width,
            request.coarse_height,
        ) || plan.upload_staging_buffer_bytes == staging_bytes_of(528, 528),
        plan.reservation is Insufficient || plan.reservation is NotRequired
            ==> plan.resampling_gpu_bytes == 0,
        staging_bytes_of(0, request.coarse_height) == 0,
        staging_bytes_of(request.coarse_width, 0) == 0,
{
}

/// Luminance is mapped by the compositor on an HDR surface, by the application where an
/// HDR source is shown on an SDR surface, and by nobody where neither is HDR.
pub proof fn mapping_is_told(range: SourceDynamicRange)
    ensures
        mapping_text(true, range) == "Compositor"@,
        range != SourceDynamicRange::Sdr ==> mapping_text(false, range)
            == "Application tone mapping to SDR"@,
        mapping_text(false, SourceDynamicRange::Sdr) == "Not required"@,
{
}

} // verus!
