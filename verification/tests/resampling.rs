use std::cell::Cell;
use std::collections::HashMap;

use xl_view::resampler::{
    ResamplerLifecycle, ResamplerPhase, ResamplingEvent, ResamplingJob, ResamplingUpdate,
    ResamplingWorkerState, ViewportRequest, ViewportResampler, ViewportTarget, WorkerPoll,
    panic_payload_message, required_resampling_gpu_bytes, resampling_target,
};
use xl_view::resampling::{
    AxisBound, AxisBuilder, BufferAllocation, CANONICAL_BYTES_PER_PIXEL, MAX_FINITE_HALF,
    ResampleAction, ResampleError, ResampleFailure, ResampleRun, RowSchedule, allocated_bytes,
    axis_inputs_are_invalid, contribution_source_range, horizontal_window, is_monotone, plan_axis,
    plan_resampling, plan_rows, resampled_row_range, resampling_row_batch_capacity,
    row_batch_capacity, sanitize_alpha, sanitize_pixel, sanitize_resampled_color,
    validate_weight_sum,
};
use xl_view::upload::encode_rgba16f_row;

type RgbaF32 = [f32; 4];

#[derive(Debug, Default)]
struct Axis {
    bounds: Vec<AxisBound>,
    weights: Vec<f32>,
}

#[derive(Debug, Clone, Copy)]
struct View {
    target: ViewportTarget,
    center_x: f64,
    center_y: f64,
    scale: f64,
}

impl View {
    fn request(self) -> ViewportRequest {
        ViewportRequest::new(
            self.target,
            self.center_x.to_bits(),
            self.center_y.to_bits(),
            self.scale.to_bits(),
        )
        .unwrap()
    }
}

#[derive(Debug, Default)]
struct Scratch {
    output: Vec<u8>,
    upload_staging: Vec<u8>,
    source_rows: Vec<RgbaF32>,
    horizontal_rows: Vec<RgbaF32>,
    free_row_buffers: Vec<Vec<RgbaF32>>,
}

impl Scratch {
    fn allocated_bytes(&self) -> usize {
        let pixel = std::mem::size_of::<RgbaF32>();
        let mut buffers = vec![
            BufferAllocation { capacity: self.output.capacity(), element_bytes: 1 },
            BufferAllocation { capacity: self.upload_staging.capacity(), element_bytes: 1 },
            BufferAllocation { capacity: self.source_rows.capacity(), element_bytes: pixel },
            BufferAllocation { capacity: self.horizontal_rows.capacity(), element_bytes: pixel },
            BufferAllocation {
                capacity: self.free_row_buffers.capacity(),
                element_bytes: std::mem::size_of::<Vec<RgbaF32>>(),
            },
        ];
        for row in &self.free_row_buffers {
            buffers.push(BufferAllocation { capacity: row.capacity(), element_bytes: pixel });
        }
        allocated_bytes(&buffers)
    }
}

fn lanczos2(value: f64) -> f64 {
    let value = value.abs();
    if value >= 2.0 {
        return 0.0;
    }
    if value < f64::EPSILON {
        return 1.0;
    }
    let pi_value = std::f64::consts::PI * value;
    (pi_value.sin() / pi_value) * ((pi_value * 0.5).sin() / (pi_value * 0.5))
}

fn build_axis(
    source_size: u32,
    target_size: u32,
    view_center: f64,
    view_scale: f64,
    is_cancelled: &mut dyn FnMut() -> bool,
) -> Result<Axis, ResampleError> {
    let source_per_target = 1.0 / view_scale;
    let filter_scale = source_per_target.max(1.0);
    let radius = 2.0 * filter_scale;
    plan_axis(
        source_size,
        target_size,
        view_center.to_bits(),
        view_scale.to_bits(),
        radius.ceil() as usize,
    )
    .map_err(ResampleError::Failed)?;
    let mut weights: Vec<f32> = Vec::new();
    let mut builder = AxisBuilder::new(source_size, target_size, Vec::new());
    while let Some(target) = builder.next_target() {
        if builder.checks_cancellation() && is_cancelled() {
            return Err(ResampleError::Cancelled);
        }
        let source_center = view_center
            + (f64::from(target) + 0.5 - f64::from(target_size) * 0.5) * source_per_target;
        if source_center < 0.0 || source_center > f64::from(source_size) {
            builder.push_outside();
            continue;
        }
        let first = (source_center - radius).floor().max(0.0) as u32;
        let end = (source_center + radius).ceil().min(f64::from(source_size)) as u32;
        let start = weights.len();
        let mut sum = 0.0_f64;
        for source in first..end {
            let weight = lanczos2((f64::from(source) + 0.5 - source_center) / filter_scale);
            weights.push(weight as f32);
            sum += weight;
        }
        builder.push_window(first, end, sum.to_bits()).map_err(ResampleError::Failed)?;
        for weight in &mut weights[start..] {
            *weight = (f64::from(*weight) / sum) as f32;
        }
    }
    Ok(Axis { bounds: builder.bounds, weights })
}

fn encode_row(samples: &[RgbaF32], destination: &mut [u8]) {
    let halves: Vec<u16> = samples
        .iter()
        .flat_map(|rgba| sanitize_pixel(rgba.map(f32::to_bits)))
        .map(|bits| half::f16::from_f32(f32::from_bits(bits)).to_bits())
        .collect();
    encode_rgba16f_row(&halves, destination);
}

fn resample_rows(
    dimensions: (u32, u32),
    view: View,
    scratch: &mut Scratch,
    is_cancelled: &mut dyn FnMut() -> bool,
    read_source_row: &dyn Fn(u32, u32, &mut [RgbaF32]),
) -> Result<usize, ResampleError> {
    let target = view.target;
    let horizontal =
        build_axis(dimensions.0, target.width, view.center_x, view.scale, is_cancelled)?;
    let vertical =
        build_axis(dimensions.1, target.height, view.center_y, view.scale, is_cancelled)?;
    if is_cancelled() {
        return Err(ResampleError::Cancelled);
    }
    let plan = plan_resampling(&horizontal.bounds, &vertical.bounds, target)
        .map_err(ResampleError::Failed)?;
    scratch.source_rows.resize(plan.source_batch_pixels, RgbaF32::default());
    scratch.horizontal_rows.resize(plan.horizontal_batch_pixels, RgbaF32::default());
    scratch.output.clear();
    scratch.output.resize(plan.output_bytes, 0);
    let mut active: HashMap<u32, Vec<RgbaF32>> = HashMap::new();
    assert!(is_monotone(&vertical.bounds));
    let mut run = ResampleRun::new(plan, &vertical.bounds);
    loop {
        let cancelled = run.checks_cancellation() && is_cancelled();
        match run.step(&vertical.bounds, cancelled) {
            ResampleAction::ReadBatch { first_row, row_count } => {
                for row in 0..row_count {
                    let horizontal_row = &mut scratch.horizontal_rows
                        [row * plan.target_row_pixels..(row + 1) * plan.target_row_pixels];
                    if plan.source_row_pixels == 0 {
                        horizontal_row.fill(RgbaF32::default());
                        continue;
                    }
                    let source_row = &mut scratch.source_rows
                        [row * plan.source_row_pixels..(row + 1) * plan.source_row_pixels];
                    read_source_row(
                        first_row + u32::try_from(row).unwrap(),
                        plan.source_x_start,
                        source_row,
                    );
                    for (sum, bound) in horizontal_row.iter_mut().zip(&horizontal.bounds) {
                        *sum = RgbaF32::default();
                        let (pixels, weights) = horizontal_window(*bound, plan.source_x_start);
                        for (pixel, weight) in
                            source_row[pixels].iter().zip(&horizontal.weights[weights])
                        {
                            for channel in 0..4 {
                                sum[channel] += pixel[channel] * weight;
                            }
                        }
                    }
                }
            }
            ResampleAction::AddRow { batch_row, step } => {
                for target_y in step.activated {
                    let mut samples = scratch.free_row_buffers.pop().unwrap_or_default();
                    samples.clear();
                    samples.resize(plan.target_row_pixels, RgbaF32::default());
                    active.insert(target_y, samples);
                }
                let row = &scratch.horizontal_rows
                    [batch_row * plan.target_row_pixels..(batch_row + 1) * plan.target_row_pixels];
                for share in step.contributions {
                    let weight = vertical.weights[share.weight_index];
                    let samples = active.get_mut(&share.target_y).unwrap();
                    for (sum, sample) in samples.iter_mut().zip(row) {
                        for channel in 0..4 {
                            sum[channel] += sample[channel] * weight;
                        }
                    }
                }
                for target_y in step.completed {
                    let samples = active.remove(&target_y).unwrap();
                    let range = resampled_row_range(target, target_y);
                    encode_row(&samples, &mut scratch.output[range]);
                    scratch.free_row_buffers.push(samples);
                }
            }
            ResampleAction::Done { source_bytes } => return Ok(source_bytes),
            ResampleAction::Stop(error) => return Err(error),
        }
    }
}

fn resample_test_pixels(
    dimensions: (u32, u32),
    source: &[f32],
    view: View,
) -> Result<Vec<[f32; 4]>, ResampleError> {
    let mut scratch = Scratch::default();
    resample_rows(dimensions, view, &mut scratch, &mut || false, &reader(dimensions, source))?;
    Ok(scratch
        .output
        .chunks_exact(CANONICAL_BYTES_PER_PIXEL)
        .map(|rgba| {
            std::array::from_fn(|channel| {
                let start = channel * 2;
                half::f16::from_le_bytes([rgba[start], rgba[start + 1]]).to_f32()
            })
        })
        .collect())
}

fn reader(dimensions: (u32, u32), source: &[f32]) -> impl Fn(u32, u32, &mut [RgbaF32]) + '_ {
    move |row, source_x, destination| {
        let start = (row as usize * dimensions.0 as usize + source_x as usize) * 4;
        for (pixel, samples) in destination.iter_mut().zip(source[start..].chunks_exact(4)) {
            pixel.copy_from_slice(samples);
        }
    }
}

fn centered_view(source: (u32, u32), target: (u32, u32), scale: f64) -> View {
    View {
        target: ViewportTarget { width: target.0, height: target.1 },
        center_x: f64::from(source.0) * 0.5,
        center_y: f64::from(source.1) * 0.5,
        scale,
    }
}

fn scalar_resampled_row_encoding(samples: &[RgbaF32]) -> Vec<u8> {
    let mut encoded = Vec::new();
    for rgba in samples {
        let alpha = if rgba[3].is_finite() { rgba[3].clamp(0.0, 1.0) } else { 0.0 };
        for channel in 0..3 {
            let value = if alpha == 0.0 || !rgba[channel].is_finite() {
                0.0
            } else {
                rgba[channel].clamp(-65_504.0, 65_504.0)
            };
            encoded.extend_from_slice(&half::f16::from_f32(value).to_bits().to_le_bytes());
        }
        encoded.extend_from_slice(&half::f16::from_f32(alpha).to_bits().to_le_bytes());
    }
    encoded
}

fn available_test_lifecycle() -> ResamplerLifecycle {
    ResamplerLifecycle::Available { generation: 0, phase: ResamplerPhase::Inactive }
}

#[test]
fn lifecycle_tracks_pending_active_and_unavailable_states() {
    let mut worker = ResamplingWorkerState::new();
    let request = centered_view((100, 100), (40, 30), 0.5).request();
    let mut lifecycle = available_test_lifecycle();
    let job = ResamplingJob { generation: 1, view: request, deadline: 0 };

    assert!(!lifecycle.replace_request(&mut worker, Some(request), 0));
    assert_eq!(lifecycle.desired(), Some(request));
    assert!(lifecycle.is_current(job));
    assert!(!lifecycle.is_active());
    assert!(lifecycle.active_target().is_none());

    lifecycle.mark_ready(request);
    assert!(!lifecycle.is_current(job));
    assert!(lifecycle.is_active());
    assert_eq!(lifecycle.active_target(), Some(request.target));

    assert!(lifecycle.replace_request(&mut worker, Some(request), 0));
    assert!(!lifecycle.is_active());
    assert!(lifecycle.active_target().is_none());
    lifecycle.mark_failed();
    assert!(!lifecycle.is_active());
    assert!(lifecycle.desired().is_none());
    assert!(lifecycle.active_target().is_none());

    assert!(!lifecycle.replace_request(&mut worker, Some(request), 0));
    assert!(!lifecycle.is_active());
    assert!(lifecycle.active_target().is_none());

    assert!(!lifecycle.disconnect());
    assert!(!lifecycle.worker_available());
    assert!(lifecycle.desired().is_none());
    assert!(lifecycle.active_target().is_none());

    let mut lifecycle = available_test_lifecycle();
    assert!(!lifecycle.replace_request(&mut worker, Some(request), 0));
    lifecycle.mark_ready(request);
    assert!(lifecycle.disconnect());
    assert!(!lifecycle.worker_available());
    assert!(lifecycle.active_target().is_none());
}

#[test]
fn viewport_request_rejects_invalid_floating_point_inputs() {
    let target = ViewportTarget { width: 40, height: 30 };
    let request = |x: f64, y: f64, scale: f64| {
        ViewportRequest::new(target, x.to_bits(), y.to_bits(), scale.to_bits())
    };
    assert!(request(50.0, 50.0, 0.5).is_some());
    for (center_x, center_y) in [
        (f64::NAN, 50.0),
        (50.0, f64::NAN),
        (f64::INFINITY, 50.0),
        (50.0, f64::NEG_INFINITY),
    ] {
        assert!(request(center_x, center_y, 0.5).is_none());
    }
    for scale in [f64::NAN, f64::INFINITY, f64::NEG_INFINITY, 0.0, -0.5] {
        assert!(request(50.0, 50.0, scale).is_none());
    }
}

#[test]
fn scratch_peak_preserves_the_largest_observation() {
    let mut state = ResamplingWorkerState::new();
    state.record_scratch_peak(1_024);
    state.record_scratch_peak(512);
    assert_eq!(state.scratch_peak_bytes, 1_024);
}

/// The text of a panic payload, if it is one.
fn panic_text(payload: &dyn std::any::Any) -> Option<&str> {
    match payload.downcast_ref::<&'static str>() {
        Some(text) => Some(text),
        None => payload.downcast_ref::<String>().map(String::as_str),
    }
}

#[test]
fn worker_panic_payloads_have_readable_messages() {
    assert_eq!(panic_payload_message(panic_text(&"borrowed message")), "borrowed message");
    assert_eq!(panic_payload_message(panic_text(&"owned message".to_owned())), "owned message");
    assert_eq!(panic_payload_message(panic_text(&42_u8)), "non-string panic payload");
}

#[test]
fn deadlines_lie_after_every_time() {
    let view = centered_view((100, 100), (20, 20), 0.5).request();
    let mut state = ResamplingWorkerState::new();
    state.replace(1, Some(view), u64::MAX);
    let waiting = match state.poll(None, u64::MAX) {
        WorkerPoll::Debounce { job, timeout } => {
            assert_eq!(timeout, 50_000_000);
            job
        }
        other => panic!("{other:?}"),
    };
    assert_eq!(waiting.deadline, u128::from(u64::MAX) + 50_000_000);
    state.replace(2, None, u64::MAX);
    assert_eq!(state.poll(Some(waiting), u64::MAX), WorkerPoll::Idle);
}

#[test]
fn superseded_requests_wait_for_the_latest_deadline() {
    let first = centered_view((100, 100), (20, 20), 0.5).request();
    let latest = centered_view((100, 100), (30, 20), 0.75).request();
    let mut state = ResamplingWorkerState::new();
    state.replace(1, Some(first), 0);
    let job = ResamplingJob { generation: 1, view: first, deadline: 50_000_000 };
    assert_eq!(
        state.poll(None, 49_999_999),
        WorkerPoll::Debounce { job, timeout: 1 }
    );
    state.replace(2, Some(latest), 49_999_999);
    let latest_job = ResamplingJob { generation: 2, view: latest, deadline: 99_999_999 };
    assert_eq!(
        state.poll(Some(job), 50_000_000),
        WorkerPoll::Debounce { job: latest_job, timeout: 49_999_999 }
    );
    let mut stopped = state;
    assert_eq!(state.poll(Some(latest_job), 99_999_999), WorkerPoll::Run(latest_job));
    stopped.shut_down();
    assert_eq!(stopped.poll(Some(latest_job), 99_999_999), WorkerPoll::Shutdown);
}

#[test]
fn results_of_earlier_requests_stay_outdated() {
    let mut worker = ResamplingWorkerState::new();
    let request = centered_view((100, 100), (40, 30), 0.5).request();
    let mut lifecycle = ResamplerLifecycle::Available {
        generation: u64::MAX,
        phase: ResamplerPhase::Inactive,
    };
    lifecycle.replace_request(&mut worker, Some(request), 7);
    let job = ResamplingJob { generation: 0, view: request, deadline: 50_000_007 };
    assert_eq!(worker.pending, Some(job));
    assert!(lifecycle.is_current(job));
    lifecycle.replace_request(&mut worker, Some(request), 8);
    assert!(!lifecycle.is_current(job));
    lifecycle.mark_failed();
    assert!(!lifecycle.is_current(job));
    lifecycle.replace_request(&mut worker, Some(request), 9);
    assert!(!lifecycle.is_current(job));
    lifecycle.disconnect();
    assert!(!lifecycle.is_current(job));
    assert!(!lifecycle.replace_request(&mut worker, Some(request), u64::MAX));
    assert_eq!(lifecycle, ResamplerLifecycle::Unavailable);
}

#[test]
fn debounced_worker_uses_only_the_latest_request() {
    let mut state = ResamplingWorkerState::new();
    let first = centered_view((100, 100), (20, 20), 0.5).request();
    let latest = centered_view((100, 100), (30, 20), 0.75).request();
    state.replace(1, Some(first), 0);
    let waiting = match state.poll(None, 0) {
        WorkerPoll::Debounce { job, timeout } => {
            assert_eq!(timeout, 50_000_000);
            job
        }
        other => panic!("{other:?}"),
    };
    state.replace(2, Some(latest), 10);
    let waiting = match state.poll(Some(waiting), 60_000_000) {
        WorkerPoll::Run(job) => job,
        other => panic!("{other:?}"),
    };
    assert_eq!(waiting.generation, 2);
    assert_eq!(waiting.view, latest);
    assert!(state.job_is_current(2));
    assert!(!state.job_is_current(1));
}

#[test]
fn waiting_resampling_worker_stops_on_shutdown() {
    let mut state = ResamplingWorkerState::new();
    assert!(matches!(state.poll(None, 0), WorkerPoll::Idle));
    state.shut_down();
    assert!(matches!(state.poll(None, 0), WorkerPoll::Shutdown));
    assert!(!state.job_is_current(0));
}

#[test]
fn viewport_resampler_rejects_stale_results_and_handles_failures() {
    let mut worker = ResamplingWorkerState::new();
    let mut resampler = ViewportResampler::active(64 * 1024 * 1024, true);
    let view = Some((50.0_f64.to_bits(), 50.0_f64.to_bits(), 0.5_f64.to_bits()));
    assert!(!resampler.request_view(&mut worker, (50, 50), view, 16_384, 0));
    assert_eq!(resampler.requests, 1);
    assert!(!resampler.request_view(&mut worker, (50, 50), view, 16_384, 0));
    assert_eq!(resampler.requests, 1);
    let (generation, request) = resampler.lifecycle.current_request().unwrap();
    let stale =
        ResamplingJob { generation: generation.wrapping_sub(1), view: request, deadline: 0 };
    let current = ResamplingJob { generation, view: request, deadline: 0 };
    let update = resampler.apply_event(ResamplingEvent::Ready { job: stale, source_bytes: 4 });
    assert_eq!(update, ResamplingUpdate::Unchanged);
    assert_eq!(resampler.discarded_results, 1);
    assert!(!resampler.is_active());

    let update = resampler.apply_event(ResamplingEvent::Ready { job: current, source_bytes: 8 });
    assert!(matches!(update, ResamplingUpdate::Adopt));
    assert!(resampler.is_active());
    assert_eq!(resampler.completions, 1);
    assert_eq!(resampler.last_source_bytes, 8);
    assert!(resampler.gpu_bytes() > 0);

    resampler.set_memory_limit_bytes(0);
    assert!(resampler.request_view(&mut worker, (50, 50), view, 16_384, 0));
    assert!(!resampler.is_active());
    assert!(resampler.lifecycle.desired().is_none());
    assert_eq!(resampler.gpu_bytes(), 0);

    resampler.set_memory_limit_bytes(64 * 1024 * 1024);
    assert!(!resampler.request_view(&mut worker, (50, 50), view, 16_384, 0));
    let (generation, request) = resampler.lifecycle.current_request().unwrap();
    let stale =
        ResamplingJob { generation: generation.wrapping_sub(1), view: request, deadline: 0 };
    let current = ResamplingJob { generation, view: request, deadline: 0 };
    let update = resampler.apply_event(ResamplingEvent::Failed(stale));
    assert_eq!(update, ResamplingUpdate::Unchanged);
    assert_eq!(resampler.discarded_results, 2);
    assert_eq!(resampler.lifecycle.desired(), Some(request));
    let update = resampler.apply_event(ResamplingEvent::Failed(current));
    assert_eq!(update, ResamplingUpdate::Unchanged);
    assert_eq!(resampler.discarded_results, 2);
    assert!(resampler.lifecycle.desired().is_none());

    let update = resampler.apply_event(ResamplingEvent::Disconnected);
    assert_eq!(update, ResamplingUpdate::Unchanged);
    assert!(!resampler.lifecycle.worker_available());
}

#[test]
fn worker_disconnection_releases_a_retained_viewport_texture() {
    let mut worker = ResamplingWorkerState::new();
    let mut resampler = ViewportResampler::active(64 * 1024 * 1024, true);
    let request = centered_view((100, 100), (50, 50), 0.5).request();
    assert!(!resampler.lifecycle.replace_request(&mut worker, Some(request), 0));
    resampler.lifecycle.mark_ready(request);
    assert!(resampler.is_active());
    assert!(resampler.gpu_bytes() > 0);
    let update = resampler.apply_event(ResamplingEvent::Disconnected);
    assert_eq!(update, ResamplingUpdate::Release);
    assert!(!resampler.lifecycle.worker_available());
    assert_eq!(resampler.gpu_bytes(), 0);
    let fallback = ViewportTarget::fallback();
    assert_eq!((fallback.width, fallback.height), (1, 1));
}

#[test]
fn target_uses_the_bounded_viewport_at_every_non_unit_scale() {
    let expected = Some(ViewportTarget { width: 1_000, height: 1_000 });
    let target = |scale: f64| {
        resampling_target((1_000, 1_000), scale.to_bits(), 64 * 1024 * 1024, 16_384)
    };
    assert_eq!(target(0.25), expected);
    assert_eq!(target(2.0), expected);
    assert_eq!(target(1.0), None);
}

#[test]
fn target_rejects_zero_oversized_and_over_budget_viewports() {
    let half = 0.5_f64.to_bits();
    assert_eq!(resampling_target((0, 10), half, 1024, 16_384), None);
    assert_eq!(resampling_target((100, 10), half, 1024, 16_384), None);
    assert_eq!(resampling_target((20_000, 10), half, u64::MAX, 16_384), None);
    assert_eq!(required_resampling_gpu_bytes((20_000, 10), half, 16_384), None);
}

#[test]
fn axis_weights_are_normalized_and_scale_aware() {
    let axis = build_axis(100, 10, 50.0, 0.1, &mut || false).unwrap();
    assert!(axis.bounds.iter().all(|bound| bound.length > 4));
    for bound in axis.bounds {
        let start = bound.weights_start;
        let end = start + usize::try_from(bound.length).unwrap();
        let sum: f32 = axis.weights[start..end].iter().sum();
        assert!((sum - 1.0).abs() < 1e-5, "{sum}");
    }
}

#[test]
fn coefficient_generation_is_cancellable() {
    let mut checks = 0;
    let result = build_axis(100_000, 10_000, 50_000.0, 0.1, &mut || {
        checks += 1;
        checks > 2
    });
    assert!(matches!(result, Err(ResampleError::Cancelled)));
}

#[test]
fn active_output_rows_stay_within_their_vertical_bounds() {
    let bounds = [(0, 0), (0, 2), (1, 3), (3, 1), (0, 0)]
        .map(|(start, length)| AxisBound { start, length, weights_start: 0 });
    let target_height = u32::try_from(bounds.len()).unwrap();
    let mut schedule = RowSchedule::new();
    for source_y in 0..4 {
        schedule.activate_output_rows(&bounds, source_y);
        for row in &schedule.active {
            let bound = bounds[row.target_y as usize];
            assert!(bound.start <= source_y && source_y < row.end_source_y);
        }
        schedule.flush_completed_output_rows(source_y);
    }
    assert_eq!(schedule.next_target_y, target_height);
    assert!(schedule.active.is_empty());
    schedule.skip_empty_output_rows(&bounds);
    assert_eq!(schedule.next_target_y, target_height);
    assert!(schedule.ensure_output_rows_complete(target_height).is_ok());
    assert_eq!(
        schedule.ensure_output_rows_complete(target_height + 1).unwrap_err().message(),
        "Lanczos2 did not complete every target row"
    );
}

#[test]
fn scratch_byte_accounting_includes_direct_allocations() {
    let mut scratch = Scratch::default();
    assert_eq!(scratch.allocated_bytes(), 0);
    scratch.output.resize(128, 0);
    scratch.upload_staging.resize(64, 0);
    scratch.source_rows.resize(32, RgbaF32::default());
    scratch.horizontal_rows.resize(16, RgbaF32::default());
    assert!(scratch.allocated_bytes() >= 192 + 48 * std::mem::size_of::<RgbaF32>());
}

#[test]
fn upscale_row_buffers_are_included_in_scratch_accounting() {
    let dimensions = (3, 2);
    let source = [0.25, 0.5, 0.75, 1.0].repeat(3 * 2);
    let mut scratch = Scratch::default();
    resample_rows(
        dimensions,
        centered_view(dimensions, (96, 40), 20.0),
        &mut scratch,
        &mut || false,
        &reader(dimensions, &source),
    )
    .unwrap();
    let row_buffer_bytes = scratch
        .free_row_buffers
        .iter()
        .map(|row| row.capacity() * std::mem::size_of::<RgbaF32>())
        .sum::<usize>();
    assert!(row_buffer_bytes > 0);
    assert!(scratch.allocated_bytes() >= scratch.output.capacity() + row_buffer_bytes);
}

#[test]
fn constant_premultiplied_hdr_values_survive_resampling() {
    let expected = [0.75, -0.125, 1.5, 0.5];
    let source = expected.repeat(7 * 5);
    let output =
        resample_test_pixels((7, 5), &source, centered_view((7, 5), (3, 2), 0.4)).unwrap();
    assert_eq!(output.len(), 6);
    for actual in output {
        for channel in 0..4 {
            assert!(
                (actual[channel] - expected[channel]).abs() < 0.001,
                "channel {channel}: {} != {}",
                actual[channel],
                expected[channel],
            );
        }
    }
}

#[test]
fn one_pixel_source_and_transparent_edge_resample_stably() {
    let source = [0.25, 0.5, 1.0, 0.75];
    let output =
        resample_test_pixels((1, 1), &source, centered_view((1, 1), (3, 3), 3.0)).unwrap();
    assert_eq!(output.len(), 9);
    for pixel in output {
        for channel in 0..4 {
            assert!((pixel[channel] - source[channel]).abs() < 0.001);
        }
    }

    let opaque_to_transparent = [1.0, 0.0, 0.0, 1.0, 0.0, 0.0, 0.0, 0.0];
    let output = resample_test_pixels(
        (2, 1),
        &opaque_to_transparent,
        centered_view((2, 1), (1, 1), 0.5),
    )
    .unwrap();
    for (actual, expected) in output[0].into_iter().zip([0.5, 0.0, 0.0, 0.5]) {
        assert!((actual - expected).abs() < 0.001);
    }
}

#[test]
fn odd_dimension_linear_ramp_preserves_pixel_centers() {
    let mut source = Vec::new();
    for _y in 0..3 {
        for x in 0_u16..7 {
            let value = f32::from(x);
            source.extend_from_slice(&[value, value * 2.0, value * 0.5, 1.0]);
        }
    }
    let output =
        resample_test_pixels((7, 3), &source, centered_view((7, 3), (3, 1), 1.0)).unwrap();
    assert_eq!(output.len(), 3);
    for (pixel, x) in output.into_iter().zip([2.0_f32, 3.0, 4.0]) {
        for (actual, expected) in pixel.into_iter().zip([x, x * 2.0, x * 0.5, 1.0]) {
            assert!((actual - expected).abs() < 0.001);
        }
    }
}

#[test]
fn one_pixel_checkerboard_minifies_to_phase_stable_gray() {
    let dimensions = (128_u32, 128_u32);
    let mut source = Vec::new();
    for y in 0..dimensions.1 {
        for x in 0..dimensions.0 {
            let value = if (x + y) % 2 == 0 { 0.0 } else { 1.0 };
            source.extend_from_slice(&[value, value, value, 1.0]);
        }
    }
    for phase in [0.0, 0.25, 0.5, 0.75] {
        let output = resample_test_pixels(
            dimensions,
            &source,
            View {
                target: ViewportTarget { width: 8, height: 8 },
                center_x: f64::from(dimensions.0) * 0.5 + phase,
                center_y: f64::from(dimensions.1) * 0.5 + phase,
                scale: 0.125,
            },
        )
        .unwrap();
        for (index, rgba) in output.into_iter().enumerate() {
            for (channel, value) in rgba[..3].iter().copied().enumerate() {
                assert!(
                    (value - 0.5).abs() < 0.01,
                    "phase {phase}, pixel {index}, channel {channel}: {value}"
                );
            }
            assert!(
                (rgba[3] - 1.0).abs() < 0.001,
                "phase {phase}, pixel {index}, alpha: {}",
                rgba[3]
            );
        }
    }
}

#[test]
fn partial_final_row_batch_is_consumed() {
    let dimensions = (8, 100);
    let expected = [0.25, 0.5, 0.75, 1.0];
    let source = expected.repeat(8 * 100);
    let pool = rayon::ThreadPoolBuilder::new().num_threads(4).build().unwrap();
    let output = pool
        .install(|| {
            resample_test_pixels(dimensions, &source, centered_view(dimensions, (2, 25), 0.25))
        })
        .unwrap();
    assert_eq!(output.len(), 2 * 25);
    for pixel in output {
        for (actual, expected) in pixel.into_iter().zip(expected) {
            assert!((actual - expected).abs() < 0.001);
        }
    }
}

#[test]
fn viewport_center_maps_to_the_same_source_pixel_centers_as_presentation() {
    let mut source = Vec::new();
    for x in 0..8 {
        source.extend_from_slice(&[f32::from(u16::try_from(x).unwrap()), 0.0, 0.0, 1.0]);
    }
    let output = resample_test_pixels(
        (8, 1),
        &source,
        View {
            target: ViewportTarget { width: 4, height: 1 },
            center_x: 4.0,
            center_y: 0.5,
            scale: 1.0,
        },
    )
    .unwrap();
    let red: Vec<f32> = output.iter().map(|rgba| rgba[0]).collect();
    assert_eq!(red, [2.0, 3.0, 4.0, 5.0]);
}

#[test]
fn output_policy_clamps_alpha_and_keeps_rgba16f_finite() {
    let largest = f32::from_bits(MAX_FINITE_HALF);
    assert_eq!(largest, 65_504.0);
    let samples = [
        [1.0, 2.0, 3.0, -1.0],
        [f32::INFINITY, -70_000.0, 70_000.0, 2.0],
        [f32::NAN, -0.0, f32::MIN_POSITIVE, 0.5],
        [0.333_251_95, -largest, largest, f32::NAN],
    ];
    let scalar_reference = scalar_resampled_row_encoding(&samples);
    let mut encoded = vec![0_u8; samples.len() * CANONICAL_BYTES_PER_PIXEL];
    encode_row(&samples, &mut encoded);
    assert_eq!(encoded, scalar_reference);
    let output: Vec<f32> = encoded
        .chunks_exact(2)
        .map(|value| half::f16::from_le_bytes([value[0], value[1]]).to_f32())
        .collect();
    assert_eq!(&output[..4], &[0.0, 0.0, 0.0, 0.0]);
    assert_eq!(&output[4..8], &[0.0, -largest, largest, 1.0]);
    assert!(output.iter().all(|value| value.is_finite()));
}

#[test]
fn chunked_output_encoding_matches_scalar_reference() {
    let samples: Vec<RgbaF32> = (0..4_096 / 4 + 13)
        .map(|index| {
            let value = f32::from(u16::try_from(index).unwrap()) / 127.0;
            let alpha = f32::from(u8::try_from(index % 5).unwrap()) * 0.25;
            [value, -value, value * 0.5, alpha]
        })
        .collect();
    let scalar_reference = scalar_resampled_row_encoding(&samples);
    let mut encoded = vec![0_u8; samples.len() * CANONICAL_BYTES_PER_PIXEL];
    encode_row(&samples, &mut encoded);
    assert_eq!(encoded, scalar_reference);
}

#[test]
fn row_batch_capacity_handles_zero_widths() {
    assert_eq!(resampling_row_batch_capacity(0, 0, 0), 0);
    assert_eq!(resampling_row_batch_capacity(0, 0, 1), 1);
}

#[test]
fn source_scan_stops_after_cancellation() {
    let checks = Cell::new(0_u32);
    let rows_read = Cell::new(0_u32);
    let source = vec![1.0; 64 * 64 * 4];
    let mut scratch = Scratch::default();
    let maximum_rows_read = resampling_row_batch_capacity(64, 16, 64);
    let read = reader((64, 64), &source);
    let result = resample_rows(
        (64, 64),
        centered_view((64, 64), (16, 16), 0.25),
        &mut scratch,
        &mut || {
            checks.set(checks.get() + 1);
            checks.get() > 8
        },
        &|row, source_x, destination| {
            rows_read.set(rows_read.get() + 1);
            read(row, source_x, destination);
        },
    );
    assert!(matches!(result, Err(ResampleError::Cancelled)));
    let rows_read = usize::try_from(rows_read.get()).unwrap();
    assert!((1..=maximum_rows_read).contains(&rows_read));
}

#[test]
fn viewport_resampling_reads_only_the_required_source_region() {
    let source = vec![1.0; 100 * 100 * 4];
    let rows_read = Cell::new(0_u32);
    let smallest_start = Cell::new(u32::MAX);
    let widest_row = Cell::new(0_usize);
    let mut scratch = Scratch::default();
    let read = reader((100, 100), &source);
    let source_bytes = resample_rows(
        (100, 100),
        centered_view((100, 100), (10, 10), 2.0),
        &mut scratch,
        &mut || false,
        &|row, source_x, destination| {
            rows_read.set(rows_read.get() + 1);
            smallest_start.set(smallest_start.get().min(source_x));
            widest_row.set(widest_row.get().max(destination.len()));
            read(row, source_x, destination);
        },
    )
    .unwrap();
    assert!(rows_read.get() < 100);
    assert!(smallest_start.get() > 0);
    assert!(widest_row.get() < 100);
    assert!(source_bytes < 100 * 100 * CANONICAL_BYTES_PER_PIXEL);
    assert_eq!(
        source_bytes,
        widest_row.get() * rows_read.get() as usize * CANONICAL_BYTES_PER_PIXEL
    );
}

#[test]
fn viewport_pixels_outside_the_image_stay_transparent() {
    let source = [1.0, 1.0, 1.0, 1.0].repeat(2 * 2);
    let output =
        resample_test_pixels((2, 2), &source, centered_view((2, 2), (6, 2), 1.0)).unwrap();
    let alpha: Vec<f32> = output.iter().map(|rgba| rgba[3]).collect();
    assert_eq!(alpha, [0.0, 0.0, 1.0, 1.0, 0.0, 0.0].repeat(2));
}

#[test]
fn row_batches_follow_the_worker_threads_and_the_memory_limit() {
    assert_eq!(row_batch_capacity(100, 100, 1_000, 4), 8);
    assert_eq!(row_batch_capacity(100, 100, 3, 4), 3);
    assert_eq!(row_batch_capacity(1_000_000, 97_152, 1_000, 4), 1);
    let pool = rayon::ThreadPoolBuilder::new().num_threads(3).build().unwrap();
    assert_eq!(pool.install(|| resampling_row_batch_capacity(10, 10, 1_000)), 6);
}

#[test]
fn invalid_axes_are_refused_with_their_reason() {
    let bits = f64::to_bits;
    assert!(axis_inputs_are_invalid(0, 1, bits(0.0), bits(1.0)));
    assert!(axis_inputs_are_invalid(1, 1, bits(f64::NAN), bits(1.0)));
    assert!(axis_inputs_are_invalid(1, 1, bits(0.0), bits(-1.0)));
    assert!(!axis_inputs_are_invalid(1, 1, bits(0.0), bits(1.0)));
    let refused = |source, target, scale: f64, radius| {
        plan_axis(source, target, bits(0.5), bits(scale), radius).unwrap_err()
    };
    assert_eq!(
        refused(0, 1, 1.0, 2).message(),
        "resampling view must have finite coordinates and nonzero dimensions"
    );
    assert_eq!(
        refused(1, 1, 1.0, usize::MAX).message(),
        "Lanczos2 coefficient window overflowed"
    );
    assert_eq!(
        refused(1, u32::MAX, 1.0, usize::MAX / 4).message(),
        "Lanczos2 coefficient count overflowed"
    );
    assert_eq!(
        refused(1, 1, 1.0, usize::MAX / 4).message(),
        "Lanczos2 coefficient size overflowed"
    );
    assert_eq!(
        refused(1, 16_777_216, 1.0, 2).message(),
        "Lanczos2 coefficient table needs 335544320 bytes; limit is 67108864"
    );
    assert_eq!(plan_axis(1, 10, bits(0.5), bits(1.0), 2), Ok(50));
    for sum in [0.0, -0.0, f64::NAN, f64::INFINITY] {
        assert_eq!(
            validate_weight_sum(bits(sum)).unwrap_err().message(),
            "Lanczos2 produced invalid coefficient weights"
        );
    }
    assert!(validate_weight_sum(bits(1.0)).is_ok());
}

#[test]
fn plans_read_the_union_of_their_windows() {
    let bound =
        |start, length, weights_start| AxisBound { start, length, weights_start };
    let horizontal = [bound(0, 0, 0), bound(3, 4, 0), bound(5, 6, 4)];
    let vertical = [bound(2, 3, 0), bound(4, 2, 3)];
    assert_eq!(contribution_source_range(&horizontal), Some((3, 11)));
    assert_eq!(contribution_source_range(&[bound(7, 0, 0)]), None);
    let target = ViewportTarget { width: 3, height: 2 };
    let plan = plan_rows(&horizontal, &vertical, target, 1).unwrap();
    assert_eq!(plan.source_x_start, 3);
    assert_eq!(plan.source_row_pixels, 8);
    assert_eq!((plan.first_source_y, plan.end_source_y), (2, 6));
    assert_eq!(plan.output_bytes, 48);
    assert_eq!(plan.batch_capacity, 2);
    assert_eq!(plan.source_batch_pixels, 16);
    assert_eq!(plan.horizontal_batch_pixels, 6);
    assert_eq!(resampled_row_range(target, 1), 24..48);
    assert_eq!(horizontal_window(horizontal[2], 3), (2..8, 4..10));
    assert_eq!(horizontal_window(horizontal[0], 3), (0..0, 0..0));
    assert_eq!(ResampleFailure::OutputSize.message(), "resampled output size overflowed");
    assert_eq!(ResampleFailure::SourceBatchSize.message(), "source row batch size overflowed");
    assert_eq!(
        ResampleFailure::HorizontalBatchSize.message(),
        "horizontal row batch size overflowed"
    );
}

#[test]
fn every_target_row_begins_and_ends_once_in_a_run() {
    let axis = build_axis(40, 25, 20.0, 0.625, &mut || false).unwrap();
    let plan =
        plan_rows(&axis.bounds, &axis.bounds, ViewportTarget { width: 25, height: 25 }, 2).unwrap();
    let mut run = ResampleRun::new(plan, &axis.bounds);
    let mut begun = Vec::new();
    let mut ended = Vec::new();
    loop {
        match run.step(&axis.bounds, false) {
            ResampleAction::AddRow { step, .. } => {
                begun.extend(step.activated);
                ended.extend(step.completed);
            }
            ResampleAction::ReadBatch { row_count, .. } => assert!(row_count <= 4),
            ResampleAction::Done { .. } => break,
            ResampleAction::Stop(error) => panic!("{error:?}"),
        }
    }
    let all: Vec<u32> = (0..25).collect();
    assert_eq!(begun, all);
    assert_eq!(ended, all);
}

#[test]
fn sanitizing_matches_float_arithmetic() {
    for alpha in [-1.0_f32, -0.0, 0.0, 0.25, 1.0, 2.0, f32::NAN, f32::INFINITY] {
        let expected = if alpha.is_finite() { alpha.clamp(0.0, 1.0) } else { 0.0 };
        assert_eq!(f32::from_bits(sanitize_alpha(alpha.to_bits())), expected);
        for value in [0.5_f32, -70_000.0, 70_000.0, f32::NAN, f32::NEG_INFINITY] {
            let shown = if expected == 0.0 || !value.is_finite() {
                0.0
            } else {
                value.clamp(-65_504.0, 65_504.0)
            };
            assert_eq!(
                f32::from_bits(sanitize_resampled_color(value.to_bits(), expected.to_bits())),
                shown
            );
        }
    }
}
