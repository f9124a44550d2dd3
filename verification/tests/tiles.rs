use xl_view::float_bits::{
    clamp32, clamp64, floor_tile_coordinate, is_finite32, is_finite64, is_less32, is_less64,
    is_ordered64,
};
use xl_view::mip::{
    MIB_BYTES, MipPass, mip_level_count, plan_mip_passes, rgba16f_texture_budget_bytes,
};
use xl_view::tile_cache::{
    NextTileJob, TileCache, TileCacheError, TileJob, TileOutcome, TileProgress, TileWork,
    TileWorkerState, WantedTiles, next_tile_job, replace_pending_jobs, tile_job_is_current,
    tile_work,
};
use xl_view::tiles::{
    ImageBounds, MISSING_TILE_SLOT, TILE_SIZE, TileWindow, ViewDirection, contains_tile,
    interactive_working_set_tiles, maximum_capacity, prioritized_tiles, same_tile_set,
    tile_array_budget_bytes, tile_is_ahead, tile_priority, tile_texture_extent,
    working_set_capacity,
};
use xl_view::view::{ViewChange, ViewMode};

/// The wanted tiles of image bounds, and the center of the bounds.
fn wanted(
    (left, top, right, bottom): (f64, f64, f64, f64),
    columns: u32,
    rows: u32,
    previous_center: Option<(f64, f64)>,
    capacity: usize,
) -> (Vec<u32>, (f64, f64)) {
    let tile_size = f64::from(TILE_SIZE);
    let visible = TileWindow::visible(
        ImageBounds {
            left: left.to_bits(),
            top: top.to_bits(),
            right: right.to_bits(),
            bottom: bottom.to_bits(),
        },
        columns,
        rows,
    );
    let center = ((left + right) * 0.5, (top + bottom) * 0.5);
    let movement = previous_center.map_or((0.0, 0.0), |previous| {
        (center.0 - previous.0, center.1 - previous.1)
    });
    let direction = ViewDirection { x: movement.0.to_bits(), y: movement.1.to_bits() };
    let window = visible.expanded_for_prefetch(direction, columns, rows);
    let mut distances = Vec::new();
    for tile_y in window.first_y..=window.last_y {
        for tile_x in window.first_x..=window.last_x {
            let dx = f64::from(tile_x) + 0.5 - center.0 / tile_size;
            let dy = f64::from(tile_y) + 0.5 - center.1 / tile_size;
            distances.push(dx.mul_add(dx, dy * dy).to_bits());
        }
    }
    (
        prioritized_tiles(visible, direction, window, columns, rows, &distances, capacity),
        center,
    )
}

#[test]
fn mip_level_count_covers_the_longest_dimension() {
    assert_eq!(mip_level_count(1, 1), 1);
    assert_eq!(mip_level_count(3, 5), 3);
    assert_eq!(mip_level_count(0, 0), 0);
    assert_eq!(mip_level_count(u32::MAX, 1), 32);
}

#[test]
fn texture_budget_includes_alignment_margin_and_mib_rounding() {
    let logical = 3840_u64 * 2160 * 8;
    let budget = rgba16f_texture_budget_bytes(3840, 2160, 1, 1);

    assert!(budget > logical);
    assert_eq!(budget % MIB_BYTES, 0);
    assert_eq!(budget, 70 * MIB_BYTES);
}

#[test]
fn texture_budget_accounts_for_mips_and_array_layers() {
    let one_layer = rgba16f_texture_budget_bytes(528, 528, mip_level_count(528, 528), 1);
    let four_layers = rgba16f_texture_budget_bytes(528, 528, mip_level_count(528, 528), 4);

    assert!(four_layers > one_layer);
    assert!(four_layers <= one_layer.saturating_mul(4));
}

#[test]
fn empty_and_enormous_textures_have_their_budgets() {
    assert_eq!(rgba16f_texture_budget_bytes(0, 1, 1, 1), 0);
    assert_eq!(rgba16f_texture_budget_bytes(1, 1, 0, 1), 0);
    assert_eq!(
        rgba16f_texture_budget_bytes(u32::MAX, u32::MAX, 1, u32::MAX),
        u64::MAX
    );
    // One row of a pixel takes the copy alignment of the graphics library.
    let rows = 1024 * 1024 / wgpu::COPY_BYTES_PER_ROW_ALIGNMENT;
    assert_eq!(rgba16f_texture_budget_bytes(1, rows, 1, 1), 2 * MIB_BYTES);
    assert_eq!(rgba16f_texture_budget_bytes(1, rows / 2, 1, 1), MIB_BYTES);
}

#[test]
fn mips_are_generated_level_by_level() {
    let pass = |layer, source_level, destination_level| MipPass {
        layer,
        source_level,
        destination_level,
    };
    assert_eq!(
        plan_mip_passes(3, &[4, 2]),
        [pass(4, 0, 1), pass(4, 1, 2), pass(2, 0, 1), pass(2, 1, 2)]
    );
    assert!(plan_mip_passes(1, &[0]).is_empty());
    assert!(plan_mip_passes(0, &[0]).is_empty());
}

#[test]
fn tile_working_set_covers_a_one_to_one_viewport_with_a_border() {
    assert_eq!(interactive_working_set_tiles((3840, 1600)), 77);
    assert_eq!(interactive_working_set_tiles((1024, 682)), 25);
    assert_eq!(interactive_working_set_tiles((0, 682)), 0);

    assert_eq!(
        working_set_capacity(247, (3840, 1600), u64::MAX, u32::MAX),
        77
    );
    assert_eq!(
        working_set_capacity(12, (3840, 1600), u64::MAX, u32::MAX),
        12
    );
}

#[test]
fn the_largest_affordable_capacity_is_taken() {
    let seven = tile_array_budget_bytes(7);
    assert_eq!(maximum_capacity(100, seven, u32::MAX), 7);
    assert_eq!(maximum_capacity(100, seven - 1, u32::MAX), 6);
    assert_eq!(maximum_capacity(100, u64::MAX, 3), 3);
    assert_eq!(tile_texture_extent(), 528);
}

#[test]
fn visible_tiles_stay_center_first_and_directional_prefetch_stays_bounded() {
    let tile_size = f64::from(TILE_SIZE);
    let bounds = (2.1 * tile_size, 0.0, 2.9 * tile_size, tile_size - 1.0);
    let (stationary, center) = wanted(bounds, 6, 1, None, 6);
    assert_eq!(stationary, [2, 1, 3]);
    assert!(same_tile_set(&stationary, &[3, 2, 1]));

    let previous_center = Some((center.0 - tile_size, center.1));
    let (moving_right, _) = wanted(bounds, 6, 1, previous_center, 6);
    assert_eq!(moving_right, [2, 3, 4, 1]);

    let (budgeted, _) = wanted(bounds, 6, 1, previous_center, 2);
    assert_eq!(budgeted, [2, 3]);
}

#[test]
fn tile_windows_follow_bounds_and_movement() {
    let bits = f64::to_bits;
    let bounds = ImageBounds {
        left: bits(-5.0),
        top: bits(600.0),
        right: bits(1e12),
        bottom: bits(f64::NAN),
    };
    let window = TileWindow::visible(bounds, 4, 3);
    assert_eq!(
        window,
        TileWindow { first_x: 0, first_y: 1, last_x: 3, last_y: 0 }
    );
    let middle = TileWindow { first_x: 4, first_y: 4, last_x: 5, last_y: 5 };
    let up_left = ViewDirection { x: bits(-1.0), y: bits(-0.5) };
    assert_eq!(
        middle.expanded_for_prefetch(up_left, 10, 10),
        TileWindow { first_x: 2, first_y: 2, last_x: 6, last_y: 6 }
    );
    assert!(middle.contains(5, 4));
    assert!(!middle.contains(6, 4));
    assert!(tile_is_ahead(3, 5, middle, up_left));
    assert!(!tile_is_ahead(6, 5, middle, up_left));
    assert_eq!(tile_priority(4, 4, middle, up_left), 0);
    assert_eq!(tile_priority(4, 3, middle, up_left), 1);
    assert_eq!(tile_priority(6, 6, middle, up_left), 2);
    assert!(contains_tile(&[3, 4], 4));
    assert!(!same_tile_set(&[1, 2], &[1, 3]));
    assert!(!same_tile_set(&[1, 2], &[1, 2, 3]));
}

#[test]
fn newer_tile_generation_discards_queued_stale_work() {
    let old_jobs = [
        TileJob {
            generation: 7,
            logical_tile: 4,
            slot: 0,
        },
        TileJob {
            generation: 7,
            logical_tile: 5,
            slot: 1,
        },
    ];
    let mut state = TileWorkerState {
        generation: 7,
        pending: old_jobs.into(),
        shutdown: false,
    };

    assert_eq!(replace_pending_jobs(&mut state, 8), old_jobs);
    assert_eq!(state.generation, 8);
    assert!(state.pending.is_empty());
}

#[test]
fn workers_take_jobs_in_order_until_they_are_shut_down() {
    let job = |logical_tile| TileJob { generation: 1, logical_tile, slot: 0 };
    let mut state = TileWorkerState::new();
    assert!(replace_pending_jobs(&mut state, 1).is_empty());
    assert_eq!(state.append(0, vec![job(9)]), [job(9)]);
    assert!(state.append(1, vec![job(4), job(5)]).is_empty());
    assert!(matches!(next_tile_job(&mut state), NextTileJob::Job(next) if next == job(4)));
    assert!(tile_job_is_current(&state, 1));
    assert!(!tile_job_is_current(&state, 2));
    assert!(matches!(next_tile_job(&mut state), NextTileJob::Job(next) if next == job(5)));
    assert!(matches!(next_tile_job(&mut state), NextTileJob::Wait));
    state.shut_down();
    assert!(matches!(next_tile_job(&mut state), NextTileJob::Shutdown));
    assert!(!tile_job_is_current(&state, 1));
    assert!(matches!(tile_work(true, true), TileWork::Upload));
    assert!(matches!(tile_work(true, false), TileWork::ReportFailure));
    assert!(matches!(tile_work(false, true), TileWork::ReportCancelled));
}

fn view_of(tiles: &[u32]) -> Option<WantedTiles> {
    Some(WantedTiles { tiles: tiles.to_vec(), center: (0, 0) })
}

fn finish(cache: &mut TileCache, worker: &mut TileWorkerState) {
    while let NextTileJob::Job(job) = next_tile_job(worker) {
        assert!(matches!(
            cache.apply_outcome(job, TileOutcome::Ready),
            TileProgress::Shown
        ));
    }
}

#[test]
fn tiles_are_loaded_once_and_hit_on_a_repeated_view() {
    let mut worker = TileWorkerState::new();
    let mut cache = TileCache::with_capacity(4, 1, 4, 2);
    assert!(cache.is_active());
    assert_eq!((cache.capacity(), cache.tile_columns()), (2, 4));
    assert!(!cache.request_view(&mut worker, view_of(&[0, 1])));
    assert_eq!((cache.hits, cache.misses), (0, 2));
    finish(&mut cache, &mut worker);
    assert_eq!(cache.mapping, [0, 1, MISSING_TILE_SLOT, MISSING_TILE_SLOT]);
    assert_eq!(cache.status(), "2 of 2 working-set slots resident");
    assert!(!cache.request_view(&mut worker, view_of(&[1, 0])));
    assert_eq!(cache.hits, 2);
    assert!(cache.request_view(&mut worker, view_of(&[1, 2])));
    assert_eq!(cache.mapping[0], MISSING_TILE_SLOT);
    finish(&mut cache, &mut worker);
    assert_eq!(cache.mapping, [MISSING_TILE_SLOT, 1, 0, MISSING_TILE_SLOT]);
    assert_eq!(cache.gpu_bytes(), tile_array_budget_bytes(2));
}

#[test]
fn cancelled_tiles_free_their_slots() {
    let mut worker = TileWorkerState::new();
    let mut cache = TileCache::with_capacity(4, 1, 4, 1);
    cache.request_view(&mut worker, view_of(&[3]));
    let NextTileJob::Job(job) = next_tile_job(&mut worker) else {
        panic!("a job is queued");
    };
    assert!(matches!(
        cache.apply_outcome(job, TileOutcome::Cancelled),
        TileProgress::Unchanged
    ));
    assert_eq!(cache.slot_tiles, [None]);
    let generation = cache.request_generation;
    assert!(!cache.schedule_missing(&mut worker, generation));
    let NextTileJob::Job(job) = next_tile_job(&mut worker) else {
        panic!("the tile is queued again");
    };
    assert!(matches!(cache.apply_outcome(job, TileOutcome::Failed), TileProgress::Failed));
    assert_eq!(cache.mapping[3], MISSING_TILE_SLOT);
}

#[test]
fn caches_sample_where_tiles_are_finer_than_the_preview() {
    let cache = TileCache::with_capacity(4, 1, 4, 2);
    assert!(cache.should_sample(Some(1.0_f64.to_bits())));
    assert!(!cache.should_sample(Some(0.2_f64.to_bits())));
    assert!(!cache.should_sample(None));
    for empty in [TileCache::fallback(), TileCache::with_capacity(4, 1, 4, 0)] {
        assert_eq!((empty.tile_columns, empty.tile_rows, empty.coarse_downsample), (0, 0, 1));
        assert_eq!(empty.mapping, [MISSING_TILE_SLOT]);
        assert_eq!((empty.slot_tiles, empty.last_used), (vec![None], vec![0]));
    }
    let fallback = TileCache::fallback();
    assert!(!fallback.is_active());
    assert!(!fallback.should_sample(Some(1.0_f64.to_bits())));
    assert_eq!(fallback.gpu_bytes(), 0);
    assert_eq!(
        TileCache::plan_capacity(65_536, 65_536, u64::MAX, (1_024, 682), 256),
        Err(TileCacheError::LogicalTileCount)
    );
    assert_eq!(TileCache::plan_capacity(16, 8, u64::MAX, (1_024, 682), 256), Ok(25));
    assert_eq!(TileCacheError::LogicalTileCount.message(), "logical tile count overflowed");
}

#[test]
fn bit_patterns_compare_like_the_numbers_they_stand_for() {
    let values = [
        f64::NEG_INFINITY,
        -513.5,
        -1.0,
        -f64::MIN_POSITIVE,
        -0.0,
        0.0,
        5e-324,
        0.5,
        1.0,
        511.999,
        512.0,
        1e300,
        f64::INFINITY,
        f64::NAN,
        -f64::NAN,
    ];
    for a in values {
        assert_eq!(is_finite64(a.to_bits()), a.is_finite());
        assert_eq!(is_finite32((a as f32).to_bits()), (a as f32).is_finite());
        for b in values {
            assert_eq!(is_less64(a.to_bits(), b.to_bits()), a < b, "{a} {b}");
            assert_eq!(
                is_less32((a as f32).to_bits(), (b as f32).to_bits()),
                (a as f32) < (b as f32)
            );
            assert_eq!(is_ordered64(a.to_bits(), b.to_bits()), a.total_cmp(&b).is_le());
        }
        assert_eq!(
            clamp64(a.to_bits(), (-2.0_f64).to_bits(), 3.0_f64.to_bits()),
            a.clamp(-2.0, 3.0).to_bits()
        );
        assert_eq!(
            clamp32((a as f32).to_bits(), (-2.0_f32).to_bits(), 3.0_f32.to_bits()),
            (a as f32).clamp(-2.0, 3.0).to_bits()
        );
    }
    for value in [-3.0, 0.0, 0.4, 511.999, 512.0, 1_023.9, 1_024.0, 123_456_789.25, 1e13, 1e300] {
        assert_eq!(
            floor_tile_coordinate(f64::to_bits(value)),
            (value / 512.0).floor() as u32,
            "{value}"
        );
    }
    assert_eq!(floor_tile_coordinate(f64::NAN.to_bits()), 0);
    assert_eq!(floor_tile_coordinate(f64::INFINITY.to_bits()), u32::MAX);
}

#[test]
fn view_modes_decide_what_gestures_change() {
    let mut mode = ViewMode::Fit;
    assert_eq!(mode.set_viewport(), ViewChange::Refit);
    assert_eq!(mode.set_one_to_one(2.0_f64.to_bits()), ViewChange::SetScale(2.0_f64.to_bits()));
    assert_eq!(
        mode.set_scale_factor(1_000.0_f64.to_bits()),
        ViewChange::SetScale(64.0_f64.to_bits())
    );
    assert_eq!(mode.set_viewport(), ViewChange::ClampCenter);
    let one = 1.0_f64.to_bits();
    for factor in [f64::NAN, f64::INFINITY, 0.0, -1.0] {
        assert_eq!(mode.zoom_at(factor.to_bits(), one, one, one), ViewChange::Ignored);
    }
    assert_eq!(mode, ViewMode::OneToOne);
    let zoomed = 1.5_f64.to_bits();
    assert_eq!(mode.zoom_at(zoomed, zoomed, one, one), ViewChange::Zoom(zoomed));
    assert_eq!(mode, ViewMode::Manual);
    assert_eq!(mode.set_scale_factor(2.0_f64.to_bits()), ViewChange::Ignored);
    assert_eq!(mode.pan_by(f64::INFINITY.to_bits(), 0), ViewChange::Ignored);
    assert_eq!(mode.pan_by(3.0_f64.to_bits(), 0), ViewChange::Pan);
    assert_eq!(mode.set_fit(), ViewChange::Refit);
    assert_eq!(mode, ViewMode::Fit);
}
