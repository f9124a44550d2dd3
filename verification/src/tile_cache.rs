//! Residency of tiles in the slots of a texture array, and the queue of the
//! worker that loads them.
use std::collections::HashSet;
use std::collections::VecDeque;

use vstd::prelude::*;
use vstd::std_specs::hash::*;
use vstd::string::StringExecFns;

use crate::float_bits;
use crate::float_bits::is_less64;
use crate::numeric;
use crate::numeric::min_u32;
use crate::text;
use crate::text::{push_decimal, push_text};
use crate::tiles;
use crate::tiles::{
    MISSING_TILE_SLOT, TILE_GUTTER, same_tile_set, tile_array_budget_bytes, working_set_capacity,
};
use crate::units::usize_from_u32;

verus! {

/// One tile to load into a reserved slot.
#[derive(Clone, Copy, Debug, PartialEq, Eq, Structural)]
pub struct TileJob {
    pub generation: u64,
    pub logical_tile: u32,
    pub slot: u32,
}

/// What the loading thread shares with the presentation thread.
#[derive(Debug)]
pub struct TileWorkerState {
    pub generation: u64,
    pub pending: VecDeque<TileJob>,
    pub shutdown: bool,
}

/// What the loading thread finds when it asks for work.
#[derive(Clone, Copy, Debug, PartialEq, Eq, Structural)]
pub enum NextTileJob {
    Shutdown,
    Job(TileJob),
    Wait,
}

/// What the loading thread does with a job once its pixels were read.
#[derive(Clone, Copy, Debug, PartialEq, Eq, Structural)]
pub enum TileWork {
    Upload,
    ReportFailure,
    ReportCancelled,
}

/// How a job ended.
#[derive(Clone, Copy, Debug, PartialEq, Eq, Structural)]
pub enum TileOutcome {
    Ready,
    Cancelled,
    Failed,
}

impl TileWorkerState {
    /// The state that a new worker starts with.
    pub fn new() -> (state: TileWorkerState)
        ensures
            state.generation == 0,
            state.pending@ == Seq::<TileJob>::empty(),
            !state.shutdown,
    {
        TileWorkerState { generation: 0, pending: VecDeque::new(), shutdown: false }
    }

    /// Queues the jobs of the current generation. Jobs of another generation,
    /// and any job after the shutdown, are handed back.
    pub fn append(&mut self, generation: u64, jobs: Vec<TileJob>) -> (rejected: Vec<TileJob>)
        ensures
            final(self).generation == old(self).generation,
            final(self).shutdown == old(self).shutdown,
            if accepts_jobs(*old(self), generation) {
                &&& final(self).pending@ == old(self).pending@ + jobs@
                &&& rejected@ == Seq::<TileJob>::empty()
            } else {
                &&& final(self).pending@ == old(self).pending@
                &&& rejected@ == jobs@
            },
    {
        if self.shutdown || self.generation != generation {
            return jobs;
        }
        let ghost before = self.pending@;
        let mut index: usize = 0;
        while index < jobs.len()
            invariant
                index <= jobs@.len(),
                self.generation == old(self).generation,
                self.shutdown == old(self).shutdown,
                self.pending@ == before + jobs@.take(index as int),
            decreases jobs@.len() - index,
        {
            self.pending.push_back(jobs[index]);
            assert(self.pending@ =~= before + jobs@.take(index + 1));
            index = index + 1;
        }
        assert(jobs@.take(jobs@.len() as int) =~= jobs@);
        assert(before + Seq::<TileJob>::empty() =~= before);
        Vec::new()
    }

    /// Stops the worker: it takes no further job.
    pub fn shut_down(&mut self)
        ensures
            final(self).shutdown,
            final(self).pending@ == Seq::<TileJob>::empty(),
            final(self).generation == old(self).generation,
    {
        self.shutdown = true;
        self.pending.clear();
    }
}

/// The worker takes jobs of this generation.
pub open spec fn accepts_jobs(state: TileWorkerState, generation: u64) -> bool {
    !state.shutdown && state.generation == generation
}

/// Begins a generation and hands back the jobs that were still queued.
pub fn replace_pending_jobs(state: &mut TileWorkerState, generation: u64) -> (cancelled: Vec<
    TileJob,
>)
    ensures
        cancelled@ == old(state).pending@,
        final(state).pending@ == Seq::<TileJob>::empty(),
        final(state).generation == generation,
        final(state).shutdown == old(state).shutdown,
{
    state.generation = generation;
    let ghost before = state.pending@;
    let mut cancelled: Vec<TileJob> = Vec::new();
    while state.pending.len() > 0
        invariant
            cancelled@ + state.pending@ == before,
            state.generation == generation,
            state.shutdown == old(state).shutdown,
        decreases state.pending@.len(),
    {
        let ghost queued = state.pending@;
        match state.pending.pop_front() {
            Some(job) => {
                cancelled.push(job);
                assert(cancelled@ + state.pending@ =~= cancelled@.drop_last() + queued);
            },
            None => {},
        }
    }
    assert(cancelled@ =~= before);
    assert(state.pending@ =~= Seq::<TileJob>::empty());
    cancelled
}

/// The next job of the loading thread, if there is one.
pub fn next_tile_job(state: &mut TileWorkerState) -> (next: NextTileJob)
    ensures
        final(state).generation == old(state).generation,
        final(state).shutdown == old(state).shutdown,
        if old(state).shutdown {
            next == NextTileJob::Shutdown && final(state).pending@ == old(state).pending@
        } else if old(state).pending@.len() == 0 {
            next == NextTileJob::Wait && final(state).pending@ == old(state).pending@
        } else {
            &&& next == NextTileJob::Job(old(state).pending@[0])
            &&& final(state).pending@ == old(state).pending@.skip(1)
        },
{
    if state.shutdown {
        return NextTileJob::Shutdown;
    }
    let ghost queued = state.pending@;
    match state.pending.pop_front() {
        Some(job) => {
            assert(state.pending@ =~= queued.skip(1));
            NextTileJob::Job(job)
        },
        None => {
            assert(state.pending@ =~= queued);
            NextTileJob::Wait
        },
    }
}

/// Whether a job of this generation is still wanted.
pub fn tile_job_is_current(state: &TileWorkerState, generation: u64) -> (current: bool)
    ensures
        current == accepts_jobs(*state, generation),
{
    !state.shutdown && state.generation == generation
}

/// What happens to a job once its pixels were read: a stale one is cancelled,
/// whatever was read, and a failed one reported.
pub fn tile_work(current: bool, pixels_read: bool) -> (work: TileWork)
    ensures
        work == (if !current {
            TileWork::ReportCancelled
        } else if pixels_read {
            TileWork::Upload
        } else {
            TileWork::ReportFailure
        }),
{
    if !current {
        TileWork::ReportCancelled
    } else if pixels_read {
        TileWork::Upload
    } else {
        TileWork::ReportFailure
    }
}

/// Which slot holds which tile.
pub struct Residency {
    pub mapping: Seq<u32>,
    pub slots: Seq<Option<u32>>,
    pub last_used: Seq<u64>,
}

impl Residency {
    /// A slot holds a tile whose mapping entry points back to it.
    pub open spec fn is_resident(&self, slot: int) -> bool {
        self.slots[slot] matches Some(tile) && self.mapping[tile as int] == slot
    }

    /// A slot is reserved for a tile that is not loaded yet.
    pub open spec fn is_loading(&self, slot: int) -> bool {
        self.slots[slot] matches Some(tile) && self.mapping[tile as int] == MISSING_TILE_SLOT
    }

    /// The invariant of the residency: every slot has a time stamp, every slot's
    /// tile exists, no tile has two slots, and a mapped tile's slot holds it.
    pub open spec fn wf(&self) -> bool {
        &&& self.slots.len() == self.last_used.len()
        &&& self.slots.len() <= u32::MAX
        &&& self.mapping.len() <= u32::MAX
        &&& forall|slot: int|
            #![trigger self.slots[slot]]
            0 <= slot < self.slots.len() && self.slots[slot] is Some ==> self.slots[slot]->0
                < self.mapping.len()
        &&& forall|a: int, b: int|
            #![trigger self.slots[a], self.slots[b]]
            0 <= a < self.slots.len() && 0 <= b < self.slots.len() && self.slots[a] is Some
                && self.slots[a] == self.slots[b] ==> a == b
        &&& forall|tile: int|
            #![trigger self.mapping[tile]]
            0 <= tile < self.mapping.len() && self.mapping[tile] != MISSING_TILE_SLOT
                ==> self.mapping[tile] < self.slots.len() && self.slots[self.mapping[tile] as int]
                == Some(tile as u32)
    }

    /// A slot can be given to another tile: its own is loaded and not wanted.
    pub open spec fn is_evictable(&self, slot: int, desired: Seq<u32>) -> bool {
        self.is_resident(slot) && !desired.contains(self.slots[slot]->0)
    }

    /// The first free slot, or the number of slots.
    pub open spec fn first_free(&self, from: int) -> int
        decreases self.slots.len() - from,
    {
        if from >= self.slots.len() || self.slots[from] is None {
            from
        } else {
            self.first_free(from + 1)
        }
    }

    /// The least recently used slot that can be evicted, among the first `count`.
    /// Of several, the first.
    pub open spec fn least_recent(&self, desired: Seq<u32>, count: int) -> Option<int>
        decreases count,
    {
        if count <= 0 {
            None
        } else {
            let slot = count - 1;
            match self.least_recent(desired, slot) {
                Some(best) => if self.is_evictable(slot, desired) && self.last_used[slot]
                    < self.last_used[best] {
                    Some(slot)
                } else {
                    Some(best)
                },
                None => if self.is_evictable(slot, desired) {
                    Some(slot)
                } else {
                    None
                },
            }
        }
    }

    /// The slot for another tile: a free one if there is one, else the least
    /// recently used one whose tile is not wanted.
    pub open spec fn slot_for_tile(&self, desired: Seq<u32>) -> Option<int> {
        if self.first_free(0) < self.slots.len() {
            Some(self.first_free(0))
        } else {
            self.least_recent(desired, self.slots.len() as int)
        }
    }

    /// A tile needs a job: it is neither loaded nor being loaded.
    pub open spec fn needs_job(&self, tile: u32) -> bool {
        self.mapping[tile as int] == MISSING_TILE_SLOT && !self.slots.contains(Some(tile))
    }

    /// The residency after a slot was reserved for a tile.
    pub open spec fn reserved(&self, slot: int, tile: u32, epoch: u64) -> Residency {
        Residency {
            mapping: match self.slots[slot] {
                Some(evicted) => self.mapping.update(evicted as int, MISSING_TILE_SLOT),
                None => self.mapping,
            },
            slots: self.slots.update(slot, Some(tile)),
            last_used: self.last_used.update(slot, epoch),
        }
    }

    /// The residency after a job was given up.
    pub open spec fn released(&self, job: TileJob) -> Residency {
        if self.reserved_for(job) && self.mapping[job.logical_tile as int] == MISSING_TILE_SLOT {
            Residency { slots: self.slots.update(job.slot as int, None), ..*self }
        } else {
            *self
        }
    }

    /// The slot of a job is still reserved for its tile.
    pub open spec fn reserved_for(&self, job: TileJob) -> bool {
        job.slot < self.slots.len() && self.slots[job.slot as int] == Some(job.logical_tile)
    }

    /// The residency after a job was done.
    pub open spec fn loaded(&self, job: TileJob, epoch: u64) -> Residency {
        if self.reserved_for(job) {
            Residency {
                mapping: self.mapping.update(job.logical_tile as int, job.slot),
                last_used: self.last_used.update(job.slot as int, epoch),
                ..*self
            }
        } else {
            *self
        }
    }

    /// The residency after several jobs were given up.
    pub open spec fn all_released(&self, jobs: Seq<TileJob>) -> Residency
        decreases jobs.len(),
    {
        if jobs.len() == 0 {
            *self
        } else {
            self.all_released(jobs.drop_last()).released(jobs.last())
        }
    }

    /// The number of resident slots among the first `count`.
    pub open spec fn resident_slots(&self, count: int) -> nat
        decreases count,
    {
        if count <= 0 {
            0
        } else {
            self.resident_slots(count - 1) + (if self.is_resident(count - 1) {
                1nat
            } else {
                0nat
            })
        }
    }
}

/// What scheduling has done so far.
pub struct Schedule {
    pub residency: Residency,
    pub jobs: Seq<TileJob>,
    pub evicted: bool,
    pub stopped: bool,
}

/// Scheduling after the first `count` wanted tiles: each tile that needs a job
/// gets a slot, until there is none.
pub open spec fn scheduled(
    residency: Residency,
    desired: Seq<u32>,
    count: int,
    generation: u64,
    epoch: u64,
) -> Schedule
    decreases count,
{
    if count <= 0 {
        Schedule { residency, jobs: Seq::empty(), evicted: false, stopped: false }
    } else {
        let before = scheduled(residency, desired, count - 1, generation, epoch);
        let tile = desired[count - 1];
        if before.stopped || !before.residency.needs_job(tile) {
            before
        } else {
            match before.residency.slot_for_tile(desired) {
                None => Schedule { stopped: true, ..before },
                Some(slot) => Schedule {
                    residency: before.residency.reserved(slot, tile, epoch),
                    jobs: before.jobs.push(
                        TileJob { generation, logical_tile: tile, slot: slot as u32 },
                    ),
                    evicted: before.evicted || before.residency.slots[slot] is Some,
                    stopped: false,
                },
            }
        }
    }
}

/// The time stamps after the loaded ones of the first `count` wanted tiles were
/// used.
pub open spec fn touched(
    mapping: Seq<u32>,
    last_used: Seq<u64>,
    desired: Seq<u32>,
    count: int,
    epoch: u64,
) -> Seq<u64>
    decreases count,
{
    if count <= 0 {
        last_used
    } else {
        let before = touched(mapping, last_used, desired, count - 1, epoch);
        let slot = mapping[desired[count - 1] as int];
        if slot != MISSING_TILE_SLOT {
            before.update(slot as int, epoch)
        } else {
            before
        }
    }
}

/// How many of the first `count` wanted tiles are loaded.
pub open spec fn loaded_tiles(mapping: Seq<u32>, desired: Seq<u32>, count: int) -> nat
    decreases count,
{
    if count <= 0 {
        0
    } else {
        loaded_tiles(mapping, desired, count - 1) + (if mapping[desired[count - 1] as int]
            != MISSING_TILE_SLOT {
            1nat
        } else {
            0nat
        })
    }
}

/// The bits of `1.0 / minification` in double precision.
pub open spec fn reciprocal_bits(minification: int) -> u64 {
    if minification == 0 {
        0x7ff0_0000_0000_0000
    } else if minification == 1 {
        0x3ff0_0000_0000_0000
    } else if minification == 2 {
        0x3fe0_0000_0000_0000
    } else if minification == 3 {
        0x3fd5_5555_5555_5555
    } else if minification == 4 {
        0x3fd0_0000_0000_0000
    } else if minification == 5 {
        0x3fc9_9999_9999_999a
    } else if minification == 6 {
        0x3fc5_5555_5555_5555
    } else if minification == 7 {
        0x3fc2_4924_9249_2492
    } else {
        0x3fc0_0000_0000_0000
    }
}

/// Tiles that a view wants, in the order in which they are to be loaded, and
/// the center of that view as double-precision bits.
#[derive(Debug)]
pub struct WantedTiles {
    pub tiles: Vec<u32>,
    pub center: (u64, u64),
}

/// GPU tile residency state.
///
/// `mapping[logical_tile]` names its resident slot, or
/// [`MISSING_TILE_SLOT`]. `slot_tiles[slot] = Some(logical_tile)` reserves a
/// slot for either a pending load or a resident tile; it is resident only when
/// the reverse `mapping` entry points back to that slot. `last_used` has one
/// entry per slot. Generations let the worker reject stale jobs before their
/// reserved slots can become resident.
#[derive(Debug)]
pub struct TileCache {
    pub mapping: Vec<u32>,
    pub slot_tiles: Vec<Option<u32>>,
    pub last_used: Vec<u64>,
    pub epoch: u64,
    pub hits: u64,
    pub misses: u64,
    pub tile_columns: u32,
    pub tile_rows: u32,
    pub coarse_downsample: u32,
    pub desired_tiles: Vec<u32>,
    pub request_generation: u64,
    pub last_view_center: Option<(u64, u64)>,
}

/// What the end of a job means for the presentation.
#[derive(Clone, Copy, Debug, PartialEq, Eq, Structural)]
pub enum TileProgress {
    Shown,
    Unchanged,
    Failed,
}

/// The tiles that a view wants; none where it is served by the coarse image.
pub open spec fn wanted_tiles(wanted: Option<WantedTiles>) -> Seq<u32> {
    match wanted {
        Some(next) => next.tiles@,
        None => Seq::empty(),
    }
}

/// The center of a view that wants tiles.
pub open spec fn wanted_center(wanted: Option<WantedTiles>) -> Option<(u64, u64)> {
    match wanted {
        Some(next) => Some(next.center),
        None => None,
    }
}

/// How a view request changes the cache and the worker's queue.
pub open spec fn view_requested(
    before: TileCache,
    worker: TileWorkerState,
    wanted: Seq<u32>,
    center: Option<(u64, u64)>,
    after: TileCache,
    worker_after: TileWorkerState,
    evicted: bool,
) -> bool {
    let epoch = before.epoch.wrapping_add(1);
    let generation = before.request_generation.wrapping_add(1);
    &&& after.tile_columns == before.tile_columns
    &&& after.tile_rows == before.tile_rows
    &&& after.coarse_downsample == before.coarse_downsample
    &&& if !before.active() {
        &&& after == before
        &&& worker_after == worker
        &&& !evicted
    } else if tiles::is_same_tile_set(before.desired_tiles@, wanted) {
        &&& after.epoch == epoch
        &&& after.last_view_center == center
        &&& after.request_generation == before.request_generation
        &&& after.desired_tiles@ == before.desired_tiles@
        &&& after.mapping@ == before.mapping@
        &&& after.slot_tiles@ == before.slot_tiles@
        &&& after.last_used@ == touched(
            before.mapping@,
            before.last_used@,
            before.desired_tiles@,
            before.desired_tiles@.len() as int,
            epoch,
        )
        &&& after.hits == numeric::saturated(
            before.hits + loaded_tiles(
                before.mapping@,
                before.desired_tiles@,
                before.desired_tiles@.len() as int,
            ),
        )
        &&& after.misses == before.misses
        &&& worker_after == worker
        &&& !evicted
    } else {
        let freed = before.residency().all_released(worker.pending@);
        let used = Residency {
            last_used: touched(
                freed.mapping,
                freed.last_used,
                wanted,
                wanted.len() as int,
                epoch,
            ),
            ..freed
        };
        let schedule = scheduled(used, wanted, wanted.len() as int, generation, epoch);
        &&& after.epoch == epoch
        &&& after.last_view_center == center
        &&& after.request_generation == generation
        &&& after.desired_tiles@ == wanted
        &&& after.hits == numeric::saturated(
            before.hits + loaded_tiles(freed.mapping, wanted, wanted.len() as int),
        )
        &&& after.misses == numeric::saturated(before.misses + schedule.jobs.len())
        &&& worker_after.generation == generation
        &&& evicted == schedule.evicted
        &&& if worker.shutdown {
            &&& after.residency() == schedule.residency.all_released(schedule.jobs)
            &&& worker_after.pending@ == Seq::<TileJob>::empty()
        } else {
            &&& after.residency() == schedule.residency
            &&& worker_after.pending@ == schedule.jobs
        }
    }
}

/// Why a tile cache cannot be made.
#[derive(Clone, Copy, Debug, PartialEq, Eq, Structural)]
pub enum TileCacheError {
    LogicalTileCount,
    WorkerStopped,
}

impl TileCacheError {
    /// The message shown for the error.
    pub fn message(self) -> (message: &'static str)
        ensures
            message@ == (match self {
                TileCacheError::LogicalTileCount => "logical tile count overflowed"@,
                TileCacheError::WorkerStopped => "the tile-cache worker stopped unexpectedly"@,
            }),
    {
        match self {
            TileCacheError::LogicalTileCount => "logical tile count overflowed",
            TileCacheError::WorkerStopped => "the tile-cache worker stopped unexpectedly",
        }
    }
}

impl TileCache {
    /// Which slot holds which tile.
    pub open spec fn residency(&self) -> Residency {
        Residency {
            mapping: self.mapping@,
            slots: self.slot_tiles@,
            last_used: self.last_used@,
        }
    }

    /// The invariant of the cache: its residency is consistent, it has one
    /// mapping entry per tile of the image, and it wants tiles of the image.
    pub open spec fn wf(&self) -> bool {
        &&& self.residency().wf()
        &&& self.active() ==> self.mapping@.len() == self.tile_columns * self.tile_rows
        &&& forall|i: int|
            #![trigger self.desired_tiles@[i]]
            0 <= i < self.desired_tiles@.len() ==> self.desired_tiles@[i] < self.mapping@.len()
    }

    /// The cache serves an image.
    pub open spec fn active(&self) -> bool {
        self.tile_columns != 0 && self.tile_rows != 0
    }

    /// Everything but the residency, the counters and the queue stays.
    pub open spec fn same_request(&self, other: &TileCache) -> bool {
        &&& self.epoch == other.epoch
        &&& self.tile_columns == other.tile_columns
        &&& self.tile_rows == other.tile_rows
        &&& self.coarse_downsample == other.coarse_downsample
        &&& self.desired_tiles@ == other.desired_tiles@
        &&& self.request_generation == other.request_generation
        &&& self.last_view_center == other.last_view_center
    }

    /// A cache that holds no tile: only the coarse image is shown.
    pub fn fallback() -> (cache: TileCache)
        ensures
            cache.wf(),
            !cache.active(),
            cache.tile_columns == 0,
            cache.tile_rows == 0,
            cache.mapping@ == seq![MISSING_TILE_SLOT],
            cache.slot_tiles@ == seq![None::<u32>],
            cache.last_used@ == seq![0u64],
            cache.desired_tiles@ == Seq::<u32>::empty(),
            cache.coarse_downsample == 1,
            cache.epoch == 0 && cache.hits == 0 && cache.misses == 0,
            cache.request_generation == 0,
            cache.last_view_center is None,
    {
        let mut mapping: Vec<u32> = Vec::new();
        mapping.push(MISSING_TILE_SLOT);
        let mut slot_tiles: Vec<Option<u32>> = Vec::new();
        slot_tiles.push(None);
        let mut last_used: Vec<u64> = Vec::new();
        last_used.push(0);
        TileCache {
            mapping,
            slot_tiles,
            last_used,
            epoch: 0,
            hits: 0,
            misses: 0,
            tile_columns: 0,
            tile_rows: 0,
            coarse_downsample: 1,
            desired_tiles: Vec::new(),
            request_generation: 0,
            last_view_center: None,
        }
    }

    /// The slots of a cache for an image; none where only the coarse image can
    /// be shown.
    pub fn plan_capacity(
        tile_columns: u32,
        tile_rows: u32,
        maximum_tile_bytes: u64,
        viewport_dimensions: (u32, u32),
        maximum_array_layers: u32,
    ) -> (capacity: Result<u32, TileCacheError>)
        ensures
            capacity is Err <==> tile_columns * tile_rows > u32::MAX,
            capacity is Err ==> capacity == Err::<u32, TileCacheError>(
                TileCacheError::LogicalTileCount,
            ),
            capacity matches Ok(slots) ==> tiles::is_largest_capacity(
                slots as int,
                numeric::smaller(
                    numeric::smaller(
                        tile_columns * tile_rows,
                        tiles::working_set_tiles(
                            viewport_dimensions.0 as int,
                            viewport_dimensions.1 as int,
                        ),
                    ),
                    maximum_array_layers as int,
                ),
                maximum_tile_bytes as int,
            ),
    {
        match tile_columns.checked_mul(tile_rows) {
            Some(logical_tiles) => Ok(
                working_set_capacity(
                    logical_tiles,
                    viewport_dimensions,
                    maximum_tile_bytes,
                    maximum_array_layers,
                ),
            ),
            None => Err(TileCacheError::LogicalTileCount),
        }
    }

    /// A cache of `capacity` free slots for an image; without a slot, the one
    /// that holds no tile.
    pub fn with_capacity(
        tile_columns: u32,
        tile_rows: u32,
        coarse_downsample: u32,
        capacity: u32,
    ) -> (cache: TileCache)
        requires
            tile_columns * tile_rows <= u32::MAX,
        ensures
            cache.wf(),
            capacity == 0 ==> {
                &&& !cache.active()
                &&& cache.tile_columns == 0
                &&& cache.tile_rows == 0
                &&& cache.coarse_downsample == 1
                &&& cache.mapping@ == seq![MISSING_TILE_SLOT]
                &&& cache.slot_tiles@ == seq![None::<u32>]
                &&& cache.last_used@ == seq![0u64]
            },
            capacity > 0 ==> {
                &&& cache.tile_columns == tile_columns
                &&& cache.tile_rows == tile_rows
                &&& cache.coarse_downsample == coarse_downsample
                &&& cache.mapping@ == Seq::new(
                    (tile_columns * tile_rows) as nat,
                    |i: int| MISSING_TILE_SLOT,
                )
                &&& cache.slot_tiles@ == Seq::new(capacity as nat, |i: int| None::<u32>)
                &&& cache.last_used@ == Seq::new(capacity as nat, |i: int| 0u64)
            },
            cache.desired_tiles@ == Seq::<u32>::empty(),
            cache.epoch == 0 && cache.hits == 0 && cache.misses == 0,
            cache.request_generation == 0,
            cache.last_view_center is None,
    {
        if capacity == 0 {
            return TileCache::fallback();
        }
        let logical_tiles: u32 = tile_columns * tile_rows;
        let cache = TileCache {
            mapping: vec![MISSING_TILE_SLOT; usize_from_u32(logical_tiles)],
            slot_tiles: vec![None; usize_from_u32(capacity)],
            last_used: vec![0u64; usize_from_u32(capacity)],
            epoch: 0,
            hits: 0,
            misses: 0,
            tile_columns,
            tile_rows,
            coarse_downsample,
            desired_tiles: Vec::new(),
            request_generation: 0,
            last_view_center: None,
        };
        assert(cache.mapping@ =~= Seq::new(logical_tiles as nat, |i: int| MISSING_TILE_SLOT));
        assert(cache.slot_tiles@ =~= Seq::new(capacity as nat, |i: int| None::<u32>));
        assert(cache.last_used@ =~= Seq::new(capacity as nat, |i: int| 0u64));
        cache
    }

    /// Whether the cache serves an image.
    pub fn is_active(&self) -> (active: bool)
        ensures
            active == self.active(),
    {
        self.tile_columns != 0 && self.tile_rows != 0
    }

    /// The tiles in one row of the image.
    pub fn tile_columns(&self) -> (columns: u32)
        ensures
            columns == self.tile_columns,
    {
        self.tile_columns
    }

    /// The slots of an active cache.
    pub fn capacity(&self) -> (capacity: u32)
        requires
            self.wf(),
        ensures
            capacity == (if self.active() {
                self.slot_tiles@.len()
            } else {
                0
            }),
    {
        if self.is_active() {
            self.slot_tiles.len() as u32
        } else {
            0
        }
    }

    /// The budget charge of an active cache's tile array.
    pub fn gpu_bytes(&self) -> (bytes: u64)
        requires
            self.wf(),
        ensures
            bytes == (if self.active() {
                tiles::tile_array_budget(self.slot_tiles@.len() as int)
            } else {
                0
            }),
    {
        if self.is_active() {
            tile_array_budget_bytes(self.capacity())
        } else {
            0
        }
    }

    /// Whether a slot holds a tile whose mapping entry points back to it.
    fn slot_is_resident(&self, slot: usize) -> (resident: bool)
        requires
            self.wf(),
            slot < self.slot_tiles@.len(),
        ensures
            resident == self.residency().is_resident(slot as int),
    {
        match self.slot_tiles[slot] {
            Some(tile) => {
                assert(self.residency().slots[slot as int] is Some);
                self.mapping[usize_from_u32(tile)] == slot as u32
            },
            None => false,
        }
    }

    /// How much of the working set is loaded.
    pub fn status(&self) -> (status: String)
        requires
            self.wf(),
        ensures
            status@ == (if self.active() {
                text::decimal(self.residency().resident_slots(self.slot_tiles@.len() as int))
                    + " of "@ + text::decimal(self.slot_tiles@.len())
                    + " working-set slots resident"@
            } else {
                "coarse-only"@
            }),
    {
        let mut status = String::new();
        if self.is_active() {
            let mut resident: usize = 0;
            let mut slot: usize = 0;
            while slot < self.slot_tiles.len()
                invariant
                    self.wf(),
                    slot <= self.slot_tiles@.len(),
                    resident <= slot,
                    resident == self.residency().resident_slots(slot as int),
                decreases self.slot_tiles@.len() - slot,
            {
                if self.slot_is_resident(slot) {
                    resident = resident + 1;
                }
                slot = slot + 1;
            }
            push_decimal(&mut status, resident as u64);
            push_text(&mut status, " of ");
            push_decimal(&mut status, self.slot_tiles.len() as u64);
            push_text(&mut status, " working-set slots resident");
        } else {
            push_text(&mut status, "coarse-only");
        }
        assert(status@ =~= (if self.active() {
            text::decimal(self.residency().resident_slots(self.slot_tiles@.len() as int))
                + " of "@ + text::decimal(self.slot_tiles@.len()) + " working-set slots resident"@
        } else {
            "coarse-only"@
        }));
        status
    }

    /// Whether a view is magnified enough for the tiles to add detail. `scale`
    /// is the view's scale as double-precision bits.
    pub fn should_sample(&self, scale: Option<u64>) -> (sample: bool)
        ensures
            sample == self.samples(scale),
    {
        if !self.is_active() {
            return false;
        }
        match scale {
            Some(scale) => {
                let minification: u32 = min_u32(self.coarse_downsample, TILE_GUTTER);
                let reciprocal: u64 = if minification == 0 {
                    0x7ff0_0000_0000_0000
                } else if minification == 1 {
                    0x3ff0_0000_0000_0000
                } else if minification == 2 {
                    0x3fe0_0000_0000_0000
                } else if minification == 3 {
                    0x3fd5_5555_5555_5555
                } else if minification == 4 {
                    0x3fd0_0000_0000_0000
                } else if minification == 5 {
                    0x3fc9_9999_9999_999a
                } else if minification == 6 {
                    0x3fc5_5555_5555_5555
                } else if minification == 7 {
                    0x3fc2_4924_9249_2492
                } else {
                    0x3fc0_0000_0000_0000
                };
                is_less64(reciprocal, scale)
            },
            None => false,
        }
    }

    /// A view is magnified beyond what the coarse image and the tiles' gutters
    /// serve.
    pub open spec fn samples(&self, scale: Option<u64>) -> bool {
        self.active() && (scale matches Some(scale) && float_bits::less64(
            reciprocal_bits(
                numeric::smaller(self.coarse_downsample as int, TILE_GUTTER as int),
            ),
            scale,
        ))
    }

    /// Marks the loaded ones of the wanted tiles as used.
    pub fn touch_resident_tiles(&mut self)
        requires
            old(self).wf(),
        ensures
            final(self).wf(),
            final(self).same_request(old(self)),
            final(self).mapping@ == old(self).mapping@,
            final(self).slot_tiles@ == old(self).slot_tiles@,
            final(self).misses == old(self).misses,
            final(self).last_used@ == touched(
                old(self).mapping@,
                old(self).last_used@,
                old(self).desired_tiles@,
                old(self).desired_tiles@.len() as int,
                old(self).epoch,
            ),
            final(self).hits == numeric::saturated(
                old(self).hits + loaded_tiles(
                    old(self).mapping@,
                    old(self).desired_tiles@,
                    old(self).desired_tiles@.len() as int,
                ),
            ),
    {
        let mut index: usize = 0;
        while index < self.desired_tiles.len()
            invariant
                index <= self.desired_tiles@.len(),
                self.wf(),
                self.same_request(old(self)),
                self.mapping@ == old(self).mapping@,
                self.slot_tiles@ == old(self).slot_tiles@,
                self.misses == old(self).misses,
                self.last_used@ == touched(
                    old(self).mapping@,
                    old(self).last_used@,
                    old(self).desired_tiles@,
                    index as int,
                    old(self).epoch,
                ),
                self.hits == numeric::saturated(
                    old(self).hits + loaded_tiles(
                        old(self).mapping@,
                        old(self).desired_tiles@,
                        index as int,
                    ),
                ),
            decreases self.desired_tiles@.len() - index,
        {
            let slot: u32 = self.mapping[usize_from_u32(self.desired_tiles[index])];
            if slot != MISSING_TILE_SLOT {
                self.hits = self.hits.saturating_add(1);
                self.last_used.set(usize_from_u32(slot), self.epoch);
            }
            index = index + 1;
        }
    }

    /// Frees the slot of a job that was given up, unless its tile was loaded or
    /// the slot given to another one.
    pub fn release_loading_job(&mut self, job: TileJob)
        requires
            old(self).wf(),
        ensures
            final(self).wf(),
            final(self).same_request(old(self)),
            final(self).hits == old(self).hits,
            final(self).misses == old(self).misses,
            final(self).residency() == old(self).residency().released(job),
    {
        let slot: usize = usize_from_u32(job.slot);
        if slot < self.slot_tiles.len() {
            match self.slot_tiles[slot] {
                Some(tile) => {
                    assert(self.residency().slots[slot as int] is Some);
                    if tile == job.logical_tile && self.mapping[usize_from_u32(tile)]
                        == MISSING_TILE_SLOT {
                        self.slot_tiles.set(slot, None);
                    }
                },
                None => {},
            }
        }
        assert(self.residency().slots =~= old(self).residency().released(job).slots);
    }

    /// The slot for another tile: a free one if there is one, else the least
    /// recently used one whose tile is not wanted.
    fn find_slot(&self, desired: &HashSet<u32>) -> (slot: Option<usize>)
        requires
            self.wf(),
            desired@ == self.desired_tiles@.to_set(),
        ensures
            slot matches Some(found) ==> found < self.slot_tiles@.len()
                && self.residency().slot_for_tile(self.desired_tiles@) == Some(found as int),
            slot is None ==> self.residency().slot_for_tile(self.desired_tiles@) is None,
    {
        broadcast use group_hash_axioms;

        let mut slot: usize = 0;
        while slot < self.slot_tiles.len()
            invariant
                slot <= self.slot_tiles@.len(),
                self.residency().first_free(0) == self.residency().first_free(slot as int),
            decreases self.slot_tiles@.len() - slot,
        {
            if self.slot_tiles[slot].is_none() {
                return Some(slot);
            }
            slot = slot + 1;
        }
        let mut best: Option<usize> = None;
        let mut candidate: usize = 0;
        while candidate < self.slot_tiles.len()
            invariant
                self.wf(),
                desired@ == self.desired_tiles@.to_set(),
                candidate <= self.slot_tiles@.len(),
                match best {
                    Some(found) => found < candidate && self.residency().least_recent(
                        self.desired_tiles@,
                        candidate as int,
                    ) == Some(found as int),
                    None => self.residency().least_recent(self.desired_tiles@, candidate as int)
                        is None,
                },
            decreases self.slot_tiles@.len() - candidate,
        {
            if self.slot_is_resident(candidate) {
                if let Some(tile) = self.slot_tiles[candidate] {
                    if !desired.contains(&tile) {
                        match best {
                            Some(found) => {
                                if self.last_used[candidate] < self.last_used[found] {
                                    best = Some(candidate);
                                }
                            },
                            None => {
                                best = Some(candidate);
                            },
                        }
                    }
                }
            }
            candidate = candidate + 1;
        }
        best
    }

    /// Gives slots to the wanted tiles that are neither loaded nor being loaded,
    /// queues their jobs, and frees the slots of the jobs that the worker does
    /// not take. Returns whether a loaded tile was evicted.
    pub fn schedule_missing(&mut self, worker: &mut TileWorkerState, generation: u64) -> (evicted:
        bool)
        requires
            old(self).wf(),
        ensures
            final(self).wf(),
            final(self).same_request(old(self)),
            final(self).hits == old(self).hits,
            final(worker).generation == old(worker).generation,
            final(worker).shutdown == old(worker).shutdown,
            ({
                let schedule = scheduled(
                    old(self).residency(),
                    old(self).desired_tiles@,
                    old(self).desired_tiles@.len() as int,
                    generation,
                    old(self).epoch,
                );
                &&& evicted == schedule.evicted
                &&& final(self).misses == numeric::saturated(
                    old(self).misses + schedule.jobs.len(),
                )
                &&& if accepts_jobs(*old(worker), generation) {
                    &&& final(self).residency() == schedule.residency
                    &&& final(worker).pending@ == old(worker).pending@ + schedule.jobs
                } else {
                    &&& final(self).residency() == schedule.residency.all_released(schedule.jobs)
                    &&& final(worker).pending@ == old(worker).pending@
                }
            }),
    {
        let desired_set: HashSet<u32> = tile_set(&self.desired_tiles);
        let mut jobs: Vec<TileJob> = Vec::new();
        let mut evicted: bool = false;
        let mut stopped: bool = false;
        let mut index: usize = 0;
        while index < self.desired_tiles.len() && !stopped
            invariant
                index <= self.desired_tiles@.len(),
                self.wf(),
                self.same_request(old(self)),
                self.hits == old(self).hits,
                desired_set@ == self.desired_tiles@.to_set(),
                ({
                    let schedule = scheduled(
                        old(self).residency(),
                        old(self).desired_tiles@,
                        index as int,
                        generation,
                        old(self).epoch,
                    );
                    &&& evicted == schedule.evicted
                    &&& stopped == schedule.stopped
                    &&& jobs@ == schedule.jobs
                    &&& self.residency() == schedule.residency
                    &&& self.misses == numeric::saturated(
                        old(self).misses + schedule.jobs.len(),
                    )
                }),
            decreases self.desired_tiles@.len() - index,
        {
            let logical_tile: u32 = self.desired_tiles[index];
            let ghost before = self.residency();
            if self.mapping[usize_from_u32(logical_tile)] == MISSING_TILE_SLOT && !holds_tile(
                &self.slot_tiles,
                logical_tile,
            ) {
                match self.find_slot(&desired_set) {
                    Some(slot) => {
                        proof {
                            lemma_reserving_keeps_residency(
                                before,
                                self.desired_tiles@,
                                logical_tile,
                                self.epoch,
                            );
                        }
                        if let Some(tile) = self.slot_tiles[slot] {
                            assert(before.slots[slot as int] is Some);
                            self.mapping.set(usize_from_u32(tile), MISSING_TILE_SLOT);
                            evicted = true;
                        }
                        self.slot_tiles.set(slot, Some(logical_tile));
                        self.last_used.set(slot, self.epoch);
                        self.misses = self.misses.saturating_add(1);
                        jobs.push(TileJob { generation, logical_tile, slot: slot as u32 });
                        assert(self.residency() == before.reserved(
                            slot as int,
                            logical_tile,
                            self.epoch,
                        ));
                    },
                    None => {
                        stopped = true;
                    },
                }
            }
            index = index + 1;
        }
        proof {
            if stopped {
                lemma_stopped_schedule_stays(
                    old(self).residency(),
                    old(self).desired_tiles@,
                    index as int,
                    old(self).desired_tiles@.len() as int,
                    generation,
                    old(self).epoch,
                );
            }
        }
        let rejected: Vec<TileJob> = worker.append(generation, jobs);
        self.release_jobs(&rejected);
        evicted
    }

    /// Makes the tiles of a view the wanted ones: a new generation replaces the
    /// queued jobs unless the same tiles were wanted before. Returns whether a
    /// loaded tile was evicted.
    pub fn request_view(
        &mut self,
        worker: &mut TileWorkerState,
        wanted: Option<WantedTiles>,
    ) -> (evicted: bool)
        requires
            old(self).wf(),
            wanted matches Some(next) ==> forall|i: int|
                0 <= i < next.tiles@.len() ==> #[trigger] next.tiles@[i] < old(self).mapping@.len(),
        ensures
            final(self).wf(),
            final(worker).shutdown == old(worker).shutdown,
            view_requested(
                *old(self),
                *old(worker),
                wanted_tiles(wanted),
                wanted_center(wanted),
                *final(self),
                *final(worker),
                evicted,
            ),
    {
        if !self.is_active() {
            return false;
        }
        let (next_desired, next_center) = match wanted {
            Some(next) => (next.tiles, Some(next.center)),
            None => (Vec::new(), None),
        };
        assert(next_desired@ =~= wanted_tiles(wanted));
        self.last_view_center = next_center;
        self.epoch = self.epoch.wrapping_add(1);
        if same_tile_set(&self.desired_tiles, &next_desired) {
            self.touch_resident_tiles();
            return false;
        }
        self.request_generation = self.request_generation.wrapping_add(1);
        let generation: u64 = self.request_generation;
        let cancelled: Vec<TileJob> = replace_pending_jobs(worker, generation);
        self.release_jobs(&cancelled);
        proof {
            lemma_releasing_keeps_mapping(old(self).residency(), cancelled@);
        }
        self.desired_tiles = next_desired;
        self.touch_resident_tiles();
        let evicted: bool = self.schedule_missing(worker, generation);
        evicted
    }

    /// Records how a job ended.
    pub fn apply_outcome(&mut self, job: TileJob, outcome: TileOutcome) -> (progress: TileProgress)
        requires
            old(self).wf(),
        ensures
            final(self).wf(),
            final(self).same_request(old(self)),
            final(self).hits == old(self).hits,
            final(self).misses == old(self).misses,
            match outcome {
                TileOutcome::Ready => {
                    &&& final(self).residency() == old(self).residency().loaded(job, old(self).epoch)
                    &&& progress == (if old(self).residency().reserved_for(job) {
                        TileProgress::Shown
                    } else {
                        TileProgress::Unchanged
                    })
                },
                TileOutcome::Cancelled => {
                    &&& final(self).residency() == old(self).residency().released(job)
                    &&& progress == TileProgress::Unchanged
                },
                TileOutcome::Failed => {
                    &&& final(self).residency() == old(self).residency().released(job)
                    &&& progress == (if job.generation == old(self).request_generation {
                        TileProgress::Failed
                    } else {
                        TileProgress::Unchanged
                    })
                },
            },
    {
        match outcome {
            TileOutcome::Ready => {
                let slot: usize = usize_from_u32(job.slot);
                if slot < self.slot_tiles.len() {
                    if let Some(tile) = self.slot_tiles[slot] {
                        assert(self.residency().slots[slot as int] is Some);
                        if tile == job.logical_tile {
                            self.mapping.set(usize_from_u32(tile), job.slot);
                            self.last_used.set(slot, self.epoch);
                            return TileProgress::Shown;
                        }
                    }
                }
                TileProgress::Unchanged
            },
            TileOutcome::Cancelled => {
                self.release_loading_job(job);
                TileProgress::Unchanged
            },
            TileOutcome::Failed => {
                self.release_loading_job(job);
                if job.generation == self.request_generation {
                    TileProgress::Failed
                } else {
                    TileProgress::Unchanged
                }
            },
        }
    }

    /// Frees the slots of several jobs that were given up.
    fn release_jobs(&mut self, jobs: &Vec<TileJob>)
        requires
            old(self).wf(),
        ensures
            final(self).wf(),
            final(self).same_request(old(self)),
            final(self).hits == old(self).hits,
            final(self).misses == old(self).misses,
            final(self).residency() == old(self).residency().all_released(jobs@),
    {
        let mut index: usize = 0;
        assert(jobs@.take(0) =~= Seq::<TileJob>::empty());
        while index < jobs.len()
            invariant
                index <= jobs@.len(),
                self.wf(),
                self.same_request(old(self)),
                self.hits == old(self).hits,
                self.misses == old(self).misses,
                self.residency() == old(self).residency().all_released(jobs@.take(index as int)),
            decreases jobs@.len() - index,
        {
            assert(jobs@.take(index + 1).drop_last() =~= jobs@.take(index as int));
            self.release_loading_job(jobs[index]);
            index = index + 1;
        }
        assert(jobs@.take(jobs@.len() as int) =~= jobs@);
    }
}

/// The tiles of a list as a set.
fn tile_set(tiles: &Vec<u32>) -> (set: HashSet<u32>)
    ensures
        set@ == tiles@.to_set(),
{
    broadcast use group_hash_axioms;

    let mut set: HashSet<u32> = HashSet::new();
    let mut index: usize = 0;
    while index < tiles.len()
        invariant
            index <= tiles@.len(),
            set@ == tiles@.take(index as int).to_set(),
        decreases tiles@.len() - index,
    {
        set.insert(tiles[index]);
        proof {
            let longer = tiles@.take(index + 1);
            let shorter = tiles@.take(index as int);
            assert(longer =~= shorter.push(tiles@[index as int]));
            assert forall|tile: u32| #[trigger] longer.to_set().contains(tile)
                == shorter.to_set().insert(tiles@[index as int]).contains(tile) by {
                if longer.contains(tile) {
                    let i = choose|i: int| 0 <= i < longer.len() && longer[i] == tile;
                    if i < shorter.len() {
                        assert(shorter[i] == tile);
                    }
                }
                if shorter.contains(tile) {
                    let i = choose|i: int| 0 <= i < shorter.len() && shorter[i] == tile;
                    assert(longer[i] == tile);
                }
                assert(longer[index as int] == tiles@[index as int]);
            }
            assert(longer.to_set() =~= shorter.to_set().insert(tiles@[index as int]));
        }
        index = index + 1;
    }
    assert(tiles@.take(tiles@.len() as int) =~= tiles@);
    set
}

/// Whether a slot is reserved for a tile.
fn holds_tile(slots: &Vec<Option<u32>>, tile: u32) -> (found: bool)
    ensures
        found == slots@.contains(Some(tile)),
{
    let mut index: usize = 0;
    while index < slots.len()
        invariant
            index <= slots@.len(),
            forall|i: int| 0 <= i < index ==> slots@[i] != Some(tile),
        decreases slots@.len() - index,
    {
        if let Some(held) = slots[index] {
            if held == tile {
                assert(slots@[index as int] == Some(tile));
                return true;
            }
        }
        index = index + 1;
    }
    false
}

/// The chosen slot exists, and is free or holds a loaded tile that is not
/// wanted.
pub proof fn lemma_chosen_slot(residency: Residency, desired: Seq<u32>)
    ensures
        residency.slot_for_tile(desired) matches Some(slot) ==> {
            &&& 0 <= slot < residency.slots.len()
            &&& residency.slots[slot] is None || residency.is_evictable(slot, desired)
        },
{
    lemma_first_free(residency, 0);
    lemma_least_recent(residency, desired, residency.slots.len() as int);
}

/// The first free slot is free, and those before it are not.
proof fn lemma_first_free(residency: Residency, from: int)
    requires
        0 <= from <= residency.slots.len(),
    ensures
        from <= residency.first_free(from) <= residency.slots.len(),
        residency.first_free(from) < residency.slots.len()
            ==> residency.slots[residency.first_free(from)] is None,
        forall|slot: int|
            #![trigger residency.slots[slot]]
            from <= slot < residency.first_free(from) ==> residency.slots[slot] is Some,
    decreases residency.slots.len() - from,
{
    if from < residency.slots.len() && residency.slots[from] is Some {
        lemma_first_free(residency, from + 1);
    }
}

/// The least recently used slot can be evicted, and no slot that can be evicted
/// was used before it.
proof fn lemma_least_recent(residency: Residency, desired: Seq<u32>, count: int)
    requires
        0 <= count <= residency.slots.len(),
    ensures
        match residency.least_recent(desired, count) {
            Some(best) => {
                &&& 0 <= best < count
                &&& residency.is_evictable(best, desired)
                &&& forall|slot: int|
                    #![trigger residency.is_evictable(slot, desired)]
                    0 <= slot < count && residency.is_evictable(slot, desired)
                        ==> residency.last_used[best] <= residency.last_used[slot]
                &&& forall|slot: int|
                    #![trigger residency.is_evictable(slot, desired)]
                    0 <= slot < best && residency.is_evictable(slot, desired)
                        ==> residency.last_used[best] < residency.last_used[slot]
            },
            None => forall|slot: int|
                #![trigger residency.is_evictable(slot, desired)]
                0 <= slot < count ==> !residency.is_evictable(slot, desired),
        },
    decreases count,
{
    if count > 0 {
        lemma_least_recent(residency, desired, count - 1);
    }
}

/// Reserving the chosen slot for a tile that needs a job keeps the invariant.
proof fn lemma_reserving_keeps_residency(
    residency: Residency,
    desired: Seq<u32>,
    tile: u32,
    epoch: u64,
)
    requires
        residency.wf(),
        tile < residency.mapping.len(),
        residency.needs_job(tile),
        residency.slot_for_tile(desired) is Some,
    ensures
        residency.reserved(residency.slot_for_tile(desired)->0, tile, epoch).wf(),
{
    lemma_chosen_slot(residency, desired);
    let slot = residency.slot_for_tile(desired)->0;
    let after = residency.reserved(slot, tile, epoch);
    assert forall|a: int, b: int|
        #![trigger after.slots[a], after.slots[b]]
        0 <= a < after.slots.len() && 0 <= b < after.slots.len() && after.slots[a] is Some
            && after.slots[a] == after.slots[b] implies a == b by {
        if a != slot && b != slot {
            assert(residency.slots[a] == residency.slots[b]);
        } else if a == slot && b != slot {
            assert(residency.slots[b] == Some(tile));
            assert(residency.slots.contains(Some(tile)));
        } else if b == slot && a != slot {
            assert(residency.slots[a] == Some(tile));
            assert(residency.slots.contains(Some(tile)));
        }
    }
    assert forall|t: int|
        #![trigger after.mapping[t]]
        0 <= t < after.mapping.len() && after.mapping[t] != MISSING_TILE_SLOT implies after.mapping[t]
        < after.slots.len() && after.slots[after.mapping[t] as int] == Some(t as u32) by {
        assert(residency.mapping[t] == after.mapping[t]);
        assert(residency.slots[residency.mapping[t] as int] == Some(t as u32));
        if residency.mapping[t] == slot {
            assert(residency.slots[slot] == Some(t as u32));
        }
    }
}

/// Once scheduling has stopped, the remaining tiles change nothing.
proof fn lemma_stopped_schedule_stays(
    residency: Residency,
    desired: Seq<u32>,
    stop: int,
    count: int,
    generation: u64,
    epoch: u64,
)
    requires
        0 <= stop <= count <= desired.len(),
        scheduled(residency, desired, stop, generation, epoch).stopped,
    ensures
        scheduled(residency, desired, count, generation, epoch) == scheduled(
            residency,
            desired,
            stop,
            generation,
            epoch,
        ),
    decreases count - stop,
{
    if stop < count {
        lemma_stopped_schedule_stays(residency, desired, stop, count - 1, generation, epoch);
    }
}

/// Giving up jobs changes no mapping entry and no time stamp, and keeps the
/// invariant.
pub proof fn lemma_releasing_keeps_mapping(residency: Residency, jobs: Seq<TileJob>)
    ensures
        residency.all_released(jobs).mapping == residency.mapping,
        residency.all_released(jobs).last_used == residency.last_used,
        residency.all_released(jobs).slots.len() == residency.slots.len(),
        forall|slot: int|
            #![trigger residency.all_released(jobs).slots[slot]]
            0 <= slot < residency.slots.len() ==> residency.all_released(jobs).slots[slot]
                == residency.slots[slot] || (residency.all_released(jobs).slots[slot] is None
                && residency.is_loading(slot)),
    decreases jobs.len(),
{
    if jobs.len() > 0 {
        lemma_releasing_keeps_mapping(residency, jobs.drop_last());
    }
}

/// Scheduling keeps the invariant. A wanted tile that is loaded stays loaded in
/// its slot, and a slot whose tile is being loaded stays reserved for it.
pub proof fn scheduling_spares_wanted_and_loading_tiles(
    residency: Residency,
    desired: Seq<u32>,
    count: int,
    generation: u64,
    epoch: u64,
)
    requires
        residency.wf(),
        0 <= count <= desired.len(),
        forall|i: int|
            #![trigger desired[i]]
            0 <= i < desired.len() ==> desired[i] < residency.mapping.len(),
    ensures
        ({
            let after = scheduled(residency, desired, count, generation, epoch).residency;
            &&& after.wf()
            &&& after.mapping.len() == residency.mapping.len()
            &&& after.slots.len() == residency.slots.len()
            &&& forall|tile: u32|
                #![trigger after.mapping[tile as int]]
                tile < residency.mapping.len() && desired.contains(tile)
                    && residency.mapping[tile as int] != MISSING_TILE_SLOT
                    ==> after.mapping[tile as int] == residency.mapping[tile as int]
            &&& forall|slot: int|
                #![trigger after.slots[slot]]
                0 <= slot < residency.slots.len() && residency.is_loading(slot)
                    ==> after.slots[slot] == residency.slots[slot] && after.is_loading(slot)
            &&& forall|tile: int|
                #![trigger after.mapping[tile]]
                0 <= tile < residency.mapping.len() && after.mapping[tile] != MISSING_TILE_SLOT
                    ==> after.mapping[tile] == residency.mapping[tile]
        }),
    decreases count,
{
    if count > 0 {
        scheduling_spares_wanted_and_loading_tiles(
            residency,
            desired,
            count - 1,
            generation,
            epoch,
        );
        let before = scheduled(residency, desired, count - 1, generation, epoch);
        let tile = desired[count - 1];
        if !before.stopped && before.residency.needs_job(tile)
            && before.residency.slot_for_tile(desired) is Some {
            lemma_chosen_slot(before.residency, desired);
            lemma_reserving_keeps_residency(before.residency, desired, tile, epoch);
            let slot = before.residency.slot_for_tile(desired)->0;
            let after = before.residency.reserved(slot, tile, epoch);
            assert(after == scheduled(residency, desired, count, generation, epoch).residency);
            assert forall|loading: int|
                #![trigger after.slots[loading]]
                0 <= loading < residency.slots.len() && residency.is_loading(
                    loading,
                ) implies after.slots[loading] == residency.slots[loading] && after.is_loading(
                loading,
            ) by {
                assert(before.residency.slots[loading] == residency.slots[loading]);
                assert(before.residency.is_loading(loading));
                assert(loading != slot);
            }
            assert forall|wanted: u32|
                #![trigger after.mapping[wanted as int]]
                wanted < residency.mapping.len() && desired.contains(wanted)
                    && residency.mapping[wanted as int] != MISSING_TILE_SLOT implies after.mapping[wanted as int]
                == residency.mapping[wanted as int] by {
                assert(before.residency.mapping[wanted as int]
                    == residency.mapping[wanted as int]);
            }
        }
    }
}

/// Every scheduled job is for a wanted tile, carries the generation, and has a
/// slot of its own that is reserved for its tile and not loaded.
pub proof fn scheduled_jobs_reserve_their_slots(
    residency: Residency,
    desired: Seq<u32>,
    count: int,
    generation: u64,
    epoch: u64,
)
    requires
        residency.wf(),
        0 <= count <= desired.len(),
        forall|i: int|
            #![trigger desired[i]]
            0 <= i < desired.len() ==> desired[i] < residency.mapping.len(),
    ensures
        ({
            let schedule = scheduled(residency, desired, count, generation, epoch);
            forall|j: int|
                #![trigger schedule.jobs[j]]
                0 <= j < schedule.jobs.len() ==> {
                    &&& desired.contains(schedule.jobs[j].logical_tile)
                    &&& schedule.jobs[j].generation == generation
                    &&& schedule.residency.reserved_for(schedule.jobs[j])
                    &&& schedule.residency.is_loading(schedule.jobs[j].slot as int)
                    &&& residency.needs_job(schedule.jobs[j].logical_tile)
                }
        }),
    decreases count,
{
    if count > 0 {
        scheduled_jobs_reserve_their_slots(residency, desired, count - 1, generation, epoch);
        scheduling_spares_wanted_and_loading_tiles(
            residency,
            desired,
            count - 1,
            generation,
            epoch,
        );
        let before = scheduled(residency, desired, count - 1, generation, epoch);
        let tile = desired[count - 1];
        if !before.stopped && before.residency.needs_job(tile)
            && before.residency.slot_for_tile(desired) is Some {
            lemma_chosen_slot(before.residency, desired);
            lemma_reserving_keeps_residency(before.residency, desired, tile, epoch);
            let slot = before.residency.slot_for_tile(desired)->0;
            let schedule = scheduled(residency, desired, count, generation, epoch);
            lemma_unscheduled_tile_needed_a_job(
                residency,
                desired,
                count - 1,
                generation,
                epoch,
                tile,
            );
            assert forall|j: int|
                #![trigger schedule.jobs[j]]
                0 <= j < schedule.jobs.len() implies {
                &&& desired.contains(schedule.jobs[j].logical_tile)
                &&& schedule.jobs[j].generation == generation
                &&& schedule.residency.reserved_for(schedule.jobs[j])
                &&& schedule.residency.is_loading(schedule.jobs[j].slot as int)
                &&& residency.needs_job(schedule.jobs[j].logical_tile)
            } by {
                if j < before.jobs.len() {
                    let job = before.jobs[j];
                    assert(schedule.jobs[j] == job);
                    assert(before.residency.is_loading(job.slot as int));
                    assert(job.slot != slot);
                    assert(schedule.residency.slots[job.slot as int]
                        == before.residency.slots[job.slot as int]);
                } else {
                    assert(schedule.jobs[j] == (TileJob {
                        generation,
                        logical_tile: tile,
                        slot: slot as u32,
                    }));
                }
            }
        }
    }
}

/// A tile that still needs a job while scheduling goes on needed one before it
/// began, if it is wanted.
proof fn lemma_unscheduled_tile_needed_a_job(
    residency: Residency,
    desired: Seq<u32>,
    count: int,
    generation: u64,
    epoch: u64,
    tile: u32,
)
    requires
        residency.wf(),
        0 <= count <= desired.len(),
        forall|i: int|
            #![trigger desired[i]]
            0 <= i < desired.len() ==> desired[i] < residency.mapping.len(),
        desired.contains(tile),
        tile < residency.mapping.len(),
        scheduled(residency, desired, count, generation, epoch).residency.needs_job(tile),
    ensures
        residency.needs_job(tile),
{
    scheduling_spares_wanted_and_loading_tiles(residency, desired, count, generation, epoch);
    let after = scheduled(residency, desired, count, generation, epoch).residency;
    if residency.mapping[tile as int] != MISSING_TILE_SLOT {
        assert(after.mapping[tile as int] == residency.mapping[tile as int]);
    } else if residency.slots.contains(Some(tile)) {
        let slot = choose|slot: int|
            0 <= slot < residency.slots.len() && residency.slots[slot] == Some(tile);
        assert(residency.is_loading(slot));
        assert(after.slots[slot] == Some(tile));
    }
}

/// Unless the slots run out, every wanted tile is loaded or being loaded once
/// scheduling is done.
pub proof fn scheduling_serves_every_wanted_tile(
    residency: Residency,
    desired: Seq<u32>,
    count: int,
    generation: u64,
    epoch: u64,
    index: int,
)
    requires
        residency.wf(),
        0 <= index < count <= desired.len(),
        forall|i: int|
            #![trigger desired[i]]
            0 <= i < desired.len() ==> desired[i] < residency.mapping.len(),
        !scheduled(residency, desired, count, generation, epoch).stopped,
    ensures
        !scheduled(residency, desired, count, generation, epoch).residency.needs_job(
            desired[index],
        ),
    decreases count,
{
    let before = scheduled(residency, desired, count - 1, generation, epoch);
    let after = scheduled(residency, desired, count, generation, epoch);
    let tile = desired[count - 1];
    scheduling_spares_wanted_and_loading_tiles(
        residency,
        desired,
        count - 1,
        generation,
        epoch,
    );
    if before.residency.needs_job(tile) {
        lemma_chosen_slot(before.residency, desired);
        let slot = before.residency.slot_for_tile(desired)->0;
        assert(after.residency.slots[slot] == Some(tile));
        assert(after.residency.slots.contains(Some(tile)));
        if index < count - 1 {
            scheduling_serves_every_wanted_tile(
                residency,
                desired,
                count - 1,
                generation,
                epoch,
                index,
            );
            let other = desired[index];
            assert(desired.contains(other));
            if before.residency.mapping[other as int] != MISSING_TILE_SLOT {
                assert(after.residency.mapping[other as int]
                    == before.residency.mapping[other as int]);
            } else {
                let held = choose|held: int|
                    0 <= held < before.residency.slots.len() && before.residency.slots[held]
                        == Some(other);
                assert(before.residency.is_loading(held));
                assert(held != slot);
                assert(after.residency.slots[held] == Some(other));
            }
        }
    } else if index < count - 1 {
        scheduling_serves_every_wanted_tile(
            residency,
            desired,
            count - 1,
            generation,
            epoch,
            index,
        );
    }
}

/// A tile is evicted only where no slot is free, and then it is a loaded one
/// that is not wanted and that no other such tile was used before.
pub proof fn eviction_takes_the_least_recent_unwanted_tile(
    residency: Residency,
    desired: Seq<u32>,
    slot: int,
)
    requires
        residency.slot_for_tile(desired) == Some(slot),
        residency.slots[slot] is Some,
    ensures
        forall|other: int|
            #![trigger residency.slots[other]]
            0 <= other < residency.slots.len() ==> residency.slots[other] is Some,
        residency.is_evictable(slot, desired),
        forall|other: int|
            #![trigger residency.is_evictable(other, desired)]
            0 <= other < residency.slots.len() && residency.is_evictable(other, desired)
                ==> residency.last_used[slot] <= residency.last_used[other],
{
    lemma_first_free(residency, 0);
    lemma_least_recent(residency, desired, residency.slots.len() as int);
}

/// Jobs that are handed back leave no reservation behind: once given up, the
/// slot of each is free.
pub proof fn rejected_jobs_free_their_slots(
    residency: Residency,
    jobs: Seq<TileJob>,
    index: int,
)
    requires
        0 <= index < jobs.len(),
        forall|j: int|
            #![trigger jobs[j]]
            0 <= j < jobs.len() ==> residency.reserved_for(jobs[j]) && residency.is_loading(
                jobs[j].slot as int,
            ),
    ensures
        residency.all_released(jobs).slots[jobs[index].slot as int] is None,
    decreases jobs.len(),
{
    let head = jobs.drop_last();
    assert forall|j: int|
        #![trigger head[j]]
        0 <= j < head.len() implies residency.reserved_for(head[j]) && residency.is_loading(
        head[j].slot as int,
    ) by {
        assert(head[j] == jobs[j]);
    }
    lemma_releasing_keeps_mapping(residency, head);
    let last = jobs.last();
    assert(last == jobs[jobs.len() - 1]);
    let freed = residency.all_released(head);
    if index < jobs.len() - 1 {
        rejected_jobs_free_their_slots(residency, head, index);
        assert(head[index] == jobs[index]);
    } else {
        assert(freed.slots[last.slot as int] == residency.slots[last.slot as int]
            || freed.slots[last.slot as int] is None);
    }
}

/// Using tiles renews the time stamps of exactly those of them that are loaded:
/// the slot of each gets the given time, and every other slot keeps its own.
pub proof fn used_tiles_get_a_new_time_stamp(
    residency: Residency,
    desired: Seq<u32>,
    count: int,
    epoch: u64,
)
    requires
        residency.wf(),
        0 <= count <= desired.len(),
        forall|i: int|
            #![trigger desired[i]]
            0 <= i < desired.len() ==> desired[i] < residency.mapping.len(),
    ensures
        ({
            let stamps = touched(residency.mapping, residency.last_used, desired, count, epoch);
            &&& stamps.len() == residency.last_used.len()
            &&& forall|i: int|
                #![trigger desired[i]]
                0 <= i < count && residency.mapping[desired[i] as int] != MISSING_TILE_SLOT
                    ==> stamps[residency.mapping[desired[i] as int] as int] == epoch
            &&& forall|slot: int|
                #![trigger stamps[slot]]
                0 <= slot < stamps.len() && (forall|i: int|
                    #![trigger desired[i]]
                    0 <= i < count ==> residency.mapping[desired[i] as int] != slot)
                    ==> stamps[slot] == residency.last_used[slot]
        }),
    decreases count,
{
    if count > 0 {
        used_tiles_get_a_new_time_stamp(residency, desired, count - 1, epoch);
        let before = touched(residency.mapping, residency.last_used, desired, count - 1, epoch);
        let stamps = touched(residency.mapping, residency.last_used, desired, count, epoch);
        let slot = residency.mapping[desired[count - 1] as int];
        assert(residency.mapping[desired[count - 1] as int] != MISSING_TILE_SLOT
            ==> residency.mapping[desired[count - 1] as int] < residency.slots.len());
        assert forall|other: int|
            #![trigger stamps[other]]
            0 <= other < stamps.len() && (forall|i: int|
                #![trigger desired[i]]
                0 <= i < count ==> residency.mapping[desired[i] as int] != other) implies stamps[other]
            == residency.last_used[other] by {
            assert(residency.mapping[desired[count - 1] as int] != other);
            assert(before[other] == residency.last_used[other]);
        }
    }
}

/// How many of the wanted tiles are loaded is a plain count of them.
pub proof fn hits_count_the_loaded_tiles(mapping: Seq<u32>, desired: Seq<u32>, count: int)
    requires
        0 <= count <= desired.len(),
    ensures
        loaded_tiles(mapping, desired, count) == desired.take(count).filter(
            |tile: u32| mapping[tile as int] != MISSING_TILE_SLOT,
        ).len(),
    decreases count,
{
    let is_loaded = |tile: u32| mapping[tile as int] != MISSING_TILE_SLOT;
    reveal(Seq::filter);
    if count > 0 {
        hits_count_the_loaded_tiles(mapping, desired, count - 1);
        assert(desired.take(count).drop_last() =~= desired.take(count - 1));
        assert(desired.take(count).last() == desired[count - 1]);
    } else {
        assert(desired.take(0) =~= Seq::<u32>::empty());
    }
}

/// How many slots are resident is a plain count of them.
pub proof fn resident_slots_are_counted(residency: Residency, count: int)
    requires
        0 <= count,
    ensures
        residency.resident_slots(count) == Seq::new(count as nat, |slot: int| slot).filter(
            |slot: int| residency.slots[slot] is Some && residency.mapping[(
            residency.slots[slot]->0) as int] == slot,
        ).len(),
    decreases count,
{
    reveal(Seq::filter);
    let numbers = Seq::new(count as nat, |slot: int| slot);
    if count > 0 {
        resident_slots_are_counted(residency, count - 1);
        assert(numbers.drop_last() =~= Seq::new((count - 1) as nat, |slot: int| slot));
        assert(numbers.last() == count - 1);
    } else {
        assert(numbers =~= Seq::<int>::empty());
    }
}

/// A finished job makes its tile resident in its slot, and stamps the slot with the
/// time; nothing else changes. A job whose slot was given to another tile changes
/// nothing.
pub proof fn finished_jobs_show_their_tile(residency: Residency, job: TileJob, epoch: u64)
    requires
        residency.wf(),
    ensures
        ({
            let after = residency.loaded(job, epoch);
            let slot = job.slot as int;
            if slot < residency.slots.len() && residency.slots[slot] == Some(job.logical_tile) {
                &&& after.mapping[job.logical_tile as int] == slot
                &&& after.is_resident(slot)
                &&& after.last_used[slot] == epoch
                &&& after.slots == residency.slots
                &&& after.mapping.len() == residency.mapping.len()
                &&& after.last_used.len() == residency.last_used.len()
                &&& forall|tile: int|
                    #![trigger after.mapping[tile]]
                    0 <= tile < residency.mapping.len() && tile != job.logical_tile
                        ==> after.mapping[tile] == residency.mapping[tile]
                &&& forall|other: int|
                    #![trigger after.last_used[other]]
                    0 <= other < residency.last_used.len() && other != slot
                        ==> after.last_used[other] == residency.last_used[other]
            } else {
                after == residency
            }
        }),
{
}

/// A job that is given up frees its slot, if that is still reserved for its tile
/// and the tile is not loaded; nothing else changes.
pub proof fn given_up_jobs_free_their_slot(residency: Residency, job: TileJob)
    requires
        residency.wf(),
    ensures
        ({
            let after = residency.released(job);
            let slot = job.slot as int;
            &&& after.mapping == residency.mapping
            &&& after.last_used == residency.last_used
            &&& after.slots.len() == residency.slots.len()
            &&& slot < residency.slots.len() ==> (after.slots[slot] is None <==> (
            residency.slots[slot] is None || (residency.slots[slot] == Some(job.logical_tile)
                && residency.mapping[job.logical_tile as int] == MISSING_TILE_SLOT)))
            &&& forall|other: int|
                #![trigger after.slots[other]]
                0 <= other < residency.slots.len() && (other != slot || after.slots[slot] is Some)
                    ==> after.slots[other] == residency.slots[other]
        }),
{
}

/// Reserving a slot for a tile takes the slot's own tile out of the mapping, stamps
/// the slot with the time, and changes nothing else. The tile itself is not shown
/// before it is loaded.
pub proof fn reserved_slots_wait_for_their_tile(
    residency: Residency,
    slot: int,
    tile: u32,
    epoch: u64,
)
    requires
        residency.wf(),
        0 <= slot < residency.slots.len(),
        tile < residency.mapping.len(),
        residency.needs_job(tile),
    ensures
        ({
            let after = residency.reserved(slot, tile, epoch);
            &&& after.slots[slot] == Some(tile)
            &&& after.mapping[tile as int] == MISSING_TILE_SLOT
            &&& residency.slots[slot] matches Some(evicted) ==> after.mapping[evicted as int]
                == MISSING_TILE_SLOT
            &&& after.last_used[slot] == epoch
            &&& forall|other: int|
                #![trigger after.slots[other]]
                0 <= other < residency.slots.len() && other != slot ==> after.slots[other]
                    == residency.slots[other] && after.last_used[other]
                    == residency.last_used[other]
            &&& forall|other: int|
                #![trigger after.mapping[other]]
                0 <= other < residency.mapping.len() && residency.slots[slot] != Some(other as u32)
                    ==> after.mapping[other] == residency.mapping[other]
        }),
{
}

/// A free slot is taken before any tile is evicted, and the first of them. A tile
/// gets no slot only where every slot is taken, and no loaded tile is unwanted.
pub proof fn tiles_wait_only_where_no_slot_can_be_had(residency: Residency, desired: Seq<u32>)
    ensures
        match residency.slot_for_tile(desired) {
            Some(slot) => {
                &&& 0 <= slot < residency.slots.len()
                &&& residency.slots[slot] is None ==> forall|other: int|
                    #![trigger residency.slots[other]]
                    0 <= other < slot ==> residency.slots[other] is Some
                &&& residency.slots[slot] is Some ==> forall|other: int|
                    #![trigger residency.slots[other]]
                    0 <= other < residency.slots.len() ==> residency.slots[other] is Some
                &&& residency.slots[slot] matches Some(tile) ==> residency.mapping[tile as int]
                    == slot && !desired.contains(tile)
            },
            None => forall|other: int|
                #![trigger residency.slots[other]]
                0 <= other < residency.slots.len() ==> {
                    &&& residency.slots[other] is Some
                    &&& residency.mapping[residency.slots[other]->0 as int] != other
                        || desired.contains(residency.slots[other]->0)
                },
        },
{
    lemma_first_free(residency, 0);
    lemma_least_recent(residency, desired, residency.slots.len() as int);
    if residency.slot_for_tile(desired) is None {
        assert forall|other: int|
            #![trigger residency.slots[other]]
            0 <= other < residency.slots.len() implies {
            &&& residency.slots[other] is Some
            &&& residency.mapping[residency.slots[other]->0 as int] != other || desired.contains(
                residency.slots[other]->0,
            )
        } by {
            assert(!residency.is_evictable(other, desired));
        }
    }
}

/// Scheduling evicts least recently used tiles first: a loaded tile that is not
/// wanted and stays loaded was not used before any that is evicted. Slots whose
/// tiles stay keep their time stamps. Whether anything was evicted is reported.
pub proof fn scheduling_evicts_the_least_recently_used(
    residency: Residency,
    desired: Seq<u32>,
    count: int,
    generation: u64,
    epoch: u64,
)
    requires
        residency.wf(),
        0 <= count <= desired.len(),
        forall|i: int|
            #![trigger desired[i]]
            0 <= i < desired.len() ==> desired[i] < residency.mapping.len(),
    ensures
        ({
            let schedule = scheduled(residency, desired, count, generation, epoch);
            let after = schedule.residency;
            &&& after.last_used.len() == residency.last_used.len()
            &&& forall|slot: int|
                #![trigger after.slots[slot]]
                0 <= slot < residency.slots.len() && residency.slots[slot] is Some
                    && after.slots[slot] == residency.slots[slot] ==> after.last_used[slot]
                    == residency.last_used[slot]
            &&& forall|evicted: int, kept: int|
                #![trigger residency.mapping[evicted], after.mapping[kept]]
                0 <= evicted < residency.mapping.len() && 0 <= kept < residency.mapping.len()
                    && residency.mapping[evicted] != MISSING_TILE_SLOT && after.mapping[evicted]
                    == MISSING_TILE_SLOT && after.mapping[kept] != MISSING_TILE_SLOT
                    && !desired.contains(kept as u32)
                    ==> residency.last_used[residency.mapping[evicted] as int]
                    <= residency.last_used[residency.mapping[kept] as int]
            &&& schedule.evicted <==> exists|tile: int|
                #![trigger residency.mapping[tile]]
                0 <= tile < residency.mapping.len() && residency.mapping[tile]
                    != MISSING_TILE_SLOT && after.mapping[tile] == MISSING_TILE_SLOT
        }),
    decreases count,
{
    if count > 0 {
        scheduling_evicts_the_least_recently_used(residency, desired, count - 1, generation, epoch);
        scheduling_spares_wanted_and_loading_tiles(
            residency,
            desired,
            count - 1,
            generation,
            epoch,
        );
        let before = scheduled(residency, desired, count - 1, generation, epoch);
        let schedule = scheduled(residency, desired, count, generation, epoch);
        let tile = desired[count - 1];
        if !before.stopped && before.residency.needs_job(tile)
            && before.residency.slot_for_tile(desired) is Some {
            lemma_chosen_slot(before.residency, desired);
            let slot = before.residency.slot_for_tile(desired)->0;
            let current = before.residency;
            let after = schedule.residency;
            lemma_reserving_keeps_residency(current, desired, tile, epoch);
            assert(after == current.reserved(slot, tile, epoch));
            assert(desired.contains(tile));
            lemma_unscheduled_tile_needed_a_job(
                residency,
                desired,
                count - 1,
                generation,
                epoch,
                tile,
            );
            assert forall|other: int|
                #![trigger after.slots[other]]
                0 <= other < residency.slots.len() && residency.slots[other] is Some
                    && after.slots[other] == residency.slots[other] implies after.last_used[other]
                == residency.last_used[other] by {
                if other == slot {
                    assert(residency.slots[other] == Some(tile));
                    assert(residency.slots.contains(Some(tile)));
                } else {
                    assert(current.slots[other] == residency.slots[other]);
                }
            }
            assert forall|evicted: int, kept: int|
                #![trigger residency.mapping[evicted], after.mapping[kept]]
                0 <= evicted < residency.mapping.len() && 0 <= kept < residency.mapping.len()
                    && residency.mapping[evicted] != MISSING_TILE_SLOT && after.mapping[evicted]
                    == MISSING_TILE_SLOT && after.mapping[kept] != MISSING_TILE_SLOT
                    && !desired.contains(
                    kept as u32,
                ) implies residency.last_used[residency.mapping[evicted] as int]
                <= residency.last_used[residency.mapping[kept] as int] by {
                assert(current.mapping[kept] == after.mapping[kept]);
                assert(current.mapping[kept] == residency.mapping[kept]);
                if current.mapping[evicted] != MISSING_TILE_SLOT {
                    let held = current.mapping[kept] as int;
                    assert(current.mapping[evicted] == residency.mapping[evicted]);
                    assert(current.slots[slot] == Some(evicted as u32));
                    assert(current.slots[current.mapping[evicted] as int] == Some(evicted as u32));
                    assert(residency.slots[residency.mapping[evicted] as int] == Some(
                        evicted as u32,
                    ));
                    assert(current.slots[held] == Some(kept as u32));
                    assert(residency.slots[held] == Some(kept as u32));
                    assert(current.is_evictable(held, desired));
                    lemma_first_free(current, 0);
                    lemma_least_recent(current, desired, current.slots.len() as int);
                    assert(current.last_used[slot] <= current.last_used[held]);
                }
            }
            if current.slots[slot] is Some {
                let gone = current.slots[slot]->0;
                assert(current.mapping[gone as int] == slot);
                assert(residency.mapping[gone as int] != MISSING_TILE_SLOT);
                assert(after.mapping[gone as int] == MISSING_TILE_SLOT);
            } else {
                assert(after.mapping == current.mapping);
            }
            if before.evicted {
                let gone = choose|gone: int|
                    #![trigger residency.mapping[gone]]
                    0 <= gone < residency.mapping.len() && residency.mapping[gone]
                        != MISSING_TILE_SLOT && current.mapping[gone] == MISSING_TILE_SLOT;
                assert(residency.mapping[gone] != MISSING_TILE_SLOT);
                assert(after.mapping[gone] == MISSING_TILE_SLOT);
            }
        }
    }
}

/// Giving up jobs keeps the invariant.
proof fn lemma_releasing_keeps_residency(residency: Residency, jobs: Seq<TileJob>)
    requires
        residency.wf(),
    ensures
        residency.all_released(jobs).wf(),
    decreases jobs.len(),
{
    if jobs.len() > 0 {
        lemma_releasing_keeps_residency(residency, jobs.drop_last());
        let before = residency.all_released(jobs.drop_last());
        let after = residency.all_released(jobs);
        assert forall|a: int, b: int|
            #![trigger after.slots[a], after.slots[b]]
            0 <= a < after.slots.len() && 0 <= b < after.slots.len() && after.slots[a] is Some
                && after.slots[a] == after.slots[b] implies a == b by {
            assert(before.slots[a] == before.slots[b]);
        }
        assert forall|tile: int|
            #![trigger after.mapping[tile]]
            0 <= tile < after.mapping.len() && after.mapping[tile]
                != MISSING_TILE_SLOT implies after.mapping[tile] < after.slots.len()
            && after.slots[after.mapping[tile] as int] == Some(tile as u32) by {
            assert(before.mapping[tile] == after.mapping[tile]);
            assert(before.slots[before.mapping[tile] as int] == Some(tile as u32));
        }
    }
}

/// What a view request does to loaded tiles. Those that the view wants stay, and
/// are marked as used now; what is not wanted keeps the time of its last use, for
/// as long as it keeps its slot. No tile becomes loaded by being asked for. A tile
/// that is evicted was not wanted, and no tile that stays loaded without being
/// wanted was used before it. The request reports whether a tile was evicted.
pub proof fn requested_views_keep_their_tiles(
    before: TileCache,
    worker: TileWorkerState,
    wanted: Seq<u32>,
    center: Option<(u64, u64)>,
    after: TileCache,
    worker_after: TileWorkerState,
    evicted: bool,
)
    requires
        before.wf(),
        before.active(),
        before.desired_tiles@.no_duplicates(),
        wanted.no_duplicates(),
        forall|i: int|
            #![trigger wanted[i]]
            0 <= i < wanted.len() ==> wanted[i] < before.mapping@.len(),
        view_requested(before, worker, wanted, center, after, worker_after, evicted),
    ensures
        after.epoch == before.epoch.wrapping_add(1),
        after.last_view_center == center,
        after.desired_tiles@.to_set() =~= wanted.to_set(),
        after.mapping@.len() == before.mapping@.len(),
        after.slot_tiles@.len() == before.slot_tiles@.len(),
        after.last_used@.len() == before.last_used@.len(),
        forall|i: int|
            #![trigger wanted[i]]
            0 <= i < wanted.len() && before.mapping@[wanted[i] as int] != MISSING_TILE_SLOT ==> {
                &&& after.mapping@[wanted[i] as int] == before.mapping@[wanted[i] as int]
                &&& after.last_used@[before.mapping@[wanted[i] as int] as int] == after.epoch
            },
        forall|slot: int|
            #![trigger after.slot_tiles@[slot]]
            0 <= slot < before.slot_tiles@.len() && before.slot_tiles@[slot] is Some
                && after.slot_tiles@[slot] == before.slot_tiles@[slot] && !wanted.contains(
                before.slot_tiles@[slot]->0,
            ) ==> after.last_used@[slot] == before.last_used@[slot],
        forall|tile: int|
            #![trigger after.mapping@[tile]]
            0 <= tile < before.mapping@.len() && after.mapping@[tile] != MISSING_TILE_SLOT
                ==> after.mapping@[tile] == before.mapping@[tile],
        forall|gone: int, kept: int|
            #![trigger before.mapping@[gone], after.mapping@[kept]]
            0 <= gone < before.mapping@.len() && 0 <= kept < before.mapping@.len()
                && before.mapping@[gone] != MISSING_TILE_SLOT && after.mapping@[gone]
                == MISSING_TILE_SLOT && after.mapping@[kept] != MISSING_TILE_SLOT
                && !wanted.contains(kept as u32) ==> !wanted.contains(gone as u32)
                && before.last_used@[before.mapping@[gone] as int]
                <= before.last_used@[before.mapping@[kept] as int],
        evicted <==> exists|tile: int|
            #![trigger before.mapping@[tile]]
            0 <= tile < before.mapping@.len() && before.mapping@[tile] != MISSING_TILE_SLOT
                && after.mapping@[tile] == MISSING_TILE_SLOT,
{
    let start = before.residency();
    let epoch = before.epoch.wrapping_add(1);
    let generation = before.request_generation.wrapping_add(1);
    if tiles::is_same_tile_set(before.desired_tiles@, wanted) {
        let desired = before.desired_tiles@;
        tiles::same_tile_set_is_set_equality(desired, wanted);
        used_tiles_get_a_new_time_stamp(start, desired, desired.len() as int, epoch);
        assert forall|i: int|
            #![trigger wanted[i]]
            0 <= i < wanted.len() && before.mapping@[wanted[i] as int]
                != MISSING_TILE_SLOT implies {
            &&& after.mapping@[wanted[i] as int] == before.mapping@[wanted[i] as int]
            &&& after.last_used@[before.mapping@[wanted[i] as int] as int] == after.epoch
        } by {
            assert(wanted.to_set().contains(wanted[i]));
            assert(desired.to_set().contains(wanted[i]));
            let j = choose|j: int| 0 <= j < desired.len() && desired[j] == wanted[i];
            assert(start.mapping[desired[j] as int] != MISSING_TILE_SLOT);
        }
        assert forall|slot: int|
            #![trigger after.slot_tiles@[slot]]
            0 <= slot < before.slot_tiles@.len() && before.slot_tiles@[slot] is Some
                && after.slot_tiles@[slot] == before.slot_tiles@[slot] && !wanted.contains(
                before.slot_tiles@[slot]->0,
            ) implies after.last_used@[slot] == before.last_used@[slot] by {
            assert forall|i: int|
                #![trigger desired[i]]
                0 <= i < desired.len() implies start.mapping[desired[i] as int] != slot by {
                if start.mapping[desired[i] as int] == slot {
                    assert(start.slots[slot] == Some(desired[i]));
                    assert(desired.to_set().contains(desired[i]));
                    assert(wanted.to_set().contains(desired[i]));
                }
            }
        }
    } else {
        let freed = start.all_released(worker.pending@);
        lemma_releasing_keeps_mapping(start, worker.pending@);
        lemma_releasing_keeps_residency(start, worker.pending@);
        used_tiles_get_a_new_time_stamp(freed, wanted, wanted.len() as int, epoch);
        let used = Residency {
            last_used: touched(
                freed.mapping,
                freed.last_used,
                wanted,
                wanted.len() as int,
                epoch,
            ),
            ..freed
        };
        let count = wanted.len() as int;
        assert(used.wf()) by {
            assert forall|tile: int|
                #![trigger used.mapping[tile]]
                0 <= tile < used.mapping.len() && used.mapping[tile]
                    != MISSING_TILE_SLOT implies used.mapping[tile] < used.slots.len()
                && used.slots[used.mapping[tile] as int] == Some(tile as u32) by {
                assert(freed.mapping[tile] == used.mapping[tile]);
            }
            assert forall|a: int, b: int|
                #![trigger used.slots[a], used.slots[b]]
                0 <= a < used.slots.len() && 0 <= b < used.slots.len() && used.slots[a] is Some
                    && used.slots[a] == used.slots[b] implies a == b by {
                assert(freed.slots[a] == freed.slots[b]);
            }
            assert forall|slot: int|
                #![trigger used.slots[slot]]
                0 <= slot < used.slots.len() && used.slots[slot] is Some implies used.slots[slot]->0
                < used.mapping.len() by {
                assert(freed.slots[slot] == used.slots[slot]);
            }
        }
        let schedule = scheduled(used, wanted, count, generation, epoch);
        scheduling_spares_wanted_and_loading_tiles(used, wanted, count, generation, epoch);
        scheduling_evicts_the_least_recently_used(used, wanted, count, generation, epoch);
        lemma_releasing_keeps_mapping(schedule.residency, schedule.jobs);
        let done = schedule.residency;
        let end = after.residency();
        assert(end.mapping == done.mapping && end.last_used == done.last_used);
        assert forall|i: int|
            #![trigger wanted[i]]
            0 <= i < wanted.len() && before.mapping@[wanted[i] as int]
                != MISSING_TILE_SLOT implies {
            &&& after.mapping@[wanted[i] as int] == before.mapping@[wanted[i] as int]
            &&& after.last_used@[before.mapping@[wanted[i] as int] as int] == after.epoch
        } by {
            let tile = wanted[i];
            let slot = used.mapping[tile as int] as int;
            assert(wanted.contains(tile));
            assert(done.mapping[tile as int] == used.mapping[tile as int]);
            assert(done.slots[done.mapping[tile as int] as int] == Some(tile));
            assert(used.slots[slot] == Some(tile));
            assert(done.last_used[slot] == used.last_used[slot]);
        }
        assert forall|slot: int, tile: u32|
            #![trigger used.last_used[slot], wanted.contains(tile)]
            0 <= slot < start.slots.len() && start.slots[slot] == Some(tile) && !wanted.contains(
                tile,
            ) implies used.last_used[slot] == start.last_used[slot] by {
            assert forall|i: int|
                #![trigger wanted[i]]
                0 <= i < wanted.len() implies freed.mapping[wanted[i] as int] != slot by {
                if freed.mapping[wanted[i] as int] == slot {
                    assert(start.mapping[wanted[i] as int] == slot);
                    assert(start.slots[slot] == Some(wanted[i]));
                    assert(wanted.contains(wanted[i]));
                }
            }
        }
        assert forall|slot: int|
            #![trigger after.slot_tiles@[slot]]
            0 <= slot < before.slot_tiles@.len() && before.slot_tiles@[slot] is Some
                && after.slot_tiles@[slot] == before.slot_tiles@[slot] && !wanted.contains(
                before.slot_tiles@[slot]->0,
            ) implies after.last_used@[slot] == before.last_used@[slot] by {
            let tile = before.slot_tiles@[slot]->0;
            assert(end.slots[slot] == Some(tile));
            assert(done.slots[slot] == Some(tile));
            assert(used.last_used[slot] == start.last_used[slot]);
            if used.slots[slot] != Some(tile) {
                assert(used.slots[slot] is None);
                lemma_new_reservations_are_wanted(used, wanted, count, generation, epoch, slot);
            }
            assert(done.last_used[slot] == used.last_used[slot]);
        }
        assert forall|gone: int, kept: int|
            #![trigger before.mapping@[gone], after.mapping@[kept]]
            0 <= gone < before.mapping@.len() && 0 <= kept < before.mapping@.len()
                && before.mapping@[gone] != MISSING_TILE_SLOT && after.mapping@[gone]
                == MISSING_TILE_SLOT && after.mapping@[kept] != MISSING_TILE_SLOT
                && !wanted.contains(kept as u32) implies !wanted.contains(gone as u32)
            && before.last_used@[before.mapping@[gone] as int]
            <= before.last_used@[before.mapping@[kept] as int] by {
            assert(used.mapping[gone] != MISSING_TILE_SLOT);
            assert(done.mapping[gone] == MISSING_TILE_SLOT);
            if wanted.contains(gone as u32) {
                assert(done.mapping[(gone as u32) as int] == used.mapping[gone]);
            }
            assert(start.slots[start.mapping[gone] as int] == Some(gone as u32));
            assert(done.mapping[kept] == used.mapping[kept]);
            assert(start.slots[start.mapping[kept] as int] == Some(kept as u32));
            assert(used.last_used[start.mapping[gone] as int]
                == start.last_used[start.mapping[gone] as int]);
            assert(used.last_used[start.mapping[kept] as int]
                == start.last_used[start.mapping[kept] as int]);
        }
        if evicted {
            let tile = choose|tile: int|
                #![trigger used.mapping[tile]]
                0 <= tile < used.mapping.len() && used.mapping[tile] != MISSING_TILE_SLOT
                    && done.mapping[tile] == MISSING_TILE_SLOT;
            assert(before.mapping@[tile] != MISSING_TILE_SLOT);
        }
        if exists|tile: int|
            #![trigger before.mapping@[tile]]
            0 <= tile < before.mapping@.len() && before.mapping@[tile] != MISSING_TILE_SLOT
                && after.mapping@[tile] == MISSING_TILE_SLOT {
            let tile = choose|tile: int|
                #![trigger before.mapping@[tile]]
                0 <= tile < before.mapping@.len() && before.mapping@[tile] != MISSING_TILE_SLOT
                    && after.mapping@[tile] == MISSING_TILE_SLOT;
            assert(used.mapping[tile] != MISSING_TILE_SLOT);
        }
    }
}

/// A slot that scheduling has given to another tile holds a wanted one.
proof fn lemma_new_reservations_are_wanted(
    residency: Residency,
    desired: Seq<u32>,
    count: int,
    generation: u64,
    epoch: u64,
    slot: int,
)
    requires
        residency.wf(),
        0 <= count <= desired.len(),
        0 <= slot < residency.slots.len(),
        forall|i: int|
            #![trigger desired[i]]
            0 <= i < desired.len() ==> desired[i] < residency.mapping.len(),
    ensures
        ({
            let after = scheduled(residency, desired, count, generation, epoch).residency;
            after.slots[slot] != residency.slots[slot] ==> after.slots[slot] is Some
                && desired.contains(after.slots[slot]->0)
        }),
    decreases count,
{
    if count > 0 {
        lemma_new_reservations_are_wanted(
            residency,
            desired,
            count - 1,
            generation,
            epoch,
            slot,
        );
        scheduling_spares_wanted_and_loading_tiles(
            residency,
            desired,
            count - 1,
            generation,
            epoch,
        );
        let before = scheduled(residency, desired, count - 1, generation, epoch);
        lemma_chosen_slot(before.residency, desired);
        assert(desired.contains(desired[count - 1]));
    }
}

/// A tile that the previous view showed outlives tiles that were not shown since:
/// if the next view evicts it, it evicts every loaded tile that was last used
/// earlier and that it does not want itself. (Times are compared before the
/// counter wraps around.)
pub proof fn recently_shown_tiles_outlive_older_ones(
    before: TileCache,
    worker: TileWorkerState,
    shown: Seq<u32>,
    center: Option<(u64, u64)>,
    between: TileCache,
    worker_between: TileWorkerState,
    evicted: bool,
    wanted: Seq<u32>,
    next_center: Option<(u64, u64)>,
    after: TileCache,
    worker_after: TileWorkerState,
    evicted_then: bool,
    recent: u32,
    older: u32,
)
    requires
        before.wf(),
        between.wf(),
        before.active(),
        before.epoch < u64::MAX,
        before.desired_tiles@.no_duplicates(),
        between.desired_tiles@.no_duplicates(),
        shown.no_duplicates(),
        wanted.no_duplicates(),
        forall|i: int|
            #![trigger shown[i]]
            0 <= i < shown.len() ==> shown[i] < before.mapping@.len(),
        forall|i: int|
            #![trigger wanted[i]]
            0 <= i < wanted.len() ==> wanted[i] < before.mapping@.len(),
        view_requested(before, worker, shown, center, between, worker_between, evicted),
        view_requested(
            between,
            worker_between,
            wanted,
            next_center,
            after,
            worker_after,
            evicted_then,
        ),
        recent < before.mapping@.len(),
        older < before.mapping@.len(),
        shown.contains(recent),
        before.mapping@[recent as int] != MISSING_TILE_SLOT,
        !shown.contains(older),
        between.mapping@[older as int] != MISSING_TILE_SLOT,
        before.last_used@[before.mapping@[older as int] as int] <= before.epoch,
        after.mapping@[recent as int] == MISSING_TILE_SLOT,
    ensures
        after.mapping@[older as int] == MISSING_TILE_SLOT || wanted.contains(older),
{
    requested_views_keep_their_tiles(
        before,
        worker,
        shown,
        center,
        between,
        worker_between,
        evicted,
    );
    requested_views_keep_their_tiles(
        between,
        worker_between,
        wanted,
        next_center,
        after,
        worker_after,
        evicted_then,
    );
    let i = choose|i: int| 0 <= i < shown.len() && shown[i] == recent;
    assert(between.mapping@[shown[i] as int] == before.mapping@[recent as int]);
    let slot = between.mapping@[older as int] as int;
    assert(before.mapping@[older as int] == slot);
    assert(before.residency().mapping[older as int] != MISSING_TILE_SLOT);
    assert(between.residency().mapping[older as int] != MISSING_TILE_SLOT);
    assert(before.slot_tiles@[slot] == Some(older));
    assert(between.slot_tiles@[slot] == Some(older));
    assert(between.last_used@[slot] == before.last_used@[slot]);
    if after.mapping@[older as int] != MISSING_TILE_SLOT && !wanted.contains(older) {
        assert(between.mapping@[recent as int] != MISSING_TILE_SLOT);
        assert(after.mapping@[older as int] != MISSING_TILE_SLOT);
    }
}

/// The tiles of jobs.
pub open spec fn job_tiles(jobs: Seq<TileJob>) -> Seq<u32> {
    jobs.map_values(|job: TileJob| job.logical_tile)
}

/// The jobs of a request are for the wanted tiles that are neither loaded nor being
/// loaded, in the order in which the tiles are wanted: all of them, or the first
/// of them where the slots run out. Each is a miss.
pub proof fn jobs_follow_the_wanted_order(
    residency: Residency,
    desired: Seq<u32>,
    count: int,
    generation: u64,
    epoch: u64,
)
    requires
        residency.wf(),
        0 <= count <= desired.len(),
        desired.no_duplicates(),
        forall|i: int|
            #![trigger desired[i]]
            0 <= i < desired.len() ==> desired[i] < residency.mapping.len(),
    ensures
        ({
            let schedule = scheduled(residency, desired, count, generation, epoch);
            let missing = desired.take(count).filter(
                |tile: u32| residency.mapping[tile as int] == MISSING_TILE_SLOT
                    && !residency.slots.contains(Some(tile)),
            );
            &&& schedule.jobs.len() <= missing.len()
            &&& job_tiles(schedule.jobs) == missing.take(schedule.jobs.len() as int)
            &&& !schedule.stopped ==> schedule.jobs.len() == missing.len()
        }),
    decreases count,
{
    let is_missing = |tile: u32| residency.mapping[tile as int] == MISSING_TILE_SLOT
        && !residency.slots.contains(Some(tile));
    let schedule = scheduled(residency, desired, count, generation, epoch);
    let missing = desired.take(count).filter(is_missing);
    reveal(Seq::filter);
    if count > 0 {
        jobs_follow_the_wanted_order(residency, desired, count - 1, generation, epoch);
        let before = scheduled(residency, desired, count - 1, generation, epoch);
        let tile = desired[count - 1];
        let earlier = desired.take(count - 1).filter(is_missing);
        assert(desired.take(count).drop_last() =~= desired.take(count - 1));
        assert(desired.take(count).last() == tile);
        assert(missing == if is_missing(tile) {
            earlier.push(tile)
        } else {
            earlier
        });
        scheduling_spares_wanted_and_loading_tiles(
            residency,
            desired,
            count - 1,
            generation,
            epoch,
        );
        assert(desired.contains(tile));
        if before.residency.needs_job(tile) {
            lemma_unscheduled_tile_needed_a_job(
                residency,
                desired,
                count - 1,
                generation,
                epoch,
                tile,
            );
        }
        if is_missing(tile) && !before.residency.needs_job(tile) {
            lemma_later_tiles_have_no_slot(
                residency,
                desired,
                count - 1,
                generation,
                epoch,
                tile,
            );
        }
        if before.stopped {
            assert(schedule == before);
            assert(missing.take(schedule.jobs.len() as int) =~= earlier.take(
                schedule.jobs.len() as int,
            ));
        } else if !is_missing(tile) {
            assert(schedule == before);
        } else {
            match before.residency.slot_for_tile(desired) {
                Some(slot) => {
                    assert(job_tiles(schedule.jobs) =~= job_tiles(before.jobs).push(tile));
                    assert(missing.take(schedule.jobs.len() as int) =~= earlier.take(
                        before.jobs.len() as int,
                    ).push(tile));
                },
                None => {
                    assert(schedule.jobs == before.jobs);
                    assert(missing.take(schedule.jobs.len() as int) =~= earlier.take(
                        schedule.jobs.len() as int,
                    ));
                },
            }
        }
    } else {
        assert(desired.take(0) =~= Seq::<u32>::empty());
        assert(job_tiles(schedule.jobs) =~= missing.take(0));
    }
}

/// A tile that is wanted later has no slot yet, unless it had one before.
proof fn lemma_later_tiles_have_no_slot(
    residency: Residency,
    desired: Seq<u32>,
    count: int,
    generation: u64,
    epoch: u64,
    tile: u32,
)
    requires
        residency.wf(),
        0 <= count < desired.len(),
        desired.no_duplicates(),
        forall|i: int|
            #![trigger desired[i]]
            0 <= i < desired.len() ==> desired[i] < residency.mapping.len(),
        forall|i: int| 0 <= i < count ==> #[trigger] desired[i] != tile,
        tile < residency.mapping.len(),
        residency.needs_job(tile),
    ensures
        scheduled(residency, desired, count, generation, epoch).residency.needs_job(tile),
    decreases count,
{
    if count > 0 {
        lemma_later_tiles_have_no_slot(residency, desired, count - 1, generation, epoch, tile);
        scheduling_spares_wanted_and_loading_tiles(
            residency,
            desired,
            count,
            generation,
            epoch,
        );
        scheduling_spares_wanted_and_loading_tiles(
            residency,
            desired,
            count - 1,
            generation,
            epoch,
        );
        let before = scheduled(residency, desired, count - 1, generation, epoch).residency;
        lemma_chosen_slot(before, desired);
        let after = scheduled(residency, desired, count, generation, epoch).residency;
        assert(after.mapping[tile as int] == MISSING_TILE_SLOT);
        assert(desired[count - 1] != tile);
        if after.slots.contains(Some(tile)) {
            let slot = choose|slot: int|
                0 <= slot < after.slots.len() && after.slots[slot] == Some(tile);
            if before.slots[slot] == Some(tile) {
                assert(before.slots.contains(Some(tile)));
            }
        }
    }
}

/// The double-precision number behind a bit pattern is the one nearest to a
/// fraction `1 / divisor`.
pub open spec fn is_reciprocal(bits: u64, divisor: int) -> bool {
    let exponent = bits as int / 0x10_0000_0000_0000;
    let significand = 0x10_0000_0000_0000 + bits as int % 0x10_0000_0000_0000;
    let one = vstd::arithmetic::power2::pow2((1075 - exponent) as nat) as int;
    &&& 1011 < exponent <= 1023
    &&& -divisor <= 2 * (divisor * significand - one) <= divisor
}

/// Tiles are shown once the view is magnified beyond one pixel for as many image
/// pixels as the coarse preview merges, or as the gutters of a tile allow for.
pub proof fn tiles_are_sampled_beyond_the_preview(
    cache: TileCache,
    scale: u64,
    larger: u64,
)
    requires
        1 <= cache.coarse_downsample,
    ensures
        is_reciprocal(
            reciprocal_bits(numeric::smaller(cache.coarse_downsample as int, 8)),
            numeric::smaller(cache.coarse_downsample as int, 8),
        ),
        cache.active() && !float_bits::nan64(scale) ==> (cache.samples(Some(scale))
            <==> float_bits::order64(scale) > reciprocal_bits(
            numeric::smaller(cache.coarse_downsample as int, 8),
        )),
        cache.samples(Some(scale)) && float_bits::less64(scale, larger) ==> cache.samples(
            Some(larger),
        ),
        !cache.samples(None),
        !cache.active() ==> !cache.samples(Some(scale)),
        cache.tile_columns == 0 || cache.tile_rows == 0 ==> !cache.samples(Some(scale)),
{
    vstd::arithmetic::power2::lemma2_to64();
    vstd::arithmetic::power2::lemma2_to64_rest();
    assert(is_reciprocal(reciprocal_bits(1), 1));
    assert(is_reciprocal(reciprocal_bits(2), 2));
    assert(is_reciprocal(reciprocal_bits(3), 3));
    assert(is_reciprocal(reciprocal_bits(4), 4));
    assert(is_reciprocal(reciprocal_bits(5), 5));
    assert(is_reciprocal(reciprocal_bits(6), 6));
    assert(is_reciprocal(reciprocal_bits(7), 7));
    assert(is_reciprocal(reciprocal_bits(8), 8));
}

/// Jobs are taken exactly while the worker runs and the generation is its own.
pub proof fn jobs_of_the_current_generation_are_taken(state: TileWorkerState, generation: u64)
    ensures
        accepts_jobs(state, generation) ==> state.generation == generation && !state.shutdown,
        state.generation == generation && !state.shutdown ==> accepts_jobs(state, generation),
{
}

/// What a view wants are its tiles and its center, and without tiles nothing is wanted.
pub proof fn views_want_their_own_tiles(wanted: WantedTiles)
    ensures
        wanted_tiles(Some(wanted)) == wanted.tiles@,
        wanted_center(Some(wanted)) == Some(wanted.center),
        wanted_tiles(None).len() == 0,
        wanted_center(None) is None,
{
}

/// A request that stays the same keeps the image, the wanted tiles, the view's center and
/// the counters of time and generations.
pub proof fn same_requests_agree_in_every_part(a: TileCache, b: TileCache)
    requires
        a.same_request(&b),
    ensures
        a.epoch == b.epoch,
        a.request_generation == b.request_generation,
        a.tile_columns == b.tile_columns && a.tile_rows == b.tile_rows,
        a.coarse_downsample == b.coarse_downsample,
        a.desired_tiles@ == b.desired_tiles@,
        a.last_view_center == b.last_view_center,
        a.active() == b.active(),
{
}

/// A new view begins a new generation: the jobs of the one before are dropped, and the
/// queue holds the jobs of the new one alone. The same tiles keep their generation and
/// their jobs, and a cache without an image changes in nothing.
pub proof fn new_views_replace_the_queue(
    before: TileCache,
    worker: TileWorkerState,
    wanted: Seq<u32>,
    center: Option<(u64, u64)>,
    after: TileCache,
    worker_after: TileWorkerState,
    evicted: bool,
    index: int,
)
    requires
        before.wf(),
        forall|i: int|
            #![trigger wanted[i]]
            0 <= i < wanted.len() ==> wanted[i] < before.mapping@.len(),
        view_requested(before, worker, wanted, center, after, worker_after, evicted),
    ensures
        !before.active() ==> after == before && worker_after == worker && !evicted,
        before.active() && tiles::is_same_tile_set(before.desired_tiles@, wanted)
            ==> worker_after == worker && after.request_generation == before.request_generation
            && after.desired_tiles@ == before.desired_tiles@,
        before.active() && !tiles::is_same_tile_set(before.desired_tiles@, wanted) ==> {
            &&& after.request_generation == before.request_generation.wrapping_add(1)
            &&& worker_after.generation == after.request_generation
            &&& after.desired_tiles@ == wanted
            &&& 0 <= index < worker_after.pending@.len()
                ==> worker_after.pending@[index].generation == after.request_generation
                && wanted.contains(worker_after.pending@[index].logical_tile)
                && after.slot_tiles@[worker_after.pending@[index].slot as int] == Some(
                worker_after.pending@[index].logical_tile,
            )
            &&& worker.shutdown ==> worker_after.pending@.len() == 0
        },
        after.tile_columns == before.tile_columns && after.tile_rows == before.tile_rows,
        after.coarse_downsample == before.coarse_downsample,
{
    if before.active() && !tiles::is_same_tile_set(before.desired_tiles@, wanted) {
        let start = before.residency();
        let epoch = before.epoch.wrapping_add(1);
        let generation = before.request_generation.wrapping_add(1);
        let freed = start.all_released(worker.pending@);
        lemma_releasing_keeps_mapping(start, worker.pending@);
        lemma_releasing_keeps_residency(start, worker.pending@);
        used_tiles_get_a_new_time_stamp(freed, wanted, wanted.len() as int, epoch);
        let used = Residency {
            last_used: touched(
                freed.mapping,
                freed.last_used,
                wanted,
                wanted.len() as int,
                epoch,
            ),
            ..freed
        };
        assert(used.wf()) by {
            assert forall|tile: int|
                #![trigger used.mapping[tile]]
                0 <= tile < used.mapping.len() && used.mapping[tile]
                    != MISSING_TILE_SLOT implies used.mapping[tile] < used.slots.len()
                && used.slots[used.mapping[tile] as int] == Some(tile as u32) by {
                assert(freed.mapping[tile] == used.mapping[tile]);
            }
            assert forall|a: int, b: int|
                #![trigger used.slots[a], used.slots[b]]
                0 <= a < used.slots.len() && 0 <= b < used.slots.len() && used.slots[a] is Some
                    && used.slots[a] == used.slots[b] implies a == b by {
                assert(freed.slots[a] == freed.slots[b]);
            }
            assert forall|slot: int|
                #![trigger used.slots[slot]]
                0 <= slot < used.slots.len() && used.slots[slot] is Some implies used.slots[slot]->0
                < used.mapping.len() by {
                assert(freed.slots[slot] == used.slots[slot]);
            }
        }
        scheduled_jobs_reserve_their_slots(used, wanted, wanted.len() as int, generation, epoch);
        let schedule = scheduled(used, wanted, wanted.len() as int, generation, epoch);
        if 0 <= index < worker_after.pending@.len() {
            assert(worker_after.pending@ == schedule.jobs);
            assert(schedule.residency.reserved_for(schedule.jobs[index]));
            assert(after.residency() == schedule.residency);
        }
    }
}

/// A repeated view counts its loaded tiles as hits and nothing as missed; a new one
/// counts its loaded tiles as hits and its jobs as misses.
pub proof fn views_count_their_hits_and_misses(
    before: TileCache,
    worker: TileWorkerState,
    wanted: Seq<u32>,
    center: Option<(u64, u64)>,
    after: TileCache,
    worker_after: TileWorkerState,
    evicted: bool,
)
    requires
        before.wf(),
        before.active(),
        !worker.shutdown,
        wanted.no_duplicates(),
        forall|i: int|
            #![trigger wanted[i]]
            0 <= i < wanted.len() ==> wanted[i] < before.mapping@.len(),
        view_requested(before, worker, wanted, center, after, worker_after, evicted),
        before.hits + wanted.len() + before.desired_tiles@.len() <= u64::MAX,
    ensures
        tiles::is_same_tile_set(before.desired_tiles@, wanted) ==> after.misses == before.misses
            && after.hits == before.hits + before.desired_tiles@.filter(
            |tile: u32| before.mapping@[tile as int] != MISSING_TILE_SLOT,
        ).len(),
        !tiles::is_same_tile_set(before.desired_tiles@, wanted) ==> after.hits == before.hits
            + wanted.filter(
            |tile: u32| before.mapping@[tile as int] != MISSING_TILE_SLOT,
        ).len() && (before.misses + worker_after.pending@.len() <= u64::MAX ==> after.misses
            == before.misses + worker_after.pending@.len()),
{
    let is_loaded = |tile: u32| before.mapping@[tile as int] != MISSING_TILE_SLOT;
    lemma_releasing_keeps_mapping(before.residency(), worker.pending@);
    hits_count_the_loaded_tiles(
        before.mapping@,
        before.desired_tiles@,
        before.desired_tiles@.len() as int,
    );
    hits_count_the_loaded_tiles(before.mapping@, wanted, wanted.len() as int);
    assert(before.desired_tiles@.take(before.desired_tiles@.len() as int)
        =~= before.desired_tiles@);
    assert(wanted.take(wanted.len() as int) =~= wanted);
    before.desired_tiles@.lemma_filter_len_push(is_loaded, 0u32);
    lemma_loaded_at_most(before.mapping@, before.desired_tiles@, before.desired_tiles@.len() as int);
    lemma_loaded_at_most(before.mapping@, wanted, wanted.len() as int);
}

proof fn lemma_loaded_at_most(mapping: Seq<u32>, desired: Seq<u32>, count: int)
    requires
        0 <= count,
    ensures
        loaded_tiles(mapping, desired, count) <= count,
    decreases count,
{
    if count > 0 {
        lemma_loaded_at_most(mapping, desired, count - 1);
    }
}

} // verus!
