//! The life of a resampled viewport: which view is asked for, which job the
//! worker may start after the debounce delay, and which result is shown.
use vstd::prelude::*;

use crate::float_bits;
use crate::float_bits::{F64_ONE, is_finite64, is_less64};
use crate::mip;
use crate::mip::rgba16f_texture_budget_bytes;
use crate::numeric;
use crate::text;
use crate::text::{push_decimal, push_text, push_two_fraction_digits, rounded_quotient};
use crate::units;
use crate::units::{bytes_to_kib, u64_from_usize};

verus! {

/// How long a view must stay unchanged before it is resampled, in nanoseconds.
pub const RESAMPLING_DEBOUNCE_NANOS: u64 = 50_000_000;

/// The pixels of a resampled viewport.
#[derive(Clone, Copy, Debug, PartialEq, Eq, Structural)]
pub struct ViewportTarget {
    pub width: u32,
    pub height: u32,
}

impl ViewportTarget {
    /// The budget charge of the viewport's texture.
    pub open spec fn budget(&self) -> int {
        mip::texture_budget(self.width as int, self.height as int, 1, 1)
    }

    /// The budget charge of the viewport's texture.
    pub fn gpu_budget_bytes(self) -> (bytes: u64)
        ensures
            bytes == self.budget(),
    {
        rgba16f_texture_budget_bytes(self.width, self.height, 1, 1)
    }

    /// The one-pixel target that is bound while nothing is resampled.
    pub fn fallback() -> (target: ViewportTarget)
        ensures
            target == (ViewportTarget { width: 1, height: 1 }),
    {
        ViewportTarget { width: 1, height: 1 }
    }
}

/// One view to resample. The coordinates are double-precision bits.
#[derive(Clone, Copy, Debug, PartialEq, Eq, Structural)]
pub struct ViewportRequest {
    pub target: ViewportTarget,
    pub center_x: u64,
    pub center_y: u64,
    pub scale: u64,
}

/// A scale that a view can have: finite and positive.
pub open spec fn valid_scale(scale: u64) -> bool {
    float_bits::finite64(scale) && float_bits::less64(0, scale)
}

/// Two double-precision numbers are equal.
pub open spec fn same_number(a: u64, b: u64) -> bool {
    !float_bits::nan64(a) && !float_bits::nan64(b) && float_bits::order64(a) == float_bits::order64(
        b,
    )
}

/// Whether two double-precision numbers are equal.
fn is_same_number(a: u64, b: u64) -> (same: bool)
    ensures
        same == same_number(a, b),
{
    let x: u64 = a % 0x8000_0000_0000_0000;
    let y: u64 = b % 0x8000_0000_0000_0000;
    x <= float_bits::F64_INFINITY && y <= float_bits::F64_INFINITY && (a == b || (x == 0 && y == 0))
}

impl ViewportRequest {
    /// What every constructed request satisfies.
    pub open spec fn wf(&self) -> bool {
        &&& float_bits::finite64(self.center_x)
        &&& float_bits::finite64(self.center_y)
        &&& valid_scale(self.scale)
    }

    /// Two requests ask for the same view.
    pub open spec fn same_as(&self, other: ViewportRequest) -> bool {
        &&& self.target == other.target
        &&& same_number(self.center_x, other.center_x)
        &&& same_number(self.center_y, other.center_y)
        &&& same_number(self.scale, other.scale)
    }

    /// A request, unless a coordinate is not finite or the scale not positive.
    pub fn new(target: ViewportTarget, center_x: u64, center_y: u64, scale: u64) -> (request: Option<
        ViewportRequest,
    >)
        ensures
            request == (if float_bits::finite64(center_x) && float_bits::finite64(center_y)
                && valid_scale(scale) {
                Some(ViewportRequest { target, center_x, center_y, scale })
            } else {
                None
            }),
    {
        if !is_finite64(center_x) || !is_finite64(center_y) || !is_finite64(scale) || !is_less64(
            0,
            scale,
        ) {
            return None;
        }
        Some(ViewportRequest { target, center_x, center_y, scale })
    }

    /// Whether two requests ask for the same view.
    pub fn is_same_as(self, other: ViewportRequest) -> (same: bool)
        ensures
            same == self.same_as(other),
    {
        self.target.width == other.target.width && self.target.height == other.target.height
            && is_same_number(self.center_x, other.center_x) && is_same_number(
            self.center_y,
            other.center_y,
        ) && is_same_number(self.scale, other.scale)
    }
}

/// Two optional requests ask for the same view, or neither for one.
pub open spec fn same_desire(a: Option<ViewportRequest>, b: Option<ViewportRequest>) -> bool {
    match (a, b) {
        (Some(left), Some(right)) => left.same_as(right),
        (None, None) => true,
        _ => false,
    }
}

/// The target of a view: its viewport, unless the view is empty, shown 1:1,
/// larger than a texture can be, or beyond the memory limit.
pub open spec fn target_of(
    viewport: (u32, u32),
    scale: u64,
    memory_limit_bytes: int,
    maximum_texture_dimension: u32,
) -> Option<ViewportTarget> {
    let target = ViewportTarget { width: viewport.0, height: viewport.1 };
    if viewport.0 == 0 || viewport.1 == 0 || !valid_scale(scale) || scale == F64_ONE || viewport.0
        > maximum_texture_dimension || viewport.1 > maximum_texture_dimension || target.budget()
        > memory_limit_bytes {
        None
    } else {
        Some(target)
    }
}

/// The target of a view at a scale given as double-precision bits.
pub fn resampling_target(
    viewport: (u32, u32),
    scale: u64,
    memory_limit_bytes: u64,
    maximum_texture_dimension: u32,
) -> (target: Option<ViewportTarget>)
    ensures
        target == target_of(
            viewport,
            scale,
            memory_limit_bytes as int,
            maximum_texture_dimension,
        ),
{
    if viewport.0 == 0 || viewport.1 == 0 || !is_finite64(scale) || !is_less64(0, scale) || scale
        == F64_ONE || viewport.0 > maximum_texture_dimension || viewport.1
        > maximum_texture_dimension {
        return None;
    }
    let target = ViewportTarget { width: viewport.0, height: viewport.1 };
    if target.gpu_budget_bytes() > memory_limit_bytes {
        return None;
    }
    Some(target)
}

/// The graphics memory that a view needs to be resampled, if it is.
pub fn required_resampling_gpu_bytes(
    viewport: (u32, u32),
    scale: u64,
    maximum_texture_dimension: u32,
) -> (bytes: Option<u64>)
    ensures
        match target_of(viewport, scale, u64::MAX as int, maximum_texture_dimension) {
            Some(target) => bytes is Some && bytes->0 == target.budget(),
            None => bytes is None,
        },
{
    match resampling_target(viewport, scale, u64::MAX, maximum_texture_dimension) {
        Some(target) => Some(target.gpu_budget_bytes()),
        None => None,
    }
}

/// A request of one generation, to be started at its deadline, in nanoseconds of
/// a monotonic clock.
#[derive(Clone, Copy, Debug, PartialEq, Eq, Structural)]
pub struct ResamplingJob {
    pub generation: u64,
    pub view: ViewportRequest,
    pub deadline: u128,
}

/// What the resampling thread shares with the presentation thread.
#[derive(Clone, Copy, Debug, PartialEq, Eq, Structural)]
pub struct ResamplingWorkerState {
    pub generation: u64,
    pub pending: Option<ResamplingJob>,
    pub scratch_peak_bytes: usize,
    pub shutdown: bool,
}

/// What the resampling thread does next.
#[derive(Clone, Copy, Debug, PartialEq, Eq, Structural)]
pub enum WorkerPoll {
    Shutdown,
    Idle,
    Debounce { job: ResamplingJob, timeout: u128 },
    Run(ResamplingJob),
}

/// The job of a view that was asked for at a time: it starts once the debounce
/// delay is over.
pub open spec fn debounced(generation: u64, view: ViewportRequest, now: u64) -> ResamplingJob {
    ResamplingJob { generation, view, deadline: (now + RESAMPLING_DEBOUNCE_NANOS) as u128 }
}

impl ResamplingWorkerState {
    /// The state in which a generation has begun with a view, or with none.
    pub open spec fn replaced(
        self,
        generation: u64,
        view: Option<ViewportRequest>,
        now: u64,
    ) -> ResamplingWorkerState {
        ResamplingWorkerState {
            generation,
            pending: match view {
                Some(view) => Some(debounced(generation, view, now)),
                None => None,
            },
            ..self
        }
    }

    /// The state of a stopped worker.
    pub open spec fn stopped(self) -> ResamplingWorkerState {
        ResamplingWorkerState {
            shutdown: true,
            pending: None,
            generation: self.generation.wrapping_add(1),
            ..self
        }
    }

    /// A waiting job has the latest generation.
    pub open spec fn wf(&self) -> bool {
        self.pending matches Some(job) ==> job.generation == self.generation
    }

    /// The state that a new worker starts with.
    pub fn new() -> (state: ResamplingWorkerState)
        ensures
            state == (ResamplingWorkerState {
                generation: 0,
                pending: None,
                scratch_peak_bytes: 0,
                shutdown: false,
            }),
            state.wf(),
    {
        ResamplingWorkerState {
            generation: 0,
            pending: None,
            scratch_peak_bytes: 0,
            shutdown: false,
        }
    }

    /// Begins a generation with a view to resample once it stayed for the
    /// debounce delay, or with none.
    pub fn replace(&mut self, generation: u64, view: Option<ViewportRequest>, now: u64)
        ensures
            *final(self) == old(self).replaced(generation, view, now),
            final(self).wf(),
    {
        self.generation = generation;
        self.pending = match view {
            Some(view) => Some(
                ResamplingJob {
                    generation,
                    view,
                    deadline: now as u128 + RESAMPLING_DEBOUNCE_NANOS as u128,
                },
            ),
            None => None,
        };
    }

    /// Stops the worker: no job is current any more.
    pub fn shut_down(&mut self)
        ensures
            *final(self) == old(self).stopped(),
            final(self).wf(),
    {
        self.shutdown = true;
        self.pending = None;
        self.generation = self.generation.wrapping_add(1);
    }

    /// Keeps the largest scratch allocation that was seen.
    pub fn record_scratch_peak(&mut self, bytes: usize)
        ensures
            *final(self) == (ResamplingWorkerState {
                scratch_peak_bytes: numeric::larger(
                    old(self).scratch_peak_bytes as int,
                    bytes as int,
                ) as usize,
                ..*old(self)
            }),
    {
        if bytes > self.scratch_peak_bytes {
            self.scratch_peak_bytes = bytes;
        }
    }

    /// Whether a job of this generation is still wanted.
    pub fn job_is_current(&self, generation: u64) -> (current: bool)
        ensures
            current == (!self.shutdown && self.generation == generation),
    {
        !self.shutdown && self.generation == generation
    }

    /// The job that the worker waits on: the queued one, else the one it already
    /// waited on unless a newer generation superseded it.
    pub open spec fn job_to_wait_on(&self, waiting: Option<ResamplingJob>) -> Option<ResamplingJob> {
        match self.pending {
            Some(job) => Some(job),
            None => match waiting {
                Some(job) if job.generation == self.generation => Some(job),
                _ => None,
            },
        }
    }

    /// What the worker does next at a time, where `waiting` is the job whose
    /// deadline it waited for.
    pub open spec fn next(&self, waiting: Option<ResamplingJob>, now: u64) -> WorkerPoll {
        if self.shutdown {
            WorkerPoll::Shutdown
        } else {
            match self.job_to_wait_on(waiting) {
                None => WorkerPoll::Idle,
                Some(job) => if now >= job.deadline {
                    WorkerPoll::Run(job)
                } else {
                    WorkerPoll::Debounce { job, timeout: (job.deadline - now) as u128 }
                },
            }
        }
    }

    /// The state after the worker looked for a job, which it takes out.
    pub open spec fn polled(self) -> ResamplingWorkerState {
        if self.shutdown {
            self
        } else {
            ResamplingWorkerState { pending: None, ..self }
        }
    }

    /// Decides what the worker does next. `waiting` is the job whose deadline it
    /// waited for, and `now` the time.
    pub fn poll(&mut self, waiting: Option<ResamplingJob>, now: u64) -> (poll: WorkerPoll)
        requires
            old(self).wf(),
        ensures
            final(self).wf(),
            poll == old(self).next(waiting, now),
            *final(self) == old(self).polled(),
    {
        if self.shutdown {
            return WorkerPoll::Shutdown;
        }
        let mut current: Option<ResamplingJob> = None;
        if let Some(job) = waiting {
            if job.generation == self.generation {
                current = Some(job);
            }
        }
        if let Some(job) = self.pending {
            self.pending = None;
            current = Some(job);
        }
        match current {
            Some(job) => if now as u128 >= job.deadline {
                WorkerPoll::Run(job)
            } else {
                WorkerPoll::Debounce { job, timeout: job.deadline - now as u128 }
            },
            None => WorkerPoll::Idle,
        }
    }
}

/// What a worker that looks for a job at the given times, one after another,
/// comes back with: a job, or none where it was stopped; nothing yet where it
/// still waits.
pub open spec fn waited(
    state: ResamplingWorkerState,
    waiting: Option<ResamplingJob>,
    times: Seq<u64>,
) -> Option<Option<ResamplingJob>>
    decreases times.len(),
{
    if times.len() == 0 {
        None
    } else {
        match state.next(waiting, times[0]) {
            WorkerPoll::Shutdown => Some(None),
            WorkerPoll::Run(job) => Some(Some(job)),
            WorkerPoll::Idle => waited(state.polled(), None, times.skip(1)),
            WorkerPoll::Debounce { job, .. } => waited(state.polled(), Some(job), times.skip(1)),
        }
    }
}

/// Whether one of the times is a deadline, or after it.
pub open spec fn reaches(times: Seq<u64>, deadline: u128) -> bool {
    exists|i: int| 0 <= i < times.len() && #[trigger] times[i] >= deadline
}

/// A worker waits on its job until the deadline, whenever it looks.
proof fn lemma_waiting_for_a_job(
    state: ResamplingWorkerState,
    waiting: Option<ResamplingJob>,
    job: ResamplingJob,
    times: Seq<u64>,
)
    requires
        !state.shutdown,
        state.job_to_wait_on(waiting) == Some(job),
        job.generation == state.generation,
    ensures
        waited(state, waiting, times) == (if reaches(times, job.deadline) {
            Some(Some(job))
        } else {
            None
        }),
    decreases times.len(),
{
    if times.len() > 0 {
        if times[0] < job.deadline {
            let rest = times.skip(1);
            lemma_waiting_for_a_job(state.polled(), Some(job), job, rest);
            if reaches(times, job.deadline) {
                let i = choose|i: int| 0 <= i < times.len() && #[trigger] times[i] >= job.deadline;
                assert(rest[i - 1] == times[i]);
            }
            if reaches(rest, job.deadline) {
                let i = choose|i: int| 0 <= i < rest.len() && #[trigger] rest[i] >= job.deadline;
                assert(rest[i] == times[i + 1]);
            }
        }
    }
}

/// A superseded request is never resampled. Whenever the worker looks before the
/// first request's deadline, it waits; once the latest request has replaced the
/// first, the worker comes back with the latest one, at its own deadline and not
/// before; and if it is stopped while it waits, it comes back with none.
/// Nothing depends on what the worker waited on, nor on what it took out already.
pub proof fn superseded_requests_never_run(
    state: ResamplingWorkerState,
    waiting: Option<ResamplingJob>,
    first: (u64, ViewportRequest, u64),
    early: Seq<u64>,
    latest: (u64, ViewportRequest, u64),
    times: Seq<u64>,
)
    requires
        !state.shutdown,
        !reaches(early, debounced(first.0, first.1, first.2).deadline),
    ensures
        ({
            let asked = state.replaced(first.0, Some(first.1), first.2);
            let replaced = asked.replaced(latest.0, Some(latest.1), latest.2);
            let job = debounced(latest.0, latest.1, latest.2);
            &&& waited(asked, waiting, early) is None
            &&& asked.polled().replaced(latest.0, Some(latest.1), latest.2) == replaced
            &&& waited(replaced, waiting, times) == (if reaches(times, job.deadline) {
                Some(Some(job))
            } else {
                None
            })
            &&& times.len() > 0 ==> waited(replaced.stopped(), waiting, times) == Some(
                None::<ResamplingJob>,
            )
            &&& times.len() > 0 ==> waited(replaced.polled().stopped(), waiting, times) == Some(
                None::<ResamplingJob>,
            )
        }),
{
    let asked = state.replaced(first.0, Some(first.1), first.2);
    let replaced = asked.replaced(latest.0, Some(latest.1), latest.2);
    lemma_waiting_for_a_job(asked, waiting, debounced(first.0, first.1, first.2), early);
    lemma_waiting_for_a_job(replaced, waiting, debounced(latest.0, latest.1, latest.2), times);
}

/// Only the latest request is resampled: whatever the worker starts has the
/// latest generation, and has waited out its delay.
pub proof fn only_the_latest_request_runs(
    state: ResamplingWorkerState,
    waiting: Option<ResamplingJob>,
    job: ResamplingJob,
)
    requires
        state.wf(),
        state.job_to_wait_on(waiting) == Some(job),
    ensures
        job.generation == state.generation,
{
}

/// What the presentation shows of the view that is asked for.
#[derive(Clone, Copy, Debug, PartialEq, Eq, Structural)]
pub enum ResamplerPhase {
    Inactive,
    /// Pending work uses the one-pixel fallback binding.
    Pending(ViewportRequest),
    /// Active work owns the completed texture.
    Active(ViewportRequest),
}

impl ResamplerPhase {
    /// The view that is asked for.
    pub open spec fn desire(&self) -> Option<ViewportRequest> {
        match *self {
            ResamplerPhase::Inactive => None,
            ResamplerPhase::Pending(request) => Some(request),
            ResamplerPhase::Active(request) => Some(request),
        }
    }

    /// The view that is asked for.
    pub fn desired(&self) -> (request: Option<ViewportRequest>)
        ensures
            request == self.desire(),
    {
        match *self {
            ResamplerPhase::Inactive => None,
            ResamplerPhase::Pending(request) => Some(request),
            ResamplerPhase::Active(request) => Some(request),
        }
    }

    /// The target of the texture that is shown.
    pub fn active_target(&self) -> (target: Option<ViewportTarget>)
        ensures
            target == (match *self {
                ResamplerPhase::Active(request) => Some(request.target),
                _ => None,
            }),
    {
        match *self {
            ResamplerPhase::Active(request) => Some(request.target),
            _ => None,
        }
    }

    /// Whether a resampled texture is shown.
    pub fn is_active(&self) -> (active: bool)
        ensures
            active == (*self is Active),
    {
        match *self {
            ResamplerPhase::Active(_) => true,
            _ => false,
        }
    }

    /// Asks for another view, or for none. Returns whether a shown texture is
    /// given up.
    pub fn replace_request(&mut self, desired: Option<ViewportRequest>) -> (binding_changed: bool)
        ensures
            binding_changed == (*old(self) is Active),
            *final(self) == (match desired {
                Some(request) => ResamplerPhase::Pending(request),
                None => ResamplerPhase::Inactive,
            }),
    {
        let binding_changed: bool = self.is_active();
        *self = match desired {
            Some(request) => ResamplerPhase::Pending(request),
            None => ResamplerPhase::Inactive,
        };
        binding_changed
    }
}

/// A change of the lifecycle.
pub ghost enum LifecycleChange {
    Request(Option<ViewportRequest>),
    Ready(ViewportRequest),
    Failed,
    Disconnect,
}

/// Whether there is a worker, and what became of the view it was asked for.
#[derive(Clone, Copy, Debug, PartialEq, Eq, Structural)]
pub enum ResamplerLifecycle {
    Unavailable,
    Available { generation: u64, phase: ResamplerPhase },
}

impl ResamplerLifecycle {
    /// The view that is asked for.
    pub open spec fn desire(&self) -> Option<ViewportRequest> {
        match *self {
            ResamplerLifecycle::Unavailable => None,
            ResamplerLifecycle::Available { phase, .. } => phase.desire(),
        }
    }

    /// The view of the texture that is shown.
    pub open spec fn shown(&self) -> Option<ViewportRequest> {
        match *self {
            ResamplerLifecycle::Available { phase: ResamplerPhase::Active(request), .. } => Some(
                request,
            ),
            _ => None,
        }
    }

    /// A job's result is the one that is waited for.
    pub open spec fn awaits(&self, job: ResamplingJob) -> bool {
        match *self {
            ResamplerLifecycle::Available {
                generation,
                phase: ResamplerPhase::Pending(request),
            } => job.generation == generation && request.same_as(job.view),
            _ => false,
        }
    }

    /// The lifecycle after another view was asked for, or none.
    pub open spec fn replaced(self, desired: Option<ViewportRequest>) -> ResamplerLifecycle {
        match self {
            ResamplerLifecycle::Unavailable => self,
            ResamplerLifecycle::Available { generation, .. } => ResamplerLifecycle::Available {
                generation: generation.wrapping_add(1),
                phase: match desired {
                    Some(request) => ResamplerPhase::Pending(request),
                    None => ResamplerPhase::Inactive,
                },
            },
        }
    }

    /// The lifecycle in the given phase, if there is a worker.
    pub open spec fn in_phase(self, phase: ResamplerPhase) -> ResamplerLifecycle {
        match self {
            ResamplerLifecycle::Unavailable => self,
            ResamplerLifecycle::Available { generation, .. } => ResamplerLifecycle::Available {
                generation,
                phase,
            },
        }
    }

    /// The lifecycle after a change.
    pub open spec fn changed(self, change: LifecycleChange) -> ResamplerLifecycle {
        match change {
            LifecycleChange::Request(desired) => self.replaced(desired),
            LifecycleChange::Ready(request) => self.in_phase(ResamplerPhase::Active(request)),
            LifecycleChange::Failed => self.in_phase(ResamplerPhase::Inactive),
            LifecycleChange::Disconnect => ResamplerLifecycle::Unavailable,
        }
    }

    /// The lifecycle after changes, one after another.
    pub open spec fn after(self, changes: Seq<LifecycleChange>) -> ResamplerLifecycle
        decreases changes.len(),
    {
        if changes.len() == 0 {
            self
        } else {
            self.after(changes.drop_last()).changed(changes.last())
        }
    }

    /// Whether there is a worker.
    pub fn worker_available(&self) -> (available: bool)
        ensures
            available == (*self is Available),
    {
        match *self {
            ResamplerLifecycle::Available { .. } => true,
            ResamplerLifecycle::Unavailable => false,
        }
    }

    /// The view that is asked for.
    pub fn desired(&self) -> (request: Option<ViewportRequest>)
        ensures
            request == self.desire(),
    {
        match *self {
            ResamplerLifecycle::Unavailable => None,
            ResamplerLifecycle::Available { phase, .. } => phase.desired(),
        }
    }

    /// The target of the texture that is shown.
    pub fn active_target(&self) -> (target: Option<ViewportTarget>)
        ensures
            target == (match self.shown() {
                Some(request) => Some(request.target),
                None => None,
            }),
    {
        match *self {
            ResamplerLifecycle::Unavailable => None,
            ResamplerLifecycle::Available { phase, .. } => phase.active_target(),
        }
    }

    /// Whether a resampled texture is shown.
    pub fn is_active(&self) -> (active: bool)
        ensures
            active == (self.shown() is Some),
    {
        match *self {
            ResamplerLifecycle::Unavailable => false,
            ResamplerLifecycle::Available { phase, .. } => phase.is_active(),
        }
    }

    /// Whether a job's result is the one that is waited for.
    pub fn is_current(&self, job: ResamplingJob) -> (current: bool)
        ensures
            current == self.awaits(job),
    {
        match *self {
            ResamplerLifecycle::Available {
                generation,
                phase: ResamplerPhase::Pending(request),
            } => job.generation == generation && request.is_same_as(job.view),
            _ => false,
        }
    }

    /// Asks the worker for another view, or for none. Returns whether a shown
    /// texture is given up.
    pub fn replace_request(
        &mut self,
        worker: &mut ResamplingWorkerState,
        desired: Option<ViewportRequest>,
        now: u64,
    ) -> (binding_changed: bool)
        requires
            old(worker).wf(),
        ensures
            final(worker).wf(),
            binding_changed == (old(self).shown() is Some),
            *final(self) == old(self).replaced(desired),
            *final(worker) == (match *old(self) {
                ResamplerLifecycle::Unavailable => *old(worker),
                ResamplerLifecycle::Available { generation, .. } => old(worker).replaced(
                    generation.wrapping_add(1),
                    desired,
                    now,
                ),
            }),
    {
        match *self {
            ResamplerLifecycle::Unavailable => false,
            ResamplerLifecycle::Available { generation, phase } => {
                let mut next_phase: ResamplerPhase = phase;
                let binding_changed: bool = next_phase.replace_request(desired);
                let next_generation: u64 = generation.wrapping_add(1);
                worker.replace(next_generation, desired, now);
                *self = ResamplerLifecycle::Available {
                    generation: next_generation,
                    phase: next_phase,
                };
                binding_changed
            },
        }
    }

    /// Shows the texture of a view.
    pub fn mark_ready(&mut self, request: ViewportRequest)
        ensures
            *final(self) == old(self).changed(LifecycleChange::Ready(request)),
    {
        if let ResamplerLifecycle::Available { generation, .. } = *self {
            *self = ResamplerLifecycle::Available {
                generation,
                phase: ResamplerPhase::Active(request),
            };
        }
    }

    /// Gives up the view that was asked for.
    pub fn mark_failed(&mut self)
        ensures
            *final(self) == old(self).changed(LifecycleChange::Failed),
    {
        if let ResamplerLifecycle::Available { generation, .. } = *self {
            *self = ResamplerLifecycle::Available { generation, phase: ResamplerPhase::Inactive };
        }
    }

    /// Drops the worker. Returns whether a shown texture is given up.
    pub fn disconnect(&mut self) -> (binding_changed: bool)
        ensures
            binding_changed == (old(self).shown() is Some),
            *final(self) == old(self).changed(LifecycleChange::Disconnect),
    {
        let binding_changed: bool = self.is_active();
        *self = ResamplerLifecycle::Unavailable;
        binding_changed
    }

    /// The generation and the view that are asked for.
    pub fn current_request(&self) -> (request: Option<(u64, ViewportRequest)>)
        ensures
            request == (match *self {
                ResamplerLifecycle::Unavailable => None,
                ResamplerLifecycle::Available { generation, phase } => match phase.desire() {
                    Some(request) => Some((generation, request)),
                    None => None,
                },
            }),
    {
        match *self {
            ResamplerLifecycle::Unavailable => None,
            ResamplerLifecycle::Available { generation, phase } => match phase.desired() {
                Some(request) => Some((generation, request)),
                None => None,
            },
        }
    }
}

/// What is said of a panicked thread, given the text that it panicked with, if it
/// was a text.
pub fn panic_payload_message<'a>(payload: Option<&'a str>) -> (message: &'a str)
    ensures
        message@ == (match payload {
            Some(text) => text@,
            None => "non-string panic payload"@,
        }),
{
    match payload {
        Some(text) => text,
        None => "non-string panic payload",
    }
}

/// How a job of the worker ended, or that the worker itself did.
#[derive(Clone, Copy, Debug, PartialEq, Eq, Structural)]
pub enum ResamplingEvent {
    Ready { job: ResamplingJob, source_bytes: usize },
    Cancelled,
    Failed(ResamplingJob),
    Disconnected,
}

/// What an event means for the texture that the presentation binds.
#[derive(Clone, Copy, Debug, PartialEq, Eq, Structural)]
pub enum ResamplingUpdate {
    /// The job's texture is shown.
    Adopt,
    /// The shown texture is replaced by the fallback.
    Release,
    Unchanged,
}

/// The resampled viewport that the presentation shows in place of the tiles.
#[derive(Clone, Copy, Debug, PartialEq, Eq, Structural)]
pub struct ViewportResampler {
    pub lifecycle: ResamplerLifecycle,
    pub memory_limit_bytes: u64,
    pub requests: u64,
    pub discarded_results: u64,
    pub completions: u64,
    pub last_source_bytes: usize,
}

/// A counter after one more event.
pub open spec fn counted(value: u64) -> u64 {
    if value == u64::MAX {
        value
    } else {
        (value + 1) as u64
    }
}

/// The view that a resampler with a worker asks for.
pub open spec fn desired_view(
    resampler: ViewportResampler,
    viewport: (u32, u32),
    view: Option<(u64, u64, u64)>,
    maximum_texture_dimension: u32,
) -> Option<ViewportRequest> {
    match view {
        Some((center_x, center_y, scale)) => {
            match target_of(
                viewport,
                scale,
                resampler.memory_limit_bytes as int,
                maximum_texture_dimension,
            ) {
                Some(target) => if resampler.lifecycle is Available && float_bits::finite64(
                    center_x,
                ) && float_bits::finite64(center_y) {
                    Some(ViewportRequest { target, center_x, center_y, scale })
                } else {
                    None
                },
                None => None,
            }
        },
        None => None,
    }
}

/// The state of a resampler in words.
pub open spec fn state_text(lifecycle: ResamplerLifecycle) -> Seq<char> {
    match lifecycle {
        ResamplerLifecycle::Available { phase: ResamplerPhase::Active(request), .. } => "active "@
            + text::decimal(request.target.width as nat) + "x"@ + text::decimal(
            request.target.height as nat,
        ),
        ResamplerLifecycle::Available { phase: ResamplerPhase::Pending(request), .. } => "pending "@
            + text::decimal(request.target.width as nat) + "x"@ + text::decimal(
            request.target.height as nat,
        ),
        _ => "inactive"@,
    }
}

/// A byte count in hundredths of a MiB, rounded to the nearest hundredth.
pub open spec fn mib_hundredths(bytes: nat) -> nat {
    text::round_half_even(units::capped_kib(bytes) * 100, 1024)
}

impl ViewportResampler {
    /// The view that is asked for fits the memory limit.
    pub open spec fn within_limit(&self) -> bool {
        self.lifecycle.desire() matches Some(request) ==> request.target.budget()
            <= self.memory_limit_bytes
    }

    /// A resampler without a worker: the tiles are shown.
    pub fn fallback(memory_limit_bytes: u64) -> (resampler: ViewportResampler)
        ensures
            resampler == (ViewportResampler {
                lifecycle: ResamplerLifecycle::Unavailable,
                memory_limit_bytes,
                requests: 0,
                discarded_results: 0,
                completions: 0,
                last_source_bytes: 0,
            }),
    {
        ViewportResampler {
            lifecycle: ResamplerLifecycle::Unavailable,
            memory_limit_bytes,
            requests: 0,
            discarded_results: 0,
            completions: 0,
            last_source_bytes: 0,
        }
    }

    /// A resampler that has a worker if it could be started.
    pub fn active(memory_limit_bytes: u64, worker_started: bool) -> (resampler: ViewportResampler)
        ensures
            resampler == (ViewportResampler {
                lifecycle: if worker_started {
                    ResamplerLifecycle::Available {
                        generation: 0,
                        phase: ResamplerPhase::Inactive,
                    }
                } else {
                    ResamplerLifecycle::Unavailable
                },
                memory_limit_bytes,
                requests: 0,
                discarded_results: 0,
                completions: 0,
                last_source_bytes: 0,
            }),
    {
        let mut resampler = ViewportResampler::fallback(memory_limit_bytes);
        if worker_started {
            resampler.lifecycle = ResamplerLifecycle::Available {
                generation: 0,
                phase: ResamplerPhase::Inactive,
            };
        }
        resampler
    }

    /// Whether a resampled texture is shown.
    pub fn is_active(&self) -> (active: bool)
        ensures
            active == (self.lifecycle.shown() is Some),
    {
        self.lifecycle.is_active()
    }

    /// The budget charge of the texture that is shown.
    pub fn gpu_bytes(&self) -> (bytes: u64)
        ensures
            bytes == (match self.lifecycle.shown() {
                Some(request) => request.target.budget(),
                None => 0,
            }),
    {
        match self.lifecycle.active_target() {
            Some(target) => target.gpu_budget_bytes(),
            None => 0,
        }
    }

    /// The largest scratch allocation of a worker; none without one.
    pub fn scratch_peak_bytes(&self, worker: &ResamplingWorkerState) -> (bytes: u64)
        ensures
            bytes == (if self.lifecycle is Available {
                worker.scratch_peak_bytes as u64
            } else {
                0
            }),
    {
        if self.lifecycle.worker_available() {
            u64_from_usize(worker.scratch_peak_bytes)
        } else {
            0
        }
    }

    /// Changes what a resampled texture may be charged.
    pub fn set_memory_limit_bytes(&mut self, memory_limit_bytes: u64)
        ensures
            *final(self) == (ViewportResampler { memory_limit_bytes, ..*old(self) }),
    {
        self.memory_limit_bytes = memory_limit_bytes;
    }

    /// Asks for a view: its center and its scale as double-precision bits.
    /// Returns true when presentation must rebuild the texture binding.
    pub fn request_view(
        &mut self,
        worker: &mut ResamplingWorkerState,
        viewport: (u32, u32),
        view: Option<(u64, u64, u64)>,
        maximum_texture_dimension: u32,
        now: u64,
    ) -> (binding_changed: bool)
        requires
            old(worker).wf(),
        ensures
            final(worker).wf(),
            final(self).within_limit(),
            final(self).memory_limit_bytes == old(self).memory_limit_bytes,
            final(self).discarded_results == old(self).discarded_results,
            final(self).completions == old(self).completions,
            final(self).last_source_bytes == old(self).last_source_bytes,
            ({
                let desired = desired_view(
                    *old(self),
                    viewport,
                    view,
                    maximum_texture_dimension,
                );
                if same_desire(desired, old(self).lifecycle.desire()) {
                    &&& *final(self) == *old(self)
                    &&& *final(worker) == *old(worker)
                    &&& !binding_changed
                } else {
                    &&& binding_changed == (old(self).lifecycle.shown() is Some)
                    &&& final(self).lifecycle.desire() == desired
                    &&& final(self).lifecycle.shown() is None
                    &&& final(self).requests == (if desired is Some {
                        counted(old(self).requests)
                    } else {
                        old(self).requests
                    })
                    &&& final(self).lifecycle == old(self).lifecycle.replaced(desired)
                    &&& old(self).lifecycle matches ResamplerLifecycle::Available {
                        generation,
                        ..
                    } && *final(worker) == old(worker).replaced(
                        generation.wrapping_add(1),
                        desired,
                        now,
                    )
                }
            }),
    {
        let mut desired: Option<ViewportRequest> = None;
        if let Some((center_x, center_y, scale)) = view {
            if self.lifecycle.worker_available() {
                if let Some(target) = resampling_target(
                    viewport,
                    scale,
                    self.memory_limit_bytes,
                    maximum_texture_dimension,
                ) {
                    desired = ViewportRequest::new(target, center_x, center_y, scale);
                }
            }
        }
        let same: bool = match (desired, self.lifecycle.desired()) {
            (Some(next), Some(previous)) => next.is_same_as(previous),
            (None, None) => true,
            _ => false,
        };
        if same {
            return false;
        }
        let binding_changed: bool = self.lifecycle.replace_request(worker, desired, now);
        if desired.is_some() {
            self.requests = self.requests.saturating_add(1);
        }
        binding_changed
    }

    /// Records an event of the worker.
    pub fn apply_event(&mut self, event: ResamplingEvent) -> (update: ResamplingUpdate)
        ensures
            old(self).within_limit() ==> final(self).within_limit(),
            final(self).memory_limit_bytes == old(self).memory_limit_bytes,
            final(self).requests == old(self).requests,
            match event {
                ResamplingEvent::Ready { job, source_bytes } => if old(self).lifecycle.awaits(job) {
                    &&& update == ResamplingUpdate::Adopt
                    &&& final(self).lifecycle.shown() == Some(job.view)
                    &&& final(self).lifecycle->generation == old(self).lifecycle->generation
                    &&& final(self).completions == counted(old(self).completions)
                    &&& final(self).last_source_bytes == source_bytes
                    &&& final(self).discarded_results == old(self).discarded_results
                } else {
                    &&& update == ResamplingUpdate::Unchanged
                    &&& *final(self) == (ViewportResampler {
                        discarded_results: counted(old(self).discarded_results),
                        ..*old(self)
                    })
                },
                ResamplingEvent::Failed(job) => if old(self).lifecycle.awaits(job) {
                    &&& update == ResamplingUpdate::Unchanged
                    &&& final(self).lifecycle == (ResamplerLifecycle::Available {
                        generation: old(self).lifecycle->generation,
                        phase: ResamplerPhase::Inactive,
                    })
                    &&& *final(self) == (ViewportResampler {
                        lifecycle: final(self).lifecycle,
                        ..*old(self)
                    })
                } else {
                    &&& update == ResamplingUpdate::Unchanged
                    &&& *final(self) == (ViewportResampler {
                        discarded_results: counted(old(self).discarded_results),
                        ..*old(self)
                    })
                },
                ResamplingEvent::Cancelled => {
                    &&& update == ResamplingUpdate::Unchanged
                    &&& *final(self) == (ViewportResampler {
                        discarded_results: counted(old(self).discarded_results),
                        ..*old(self)
                    })
                },
                ResamplingEvent::Disconnected => {
                    &&& update == (if old(self).lifecycle.shown() is Some {
                        ResamplingUpdate::Release
                    } else {
                        ResamplingUpdate::Unchanged
                    })
                    &&& *final(self) == (ViewportResampler {
                        lifecycle: ResamplerLifecycle::Unavailable,
                        ..*old(self)
                    })
                },
            },
    {
        match event {
            ResamplingEvent::Ready { job, source_bytes } => {
                if self.lifecycle.is_current(job) {
                    self.lifecycle.mark_ready(job.view);
                    self.completions = self.completions.saturating_add(1);
                    self.last_source_bytes = source_bytes;
                    return ResamplingUpdate::Adopt;
                }
                self.discarded_results = self.discarded_results.saturating_add(1);
                ResamplingUpdate::Unchanged
            },
            ResamplingEvent::Failed(job) => {
                if self.lifecycle.is_current(job) {
                    self.lifecycle.mark_failed();
                } else {
                    self.discarded_results = self.discarded_results.saturating_add(1);
                }
                ResamplingUpdate::Unchanged
            },
            ResamplingEvent::Cancelled => {
                self.discarded_results = self.discarded_results.saturating_add(1);
                ResamplingUpdate::Unchanged
            },
            ResamplingEvent::Disconnected => {
                if self.lifecycle.disconnect() {
                    ResamplingUpdate::Release
                } else {
                    ResamplingUpdate::Unchanged
                }
            },
        }
    }

    /// The state of the resampler and its counters. `elapsed` is the duration of
    /// the last resampling in words, if there was one.
    pub fn status(&self, elapsed: Option<&str>) -> (status: String)
        ensures
            status@ == state_text(self.lifecycle) + " (requests "@ + text::decimal(
                self.requests as nat,
            ) + ", completions "@ + text::decimal(self.completions as nat) + ", discarded "@
                + text::decimal(self.discarded_results as nat) + ", last resample "@ + (match elapsed {
                Some(elapsed) => elapsed@,
                None => "n/a"@,
            }) + ", source "@ + text::two_fraction_digits(
                mib_hundredths(self.last_source_bytes as nat),
            ) + " MiB)"@,
    {
        let mut status = String::new();
        match self.lifecycle {
            ResamplerLifecycle::Available { phase: ResamplerPhase::Active(request), .. } => {
                push_text(&mut status, "active ");
                push_decimal(&mut status, request.target.width as u64);
                push_text(&mut status, "x");
                push_decimal(&mut status, request.target.height as u64);
            },
            ResamplerLifecycle::Available { phase: ResamplerPhase::Pending(request), .. } => {
                push_text(&mut status, "pending ");
                push_decimal(&mut status, request.target.width as u64);
                push_text(&mut status, "x");
                push_decimal(&mut status, request.target.height as u64);
            },
            _ => {
                push_text(&mut status, "inactive");
            },
        }
        assert(status@ =~= state_text(self.lifecycle));
        push_text(&mut status, " (requests ");
        push_decimal(&mut status, self.requests);
        push_text(&mut status, ", completions ");
        push_decimal(&mut status, self.completions);
        push_text(&mut status, ", discarded ");
        push_decimal(&mut status, self.discarded_results);
        push_text(&mut status, ", last resample ");
        match elapsed {
            Some(elapsed) => push_text(&mut status, elapsed),
            None => push_text(&mut status, "n/a"),
        }
        push_text(&mut status, ", source ");
        let kib: u64 = bytes_to_kib(u64_from_usize(self.last_source_bytes)) as u64;
        push_two_fraction_digits(&mut status, rounded_quotient(kib * 100, 1024));
        push_text(&mut status, " MiB)");
        status
    }
}

/// The requests among changes.
pub open spec fn request_count(changes: Seq<LifecycleChange>) -> nat
    decreases changes.len(),
{
    if changes.len() == 0 {
        0
    } else {
        request_count(changes.drop_last()) + if changes.last() is Request {
            1nat
        } else {
            0nat
        }
    }
}

/// How far the generation gets with changes, and that a view is waited for only
/// where one was asked for since.
proof fn lemma_generation_after(lifecycle: ResamplerLifecycle, changes: Seq<LifecycleChange>)
    requires
        changes.len() > 0,
        lifecycle is Available,
    ensures
        lifecycle.after(changes) matches ResamplerLifecycle::Available { generation, phase } ==> {
            &&& generation == (lifecycle->generation + request_count(changes))
                % 0x1_0000_0000_0000_0000
            &&& phase is Pending ==> request_count(changes) > 0
        },
    decreases changes.len(),
{
    let before = changes.drop_last();
    if before.len() > 0 {
        lemma_generation_after(lifecycle, before);
    } else {
        assert(lifecycle.after(before) == lifecycle);
        assert(request_count(before) == 0);
    }
}

/// Only the result of the latest request is waited for. After a view was asked
/// for, a result is current exactly if its job has the new generation and that
/// view; after whatever happens next (a result that is shown, a failure, the loss
/// of the worker, or another request, even one for the same view) it is current
/// no more, and stays so, until the generations have wrapped around.
pub proof fn only_the_latest_request_is_current(
    lifecycle: ResamplerLifecycle,
    request: ViewportRequest,
    job: ResamplingJob,
    changes: Seq<LifecycleChange>,
)
    requires
        lifecycle is Available,
        request_count(changes) <= u64::MAX,
    ensures
        ({
            let asked = lifecycle.replaced(Some(request));
            &&& asked.awaits(job) == (job.generation == (lifecycle->generation).wrapping_add(1)
                && request.same_as(job.view))
            &&& changes.len() > 0 && asked.awaits(job) ==> !asked.after(changes).awaits(job)
        }),
{
    if changes.len() > 0 {
        lemma_generation_after(lifecycle.replaced(Some(request)), changes);
    }
}

/// The job of a request is current. Once a view is shown, or given up, or there
/// is no worker, no job is.
pub proof fn a_request_awaits_its_own_job(
    lifecycle: ResamplerLifecycle,
    request: ViewportRequest,
    now: u64,
    other: ResamplingJob,
)
    requires
        lifecycle is Available,
        request.wf(),
    ensures
        lifecycle.replaced(Some(request)).awaits(
            debounced((lifecycle->generation).wrapping_add(1), request, now),
        ),
        !lifecycle.in_phase(ResamplerPhase::Active(request)).awaits(other),
        !lifecycle.in_phase(ResamplerPhase::Inactive).awaits(other),
        !ResamplerLifecycle::Unavailable.awaits(other),
{
}

/// Which views are resampled: those of a window that has pixels and that a texture can
/// hold, at a scale that is a positive finite number other than one, whose texture
/// the memory limit allows. The target is the window, pixel by pixel.
pub proof fn views_are_resampled_at_the_size_of_the_window(
    viewport: (u32, u32),
    scale: u64,
    memory_limit_bytes: int,
    maximum_texture_dimension: u32,
)
    ensures
        ({
            let target = target_of(viewport, scale, memory_limit_bytes, maximum_texture_dimension);
            &&& target is Some <==> {
                &&& 0 < viewport.0 <= maximum_texture_dimension
                &&& 0 < viewport.1 <= maximum_texture_dimension
                &&& 0 < scale < 0x7ff0_0000_0000_0000
                &&& scale != 0x3ff0_0000_0000_0000
                &&& mip::texture_budget(viewport.0 as int, viewport.1 as int, 1, 1)
                    <= memory_limit_bytes
            }
            &&& target matches Some(size) ==> size.width == viewport.0 && size.height == viewport.1
        }),
{
}

/// What is asked for is the view itself: its center, its scale and its window. Without
/// a worker, without a view, or with coordinates that are no finite numbers, nothing
/// is asked for.
pub proof fn requests_ask_for_the_view_itself(
    resampler: ViewportResampler,
    viewport: (u32, u32),
    center_x: u64,
    center_y: u64,
    scale: u64,
    maximum_texture_dimension: u32,
)
    ensures
        ({
            let desired = desired_view(
                resampler,
                viewport,
                Some((center_x, center_y, scale)),
                maximum_texture_dimension,
            );
            &&& desired matches Some(request) ==> {
                &&& request.center_x == center_x
                &&& request.center_y == center_y
                &&& request.scale == scale
                &&& request.target.width == viewport.0
                &&& request.target.height == viewport.1
                &&& request.wf()
                &&& resampler.lifecycle is Available
            }
            &&& desired is None <==> {
                ||| resampler.lifecycle is Unavailable
                ||| !float_bits::finite64(center_x)
                ||| !float_bits::finite64(center_y)
                ||| target_of(
                    viewport,
                    scale,
                    resampler.memory_limit_bytes as int,
                    maximum_texture_dimension,
                ) is None
            }
        }),
        desired_view(resampler, viewport, None, maximum_texture_dimension) is None,
{
}

/// Two requests ask for the same view if their windows and the numbers of their
/// coordinates agree; a positive and a negative zero are one number.
pub proof fn requests_compare_by_their_numbers(a: ViewportRequest, b: ViewportRequest)
    requires
        a.wf(),
        b.wf(),
    ensures
        a.same_as(a),
        a.same_as(b) == b.same_as(a),
        a.same_as(b) ==> a.target.width == b.target.width && a.target.height == b.target.height
            && a.scale == b.scale,
        a.same_as(b) && a.center_x != 0 && a.center_x != 0x8000_0000_0000_0000 ==> a.center_x
            == b.center_x,
        a.same_as(b) && a.center_y != 0 && a.center_y != 0x8000_0000_0000_0000 ==> a.center_y
            == b.center_y,
{
}

/// A counter goes up by one with each event, and stays at the largest number.
pub proof fn counters_count(value: u64)
    ensures
        value < u64::MAX ==> counted(value) == value + 1,
        counted(u64::MAX) == u64::MAX,
{
}

/// A view waits fifty milliseconds before it is resampled: its job is of the given
/// generation and view, and starts that long after it was asked for.
pub proof fn jobs_wait_out_the_delay(
    generation: u64,
    view: ViewportRequest,
    now: u64,
    state: ResamplingWorkerState,
)
    ensures
        debounced(generation, view, now).generation == generation,
        debounced(generation, view, now).view == view,
        debounced(generation, view, now).deadline == now + 50 * 1_000_000,
        state.replaced(generation, Some(view), now).generation == generation,
        state.replaced(generation, Some(view), now).pending == Some(
            debounced(generation, view, now),
        ),
        state.replaced(generation, None, now).pending is None,
        state.replaced(generation, None, now).generation == generation,
        state.replaced(generation, Some(view), now).shutdown == state.shutdown,
        state.replaced(generation, Some(view), now).scratch_peak_bytes == state.scratch_peak_bytes,
        state.stopped().shutdown,
        state.stopped().pending is None,
        state.stopped().generation != state.generation,
        state.stopped().scratch_peak_bytes == state.scratch_peak_bytes,
{
}

/// A byte count is shown in hundredths of a MiB to the nearest, of whole KiB.
pub proof fn hundredths_are_the_nearest(bytes: nat)
    requires
        bytes / 1024 <= u32::MAX,
    ensures
        -1024 <= 2 * (mib_hundredths(bytes) * 1024 - (bytes / 1024) * 100) <= 1024,
{
    let kib = bytes / 1024;
    let quotient = kib * 100 / 1024;
    let remainder = kib * 100 % 1024;
    assert(kib * 100 == quotient * 1024 + remainder);
}

/// The state of a resampler tells the size of the viewport that is shown or waited for,
/// its width before its height.
pub proof fn states_tell_the_size_of_the_viewport(generation: u64, request: ViewportRequest)
    ensures
        ({
            let size = text::decimal(request.target.width as nat) + "x"@ + text::decimal(
                request.target.height as nat,
            );
            let shown = state_text(
                ResamplerLifecycle::Available { generation, phase: ResamplerPhase::Active(request) },
            );
            let waited_for = state_text(
                ResamplerLifecycle::Available {
                    generation,
                    phase: ResamplerPhase::Pending(request),
                },
            );
            &&& shown == "active "@ + size
            &&& waited_for == "pending "@ + size
        }),
        state_text(ResamplerLifecycle::Unavailable) == "inactive"@,
        state_text(
            ResamplerLifecycle::Available { generation, phase: ResamplerPhase::Inactive },
        ) == "inactive"@,
{
    let width = text::decimal(request.target.width as nat);
    let height = text::decimal(request.target.height as nat);
    text::lemma_grouped("active "@, width, "x"@, height);
    text::lemma_grouped("pending "@, width, "x"@, height);
}

/// A worker that waits for a job waits until the job's deadline and no longer, and then
/// runs it; with nothing to wait for it is idle, and a stopped one stops.
pub proof fn workers_wait_until_the_deadline(
    state: ResamplingWorkerState,
    waiting: Option<ResamplingJob>,
    now: u64,
)
    ensures
        state.next(waiting, now) matches WorkerPoll::Debounce { job, timeout } ==> now + timeout
            == job.deadline && timeout > 0,
        state.next(waiting, now) matches WorkerPoll::Run(job) ==> job.deadline <= now,
        state.next(waiting, now) is Shutdown <==> state.shutdown,
        !state.shutdown && state.pending is Some ==> !(state.next(waiting, now) is Idle),
        !state.shutdown && state.pending is None && waiting is None ==> state.next(waiting, now)
            is Idle,
        state.pending matches Some(queued) ==> state.job_to_wait_on(waiting) == Some(queued),
        state.pending is None && waiting is Some && waiting->0.generation == state.generation
            ==> state.job_to_wait_on(waiting) == waiting,
        state.pending is None && waiting is Some && waiting->0.generation != state.generation
            ==> state.job_to_wait_on(waiting) is None,
        state.polled().generation == state.generation,
        state.polled().shutdown == state.shutdown,
        state.polled().scratch_peak_bytes == state.scratch_peak_bytes,
        !state.shutdown ==> state.polled().pending is None,
{
}

/// A view is asked for while it is waited for and while it is shown, and is shown only
/// once its result has come.
pub proof fn views_are_shown_once_their_result_has_come(
    lifecycle: ResamplerLifecycle,
    request: ViewportRequest,
)
    requires
        lifecycle is Available,
    ensures
        lifecycle.replaced(Some(request)).desire() == Some(request),
        lifecycle.replaced(Some(request)).shown() is None,
        lifecycle.replaced(None).desire() is None,
        lifecycle.replaced(None).shown() is None,
        lifecycle.changed(LifecycleChange::Ready(request)).shown() == Some(request),
        lifecycle.changed(LifecycleChange::Ready(request)).desire() == Some(request),
        lifecycle.changed(LifecycleChange::Failed).desire() is None,
        lifecycle.changed(LifecycleChange::Failed).shown() is None,
        lifecycle.changed(LifecycleChange::Disconnect) == ResamplerLifecycle::Unavailable,
        ResamplerLifecycle::Unavailable.shown() is None,
        ResamplerLifecycle::Unavailable.desire() is None,
        ResamplerLifecycle::Unavailable.replaced(Some(request)) == ResamplerLifecycle::Unavailable,
        lifecycle.replaced(Some(request))->generation != lifecycle->generation,
        lifecycle.changed(LifecycleChange::Ready(request))->generation == lifecycle->generation,
        lifecycle.changed(LifecycleChange::Failed)->generation == lifecycle->generation,
{
}

/// Asking for a view differs from asking for none, and from asking for another.
pub proof fn desires_are_compared(a: ViewportRequest, b: ViewportRequest)
    ensures
        !same_desire(Some(a), None),
        !same_desire(None, Some(a)),
        same_desire(None, None),
        same_desire(Some(a), Some(b)) == a.same_as(b),
        a.target != b.target ==> !same_desire(Some(a), Some(b)),
{
}

} // verus!
