//! What the renderer remembers between events, and what each event makes it do.
//!
//! An event changes the remembered state and lists the steps that the graphics
//! device, the view and the window have to take, in their order.
use vstd::prelude::*;
use vstd::string::StringExecFns;

use crate::float_bits;
use crate::hdr_metadata;
use crate::hdr_metadata::{HdrMetadata, SignalStatus};
use crate::output;
use crate::output::{
    OutputMode, RenderingOptions, SurfaceCandidate, SurfaceFormatCapabilities, SurfaceOutputError,
    SurfaceSettings, is_hdr_color_space, surface_configuration, surface_hdr_metadata,
};
use crate::numeric;
use crate::presentation::PresentationParams;
use crate::surface;
use crate::surface::{
    SourceLight, SurfaceSelection, SurfaceUpdate, ViewUniform, limited_exposure_stops,
    next_background, plan_surface_update, select_surface, shader_parameters, shown_source_light,
};
use crate::text::push_text;

verus! {

/// Something to do after an event.
#[derive(Clone, Copy, Debug, PartialEq, Eq)]
pub enum GpuStep {
    /// The view of the image follows the event.
    MoveView,
    /// Tiles and the resampled viewport are requested for the view.
    RequestViewWork,
    /// What graphics memory the resampled viewport gets is remembered with the
    /// image.
    NoteReservation,
    /// The tiles of a new image are requested for its view.
    RequestTiles,
    /// The resampled viewport of a new image is requested for its view.
    RequestResampling,
    /// The surface is selected and configured anew.
    Reconfigure { reason: &'static str },
    /// The surface is created anew.
    RecreateSurface,
    /// The surface takes an output that was selected already.
    ConfigureSurface { reason: &'static str },
    /// The textures are bound anew.
    RebuildBindings,
    /// The shader gets new parameters.
    UpdateParameters,
    /// The display gets new HDR metadata.
    RefreshMetadata { reason: &'static str },
    /// The window is drawn again.
    Redraw,
}

/// The state in which a surface hands out its next texture.
#[derive(Clone, Copy, Debug, PartialEq, Eq, Structural)]
pub enum SurfaceFrame {
    Success,
    Suboptimal,
    Timeout,
    Occluded,
    Outdated,
    Lost,
    Validation,
}

/// What becomes of a frame: whether it is drawn and presented, and what is to be
/// done afterwards.
#[derive(Debug)]
pub struct FramePlan {
    pub present: bool,
    pub steps: Vec<GpuStep>,
}

/// What the renderer remembers of the installed image.
#[derive(Clone, Copy, Debug, PartialEq, Eq)]
pub struct ImageState {
    pub dimensions: (u32, u32),
    pub light: SourceLight,
}

/// What the renderer remembers.
#[derive(Clone, Copy, Debug, PartialEq, Eq)]
pub struct GpuState {
    pub selection: SurfaceSelection,
    pub width: u32,
    pub height: u32,
    pub output_mode: OutputMode,
    pub rendering_options: RenderingOptions,
    pub image: Option<ImageState>,
    pub hdr_metadata_status: SignalStatus,
    pub diagnostics_pattern: bool,
    pub ui_centered: bool,
}

/// The steps that move the view of an installed image.
pub open spec fn view_steps(loaded: bool) -> Seq<GpuStep> {
    if loaded {
        seq![GpuStep::MoveView, GpuStep::RequestViewWork]
    } else {
        seq![GpuStep::RequestViewWork]
    }
}

/// The steps that show a moved view.
pub open spec fn shown_view_steps(loaded: bool) -> Seq<GpuStep> {
    view_steps(loaded) + seq![GpuStep::UpdateParameters, GpuStep::Redraw]
}

/// The steps that request the work for a new image, whose textures are bound only
/// afterwards.
pub open spec fn new_image_steps() -> Seq<GpuStep> {
    seq![GpuStep::NoteReservation, GpuStep::RequestTiles, GpuStep::RequestResampling]
}

/// The steps after an image was installed.
pub open spec fn install_steps(previous: SurfaceCandidate, selected: SurfaceCandidate) -> Seq<
    GpuStep,
> {
    let bindings = if selected.format == previous.format {
        seq![GpuStep::RebuildBindings]
    } else {
        Seq::empty()
    };
    let output = if selected == previous {
        seq![GpuStep::UpdateParameters, GpuStep::RefreshMetadata { reason: "image changed" }]
    } else {
        seq![GpuStep::ConfigureSurface { reason: "source dynamic range changed" }]
    };
    new_image_steps() + bindings + output + seq![GpuStep::Redraw]
}

/// The steps after tiles or a resampled viewport were completed.
pub open spec fn background_steps(tiles_changed: bool, resampled_changed: bool) -> Seq<GpuStep> {
    if resampled_changed {
        seq![GpuStep::RebuildBindings, GpuStep::UpdateParameters, GpuStep::Redraw]
    } else if tiles_changed {
        seq![GpuStep::Redraw]
    } else {
        Seq::empty()
    }
}

/// The steps after a frame of the surface.
pub open spec fn frame_steps(frame: SurfaceFrame) -> Seq<GpuStep> {
    match frame {
        SurfaceFrame::Suboptimal => seq![
            GpuStep::Reconfigure { reason: "surface became suboptimal" },
            GpuStep::Redraw,
        ],
        SurfaceFrame::Outdated => seq![
            GpuStep::Reconfigure { reason: "surface became outdated" },
            GpuStep::Redraw,
        ],
        SurfaceFrame::Lost => seq![
            GpuStep::RecreateSurface,
            GpuStep::Reconfigure { reason: "surface was lost and recreated" },
            GpuStep::Redraw,
        ],
        _ => Seq::empty(),
    }
}

/// Lists the steps that move the view.
fn list_view_steps(loaded: bool) -> (steps: Vec<GpuStep>)
    ensures
        steps@ == view_steps(loaded),
{
    let mut steps: Vec<GpuStep> = Vec::new();
    if loaded {
        steps.push(GpuStep::MoveView);
    }
    steps.push(GpuStep::RequestViewWork);
    assert(steps@ =~= view_steps(loaded));
    steps
}

/// Lists the steps that show a moved view.
fn list_shown_view_steps(loaded: bool) -> (steps: Vec<GpuStep>)
    ensures
        steps@ == shown_view_steps(loaded),
{
    let mut steps: Vec<GpuStep> = list_view_steps(loaded);
    steps.push(GpuStep::UpdateParameters);
    steps.push(GpuStep::Redraw);
    assert(steps@ =~= shown_view_steps(loaded));
    steps
}

impl GpuState {
    /// What holds of the renderer between events: the surface has an output that
    /// can be selected, and pixels.
    pub open spec fn wf(self) -> bool {
        &&& output::selectable(self.selection.candidate.color_space)
        &&& self.width > 0
        &&& self.height > 0
    }

    /// The light of what is shown.
    pub open spec fn light(self) -> SourceLight {
        match self.image {
            Some(image) => image.light,
            None => SourceLight {
                dynamic_range: surface::idle_range(self.diagnostics_pattern),
                peak_nits: surface::HLG_PATTERN_SOURCE_PEAK_NITS,
                min_nits: 0,
            },
        }
    }

    /// The light of what is shown.
    pub fn source_light(&self) -> (light: SourceLight)
        ensures
            light == self.light(),
    {
        let image: Option<SourceLight> = match self.image {
            Some(image) => Some(image.light),
            None => None,
        };
        shown_source_light(image, self.diagnostics_pattern)
    }

    /// Whether the surface shows HDR.
    pub fn is_hdr_surface(&self) -> (hdr: bool)
        ensures
            hdr == output::hdr_color_space(self.selection.candidate.color_space),
    {
        is_hdr_color_space(self.selection.candidate.color_space)
    }

    /// Whether the surface could not show HDR.
    pub fn hdr_encoding_unavailable(&self) -> (unavailable: bool)
        ensures
            unavailable == !self.selection.hdr_encoding_available,
    {
        !self.selection.hdr_encoding_available
    }

    /// What became of the HDR metadata.
    pub fn hdr_metadata_summary(&self) -> (summary: &'static str)
        ensures
            summary@ == hdr_metadata::status_summary(self.hdr_metadata_status),
    {
        self.hdr_metadata_status.summary()
    }

    /// Replaces the shown image. Its output was selected before, so nothing is
    /// left that can fail.
    pub fn set_image(&mut self, image: ImageState, selection: SurfaceSelection) -> (steps: Vec<
        GpuStep,
    >)
        requires
            old(self).wf(),
        ensures
            final(self).wf(),
            *final(self) == (GpuState {
                image: Some(image),
                selection: if selection.candidate == old(self).selection.candidate {
                    selection
                } else {
                    old(self).selection
                },
                ..*old(self)
            }),
            steps@ == install_steps(old(self).selection.candidate, selection.candidate),
    {
        self.image = Some(image);
        let mut steps: Vec<GpuStep> = Vec::new();
        steps.push(GpuStep::NoteReservation);
        steps.push(GpuStep::RequestTiles);
        steps.push(GpuStep::RequestResampling);
        if selection.candidate.format == self.selection.candidate.format {
            steps.push(GpuStep::RebuildBindings);
        }
        if selection.candidate == self.selection.candidate {
            self.selection = selection;
            steps.push(GpuStep::UpdateParameters);
            steps.push(GpuStep::RefreshMetadata { reason: "image changed" });
        } else {
            steps.push(GpuStep::ConfigureSurface { reason: "source dynamic range changed" });
        }
        steps.push(GpuStep::Redraw);
        assert(steps@ =~= install_steps(old(self).selection.candidate, selection.candidate));
        steps
    }

    /// The window has another size. One without pixels changes nothing.
    pub fn resize(&mut self, size: (u32, u32)) -> (steps: Vec<GpuStep>)
        requires
            old(self).wf(),
        ensures
            final(self).wf(),
            if size.0 == 0 || size.1 == 0 {
                *final(self) == *old(self) && steps@.len() == 0
            } else {
                &&& *final(self) == (GpuState { width: size.0, height: size.1, ..*old(self) })
                &&& steps@ == view_steps(old(self).image is Some) + seq![
                    GpuStep::Reconfigure { reason: "window resized" },
                ]
            },
    {
        if size.0 == 0 || size.1 == 0 {
            return Vec::new();
        }
        self.width = size.0;
        self.height = size.1;
        let mut steps: Vec<GpuStep> = list_view_steps(self.image.is_some());
        steps.push(GpuStep::Reconfigure { reason: "window resized" });
        assert(steps@ =~= view_steps(old(self).image is Some) + seq![
            GpuStep::Reconfigure { reason: "window resized" },
        ]);
        steps
    }

    /// The window has another scale factor, and with it another size.
    pub fn scale_factor_changed(&mut self, size: (u32, u32)) -> (steps: Vec<GpuStep>)
        requires
            old(self).wf(),
        ensures
            final(self).wf(),
            if size.0 == 0 || size.1 == 0 {
                *final(self) == *old(self) && steps@.len() == 0
            } else {
                &&& *final(self) == (GpuState { width: size.0, height: size.1, ..*old(self) })
                &&& steps@ == view_steps(old(self).image is Some) + seq![
                    GpuStep::Reconfigure { reason: "window scale factor changed" },
                ]
            },
    {
        if size.0 == 0 || size.1 == 0 {
            return Vec::new();
        }
        self.width = size.0;
        self.height = size.1;
        let mut steps: Vec<GpuStep> = list_view_steps(self.image.is_some());
        steps.push(GpuStep::Reconfigure { reason: "window scale factor changed" });
        assert(steps@ =~= view_steps(old(self).image is Some) + seq![
            GpuStep::Reconfigure { reason: "window scale factor changed" },
        ]);
        steps
    }

    /// The whole image is to be shown.
    pub fn fit_view(&self) -> (steps: Vec<GpuStep>)
        ensures
            steps@ == shown_view_steps(self.image is Some),
    {
        list_shown_view_steps(self.image.is_some())
    }

    /// One image pixel is to take one logical pixel.
    pub fn one_to_one(&self) -> (steps: Vec<GpuStep>)
        ensures
            steps@ == shown_view_steps(self.image is Some),
    {
        list_shown_view_steps(self.image.is_some())
    }

    /// The view is to be scaled around a point.
    pub fn zoom_at(&self) -> (steps: Vec<GpuStep>)
        ensures
            steps@ == shown_view_steps(self.image is Some),
    {
        list_shown_view_steps(self.image.is_some())
    }

    /// The view is to be moved.
    pub fn pan_by(&self) -> (steps: Vec<GpuStep>)
        ensures
            steps@ == shown_view_steps(self.image is Some),
    {
        list_shown_view_steps(self.image.is_some())
    }

    /// The exposure is to have another value, which is kept within ten stops.
    pub fn adjust_exposure(&mut self, exposure_stops: u32) -> (steps: Vec<GpuStep>)
        requires
            old(self).wf(),
        ensures
            final(self).wf(),
            *final(self) == (GpuState {
                rendering_options: RenderingOptions {
                    exposure_stops: float_bits::clamped32(
                        exposure_stops,
                        0xc120_0000,
                        0x4120_0000,
                    ),
                    background: old(self).rendering_options.background,
                },
                ..*old(self)
            }),
            steps@ == seq![
                GpuStep::UpdateParameters,
                GpuStep::RefreshMetadata { reason: "exposure changed" },
                GpuStep::Redraw,
            ],
    {
        self.rendering_options.exposure_stops = limited_exposure_stops(exposure_stops);
        let mut steps: Vec<GpuStep> = Vec::new();
        steps.push(GpuStep::UpdateParameters);
        steps.push(GpuStep::RefreshMetadata { reason: "exposure changed" });
        steps.push(GpuStep::Redraw);
        steps
    }

    /// The whole image is to be shown without exposure.
    pub fn reset_view_and_exposure(&mut self) -> (steps: Vec<GpuStep>)
        requires
            old(self).wf(),
        ensures
            final(self).wf(),
            *final(self) == (GpuState {
                rendering_options: RenderingOptions {
                    exposure_stops: 0,
                    background: old(self).rendering_options.background,
                },
                ..*old(self)
            }),
            steps@ == view_steps(old(self).image is Some) + seq![
                GpuStep::UpdateParameters,
                GpuStep::RefreshMetadata { reason: "exposure reset" },
                GpuStep::Redraw,
            ],
    {
        self.rendering_options.exposure_stops = 0;
        let mut steps: Vec<GpuStep> = list_view_steps(self.image.is_some());
        steps.push(GpuStep::UpdateParameters);
        steps.push(GpuStep::RefreshMetadata { reason: "exposure reset" });
        steps.push(GpuStep::Redraw);
        assert(steps@ =~= view_steps(old(self).image is Some) + seq![
            GpuStep::UpdateParameters,
            GpuStep::RefreshMetadata { reason: "exposure reset" },
            GpuStep::Redraw,
        ]);
        steps
    }

    /// The next background is to be shown.
    pub fn cycle_background(&mut self) -> (steps: Vec<GpuStep>)
        requires
            old(self).wf(),
        ensures
            final(self).wf(),
            *final(self) == (GpuState {
                rendering_options: RenderingOptions {
                    exposure_stops: old(self).rendering_options.exposure_stops,
                    background: surface::background_after(old(self).rendering_options.background),
                },
                ..*old(self)
            }),
            steps@ == seq![GpuStep::UpdateParameters, GpuStep::Redraw],
    {
        self.rendering_options.background = next_background(self.rendering_options.background);
        let mut steps: Vec<GpuStep> = Vec::new();
        steps.push(GpuStep::UpdateParameters);
        steps.push(GpuStep::Redraw);
        steps
    }

    /// The display may have changed.
    pub fn refresh_display(&self, reason: &'static str) -> (steps: Vec<GpuStep>)
        ensures
            steps@ == seq![GpuStep::Reconfigure { reason }, GpuStep::Redraw],
    {
        let mut steps: Vec<GpuStep> = Vec::new();
        steps.push(GpuStep::Reconfigure { reason });
        steps.push(GpuStep::Redraw);
        steps
    }

    /// The overlay has another texture.
    pub fn set_ui_overlay(&mut self, centered: bool) -> (steps: Vec<GpuStep>)
        requires
            old(self).wf(),
        ensures
            final(self).wf(),
            *final(self) == (GpuState { ui_centered: centered, ..*old(self) }),
            steps@ == seq![
                GpuStep::RebuildBindings,
                GpuStep::UpdateParameters,
                GpuStep::Redraw,
            ],
    {
        self.ui_centered = centered;
        let mut steps: Vec<GpuStep> = Vec::new();
        steps.push(GpuStep::RebuildBindings);
        steps.push(GpuStep::UpdateParameters);
        steps.push(GpuStep::Redraw);
        steps
    }

    /// Tiles or a resampled viewport were completed, which may have changed what
    /// is shown.
    pub fn process_background_work(&self, tiles_changed: bool, resampled_changed: bool) -> (steps:
        Vec<GpuStep>)
        ensures
            steps@ == if self.image is Some {
                background_steps(tiles_changed, resampled_changed)
            } else {
                Seq::empty()
            },
    {
        let mut steps: Vec<GpuStep> = Vec::new();
        if self.image.is_none() {
            return steps;
        }
        if resampled_changed {
            steps.push(GpuStep::RebuildBindings);
            steps.push(GpuStep::UpdateParameters);
        }
        if tiles_changed || resampled_changed {
            steps.push(GpuStep::Redraw);
        }
        assert(steps@ =~= background_steps(tiles_changed, resampled_changed));
        steps
    }

    /// Work was requested for a view, which may have replaced textures.
    pub fn request_view_work(&self, resampling_replaced: bool, tiles_replaced: bool) -> (rebuild:
        bool)
        ensures
            rebuild == (self.image is Some && (resampling_replaced || tiles_replaced)),
    {
        self.image.is_some() && (resampling_replaced || tiles_replaced)
    }

    /// Takes a selected output over, and says how the surface is configured.
    pub fn configure_surface(&mut self, selection: SurfaceSelection, window_size: (u32, u32)) -> (
        update: SurfaceUpdate)
        requires
            old(self).wf(),
            output::selectable(selection.candidate.color_space),
        ensures
            final(self).wf(),
            ({
                let before = *old(self);
                let size = if window_size.0 > 0 && window_size.1 > 0 {
                    window_size
                } else {
                    (before.width, before.height)
                };
                &&& update.settings.candidate == selection.candidate
                &&& update.settings.width == numeric::larger(size.0 as int, 1)
                &&& update.settings.height == numeric::larger(size.1 as int, 1)
                &&& update.settings.desired_maximum_frame_latency == 2
                &&& update.candidate_changed == (selection.candidate
                    != before.selection.candidate)
                &&& update.rebuild_pipeline == (selection.candidate.format
                    != before.selection.candidate.format)
                &&& *final(self) == (GpuState {
                    selection,
                    width: update.settings.width,
                    height: update.settings.height,
                    ..before
                })
            }),
    {
        let update: SurfaceUpdate = plan_surface_update(
            self.selection.candidate,
            selection.candidate,
            (self.width, self.height),
            window_size,
        );
        self.selection = selection;
        self.width = update.settings.width;
        self.height = update.settings.height;
        update
    }

    /// The shader's parameters for what is shown, before the tiles and the
    /// resampled viewport are taken into account.
    pub fn shader_parameters(
        &self,
        sdr_white_nits: Option<u32>,
        source_range_code: u32,
        view: Option<ViewUniform>,
    ) -> (parameters: PresentationParams)
        requires
            self.wf(),
        ensures
            parameters == surface::parameters_for(
                self.selection.candidate,
                self.rendering_options,
                sdr_white_nits,
                match self.image {
                    Some(image) => Some(image.dimensions),
                    None => None,
                },
                source_range_code,
                self.light().peak_nits,
                (self.width, self.height),
                view,
                self.diagnostics_pattern,
                self.ui_centered,
            ),
    {
        let dimensions: Option<(u32, u32)> = match self.image {
            Some(image) => Some(image.dimensions),
            None => None,
        };
        shader_parameters(
            self.selection.candidate,
            self.rendering_options,
            sdr_white_nits,
            dimensions,
            source_range_code,
            self.source_light().peak_nits,
            (self.width, self.height),
            view,
            self.diagnostics_pattern,
            self.ui_centered,
        )
    }

    /// The HDR metadata of what is shown. `exposed_peak_nits` is the source's
    /// mastering peak after the exposure.
    pub fn current_hdr_metadata(&self, exposed_peak_nits: u32) -> (metadata: Option<HdrMetadata>)
        ensures
            metadata == if output::hdr_color_space(self.selection.candidate.color_space) {
                Some(
                    output::hdr_metadata_of(
                        self.selection.candidate.color_space,
                        output::mastering_peak(
                            self.light().dynamic_range,
                            self.light().peak_nits,
                        ),
                        exposed_peak_nits,
                        self.light().min_nits,
                    ),
                )
            } else {
                None
            },
    {
        let light: SourceLight = self.source_light();
        surface_hdr_metadata(
            self.selection.candidate,
            light.dynamic_range,
            light.peak_nits,
            light.min_nits,
            exposed_peak_nits,
        )
    }

    /// Decides what becomes of the next frame of the surface.
    pub fn render(&self, frame: SurfaceFrame) -> (plan: Result<FramePlan, GpuOperationError>)
        ensures
            frame == SurfaceFrame::Validation <==> plan is Err,
            plan is Err ==> plan->Err_0 is SurfaceValidation,
            plan matches Ok(planned) ==> planned.present == (frame == SurfaceFrame::Success || frame
                == SurfaceFrame::Suboptimal) && planned.steps@ == frame_steps(frame),
    {
        let mut steps: Vec<GpuStep> = Vec::new();
        let present: bool = match frame {
            SurfaceFrame::Success => true,
            SurfaceFrame::Suboptimal => {
                steps.push(GpuStep::Reconfigure { reason: "surface became suboptimal" });
                steps.push(GpuStep::Redraw);
                true
            },
            SurfaceFrame::Timeout => false,
            SurfaceFrame::Occluded => false,
            SurfaceFrame::Outdated => {
                steps.push(GpuStep::Reconfigure { reason: "surface became outdated" });
                steps.push(GpuStep::Redraw);
                false
            },
            SurfaceFrame::Lost => {
                steps.push(GpuStep::RecreateSurface);
                steps.push(GpuStep::Reconfigure { reason: "surface was lost and recreated" });
                steps.push(GpuStep::Redraw);
                false
            },
            SurfaceFrame::Validation => {
                return Err(GpuOperationError::SurfaceValidation);
            },
        };
        assert(steps@ =~= frame_steps(frame));
        Ok(FramePlan { present, steps })
    }

    /// Remembers what became of the HDR metadata. Returns whether that is new.
    pub fn set_hdr_metadata_status(&mut self, status: SignalStatus) -> (changed: bool)
        requires
            old(self).wf(),
        ensures
            final(self).wf(),
            *final(self) == (GpuState { hdr_metadata_status: status, ..*old(self) }),
            changed == (status != old(self).hdr_metadata_status),
    {
        let changed: bool = status != self.hdr_metadata_status;
        self.hdr_metadata_status = status;
        changed
    }
}

/// Selects the output of a new renderer, which shows no image. The surface
/// is configured to the window's size.
pub fn initialize(
    capabilities: &[SurfaceFormatCapabilities],
    output_mode: OutputMode,
    rendering_options: RenderingOptions,
    diagnostics_pattern: bool,
    window_size: (u32, u32),
) -> (state: Result<(GpuState, SurfaceSettings), SurfaceOutputError>)
    ensures
        match output::first_candidate(
            capabilities@,
            output::color_space_priority(
                output_mode,
                surface::idle_range(diagnostics_pattern),
            ),
        ) {
            Some(candidate) => {
                let settings = SurfaceSettings {
                    candidate,
                    width: numeric::larger(window_size.0 as int, 1) as u32,
                    height: numeric::larger(window_size.1 as int, 1) as u32,
                    desired_maximum_frame_latency: 2,
                };
                state == Ok::<(GpuState, SurfaceSettings), SurfaceOutputError>(
                    (
                        GpuState {
                            selection: SurfaceSelection {
                                candidate,
                                hdr_encoding_available: !surface::hdr_unavailable(
                                    capabilities@,
                                ),
                            },
                            width: settings.width,
                            height: settings.height,
                            output_mode,
                            rendering_options,
                            image: None,
                            hdr_metadata_status: SignalStatus::NotRequested,
                            diagnostics_pattern,
                            ui_centered: false,
                        },
                        settings,
                    ),
                )
            },
            None => state == Err::<(GpuState, SurfaceSettings), SurfaceOutputError>(
                if output_mode == OutputMode::Auto {
                    SurfaceOutputError::NoUsablePair
                } else {
                    SurfaceOutputError::RequestedModeUnavailable(output_mode)
                },
            ),
        },
        state matches Ok((started, settings)) ==> started.wf(),
{
    let light: SourceLight = shown_source_light(None, diagnostics_pattern);
    match select_surface(capabilities, output_mode, light.dynamic_range) {
        Ok(selection) => {
            let settings: SurfaceSettings = surface_configuration(
                selection.candidate,
                window_size,
            );
            Ok(
                (
                    GpuState {
                        selection,
                        width: settings.width,
                        height: settings.height,
                        output_mode,
                        rendering_options,
                        image: None,
                        hdr_metadata_status: SignalStatus::NotRequested,
                        diagnostics_pattern,
                        ui_centered: false,
                    },
                    settings,
                ),
            )
        },
        Err(error) => Err(error),
    }
}

/// Why an operation of the renderer failed. What the graphics library says is
/// kept in words.
#[derive(Debug)]
pub enum GpuOperationError {
    ImageResources(String),
    OutputUnavailable(SurfaceOutputError),
    SurfaceCreation(String),
    SurfaceValidation,
}

/// The text of an operation error.
pub open spec fn operation_error_text(error: GpuOperationError) -> Seq<char> {
    match error {
        GpuOperationError::ImageResources(source) => source@,
        GpuOperationError::OutputUnavailable(error) => output::output_error_text(error),
        GpuOperationError::SurfaceCreation(source) => source@,
        GpuOperationError::SurfaceValidation => "surface texture acquisition failed validation"@,
    }
}

impl GpuOperationError {
    /// The message shown for the error.
    pub fn message(&self) -> (text: String)
        requires
            *self matches GpuOperationError::OutputUnavailable(error) ==> error
                != SurfaceOutputError::RequestedModeUnavailable(OutputMode::Auto),
        ensures
            text@ == operation_error_text(*self),
    {
        let mut text = String::new();
        match self {
            GpuOperationError::ImageResources(source) => {
                push_text(&mut text, source.as_str());
            },
            GpuOperationError::OutputUnavailable(error) => {
                return error.message();
            },
            GpuOperationError::SurfaceCreation(source) => {
                push_text(&mut text, source.as_str());
            },
            GpuOperationError::SurfaceValidation => {
                push_text(&mut text, "surface texture acquisition failed validation");
            },
        }
        assert(text@ =~= operation_error_text(*self));
        text
    }
}

/// Steps that end in a redraw, before which the shader gets new parameters: by
/// themselves, or with the configuration of the surface.
pub open spec fn are_drawn(steps: Seq<GpuStep>) -> bool {
    &&& steps.len() > 0
    &&& steps.last() == GpuStep::Redraw
    &&& exists|i: int|
        0 <= i < steps.len() - 1 && (#[trigger] steps[i] is UpdateParameters || steps[i]
            is ConfigureSurface || steps[i] is Reconfigure)
}

/// A replaced image, a moved view and a completed resampled viewport are drawn
/// with parameters of their own.
pub proof fn changes_are_drawn(
    previous: SurfaceCandidate,
    selected: SurfaceCandidate,
    loaded: bool,
    tiles_changed: bool,
)
    ensures
        are_drawn(install_steps(previous, selected)),
        are_drawn(shown_view_steps(loaded)),
        are_drawn(background_steps(tiles_changed, true)),
{
    let installed = install_steps(previous, selected);
    let at = if selected.format == previous.format {
        4int
    } else {
        3int
    };
    assert(installed[at] is UpdateParameters || installed[at] is ConfigureSurface);
    let moved = shown_view_steps(loaded);
    assert(moved[view_steps(loaded).len() as int] is UpdateParameters);
    let resampled = background_steps(tiles_changed, true);
    assert(resampled[1] is UpdateParameters);
}

/// Textures are never bound for a pipeline that is about to be replaced: the
/// bindings are rebuilt with an installed image exactly while the format stays.
pub proof fn bindings_follow_the_pipeline(previous: SurfaceCandidate, selected: SurfaceCandidate)
    ensures
        install_steps(previous, selected).contains(GpuStep::RebuildBindings) == (selected.format
            == previous.format),
{
    let steps = install_steps(previous, selected);
    if selected.format == previous.format {
        assert(steps[3] == GpuStep::RebuildBindings);
    }
}

/// Before the textures of a new image are bound, before its parameters are
/// written and before it is drawn, its tiles and its resampled viewport are
/// requested.
pub proof fn new_images_are_requested_first(
    previous: SurfaceCandidate,
    selected: SurfaceCandidate,
    index: int,
)
    requires
        0 <= index < install_steps(previous, selected).len(),
    ensures
        ({
            let step = install_steps(previous, selected)[index];
            let requests = step == GpuStep::NoteReservation || step == GpuStep::RequestTiles
                || step == GpuStep::RequestResampling;
            requests == (index < 3)
        }),
        install_steps(previous, selected).take(3) == new_image_steps(),
{
    assert(install_steps(previous, selected).take(3) =~= new_image_steps());
}

/// A view that is shown moves before work is requested for it; without an image only
/// the work is requested. What is then shown gets its parameters before it is drawn.
pub proof fn views_move_before_their_work()
    ensures
        view_steps(true).len() == 2,
        view_steps(true)[0] == GpuStep::MoveView,
        view_steps(true)[1] == GpuStep::RequestViewWork,
        view_steps(false).len() == 1,
        view_steps(false)[0] == GpuStep::RequestViewWork,
        forall|loaded: bool| #[trigger]
            shown_view_steps(loaded).len() == view_steps(loaded).len() + 2 && shown_view_steps(
                loaded,
            ).take(view_steps(loaded).len() as int) == view_steps(loaded)
                && shown_view_steps(loaded)[view_steps(loaded).len() as int]
                == GpuStep::UpdateParameters && shown_view_steps(loaded).last() == GpuStep::Redraw,
{
    assert forall|loaded: bool| #[trigger]
        shown_view_steps(loaded).len() == view_steps(loaded).len() + 2 && shown_view_steps(
            loaded,
        ).take(view_steps(loaded).len() as int) == view_steps(loaded)
            && shown_view_steps(loaded)[view_steps(loaded).len() as int]
            == GpuStep::UpdateParameters && shown_view_steps(loaded).last() == GpuStep::Redraw by {
        assert(shown_view_steps(loaded).take(view_steps(loaded).len() as int) =~= view_steps(
            loaded,
        ));
    }
}

/// An installed image takes the output over that was selected for it: the surface is
/// configured exactly where that is another one, and else the parameters and the
/// metadata are renewed. The redraw comes last, and only once.
pub proof fn installed_images_take_their_output(
    previous: SurfaceCandidate,
    selected: SurfaceCandidate,
)
    ensures
        ({
            let steps = install_steps(previous, selected);
            let configure = GpuStep::ConfigureSurface { reason: "source dynamic range changed" };
            let refresh = GpuStep::RefreshMetadata { reason: "image changed" };
            let last = steps.len() - 1;
            &&& steps.contains(configure) <==> selected != previous
            &&& steps.contains(GpuStep::UpdateParameters) <==> selected == previous
            &&& steps.contains(refresh) <==> selected == previous
            &&& steps[last] == GpuStep::Redraw
            &&& selected == previous ==> steps[last - 1] == refresh && steps[last - 2]
                == GpuStep::UpdateParameters && steps[last - 3] == GpuStep::RebuildBindings
            &&& selected != previous ==> steps[last - 1] == configure
            &&& selected != previous && selected.format == previous.format ==> steps[last - 2]
                == GpuStep::RebuildBindings
        }),
{
    let steps = install_steps(previous, selected);
    let last = steps.len() - 1;
    if selected == previous {
        assert(steps[last - 1] == GpuStep::RefreshMetadata { reason: "image changed" });
        assert(steps[last - 2] == GpuStep::UpdateParameters);
    } else {
        assert(steps[last - 1] == GpuStep::ConfigureSurface {
            reason: "source dynamic range changed",
        });
    }
}

/// A completed resampled viewport is bound and gets parameters before it is drawn, a
/// completed tile is only drawn, and where nothing was completed nothing is done.
pub proof fn completed_work_is_drawn(tiles_changed: bool)
    ensures
        background_steps(tiles_changed, true) == seq![
            GpuStep::RebuildBindings,
            GpuStep::UpdateParameters,
            GpuStep::Redraw,
        ],
        background_steps(true, false) == seq![GpuStep::Redraw],
        background_steps(false, false).len() == 0,
{
}

/// A surface that no longer fits is configured again and drawn; one that was lost is
/// created anew before that. Otherwise nothing follows a frame.
pub proof fn surfaces_are_mended_before_the_next_frame(frame: SurfaceFrame)
    ensures
        ({
            let steps = frame_steps(frame);
            &&& steps.len() > 0 <==> (frame == SurfaceFrame::Suboptimal || frame
                == SurfaceFrame::Outdated || frame == SurfaceFrame::Lost)
            &&& steps.len() > 0 ==> steps.last() == GpuStep::Redraw && steps[steps.len() - 2]
                is Reconfigure
            &&& steps.len() == 3 <==> frame == SurfaceFrame::Lost
            &&& frame == SurfaceFrame::Lost ==> steps[0] == GpuStep::RecreateSurface
            &&& frame != SurfaceFrame::Lost ==> !steps.contains(GpuStep::RecreateSurface)
        }),
{
}

/// What is shown has the light of the image, if there is one, and else that of the HLG
/// pattern where that is shown, or of an SDR source.
pub proof fn the_image_gives_the_light(state: GpuState, image: ImageState)
    ensures
        (GpuState { image: Some(image), ..state }).light() == image.light,
        state.image is None ==> state.light().dynamic_range == (if state.diagnostics_pattern {
            output::SourceDynamicRange::Hlg
        } else {
            output::SourceDynamicRange::Sdr
        }),
        state.image is None ==> output::is_whole_number(state.light().peak_nits, 1000)
            && state.light().min_nits == 0,
{
    vstd::arithmetic::power2::lemma2_to64();
}

/// A failed operation is told with what the graphics library says, or as the output's
/// error.
pub proof fn operation_errors_tell_their_source(source: String, error: SurfaceOutputError)
    ensures
        operation_error_text(GpuOperationError::ImageResources(source)) == source@,
        operation_error_text(GpuOperationError::SurfaceCreation(source)) == source@,
        operation_error_text(GpuOperationError::OutputUnavailable(error))
            == output::output_error_text(error),
        operation_error_text(GpuOperationError::SurfaceValidation)
            == "surface texture acquisition failed validation"@,
{
}

} // verus!
