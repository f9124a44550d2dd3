//! HDR luminance values that a surface signals to the display, and what became
//! of the signal.
use vstd::prelude::*;

verus! {

/// Static HDR metadata in the BT.2020 color volume. The luminances are
/// single-precision bits.
#[derive(Clone, Copy, Debug, PartialEq, Eq, Structural)]
pub struct HdrMetadata {
    pub mastering_max_nits: u32,
    pub mastering_min_nits: u32,
    pub max_cll_nits: u32,
    pub max_fall_nits: u32,
}

impl HdrMetadata {
    /// Metadata of content that was mastered in BT.2020.
    pub fn bt2020(
        mastering_max_luminance_nits: u32,
        mastering_min_luminance_nits: u32,
        max_content_light_level_nits: u32,
        max_frame_average_light_level_nits: u32,
    ) -> (metadata: HdrMetadata)
        ensures
            metadata == (HdrMetadata {
                mastering_max_nits: mastering_max_luminance_nits,
                mastering_min_nits: mastering_min_luminance_nits,
                max_cll_nits: max_content_light_level_nits,
                max_fall_nits: max_frame_average_light_level_nits,
            }),
    {
        HdrMetadata {
            mastering_max_nits: mastering_max_luminance_nits,
            mastering_min_nits: mastering_min_luminance_nits,
            max_cll_nits: max_content_light_level_nits,
            max_fall_nits: max_frame_average_light_level_nits,
        }
    }
}

/// What became of the HDR metadata of a surface.
#[derive(Clone, Copy, Debug, PartialEq, Eq, Structural)]
pub enum SignalStatus {
    /// The metadata was handed to the display.
    Signaled,
    /// The surface has no metadata.
    NotRequested,
    /// The driver cannot signal metadata.
    Unsupported,
    /// The surface could not take the metadata.
    SurfaceUnavailable,
    /// A backend presents HDR by its own means.
    BackendManaged,
}

/// The status as the summary of a surface words it.
pub open spec fn status_summary(status: SignalStatus) -> Seq<char> {
    match status {
        SignalStatus::Signaled => "Metadata signaled"@,
        SignalStatus::NotRequested => "Metadata not requested"@,
        SignalStatus::Unsupported => "Metadata unsupported"@,
        SignalStatus::SurfaceUnavailable => "Metadata unavailable"@,
        SignalStatus::BackendManaged => "Metadata managed by Metal"@,
    }
}

impl SignalStatus {
    /// The status as the summary of a surface words it.
    pub fn summary(self) -> (summary: &'static str)
        ensures
            summary@ == status_summary(self),
    {
        match self {
            SignalStatus::Signaled => "Metadata signaled",
            SignalStatus::NotRequested => "Metadata not requested",
            SignalStatus::Unsupported => "Metadata unsupported",
            SignalStatus::SurfaceUnavailable => "Metadata unavailable",
            SignalStatus::BackendManaged => "Metadata managed by Metal",
        }
    }

    /// The status as a report words it. What a driver signals or cannot signal is
    /// worded by the adapter that talks to it.
    pub fn message(self) -> (message: Option<&'static str>)
        ensures
            match self {
                SignalStatus::NotRequested => message is Some && message->0@
                    == "HDR metadata not requested"@,
                SignalStatus::BackendManaged => message is Some && message->0@
                    == "managed by Metal"@,
                _ => message is None,
            },
    {
        match self {
            SignalStatus::NotRequested => Some("HDR metadata not requested"),
            SignalStatus::BackendManaged => Some("managed by Metal"),
            _ => None,
        }
    }
}

/// What becomes of the metadata of a surface: a backend that manages it takes
/// it over, where there is any.
pub fn metadata_status(metadata: Option<HdrMetadata>, backend_managed: bool) -> (status: SignalStatus)
    ensures
        status == (if metadata is Some && backend_managed {
            SignalStatus::BackendManaged
        } else {
            SignalStatus::NotRequested
        }),
{
    if metadata.is_some() && backend_managed {
        SignalStatus::BackendManaged
    } else {
        SignalStatus::NotRequested
    }
}

/// The summary tells the states of the metadata apart.
pub proof fn states_are_told_apart(a: SignalStatus, b: SignalStatus)
    ensures
        status_summary(a) == status_summary(b) ==> a == b,
{
    reveal_strlit("Metadata signaled");
    reveal_strlit("Metadata not requested");
    reveal_strlit("Metadata unsupported");
    reveal_strlit("Metadata unavailable");
    reveal_strlit("Metadata managed by Metal");
    assert("Metadata signaled"@.len() == 17);
    assert("Metadata not requested"@.len() == 22);
    assert("Metadata unsupported"@.len() == 20);
    assert("Metadata unavailable"@.len() == 20);
    assert("Metadata managed by Metal"@.len() == 25);
    assert("Metadata unsupported"@[11] != "Metadata unavailable"@[11]);
}

} // verus!
