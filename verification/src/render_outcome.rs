use vstd::prelude::*;

use crate::diagnostics::SurfaceFailure;

verus! {

/// What asking the surface for its next texture gave.
#[derive(Debug, Clone, Copy, PartialEq, Eq, Structural)]
pub enum SurfaceAcquisition {
    Success,
    Suboptimal,
    Outdated,
    Lost,
    Timeout,
    Occluded,
    Validation,
}

/// What one render call did with the frame.
#[derive(Debug, Clone, Copy, PartialEq, Eq, Structural)]
pub enum RenderOutcome {
    Presented,
    SurfaceChanged,
    Skipped,
}

/// Whether the acquisition gave a texture to draw into.
pub open spec fn acquired_texture(acquisition: SurfaceAcquisition) -> bool {
    acquisition == SurfaceAcquisition::Success || acquisition == SurfaceAcquisition::Suboptimal
}

/// The failure the renderer records for an acquisition, if it failed.
pub open spec fn acquisition_failure(acquisition: SurfaceAcquisition) -> Option<SurfaceFailure> {
    match acquisition {
        SurfaceAcquisition::Timeout => Some(SurfaceFailure::Timeout),
        SurfaceAcquisition::Occluded => Some(SurfaceFailure::Occluded),
        SurfaceAcquisition::Outdated => Some(SurfaceFailure::Outdated),
        SurfaceAcquisition::Lost => Some(SurfaceFailure::Lost),
        SurfaceAcquisition::Validation => Some(SurfaceFailure::Validation),
        SurfaceAcquisition::Success | SurfaceAcquisition::Suboptimal => None,
    }
}

/// The outcome of a render: a drawn frame is presented, an outdated or lost surface
/// must be reconfigured, and any other failure skips the frame.
pub open spec fn acquisition_outcome(acquisition: SurfaceAcquisition) -> RenderOutcome {
    match acquisition {
        SurfaceAcquisition::Success | SurfaceAcquisition::Suboptimal => RenderOutcome::Presented,
        SurfaceAcquisition::Outdated | SurfaceAcquisition::Lost => RenderOutcome::SurfaceChanged,
        SurfaceAcquisition::Timeout | SurfaceAcquisition::Occluded | SurfaceAcquisition::Validation => {
            RenderOutcome::Skipped
        },
    }
}

/// The surface failure that an acquisition reports, if any.
pub fn surface_failure_from_acquisition(acquisition: SurfaceAcquisition) -> (failure: Option<SurfaceFailure>)
    ensures
        failure == acquisition_failure(acquisition),
        failure is None <==> acquired_texture(acquisition),
{
    match acquisition {
        SurfaceAcquisition::Timeout => Some(SurfaceFailure::Timeout),
        SurfaceAcquisition::Occluded => Some(SurfaceFailure::Occluded),
        SurfaceAcquisition::Outdated => Some(SurfaceFailure::Outdated),
        SurfaceAcquisition::Lost => Some(SurfaceFailure::Lost),
        SurfaceAcquisition::Validation => Some(SurfaceFailure::Validation),
        SurfaceAcquisition::Success | SurfaceAcquisition::Suboptimal => None,
    }
}

/// What a render call reports for the given acquisition; the frame is drawn and
/// presented exactly when a texture was acquired.
pub fn render_outcome(acquisition: SurfaceAcquisition) -> (outcome: RenderOutcome)
    ensures
        outcome == acquisition_outcome(acquisition),
        outcome == RenderOutcome::Presented <==> acquired_texture(acquisition),
{
    match acquisition {
        SurfaceAcquisition::Success | SurfaceAcquisition::Suboptimal => RenderOutcome::Presented,
        SurfaceAcquisition::Outdated | SurfaceAcquisition::Lost => RenderOutcome::SurfaceChanged,
        SurfaceAcquisition::Timeout | SurfaceAcquisition::Occluded | SurfaceAcquisition::Validation => {
            RenderOutcome::Skipped
        },
    }
}

} // verus!
