use gotoo_pixel_engine::{render_outcome, surface_failure_from_acquisition, RenderOutcome, SurfaceAcquisition, SurfaceFailure};

#[test]
fn acquired_textures_are_presented_without_failure() {
    for acquisition in [SurfaceAcquisition::Success, SurfaceAcquisition::Suboptimal] {
        assert_eq!(render_outcome(acquisition), RenderOutcome::Presented);
        assert_eq!(surface_failure_from_acquisition(acquisition), None);
    }
}

#[test]
fn outdated_and_lost_surfaces_ask_for_reconfiguration() {
    assert_eq!(render_outcome(SurfaceAcquisition::Outdated), RenderOutcome::SurfaceChanged);
    assert_eq!(render_outcome(SurfaceAcquisition::Lost), RenderOutcome::SurfaceChanged);
    assert_eq!(surface_failure_from_acquisition(SurfaceAcquisition::Outdated), Some(SurfaceFailure::Outdated));
    assert_eq!(surface_failure_from_acquisition(SurfaceAcquisition::Lost), Some(SurfaceFailure::Lost));
}

#[test]
fn other_failures_skip_the_frame() {
    assert_eq!(render_outcome(SurfaceAcquisition::Timeout), RenderOutcome::Skipped);
    assert_eq!(render_outcome(SurfaceAcquisition::Occluded), RenderOutcome::Skipped);
    assert_eq!(render_outcome(SurfaceAcquisition::Validation), RenderOutcome::Skipped);
    assert_eq!(surface_failure_from_acquisition(SurfaceAcquisition::Timeout), Some(SurfaceFailure::Timeout));
    assert_eq!(surface_failure_from_acquisition(SurfaceAcquisition::Occluded), Some(SurfaceFailure::Occluded));
    assert_eq!(surface_failure_from_acquisition(SurfaceAcquisition::Validation), Some(SurfaceFailure::Validation));
}

#[test]
fn surface_failure_categories_are_not_reconstructed_from_render_outcome() {
    let cases = [
        (SurfaceAcquisition::Timeout, SurfaceFailure::Timeout),
        (SurfaceAcquisition::Occluded, SurfaceFailure::Occluded),
        (SurfaceAcquisition::Outdated, SurfaceFailure::Outdated),
        (SurfaceAcquisition::Lost, SurfaceFailure::Lost),
        (SurfaceAcquisition::Validation, SurfaceFailure::Validation),
    ];
    for (outcome, expected) in cases {
        assert_eq!(surface_failure_from_acquisition(outcome), Some(expected));
    }
}
