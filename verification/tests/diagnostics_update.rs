use gotoo_pixel_engine::{
    audio_error_event, audio_error_excerpt, device_lost_event, device_lost_message, disabled_observation,
    enabled_observation, initial_renderer_record, record_adapter_facts, record_audio_error, record_audio_selected,
    record_device_lost, record_lifecycle, record_presented, record_runtime_transition, record_surface_configured,
    record_surface_failure, surface_failure_events, AdapterBackend, AdapterDeviceType, AudioBackend,
    AudioErrorCategory, AudioInitializationOutcome, AudioSummary, Availability, BuildProfile, BuildProvenance,
    CollectionMode, DeviceLostReason, DiagnosticEventKind, DiagnosticField, DiagnosticProducer,
    DiagnosticReadKind, DiagnosticSection, Freshness, ObservationStamp, PanicStrategy, RendererIncarnation,
    RendererLifecycle, RendererRole, RendererSource, RepresentationKind, RuntimeLifecycle, RuntimeOutcome,
    RuntimeState, SaturatingCounter, StaleReason, SurfaceAlphaMode, SurfaceConfiguration, SurfaceFailure,
    SurfaceFormat, SurfacePresentMode, TargetFamily, WgpuErrorCategory,
};

fn stamp_at(micros: u64) -> ObservationStamp {
    ObservationStamp {
        monotonic_micros: micros,
        renderer_frame: None,
        producer: DiagnosticProducer::Runtime,
        producer_sequence: SaturatingCounter::zero(),
        record_order: None,
    }
}

fn source() -> RendererSource {
    RendererSource { role: RendererRole::Primary, incarnation: RendererIncarnation::new(1).unwrap() }
}

fn configuration() -> SurfaceConfiguration {
    SurfaceConfiguration {
        format: SurfaceFormat::Bgra8Unorm,
        present_mode: SurfacePresentMode::Fifo,
        alpha_mode: SurfaceAlphaMode::Opaque,
        width: 320,
        height: 180,
    }
}

#[test]
fn new_renderer_records_start_initializing_and_unknown() {
    let record = initial_renderer_record(source(), stamp_at(5));
    assert_eq!(record.lifecycle.value, Some(RendererLifecycle::Initializing));
    assert_eq!(record.lifecycle.freshness, Some(Freshness::ObservedAt(stamp_at(5))));
    assert_eq!(record.surface_configuration.availability, Availability::Unknown);
    assert_eq!(record.device_lost.availability, Availability::Unknown);
    assert_eq!(record.adapter.name.representation, RepresentationKind::HistoricalFact);
}

#[test]
fn lost_surface_makes_configuration_stale_and_validation_is_a_gpu_error() {
    let mut record = initial_renderer_record(source(), stamp_at(1));
    record_surface_configured(&mut record, configuration(), stamp_at(2));
    record_surface_failure(&mut record, SurfaceFailure::Lost, stamp_at(3));
    assert_eq!(
        record.surface_configuration.freshness,
        Some(Freshness::Stale { observed_at: stamp_at(2), reason: StaleReason::DeviceLost })
    );
    assert_eq!(record.last_wgpu_error.availability, Availability::Unknown);
    record_surface_failure(&mut record, SurfaceFailure::Validation, stamp_at(4));
    assert_eq!(record.last_wgpu_error.value, Some(WgpuErrorCategory::SurfaceValidation));
    assert_eq!(record.last_surface_failure.value, Some(SurfaceFailure::Validation));
    assert_eq!(surface_failure_events(source(), SurfaceFailure::Timeout).len(), 1);
    assert_eq!(
        surface_failure_events(source(), SurfaceFailure::Validation),
        vec![
            DiagnosticEventKind::SurfaceFailure { source: source(), failure: SurfaceFailure::Validation },
            DiagnosticEventKind::WgpuError { source: source(), category: WgpuErrorCategory::SurfaceValidation },
        ]
    );
}

#[test]
fn empty_device_lost_messages_stay_unknown() {
    let unknown = device_lost_message("", stamp_at(1));
    assert_eq!(unknown, DiagnosticField::unknown(RepresentationKind::LastObserved));
    let message = device_lost_message("gpu reset", stamp_at(1));
    assert_eq!(message.value.as_ref().unwrap().as_str(), "gpu reset");
    let mut record = initial_renderer_record(source(), stamp_at(1));
    record_surface_configured(&mut record, configuration(), stamp_at(2));
    record_device_lost(&mut record, DeviceLostReason::Destroyed, &message, stamp_at(3));
    assert_eq!(record.device_lost.value.as_ref().unwrap().reason, DeviceLostReason::Destroyed);
    assert!(matches!(record.surface_configuration.freshness, Some(Freshness::Stale { .. })));
    match device_lost_event(source(), DeviceLostReason::Destroyed, &unknown) {
        DiagnosticEventKind::DeviceLost { message, .. } => assert!(message.is_none()),
        _ => panic!("device lost event expected"),
    }
}

#[test]
fn destroyed_lifecycle_makes_observations_stale() {
    let mut record = initial_renderer_record(source(), stamp_at(1));
    let mut frame = SaturatingCounter::zero();
    frame.increment();
    record_presented(&mut record, frame, stamp_at(2));
    record_lifecycle(&mut record, RendererLifecycle::Destroyed, Some(StaleReason::RendererDestroyed), stamp_at(3));
    assert_eq!(record.lifecycle.value, Some(RendererLifecycle::Destroyed));
    assert_eq!(
        record.last_present.freshness,
        Some(Freshness::Stale { observed_at: stamp_at(2), reason: StaleReason::RendererDestroyed })
    );
    assert_eq!(record.last_present.value.unwrap().renderer_frame.value, 1);
    assert_eq!(record.device_lost.freshness, None);
}

#[test]
fn adapter_names_are_kept_only_when_present() {
    let mut record = initial_renderer_record(source(), stamp_at(1));
    record_adapter_facts(&mut record, AdapterBackend::Vulkan, AdapterDeviceType::DiscreteGpu, Some(""));
    assert_eq!(record.adapter.name.availability, Availability::Unknown);
    assert_eq!(record.adapter.backend.freshness, Some(Freshness::ImmutableFact));
    record_adapter_facts(&mut record, AdapterBackend::Vulkan, AdapterDeviceType::DiscreteGpu, Some("GPU"));
    assert_eq!(record.adapter.name.value.as_ref().unwrap().as_str(), "GPU");
}

#[test]
fn runtime_and_audio_records_follow_observations() {
    let mut runtime = RuntimeState {
        lifecycle: DiagnosticField::unknown(RepresentationKind::LastObserved),
        outcome: DiagnosticField::unknown(RepresentationKind::LastObserved),
    };
    record_runtime_transition(&mut runtime, RuntimeLifecycle::Running, None, stamp_at(1));
    assert_eq!(runtime.outcome.availability, Availability::Unknown);
    record_runtime_transition(&mut runtime, RuntimeLifecycle::Ended, Some(RuntimeOutcome::NormalExit), stamp_at(2));
    assert_eq!(runtime.outcome.value, Some(RuntimeOutcome::NormalExit));

    let mut audio = AudioSummary::unknown();
    record_audio_selected(&mut audio, AudioBackend::Noop, AudioInitializationOutcome::Succeeded, stamp_at(3));
    assert_eq!(audio.backend.value, Some(AudioBackend::Noop));
    let excerpt = audio_error_excerpt(None, stamp_at(4));
    record_audio_error(&mut audio, AudioErrorCategory::Stream, &excerpt, stamp_at(4));
    let error = audio.last_generic_backend_error.value.as_ref().unwrap();
    assert_eq!(error.excerpt.availability, Availability::Unknown);
    let excerpt = audio_error_excerpt(Some("underrun"), stamp_at(5));
    match audio_error_event(AudioErrorCategory::Stream, &excerpt) {
        DiagnosticEventKind::AudioBackendError { excerpt, .. } => assert_eq!(excerpt.unwrap().as_str(), "underrun"),
        _ => panic!("audio error event expected"),
    }
}

#[test]
fn observations_are_degraded_when_a_section_is_unavailable() {
    let build = BuildProvenance::from_build_values("0.1.0", "UNKNOWN", "x86_64", "release", "x86_64", false, false);
    assert_eq!(build.build_id.availability, Availability::Unknown);
    assert_eq!(build.target.value, Some("x86_64"));
    assert_eq!(build.build_profile.value, Some(BuildProfile::Release));
    assert_eq!(build.panic_strategy.value, Some(PanicStrategy::Unwind));
    assert_eq!(build.target_family.value, Some(TargetFamily::Native));
    assert_eq!(build.wgpu_version.value, Some("30.0.0"));
    let other = BuildProvenance::from_build_values("0.1.0", "abc", "t", "bench", "a", true, true);
    assert_eq!(other.build_profile.value, Some(BuildProfile::Other));
    assert_eq!(other.target_family.value, Some(TargetFamily::Wasm));

    let observation = enabled_observation(
        DiagnosticReadKind::NormalL1,
        build.clone(),
        DiagnosticSection::unavailable(),
        DiagnosticSection::not_applicable(),
        DiagnosticSection::known(AudioSummary::unknown()),
        DiagnosticSection::not_applicable(),
    );
    assert!(observation.degraded);
    assert_eq!(observation.collection_mode, CollectionMode::Enabled);
    let disabled = disabled_observation(DiagnosticReadKind::DegradedL2, build);
    assert!(!disabled.degraded);
    assert_eq!(disabled.collection_mode, CollectionMode::RuntimeDisabled);
    assert_eq!(disabled.events.availability, Availability::NotApplicable);
}
