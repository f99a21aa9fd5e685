use vstd::prelude::*;

use crate::diagnostics::{
    clone_text_field, AdapterBackend, AdapterDeviceType, AdapterFacts, AudioBackend, AudioBackendError,
    AudioErrorCategory, AudioInitializationOutcome, AudioSummary, Availability, BuildProfile, BuildProvenance,
    CollectionMode, DeviceLostObservation, DeviceLostReason, DiagnosticEventKind, DiagnosticField,
    DiagnosticObservation, DiagnosticReadKind, DiagnosticSection, EventHistory, Freshness, ObservationStamp,
    OpaqueText, PanicStrategy, PresentObservation, RendererLifecycle, RendererObservations, RendererRecord,
    RendererSource, RepresentationKind, RuntimeLifecycle, RuntimeOutcome, RuntimeState, SaturatingCounter,
    StaleReason, SurfaceConfiguration, SurfaceFailure, TargetFamily, WgpuErrorCategory,
};
use crate::text_eq::str_equal;
use vstd::utf8::encode_utf8;

verus! {

/// A value last observed at `stamp`.
pub open spec fn observed_field<T>(value: T, stamp: ObservationStamp) -> DiagnosticField<T> {
    DiagnosticField {
        availability: Availability::Known,
        value: Some(value),
        freshness: Some(Freshness::ObservedAt(stamp)),
        representation: RepresentationKind::LastObserved,
    }
}

/// A field that cannot change.
pub open spec fn fact_field<T>(value: T, representation: RepresentationKind) -> DiagnosticField<T> {
    DiagnosticField {
        availability: Availability::Known,
        value: Some(value),
        freshness: Some(Freshness::ImmutableFact),
        representation,
    }
}

/// `field` marked stale for `reason` if it was observed; otherwise `field`.
pub open spec fn stale_field<T>(field: DiagnosticField<T>, reason: StaleReason) -> DiagnosticField<T> {
    DiagnosticField {
        availability: field.availability,
        value: field.value,
        freshness: match field.freshness {
            Some(Freshness::ObservedAt(observed_at)) => Some(Freshness::Stale { observed_at, reason }),
            other => other,
        },
        representation: field.representation,
    }
}

/// `field` marked stale for `reason` when there is one.
pub open spec fn maybe_stale<T>(field: DiagnosticField<T>, stale: Option<StaleReason>) -> DiagnosticField<T> {
    match stale {
        Some(reason) => stale_field(field, reason),
        None => field,
    }
}

/// The record of a renderer that has just begun: initializing, nothing else known.
pub open spec fn initial_record(source: RendererSource, stamp: ObservationStamp) -> RendererRecord {
    RendererRecord {
        source,
        lifecycle: observed_field(RendererLifecycle::Initializing, stamp),
        adapter: AdapterFacts {
            backend: DiagnosticField::unknown_spec(RepresentationKind::HistoricalFact),
            device_type: DiagnosticField::unknown_spec(RepresentationKind::HistoricalFact),
            name: DiagnosticField::unknown_spec(RepresentationKind::HistoricalFact),
        },
        surface_configuration: DiagnosticField::unknown_spec(RepresentationKind::LastObserved),
        last_surface_failure: DiagnosticField::unknown_spec(RepresentationKind::LastObserved),
        last_present: DiagnosticField::unknown_spec(RepresentationKind::LastObserved),
        suboptimal_observed: DiagnosticField::unknown_spec(RepresentationKind::LastObserved),
        device_lost: DiagnosticField::unknown_spec(RepresentationKind::LastObserved),
        last_wgpu_error: DiagnosticField::unknown_spec(RepresentationKind::LastObserved),
    }
}

/// The record a renderer starts with.
pub fn initial_renderer_record(source: RendererSource, stamp: ObservationStamp) -> (record: RendererRecord)
    ensures
        record == initial_record(source, stamp),
{
    RendererRecord {
        source,
        lifecycle: DiagnosticField::observed(RendererLifecycle::Initializing, stamp, RepresentationKind::LastObserved),
        adapter: AdapterFacts::unknown(),
        surface_configuration: DiagnosticField::unknown(RepresentationKind::LastObserved),
        last_surface_failure: DiagnosticField::unknown(RepresentationKind::LastObserved),
        last_present: DiagnosticField::unknown(RepresentationKind::LastObserved),
        suboptimal_observed: DiagnosticField::unknown(RepresentationKind::LastObserved),
        device_lost: DiagnosticField::unknown(RepresentationKind::LastObserved),
        last_wgpu_error: DiagnosticField::unknown(RepresentationKind::LastObserved),
    }
}

/// Records a surface failure: a lost surface makes the surface configuration stale,
/// a validation failure is also the renderer's last GPU error.
pub fn record_surface_failure(record: &mut RendererRecord, failure: SurfaceFailure, stamp: ObservationStamp)
    ensures
        final(record).last_surface_failure == observed_field(failure, stamp),
        final(record).surface_configuration == if failure == SurfaceFailure::Lost {
            stale_field(old(record).surface_configuration, StaleReason::DeviceLost)
        } else {
            old(record).surface_configuration
        },
        final(record).last_wgpu_error == if failure == SurfaceFailure::Validation {
            observed_field(WgpuErrorCategory::SurfaceValidation, stamp)
        } else {
            old(record).last_wgpu_error
        },
        final(record).source == old(record).source,
        final(record).lifecycle == old(record).lifecycle,
        final(record).adapter == old(record).adapter,
        final(record).last_present == old(record).last_present,
        final(record).suboptimal_observed == old(record).suboptimal_observed,
        final(record).device_lost == old(record).device_lost,
{
    record.last_surface_failure = DiagnosticField::observed(failure, stamp, RepresentationKind::LastObserved);
    if failure == SurfaceFailure::Lost {
        record.surface_configuration.make_stale(StaleReason::DeviceLost);
    }
    if failure == SurfaceFailure::Validation {
        record.last_wgpu_error = DiagnosticField::observed(
            WgpuErrorCategory::SurfaceValidation,
            stamp,
            RepresentationKind::LastObserved,
        );
    }
}

/// The events a surface failure produces, in order: the failure itself, then a GPU
/// validation error when the failure was one.
pub fn surface_failure_events(source: RendererSource, failure: SurfaceFailure) -> (events: Vec<DiagnosticEventKind>)
    ensures
        events@ == if failure == SurfaceFailure::Validation {
            seq![
                DiagnosticEventKind::SurfaceFailure { source, failure },
                DiagnosticEventKind::WgpuError { source, category: WgpuErrorCategory::SurfaceValidation },
            ]
        } else {
            seq![DiagnosticEventKind::SurfaceFailure { source, failure }]
        },
{
    let mut events = Vec::new();
    events.push(DiagnosticEventKind::SurfaceFailure { source, failure });
    if failure == SurfaceFailure::Validation {
        events.push(DiagnosticEventKind::WgpuError { source, category: WgpuErrorCategory::SurfaceValidation });
    }
    assert(events@ =~= if failure == SurfaceFailure::Validation {
        seq![
            DiagnosticEventKind::SurfaceFailure { source, failure },
            DiagnosticEventKind::WgpuError { source, category: WgpuErrorCategory::SurfaceValidation },
        ]
    } else {
        seq![DiagnosticEventKind::SurfaceFailure { source, failure }]
    });
    events
}

/// The message field of a lost device: unknown when the message is empty, else
/// the message, cut to the opaque text capacity, observed at `stamp`.
pub fn device_lost_message(message: &str, stamp: ObservationStamp) -> (field: DiagnosticField<OpaqueText>)
    ensures
        message@.len() == 0 ==> field == DiagnosticField::<OpaqueText>::unknown_spec(RepresentationKind::LastObserved),
        message@.len() > 0 ==> {
            &&& field.availability == Availability::Known
            &&& field.freshness == Some(Freshness::ObservedAt(stamp))
            &&& field.representation == RepresentationKind::LastObserved
            &&& field.value matches Some(text) && text.bounded_prefix_of(encode_utf8(message@))
        },
{
    proof {
        reveal_strlit("");
        if message@.len() == 0 {
            assert(message@ =~= ""@);
        }
    }
    if str_equal(message, "") {
        DiagnosticField::unknown(RepresentationKind::LastObserved)
    } else {
        DiagnosticField::observed(OpaqueText::new(message), stamp, RepresentationKind::LastObserved)
    }
}

/// Records that the renderer's device was lost: its surface configuration becomes
/// stale.
pub fn record_device_lost(
    record: &mut RendererRecord,
    reason: DeviceLostReason,
    message: &DiagnosticField<OpaqueText>,
    stamp: ObservationStamp,
)
    ensures
        final(record).device_lost == observed_field(DeviceLostObservation { reason, message: *message }, stamp),
        final(record).surface_configuration == stale_field(old(record).surface_configuration, StaleReason::DeviceLost),
        final(record).source == old(record).source,
        final(record).lifecycle == old(record).lifecycle,
        final(record).adapter == old(record).adapter,
        final(record).last_surface_failure == old(record).last_surface_failure,
        final(record).last_present == old(record).last_present,
        final(record).suboptimal_observed == old(record).suboptimal_observed,
        final(record).last_wgpu_error == old(record).last_wgpu_error,
{
    record.device_lost = DiagnosticField::observed(
        DeviceLostObservation { reason, message: clone_text_field(message) },
        stamp,
        RepresentationKind::LastObserved,
    );
    record.surface_configuration.make_stale(StaleReason::DeviceLost);
}

/// The event of a lost device.
pub fn device_lost_event(source: RendererSource, reason: DeviceLostReason, message: &DiagnosticField<OpaqueText>) -> (event:
    DiagnosticEventKind)
    ensures
        event == (DiagnosticEventKind::DeviceLost { source, reason, message: message.value }),
{
    DiagnosticEventKind::DeviceLost { source, reason, message: clone_text_field(message).value }
}

/// Records a lifecycle change; with a stale reason every observed field of the
/// record becomes stale.
pub fn record_lifecycle(
    record: &mut RendererRecord,
    lifecycle: RendererLifecycle,
    stale: Option<StaleReason>,
    stamp: ObservationStamp,
)
    ensures
        final(record).lifecycle == observed_field(lifecycle, stamp),
        final(record).surface_configuration == maybe_stale(old(record).surface_configuration, stale),
        final(record).last_surface_failure == maybe_stale(old(record).last_surface_failure, stale),
        final(record).last_present == maybe_stale(old(record).last_present, stale),
        final(record).suboptimal_observed == maybe_stale(old(record).suboptimal_observed, stale),
        final(record).device_lost == maybe_stale(old(record).device_lost, stale),
        final(record).last_wgpu_error == maybe_stale(old(record).last_wgpu_error, stale),
        final(record).source == old(record).source,
        final(record).adapter == old(record).adapter,
{
    record.lifecycle = DiagnosticField::observed(lifecycle, stamp, RepresentationKind::LastObserved);
    if let Some(reason) = stale {
        record.surface_configuration.make_stale(reason);
        record.last_surface_failure.make_stale(reason);
        record.last_present.make_stale(reason);
        record.suboptimal_observed.make_stale(reason);
        record.device_lost.make_stale(reason);
        record.last_wgpu_error.make_stale(reason);
    }
}

/// Records a presented frame.
pub fn record_presented(record: &mut RendererRecord, frame: SaturatingCounter, stamp: ObservationStamp)
    ensures
        final(record).last_present == observed_field(
            PresentObservation { source: old(record).source, renderer_frame: frame },
            stamp,
        ),
        *final(record) == (RendererRecord { last_present: final(record).last_present, ..*old(record) }),
{
    record.last_present = DiagnosticField::observed(
        PresentObservation { source: record.source, renderer_frame: frame },
        stamp,
        RepresentationKind::LastObserved,
    );
}

/// Records that the surface reported itself suboptimal.
pub fn record_suboptimal(record: &mut RendererRecord, stamp: ObservationStamp)
    ensures
        final(record).suboptimal_observed == observed_field(stamp, stamp),
        *final(record) == (RendererRecord { suboptimal_observed: final(record).suboptimal_observed, ..*old(record) }),
{
    record.suboptimal_observed = DiagnosticField::observed(stamp, stamp, RepresentationKind::LastObserved);
}

/// Records a new surface configuration.
pub fn record_surface_configured(record: &mut RendererRecord, configuration: SurfaceConfiguration, stamp: ObservationStamp)
    ensures
        final(record).surface_configuration == observed_field(configuration, stamp),
        *final(record) == (RendererRecord {
            surface_configuration: final(record).surface_configuration,
            ..*old(record)
        }),
{
    record.surface_configuration = DiagnosticField::observed(configuration, stamp, RepresentationKind::LastObserved);
}

/// Records a GPU error.
pub fn record_wgpu_error(record: &mut RendererRecord, category: WgpuErrorCategory, stamp: ObservationStamp)
    ensures
        final(record).last_wgpu_error == observed_field(category, stamp),
        *final(record) == (RendererRecord { last_wgpu_error: final(record).last_wgpu_error, ..*old(record) }),
{
    record.last_wgpu_error = DiagnosticField::observed(category, stamp, RepresentationKind::LastObserved);
}

/// Records the adapter a renderer runs on; an empty or missing name stays unknown.
pub fn record_adapter_facts(
    record: &mut RendererRecord,
    backend: AdapterBackend,
    device_type: AdapterDeviceType,
    name: Option<&str>,
)
    ensures
        final(record).adapter.backend == fact_field(backend, RepresentationKind::HistoricalFact),
        final(record).adapter.device_type == fact_field(device_type, RepresentationKind::HistoricalFact),
        match name {
            Some(name) => if name@.len() > 0 {
                &&& final(record).adapter.name.availability == Availability::Known
                &&& final(record).adapter.name.freshness == Some(Freshness::ImmutableFact)
                &&& final(record).adapter.name.representation == RepresentationKind::HistoricalFact
                &&& final(record).adapter.name.value matches Some(text) && text.bounded_prefix_of(encode_utf8(name@))
            } else {
                final(record).adapter.name == DiagnosticField::<OpaqueText>::unknown_spec(
                    RepresentationKind::HistoricalFact,
                )
            },
            None => final(record).adapter.name == DiagnosticField::<OpaqueText>::unknown_spec(
                RepresentationKind::HistoricalFact,
            ),
        },
        *final(record) == (RendererRecord { adapter: final(record).adapter, ..*old(record) }),
{
    record.adapter.backend = DiagnosticField::immutable(backend, RepresentationKind::HistoricalFact);
    record.adapter.device_type = DiagnosticField::immutable(device_type, RepresentationKind::HistoricalFact);
    record.adapter.name = match name {
        Some(name) => {
            proof {
                reveal_strlit("");
                if name@.len() == 0 {
                    assert(name@ =~= ""@);
                }
            }
            if str_equal(name, "") {
                DiagnosticField::unknown(RepresentationKind::HistoricalFact)
            } else {
                DiagnosticField::immutable(OpaqueText::new(name), RepresentationKind::HistoricalFact)
            }
        },
        None => DiagnosticField::unknown(RepresentationKind::HistoricalFact),
    };
}

/// Records a runtime lifecycle change and, when given, its outcome.
pub fn record_runtime_transition(
    runtime: &mut RuntimeState,
    lifecycle: RuntimeLifecycle,
    outcome: Option<RuntimeOutcome>,
    stamp: ObservationStamp,
)
    ensures
        final(runtime).lifecycle == observed_field(lifecycle, stamp),
        final(runtime).outcome == match outcome {
            Some(outcome) => observed_field(outcome, stamp),
            None => old(runtime).outcome,
        },
{
    runtime.lifecycle = DiagnosticField::observed(lifecycle, stamp, RepresentationKind::LastObserved);
    if let Some(outcome) = outcome {
        runtime.outcome = DiagnosticField::observed(outcome, stamp, RepresentationKind::LastObserved);
    }
}

/// Records which audio backend was selected and how its start went.
pub fn record_audio_selected(
    audio: &mut AudioSummary,
    backend: AudioBackend,
    outcome: AudioInitializationOutcome,
    stamp: ObservationStamp,
)
    ensures
        final(audio).backend == observed_field(backend, stamp),
        final(audio).initialization == observed_field(outcome, stamp),
        final(audio).last_generic_backend_error == old(audio).last_generic_backend_error,
{
    audio.backend = DiagnosticField::observed(backend, stamp, RepresentationKind::LastObserved);
    audio.initialization = DiagnosticField::observed(outcome, stamp, RepresentationKind::LastObserved);
}

/// The excerpt field of an audio error: the text, cut to the opaque text capacity,
/// observed at `stamp`.
pub fn audio_error_excerpt(excerpt: Option<&str>, stamp: ObservationStamp) -> (field: Option<DiagnosticField<OpaqueText>>)
    ensures
        match excerpt {
            None => field is None,
            Some(text) => field matches Some(field) && {
                &&& field.availability == Availability::Known
                &&& field.freshness == Some(Freshness::ObservedAt(stamp))
                &&& field.representation == RepresentationKind::LastObserved
                &&& field.value matches Some(opaque) && opaque.bounded_prefix_of(encode_utf8(text@))
            },
        },
{
    match excerpt {
        Some(text) => Some(
            DiagnosticField::observed(OpaqueText::new(text), stamp, RepresentationKind::LastObserved),
        ),
        None => None,
    }
}

/// Records a generic audio backend error; a missing excerpt is unknown.
pub fn record_audio_error(
    audio: &mut AudioSummary,
    category: AudioErrorCategory,
    excerpt: &Option<DiagnosticField<OpaqueText>>,
    stamp: ObservationStamp,
)
    ensures
        final(audio).last_generic_backend_error == observed_field(
            AudioBackendError {
                category,
                excerpt: match *excerpt {
                    Some(field) => field,
                    None => DiagnosticField::<OpaqueText>::unknown_spec(RepresentationKind::LastObserved),
                },
            },
            stamp,
        ),
        final(audio).backend == old(audio).backend,
        final(audio).initialization == old(audio).initialization,
{
    let excerpt = match excerpt {
        Some(field) => clone_text_field(field),
        None => DiagnosticField::unknown(RepresentationKind::LastObserved),
    };
    audio.last_generic_backend_error = DiagnosticField::observed(
        AudioBackendError { category, excerpt },
        stamp,
        RepresentationKind::LastObserved,
    );
}

/// The event of an audio backend error.
pub fn audio_error_event(category: AudioErrorCategory, excerpt: &Option<DiagnosticField<OpaqueText>>) -> (event:
    DiagnosticEventKind)
    ensures
        event == (DiagnosticEventKind::AudioBackendError {
            category,
            excerpt: match *excerpt {
                Some(field) => field.value,
                None => None,
            },
        }),
{
    let excerpt = match excerpt {
        Some(field) => clone_text_field(field).value,
        None => None,
    };
    DiagnosticEventKind::AudioBackendError { category, excerpt }
}

/// An observation of a store that attempted every section: degraded when any
/// section could not be read.
pub fn enabled_observation(
    read_kind: DiagnosticReadKind,
    build: BuildProvenance,
    runtime: DiagnosticSection<RuntimeState>,
    renderers: DiagnosticSection<RendererObservations>,
    audio: DiagnosticSection<AudioSummary>,
    events: DiagnosticSection<EventHistory>,
) -> (observation: DiagnosticObservation)
    ensures
        observation.collection_mode == CollectionMode::Enabled,
        observation.read_kind == read_kind,
        observation.build == build,
        observation.runtime == runtime,
        observation.renderers == renderers,
        observation.audio == audio,
        observation.events == events,
        observation.degraded == (runtime.availability == Availability::Unavailable
            || renderers.availability == Availability::Unavailable
            || audio.availability == Availability::Unavailable
            || events.availability == Availability::Unavailable),
{
    let degraded = runtime.availability == Availability::Unavailable
        || renderers.availability == Availability::Unavailable
        || audio.availability == Availability::Unavailable
        || events.availability == Availability::Unavailable;
    DiagnosticObservation {
        collection_mode: CollectionMode::Enabled,
        read_kind,
        build,
        runtime,
        renderers,
        audio,
        events,
        degraded,
    }
}

/// An observation of diagnostics that were disabled at run time: only the build
/// is known, every runtime section does not apply.
pub fn disabled_observation(read_kind: DiagnosticReadKind, build: BuildProvenance) -> (observation: DiagnosticObservation)
    ensures
        observation.collection_mode == CollectionMode::RuntimeDisabled,
        observation.read_kind == read_kind,
        observation.build == build,
        observation.runtime == (DiagnosticSection::<RuntimeState> { availability: Availability::NotApplicable, value: None }),
        observation.renderers == (DiagnosticSection::<RendererObservations> {
            availability: Availability::NotApplicable,
            value: None,
        }),
        observation.audio == (DiagnosticSection::<AudioSummary> { availability: Availability::NotApplicable, value: None }),
        observation.events == (DiagnosticSection::<EventHistory> { availability: Availability::NotApplicable, value: None }),
        !observation.degraded,
{
    DiagnosticObservation {
        collection_mode: CollectionMode::RuntimeDisabled,
        read_kind,
        build,
        runtime: DiagnosticSection::not_applicable(),
        renderers: DiagnosticSection::not_applicable(),
        audio: DiagnosticSection::not_applicable(),
        events: DiagnosticSection::not_applicable(),
        degraded: false,
    }
}

/// A build fact given as text, where the text `UNKNOWN` stands for a value the
/// build did not record.
pub open spec fn known_text(value: &'static str) -> DiagnosticField<&'static str> {
    if value@ == "UNKNOWN"@ {
        DiagnosticField::unknown_spec(RepresentationKind::AuthoritativeAtCapture)
    } else {
        fact_field(value, RepresentationKind::AuthoritativeAtCapture)
    }
}

fn known_text_field(value: &'static str) -> (field: DiagnosticField<&'static str>)
    ensures
        field == known_text(value),
{
    if str_equal(value, "UNKNOWN") {
        DiagnosticField::unknown(RepresentationKind::AuthoritativeAtCapture)
    } else {
        DiagnosticField::immutable(value, RepresentationKind::AuthoritativeAtCapture)
    }
}

/// The build profile a profile name stands for.
pub open spec fn profile_field(profile: &str) -> DiagnosticField<BuildProfile> {
    if profile@ == "UNKNOWN"@ {
        DiagnosticField::unknown_spec(RepresentationKind::DerivedAtCapture)
    } else if profile@ == "debug"@ {
        fact_field(BuildProfile::Debug, RepresentationKind::DerivedAtCapture)
    } else if profile@ == "release"@ {
        fact_field(BuildProfile::Release, RepresentationKind::DerivedAtCapture)
    } else {
        fact_field(BuildProfile::Other, RepresentationKind::DerivedAtCapture)
    }
}

/// The version of the GPU library the engine renders with.
pub open spec fn gpu_library_version() -> Seq<char> {
    "30.0.0"@
}

impl BuildProvenance {
    /// The provenance of a build from the values the build recorded: the package
    /// version, build id, target and profile name (`UNKNOWN` where not recorded), the
    /// architecture, whether the target is WebAssembly and whether panics abort.
    pub fn from_build_values(
        package_version: &'static str,
        build_id: &'static str,
        target: &'static str,
        profile: &str,
        architecture: &'static str,
        wasm: bool,
        panic_abort: bool,
    ) -> (build: Self)
        ensures
            build.package_version == fact_field(package_version, RepresentationKind::AuthoritativeAtCapture),
            build.build_id == known_text(build_id),
            build.target == known_text(target),
            build.architecture == fact_field(architecture, RepresentationKind::AuthoritativeAtCapture),
            build.target_family == fact_field(
                if wasm { TargetFamily::Wasm } else { TargetFamily::Native },
                RepresentationKind::AuthoritativeAtCapture,
            ),
            build.build_profile == profile_field(profile),
            build.panic_strategy == fact_field(
                if panic_abort { PanicStrategy::Abort } else { PanicStrategy::Unwind },
                RepresentationKind::AuthoritativeAtCapture,
            ),
            build.wgpu_version.value matches Some(version) && version@ == gpu_library_version(),
            build.wgpu_version.availability == Availability::Known,
            build.wgpu_version.freshness == Some(Freshness::ImmutableFact),
            build.wgpu_version.representation == RepresentationKind::AuthoritativeAtCapture,
    {
        let build_profile = if str_equal(profile, "UNKNOWN") {
            DiagnosticField::unknown(RepresentationKind::DerivedAtCapture)
        } else if str_equal(profile, "debug") {
            DiagnosticField::immutable(BuildProfile::Debug, RepresentationKind::DerivedAtCapture)
        } else if str_equal(profile, "release") {
            DiagnosticField::immutable(BuildProfile::Release, RepresentationKind::DerivedAtCapture)
        } else {
            DiagnosticField::immutable(BuildProfile::Other, RepresentationKind::DerivedAtCapture)
        };
        let version = "30.0.0";
        proof {
            reveal_strlit("30.0.0");
        }
        BuildProvenance {
            package_version: DiagnosticField::immutable(package_version, RepresentationKind::AuthoritativeAtCapture),
            build_id: known_text_field(build_id),
            target: known_text_field(target),
            architecture: DiagnosticField::immutable(architecture, RepresentationKind::AuthoritativeAtCapture),
            target_family: DiagnosticField::immutable(
                if wasm { TargetFamily::Wasm } else { TargetFamily::Native },
                RepresentationKind::AuthoritativeAtCapture,
            ),
            build_profile,
            panic_strategy: DiagnosticField::immutable(
                if panic_abort { PanicStrategy::Abort } else { PanicStrategy::Unwind },
                RepresentationKind::AuthoritativeAtCapture,
            ),
            wgpu_version: DiagnosticField::immutable(version, RepresentationKind::AuthoritativeAtCapture),
        }
    }
}

} // verus!
