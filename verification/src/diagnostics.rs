//! Bounded, best-effort engine diagnostics: the observation data model, the
//! fixed-capacity event ring and renderer record store.

use vstd::prelude::*;
use vstd::string::StringSliceAdditionalSpecFns;

verus! {

/// Number of events the event ring retains.
pub const EVENT_CAPACITY: usize = 64;

/// Number of renderer records the renderer store retains.
pub const RENDERER_CAPACITY: usize = 8;

/// Maximum number of UTF-8 bytes an opaque text keeps.
pub const OPAQUE_TEXT_CAPACITY: usize = 192;

#[derive(Debug, Clone, Copy, PartialEq, Eq, Structural)]
pub enum Availability {
    Known,
    Unknown,
    Unavailable,
    NotApplicable,
}

#[derive(Debug, Clone, Copy, PartialEq, Eq, Structural)]
pub enum RepresentationKind {
    AuthoritativeAtCapture,
    DerivedAtCapture,
    LastObserved,
    HistoricalFact,
}

#[derive(Debug, Clone, Copy, PartialEq, Eq, Structural)]
pub enum StaleReason {
    RendererDestroyed,
    DeviceLost,
    CaptureLossDetected,
    RuntimeEnded,
    Other,
}

#[derive(Debug, Clone, Copy, PartialEq, Eq, Structural)]
pub enum DiagnosticProducer {
    Runtime,
    Renderer(RendererSource),
    Audio,
}

#[derive(Debug, Clone, Copy, PartialEq, Eq, Structural)]
pub struct ObservationStamp {
    pub monotonic_micros: u64,
    pub renderer_frame: Option<SaturatingCounter>,
    pub producer: DiagnosticProducer,
    pub producer_sequence: SaturatingCounter,
    /// Order assigned while the event record is inserted into the ring.
    /// It is not physical occurrence order or causality.
    pub record_order: Option<SaturatingCounter>,
}

#[derive(Debug, Clone, Copy, PartialEq, Eq, Structural)]
pub enum Freshness {
    ImmutableFact,
    ObservedAt(ObservationStamp),
    Stale { observed_at: ObservationStamp, reason: StaleReason },
}

/// One diagnostic value with how it is known and how fresh it is.
#[derive(Debug, Clone, PartialEq, Eq)]
pub struct DiagnosticField<T> {
    pub availability: Availability,
    pub value: Option<T>,
    pub freshness: Option<Freshness>,
    pub representation: RepresentationKind,
}

impl<T> DiagnosticField<T> {
    pub open spec fn unknown_spec(representation: RepresentationKind) -> Self {
        DiagnosticField {
            availability: Availability::Unknown,
            value: None,
            freshness: None,
            representation,
        }
    }

    /// A field whose value is not known.
    pub fn unknown(representation: RepresentationKind) -> (field: Self)
        ensures
            field == Self::unknown_spec(representation),
    {
        DiagnosticField {
            availability: Availability::Unknown,
            value: None,
            freshness: None,
            representation,
        }
    }

    /// A field that does not apply.
    pub fn not_applicable(representation: RepresentationKind) -> (field: Self)
        ensures
            field.availability == Availability::NotApplicable,
            field.value is None,
            field.freshness is None,
            field.representation == representation,
    {
        DiagnosticField {
            availability: Availability::NotApplicable,
            value: None,
            freshness: None,
            representation,
        }
    }

    /// A value observed at `stamp`.
    pub fn observed(value: T, stamp: ObservationStamp, representation: RepresentationKind) -> (field:
        Self)
        ensures
            field.availability == Availability::Known,
            field.value == Some(value),
            field.freshness == Some(Freshness::ObservedAt(stamp)),
            field.representation == representation,
    {
        DiagnosticField {
            availability: Availability::Known,
            value: Some(value),
            freshness: Some(Freshness::ObservedAt(stamp)),
            representation,
        }
    }

    /// A value that cannot change.
    pub fn immutable(value: T, representation: RepresentationKind) -> (field: Self)
        ensures
            field.availability == Availability::Known,
            field.value == Some(value),
            field.freshness == Some(Freshness::ImmutableFact),
            field.representation == representation,
    {
        DiagnosticField {
            availability: Availability::Known,
            value: Some(value),
            freshness: Some(Freshness::ImmutableFact),
            representation,
        }
    }

    /// Marks an observed value as stale for `reason`; other fields are unchanged.
    pub fn make_stale(&mut self, reason: StaleReason)
        ensures
            final(self).availability == old(self).availability,
            final(self).value == old(self).value,
            final(self).representation == old(self).representation,
            final(self).freshness == match old(self).freshness {
                Some(Freshness::ObservedAt(observed_at)) => Some(
                    Freshness::Stale { observed_at, reason },
                ),
                other => other,
            },
    {
        match self.freshness {
            Some(Freshness::ObservedAt(observed_at)) => {
                self.freshness = Some(Freshness::Stale { observed_at, reason });
            },
            _ => {},
        }
    }
}

/// One section of an observation, or why it is missing.
#[derive(Debug, Clone, PartialEq, Eq)]
pub struct DiagnosticSection<T> {
    pub availability: Availability,
    pub value: Option<T>,
}

impl<T> DiagnosticSection<T> {
    pub fn known(value: T) -> (section: Self)
        ensures
            section.availability == Availability::Known,
            section.value == Some(value),
    {
        DiagnosticSection { availability: Availability::Known, value: Some(value) }
    }

    pub fn unavailable() -> (section: Self)
        ensures
            section.availability == Availability::Unavailable,
            section.value is None,
    {
        DiagnosticSection { availability: Availability::Unavailable, value: None }
    }

    pub fn not_applicable() -> (section: Self)
        ensures
            section.availability == Availability::NotApplicable,
            section.value is None,
    {
        DiagnosticSection { availability: Availability::NotApplicable, value: None }
    }
}

/// Text of bounded size: at most `OPAQUE_TEXT_CAPACITY` bytes of UTF-8, cut at a
/// character boundary.
#[derive(Debug, PartialEq, Eq)]
pub struct OpaqueText {
    text: String,
    pub truncated: bool,
}

impl View for OpaqueText {
    type V = Seq<char>;

    closed spec fn view(&self) -> Seq<char> {
        self.text@
    }
}

impl Clone for OpaqueText {
    fn clone(&self) -> (copy: Self)
        ensures
            copy == *self,
    {
        proof {
            use_type_invariant(self);
        }
        OpaqueText { text: self.text.clone(), truncated: self.truncated }
    }
}

impl OpaqueText {
    /// Whether the text was cut to fit.
    pub closed spec fn is_truncated(self) -> bool {
        self.truncated
    }

    /// Whether this text is the longest prefix of the UTF-8 `bytes` that ends at a
    /// character boundary and fits in `OPAQUE_TEXT_CAPACITY` bytes, and records
    /// whether anything was cut.
    pub open spec fn bounded_prefix_of(self, bytes: Seq<u8>) -> bool {
        &&& vstd::utf8::encode_utf8(self@) == bytes.take(vstd::utf8::encode_utf8(self@).len() as int)
        &&& vstd::utf8::encode_utf8(self@).len() <= OPAQUE_TEXT_CAPACITY
        &&& vstd::utf8::encode_utf8(self@).len() <= bytes.len()
        &&& forall|k: int|
            vstd::utf8::encode_utf8(self@).len() < k <= bytes.len() && k <= OPAQUE_TEXT_CAPACITY
                ==> !vstd::utf8::is_char_boundary(bytes, k)
        &&& self.is_truncated() == (vstd::utf8::encode_utf8(self@).len() < bytes.len())
    }

    #[verifier::type_invariant]
    spec fn inv(self) -> bool {
        vstd::utf8::encode_utf8(self.text@).len() <= OPAQUE_TEXT_CAPACITY
    }

    /// Keeps the longest prefix of `text` that ends at a character boundary and fits in
    /// `OPAQUE_TEXT_CAPACITY` bytes, and records whether anything was cut.
    pub fn new(text: &str) -> (opaque: Self)
        ensures
            opaque.bounded_prefix_of(text.spec_bytes()),
    {
        let length = text.as_bytes().len();
        proof {
            vstd::utf8::encode_utf8_valid_utf8(text@);
        }
        let start = if length < OPAQUE_TEXT_CAPACITY {
            length
        } else {
            OPAQUE_TEXT_CAPACITY
        };
        let mut end = start;
        while !text.is_char_boundary(end)
            invariant
                end <= start,
                start <= length,
                start <= OPAQUE_TEXT_CAPACITY,
                length == text.spec_bytes().len(),
                vstd::utf8::valid_utf8(text.spec_bytes()),
                forall|k: int| end < k <= start ==> !vstd::utf8::is_char_boundary(text.spec_bytes(), k),
            decreases end,
        {
            assert(end > 0);
            end = end - 1;
        }
        let (prefix, _) = text.split_at(end);
        let kept = String::from_str(prefix);
        assert(vstd::utf8::encode_utf8(kept@) == prefix.spec_bytes());
        OpaqueText { text: kept, truncated: end < length }
    }

    pub fn as_str(&self) -> (text: &str)
        ensures
            text@ == self@,
    {
        self.text.as_str()
    }

    /// Number of stored UTF-8 bytes.
    pub fn stored_len(&self) -> (len: usize)
        ensures
            len == vstd::utf8::encode_utf8(self@).len(),
    {
        proof {
            use_type_invariant(self);
        }
        self.text.as_str().len()
    }

    pub fn capacity(&self) -> (capacity: usize)
        ensures
            capacity == OPAQUE_TEXT_CAPACITY,
    {
        OPAQUE_TEXT_CAPACITY
    }
}

/// `counter` after one more count: one higher, or saturated when it is at `u64::MAX`.
pub open spec fn incremented(counter: SaturatingCounter) -> SaturatingCounter {
    if counter.value == u64::MAX {
        SaturatingCounter { value: u64::MAX, saturated: true }
    } else {
        SaturatingCounter { value: (counter.value + 1) as u64, saturated: counter.saturated }
    }
}

/// A counter that stops at `u64::MAX` and remembers that it would have gone further.
#[derive(Debug, Clone, Copy, Default, PartialEq, Eq, PartialOrd, Ord, Structural)]
pub struct SaturatingCounter {
    pub value: u64,
    pub saturated: bool,
}

impl SaturatingCounter {
    /// Counts one more, or marks the counter saturated when it is at `u64::MAX`.
    pub fn increment(&mut self)
        ensures
            *final(self) == incremented(*old(self)),
    {
        if self.value == u64::MAX {
            self.saturated = true;
        } else {
            self.value = self.value + 1;
        }
    }

    pub open spec fn zero_spec() -> Self {
        SaturatingCounter { value: 0, saturated: false }
    }

    pub fn zero() -> (counter: Self)
        ensures
            counter == Self::zero_spec(),
    {
        SaturatingCounter { value: 0, saturated: false }
    }
}

#[derive(Debug, Clone, Copy, PartialEq, Eq, Structural)]
pub enum CollectionMode {
    RuntimeDisabled,
    Enabled,
}

#[derive(Debug, Clone, Copy, PartialEq, Eq, Structural)]
pub enum DiagnosticReadKind {
    NormalL1,
    DegradedL2,
}

#[derive(Debug, Clone, Copy, PartialEq, Eq, Structural)]
pub enum TargetFamily {
    Native,
    Wasm,
}

#[derive(Debug, Clone, Copy, PartialEq, Eq, Structural)]
pub enum BuildProfile {
    Debug,
    Release,
    Other,
}

#[derive(Debug, Clone, Copy, PartialEq, Eq, Structural)]
pub enum PanicStrategy {
    Unwind,
    Abort,
}

/// Facts about the build that produced the running engine.
#[derive(Debug, Clone, PartialEq, Eq)]
pub struct BuildProvenance {
    pub package_version: DiagnosticField<&'static str>,
    pub build_id: DiagnosticField<&'static str>,
    pub target: DiagnosticField<&'static str>,
    pub architecture: DiagnosticField<&'static str>,
    pub target_family: DiagnosticField<TargetFamily>,
    pub build_profile: DiagnosticField<BuildProfile>,
    pub panic_strategy: DiagnosticField<PanicStrategy>,
    pub wgpu_version: DiagnosticField<&'static str>,
}

#[derive(Debug, Clone, Copy, PartialEq, Eq, Structural)]
pub enum RuntimeLifecycle {
    NotStarted,
    Initializing,
    Running,
    ShuttingDown,
    Ended,
}

#[derive(Debug, Clone, Copy, PartialEq, Eq, Structural)]
pub enum RuntimeOutcome {
    NotAvailable,
    StartupFailed,
    NormalExit,
    ErrorExit,
}

#[derive(Debug, Clone, PartialEq, Eq)]
pub struct RuntimeState {
    pub lifecycle: DiagnosticField<RuntimeLifecycle>,
    pub outcome: DiagnosticField<RuntimeOutcome>,
}

#[derive(Debug, Clone, Copy, PartialEq, Eq, Structural)]
pub enum RendererRole {
    Primary,
    Tool,
    Other,
}

/// Non-zero identity of one renderer, never reused.
#[derive(Debug, Clone, Copy, PartialEq, Eq, PartialOrd, Ord, Structural)]
pub struct RendererIncarnation(u64);

impl View for RendererIncarnation {
    type V = u64;

    closed spec fn view(&self) -> u64 {
        self.0
    }
}

impl RendererIncarnation {
    #[verifier::type_invariant]
    spec fn inv(self) -> bool {
        self.0 != 0
    }

    /// The incarnation numbered `value`, or `None` for zero.
    pub fn new(value: u64) -> (incarnation: Option<Self>)
        ensures
            value == 0 ==> incarnation is None,
            value != 0 ==> (incarnation matches Some(i) && i@ == value),
    {
        if value == 0 {
            None
        } else {
            Some(RendererIncarnation(value))
        }
    }

    pub fn get(self) -> (value: u64)
        ensures
            value == self@,
            value != 0,
    {
        proof {
            use_type_invariant(&self);
        }
        self.0
    }
}

#[derive(Debug, Clone, Copy, PartialEq, Eq, Structural)]
pub struct RendererSource {
    pub role: RendererRole,
    pub incarnation: RendererIncarnation,
}

#[derive(Debug, Clone, Copy, PartialEq, Eq, Structural)]
pub enum RendererLifecycle {
    Initializing,
    Ready,
    InitializationFailed,
    Destroyed,
}

#[derive(Debug, Clone, Copy, PartialEq, Eq, Structural)]
pub enum AdapterBackend {
    Noop,
    Vulkan,
    Metal,
    Dx12,
    Gl,
    BrowserWebGpu,
    Other,
}

#[derive(Debug, Clone, Copy, PartialEq, Eq, Structural)]
pub enum AdapterDeviceType {
    IntegratedGpu,
    DiscreteGpu,
    VirtualGpu,
    Cpu,
    Other,
}

#[derive(Debug, Clone, PartialEq, Eq)]
pub struct AdapterFacts {
    pub backend: DiagnosticField<AdapterBackend>,
    pub device_type: DiagnosticField<AdapterDeviceType>,
    pub name: DiagnosticField<OpaqueText>,
}

impl AdapterFacts {
    /// Facts of an adapter that was not observed: every field unknown, historical.
    pub fn unknown() -> (facts: Self)
        ensures
            facts.backend == DiagnosticField::<AdapterBackend>::unknown_spec(
                RepresentationKind::HistoricalFact,
            ),
            facts.device_type == DiagnosticField::<AdapterDeviceType>::unknown_spec(
                RepresentationKind::HistoricalFact,
            ),
            facts.name == DiagnosticField::<OpaqueText>::unknown_spec(
                RepresentationKind::HistoricalFact,
            ),
    {
        AdapterFacts {
            backend: DiagnosticField::unknown(RepresentationKind::HistoricalFact),
            device_type: DiagnosticField::unknown(RepresentationKind::HistoricalFact),
            name: DiagnosticField::unknown(RepresentationKind::HistoricalFact),
        }
    }
}

#[derive(Debug, Clone, Copy, PartialEq, Eq, Structural)]
pub enum SurfaceFormat {
    Bgra8Unorm,
    Bgra8UnormSrgb,
    Rgba8Unorm,
    Rgba8UnormSrgb,
    Rgba16Float,
    Other,
}

#[derive(Debug, Clone, Copy, PartialEq, Eq, Structural)]
pub enum SurfacePresentMode {
    Fifo,
    FifoRelaxed,
    Immediate,
    Mailbox,
    AutoVsync,
    AutoNoVsync,
    Other,
}

#[derive(Debug, Clone, Copy, PartialEq, Eq, Structural)]
pub enum SurfaceAlphaMode {
    Auto,
    Opaque,
    PreMultiplied,
    PostMultiplied,
    Inherit,
    Other,
}

#[derive(Debug, Clone, Copy, PartialEq, Eq, Structural)]
pub struct SurfaceConfiguration {
    pub format: SurfaceFormat,
    pub present_mode: SurfacePresentMode,
    pub alpha_mode: SurfaceAlphaMode,
    pub width: u32,
    pub height: u32,
}

#[derive(Debug, Clone, Copy, PartialEq, Eq, Structural)]
pub enum SurfaceFailure {
    Timeout,
    Occluded,
    Outdated,
    Lost,
    Validation,
}

#[derive(Debug, Clone, Copy, PartialEq, Eq, Structural)]
pub enum DeviceLostReason {
    Unknown,
    Destroyed,
    Other,
}

#[derive(Debug, Clone, Copy, PartialEq, Eq, Structural)]
pub enum WgpuErrorCategory {
    CreateSurface,
    RequestAdapter,
    RequestDevice,
    SurfaceValidation,
    Other,
}

#[derive(Debug, Clone, Copy, PartialEq, Eq, Structural)]
pub struct PresentObservation {
    pub source: RendererSource,
    pub renderer_frame: SaturatingCounter,
}

#[derive(Debug, Clone, PartialEq, Eq)]
pub struct DeviceLostObservation {
    pub reason: DeviceLostReason,
    pub message: DiagnosticField<OpaqueText>,
}

#[derive(Debug, Clone, PartialEq, Eq)]
pub struct RendererRecord {
    pub source: RendererSource,
    pub lifecycle: DiagnosticField<RendererLifecycle>,
    pub adapter: AdapterFacts,
    pub surface_configuration: DiagnosticField<SurfaceConfiguration>,
    pub last_surface_failure: DiagnosticField<SurfaceFailure>,
    pub last_present: DiagnosticField<PresentObservation>,
    pub suboptimal_observed: DiagnosticField<ObservationStamp>,
    pub device_lost: DiagnosticField<DeviceLostObservation>,
    pub last_wgpu_error: DiagnosticField<WgpuErrorCategory>,
}

#[derive(Debug, Clone, PartialEq, Eq)]
pub struct RendererObservations {
    /// `RENDERER_CAPACITY` slots.
    pub records: Vec<Option<RendererRecord>>,
    pub retained: usize,
    pub identities_issued: SaturatingCounter,
    pub records_dropped: SaturatingCounter,
}

#[derive(Debug, Clone, Copy, PartialEq, Eq, Structural)]
pub enum AudioBackend {
    Native,
    Web,
    Noop,
    Other,
}

#[derive(Debug, Clone, Copy, PartialEq, Eq, Structural)]
pub enum AudioInitializationOutcome {
    NotAttempted,
    Succeeded,
    FailedFallback,
    Unavailable,
}

#[derive(Debug, Clone, Copy, PartialEq, Eq, Structural)]
pub enum AudioErrorCategory {
    Initialization,
    StreamUnderrunOrOverrun,
    Stream,
    WebAudio,
    Other,
}

#[derive(Debug, Clone, PartialEq, Eq)]
pub struct AudioBackendError {
    pub category: AudioErrorCategory,
    pub excerpt: DiagnosticField<OpaqueText>,
}

#[derive(Debug, Clone, PartialEq, Eq)]
pub struct AudioSummary {
    pub backend: DiagnosticField<AudioBackend>,
    pub initialization: DiagnosticField<AudioInitializationOutcome>,
    pub last_generic_backend_error: DiagnosticField<AudioBackendError>,
}

impl AudioSummary {
    /// The audio state before any backend was observed: every field unknown.
    pub fn unknown() -> (summary: Self)
        ensures
            summary.backend == DiagnosticField::<AudioBackend>::unknown_spec(
                RepresentationKind::LastObserved,
            ),
            summary.initialization == DiagnosticField::<AudioInitializationOutcome>::unknown_spec(
                RepresentationKind::LastObserved,
            ),
            summary.last_generic_backend_error == DiagnosticField::<
                AudioBackendError,
            >::unknown_spec(RepresentationKind::LastObserved),
    {
        AudioSummary {
            backend: DiagnosticField::unknown(RepresentationKind::LastObserved),
            initialization: DiagnosticField::unknown(RepresentationKind::LastObserved),
            last_generic_backend_error: DiagnosticField::unknown(RepresentationKind::LastObserved),
        }
    }
}

#[allow(inconsistent_fields)]
#[derive(Debug, Clone, PartialEq, Eq)]
pub enum DiagnosticEventKind {
    RuntimeLifecycle(RuntimeLifecycle),
    RendererLifecycle { source: RendererSource, lifecycle: RendererLifecycle },
    SurfaceFailure { source: RendererSource, failure: SurfaceFailure },
    DeviceLost { source: RendererSource, reason: DeviceLostReason, message: Option<OpaqueText> },
    WgpuError { source: RendererSource, category: WgpuErrorCategory },
    AudioInitialization { backend: AudioBackend, outcome: AudioInitializationOutcome },
    AudioBackendError { category: AudioErrorCategory, excerpt: Option<OpaqueText> },
}

#[derive(Debug, Clone, PartialEq, Eq)]
pub struct DiagnosticEvent {
    pub stamp: ObservationStamp,
    pub kind: DiagnosticEventKind,
}

#[derive(Debug, Clone, PartialEq, Eq)]
pub struct EventHistory {
    /// `EVENT_CAPACITY` slots; records in oldest-to-newest store insertion order.
    pub records: Vec<Option<DiagnosticEvent>>,
    pub retained: usize,
    pub ever_wrapped: bool,
    pub first_record_order: Option<SaturatingCounter>,
    pub last_record_order: Option<SaturatingCounter>,
    pub overwritten: SaturatingCounter,
    pub dropped: SaturatingCounter,
}

#[derive(Debug, Clone, PartialEq, Eq)]
pub struct DiagnosticObservation {
    pub collection_mode: CollectionMode,
    pub read_kind: DiagnosticReadKind,
    pub build: BuildProvenance,
    pub runtime: DiagnosticSection<RuntimeState>,
    pub renderers: DiagnosticSection<RendererObservations>,
    pub audio: DiagnosticSection<AudioSummary>,
    pub events: DiagnosticSection<EventHistory>,
    /// True when at least one attempted section was unavailable.
    pub degraded: bool,
}

/// Entry point of the diagnostics API.
pub struct EngineDiagnostics;

fn copy_field<T: Copy>(field: &DiagnosticField<T>) -> (copy: DiagnosticField<T>)
    ensures
        copy == *field,
{
    DiagnosticField {
        availability: field.availability,
        value: field.value,
        freshness: field.freshness,
        representation: field.representation,
    }
}

fn clone_optional_text(text: &Option<OpaqueText>) -> (copy: Option<OpaqueText>)
    ensures
        copy == *text,
{
    match text {
        Some(text) => Some(text.clone()),
        None => None,
    }
}

pub(crate) fn clone_text_field(field: &DiagnosticField<OpaqueText>) -> (copy: DiagnosticField<OpaqueText>)
    ensures
        copy == *field,
{
    DiagnosticField {
        availability: field.availability,
        value: clone_optional_text(&field.value),
        freshness: field.freshness,
        representation: field.representation,
    }
}

fn clone_device_lost_field(field: &DiagnosticField<DeviceLostObservation>) -> (copy: DiagnosticField<
    DeviceLostObservation,
>)
    ensures
        copy == *field,
{
    let value = match &field.value {
        Some(observation) => Some(
            DeviceLostObservation {
                reason: observation.reason,
                message: clone_text_field(&observation.message),
            },
        ),
        None => None,
    };
    DiagnosticField {
        availability: field.availability,
        value,
        freshness: field.freshness,
        representation: field.representation,
    }
}

fn clone_record(record: &RendererRecord) -> (copy: RendererRecord)
    ensures
        copy == *record,
{
    RendererRecord {
        source: record.source,
        lifecycle: copy_field(&record.lifecycle),
        adapter: AdapterFacts {
            backend: copy_field(&record.adapter.backend),
            device_type: copy_field(&record.adapter.device_type),
            name: clone_text_field(&record.adapter.name),
        },
        surface_configuration: copy_field(&record.surface_configuration),
        last_surface_failure: copy_field(&record.last_surface_failure),
        last_present: copy_field(&record.last_present),
        suboptimal_observed: copy_field(&record.suboptimal_observed),
        device_lost: clone_device_lost_field(&record.device_lost),
        last_wgpu_error: copy_field(&record.last_wgpu_error),
    }
}

fn clone_event(event: &DiagnosticEvent) -> (copy: DiagnosticEvent)
    ensures
        copy == *event,
{
    let kind = match &event.kind {
        DiagnosticEventKind::RuntimeLifecycle(lifecycle) => DiagnosticEventKind::RuntimeLifecycle(
            *lifecycle,
        ),
        DiagnosticEventKind::RendererLifecycle { source, lifecycle } => {
            DiagnosticEventKind::RendererLifecycle { source: *source, lifecycle: *lifecycle }
        },
        DiagnosticEventKind::SurfaceFailure { source, failure } => DiagnosticEventKind::SurfaceFailure {
            source: *source,
            failure: *failure,
        },
        DiagnosticEventKind::DeviceLost { source, reason, message } => DiagnosticEventKind::DeviceLost {
            source: *source,
            reason: *reason,
            message: clone_optional_text(message),
        },
        DiagnosticEventKind::WgpuError { source, category } => DiagnosticEventKind::WgpuError {
            source: *source,
            category: *category,
        },
        DiagnosticEventKind::AudioInitialization { backend, outcome } => {
            DiagnosticEventKind::AudioInitialization { backend: *backend, outcome: *outcome }
        },
        DiagnosticEventKind::AudioBackendError { category, excerpt } => {
            DiagnosticEventKind::AudioBackendError {
                category: *category,
                excerpt: clone_optional_text(excerpt),
            }
        },
    };
    DiagnosticEvent { stamp: event.stamp, kind }
}

/// Abstract state of the event ring: the retained events, oldest first, and its counters.
pub struct EventRingView {
    pub events: Seq<DiagnosticEvent>,
    pub next_record_order: SaturatingCounter,
    pub overwritten: SaturatingCounter,
    pub ever_wrapped: bool,
}

/// `event` with its record order set to `order`.
pub open spec fn with_record_order(event: DiagnosticEvent, order: SaturatingCounter) -> DiagnosticEvent {
    DiagnosticEvent {
        stamp: ObservationStamp { record_order: Some(order), ..event.stamp },
        kind: event.kind,
    }
}

/// Physical slot of the `i`-th retained event of a ring whose oldest event is at `start`.
pub open spec fn ring_slot(start: int, i: int) -> int {
    if start + i < EVENT_CAPACITY {
        start + i
    } else {
        start + i - EVENT_CAPACITY
    }
}

/// Fixed-capacity store of the most recent diagnostic events.
pub struct EventRing {
    records: Vec<Option<DiagnosticEvent>>,
    start: usize,
    len: usize,
    next_record_order: SaturatingCounter,
    overwritten: SaturatingCounter,
    ever_wrapped: bool,
}

impl View for EventRing {
    type V = EventRingView;

    closed spec fn view(&self) -> EventRingView {
        EventRingView {
            events: Seq::new(
                self.len as nat,
                |i: int| self.records@[ring_slot(self.start as int, i)]->0,
            ),
            next_record_order: self.next_record_order,
            overwritten: self.overwritten,
            ever_wrapped: self.ever_wrapped,
        }
    }
}

impl EventRing {
    /// The ring's slots hold exactly the retained events.
    pub closed spec fn wf(self) -> bool {
        &&& self.records@.len() == EVENT_CAPACITY
        &&& self.start < EVENT_CAPACITY
        &&& self.len <= EVENT_CAPACITY
        &&& forall|i: int|
            0 <= i < self.len ==> (#[trigger] self.records@[ring_slot(self.start as int, i)]) is Some
    }

    /// An empty ring whose counters are zero.
    pub fn new() -> (ring: Self)
        ensures
            ring.wf(),
            ring@.events.len() == 0,
            ring@.next_record_order == SaturatingCounter::zero_spec(),
            ring@.overwritten == SaturatingCounter::zero_spec(),
            !ring@.ever_wrapped,
    {
        let mut records: Vec<Option<DiagnosticEvent>> = Vec::new();
        let mut i: usize = 0;
        while i < EVENT_CAPACITY
            invariant
                i <= EVENT_CAPACITY,
                records@.len() == i,
            decreases EVENT_CAPACITY - i,
        {
            records.push(None);
            i = i + 1;
        }
        let ring = EventRing {
            records,
            start: 0,
            len: 0,
            next_record_order: SaturatingCounter::zero(),
            overwritten: SaturatingCounter::zero(),
            ever_wrapped: false,
        };
        assert(ring@.events =~= Seq::<DiagnosticEvent>::empty());
        ring
    }

    /// Appends `event` stamped with the next record order; a full ring first drops its
    /// oldest event and counts it as overwritten.
    pub fn push(&mut self, event: DiagnosticEvent)
        requires
            old(self).wf(),
        ensures
            final(self).wf(),
            final(self)@.next_record_order == incremented(old(self)@.next_record_order),
            final(self)@.events == if old(self)@.events.len() < EVENT_CAPACITY {
                old(self)@.events.push(with_record_order(event, final(self)@.next_record_order))
            } else {
                old(self)@.events.drop_first().push(
                    with_record_order(event, final(self)@.next_record_order),
                )
            },
            final(self)@.overwritten == if old(self)@.events.len() < EVENT_CAPACITY {
                old(self)@.overwritten
            } else {
                incremented(old(self)@.overwritten)
            },
            final(self)@.ever_wrapped == (old(self)@.ever_wrapped || old(self)@.events.len()
                >= EVENT_CAPACITY),
    {
        let ghost old_view = self@;
        let mut order = self.next_record_order;
        order.increment();
        self.next_record_order = order;
        let stamped = DiagnosticEvent {
            stamp: ObservationStamp { record_order: Some(order), ..event.stamp },
            kind: event.kind,
        };
        if self.len < EVENT_CAPACITY {
            let sum = self.start + self.len;
            let index = if sum < EVENT_CAPACITY {
                sum
            } else {
                sum - EVENT_CAPACITY
            };
            self.records.set(index, Some(stamped));
            self.len = self.len + 1;
            assert(self@.events =~= old_view.events.push(with_record_order(event, order)));
        } else {
            let start = self.start;
            self.records.set(start, Some(stamped));
            assert forall|i: int| 0 <= i < EVENT_CAPACITY implies (#[trigger] self.records@[ring_slot(
                start as int,
                i,
            )]) is Some by {
                assert(old_view.events.len() == EVENT_CAPACITY);
                assert(old(self).records@[ring_slot(start as int, i)] is Some);
            }
            self.start = if self.start + 1 < EVENT_CAPACITY {
                self.start + 1
            } else {
                0
            };
            assert forall|i: int| 0 <= i < EVENT_CAPACITY implies (#[trigger] self.records@[ring_slot(
                self.start as int,
                i,
            )]) is Some by {
                if i < EVENT_CAPACITY - 1 {
                    assert(ring_slot(self.start as int, i) == ring_slot(start as int, i + 1));
                    assert(self.records@[ring_slot(start as int, i + 1)] is Some);
                } else {
                    assert(ring_slot(self.start as int, i) == start);
                }
            }
            assert forall|i: int| 0 <= i < EVENT_CAPACITY implies #[trigger] self@.events[i] == (
            old_view.events.drop_first().push(with_record_order(event, order)))[i] by {
                if i < EVENT_CAPACITY - 1 {
                    assert(ring_slot(self.start as int, i) == ring_slot(start as int, i + 1));
                } else {
                    assert(ring_slot(self.start as int, i) == start);
                }
            }
            self.ever_wrapped = true;
            let mut overwritten = self.overwritten;
            overwritten.increment();
            self.overwritten = overwritten;
            assert(self@.events =~= old_view.events.drop_first().push(with_record_order(event, order)));
        }
    }

    /// The retained events in `EVENT_CAPACITY` slots, oldest first, with the ring's counters.
    pub fn materialize(&self, dropped: SaturatingCounter) -> (history: EventHistory)
        requires
            self.wf(),
        ensures
            history.records@ == Seq::new(
                EVENT_CAPACITY as nat,
                |i: int|
                    if i < self@.events.len() {
                        Some(self@.events[i])
                    } else {
                        None
                    },
            ),
            history.retained == self@.events.len(),
            history.ever_wrapped == self@.ever_wrapped,
            history.first_record_order == if self@.events.len() > 0 {
                self@.events[0].stamp.record_order
            } else {
                None
            },
            history.last_record_order == if self@.events.len() > 0 {
                self@.events.last().stamp.record_order
            } else {
                None
            },
            history.overwritten == self@.overwritten,
            history.dropped == dropped,
    {
        let ghost events = self@.events;
        let mut records: Vec<Option<DiagnosticEvent>> = Vec::new();
        let mut offset: usize = 0;
        while offset < EVENT_CAPACITY
            invariant
                offset <= EVENT_CAPACITY,
                events == self@.events,
                self.records@.len() == EVENT_CAPACITY,
                self.len <= EVENT_CAPACITY,
                self.start < EVENT_CAPACITY,
                forall|i: int|
                    0 <= i < self.len ==> (#[trigger] self.records@[ring_slot(self.start as int, i)])
                        is Some,
                records@.len() == offset,
                forall|i: int|
                    0 <= i < offset ==> #[trigger] records@[i] == if i < events.len() {
                        Some(events[i])
                    } else {
                        None
                    },
            decreases EVENT_CAPACITY - offset,
        {
            if offset < self.len {
                let sum = self.start + offset;
                let index = if sum < EVENT_CAPACITY {
                    sum
                } else {
                    sum - EVENT_CAPACITY
                };
                let copy = match &self.records[index] {
                    Some(event) => Some(clone_event(event)),
                    None => None,
                };
                records.push(copy);
            } else {
                records.push(None);
            }
            offset = offset + 1;
        }
        let first_record_order = if self.len > 0 {
            match &records[0] {
                Some(event) => event.stamp.record_order,
                None => None,
            }
        } else {
            None
        };
        let last_record_order = if self.len > 0 {
            match &records[self.len - 1] {
                Some(event) => event.stamp.record_order,
                None => None,
            }
        } else {
            None
        };
        let history = EventHistory {
            records,
            retained: self.len,
            ever_wrapped: self.ever_wrapped,
            first_record_order,
            last_record_order,
            overwritten: self.overwritten,
            dropped,
        };
        assert(history.records@ =~= Seq::new(
            EVENT_CAPACITY as nat,
            |i: int|
                if i < events.len() {
                    Some(events[i])
                } else {
                    None
                },
        ));
        history
    }
}

/// Whether a record describes a renderer that has ended, so that its slot may be reused.
pub open spec fn record_terminated(record: RendererRecord) -> bool {
    record.lifecycle.value == Some(RendererLifecycle::InitializationFailed)
        || record.lifecycle.value == Some(RendererLifecycle::Destroyed)
}

/// Number of occupied slots.
pub open spec fn occupied(slots: Seq<Option<RendererRecord>>) -> nat
    decreases slots.len(),
{
    if slots.len() == 0 {
        0
    } else {
        occupied(slots.drop_last()) + if slots.last() is Some {
            1nat
        } else {
            0nat
        }
    }
}

/// Slot `i` is where `insert` puts a record when every slot is occupied: the terminated
/// renderer with the smallest incarnation, the first one among equals.
pub open spec fn eviction_slot(slots: Seq<Option<RendererRecord>>, i: int) -> bool {
    &&& 0 <= i < slots.len()
    &&& slots[i] is Some
    &&& record_terminated(slots[i]->0)
    &&& forall|j: int|
        0 <= j < slots.len() && (#[trigger] slots[j]) is Some && record_terminated(slots[j]->0) ==> (j
            < i ==> slots[j]->0.source.incarnation@ > slots[i]->0.source.incarnation@) && (j > i
            ==> slots[j]->0.source.incarnation@ >= slots[i]->0.source.incarnation@)
}

/// Fixed-capacity store of renderer records.
pub struct RendererStore {
    records: Vec<Option<RendererRecord>>,
}

impl View for RendererStore {
    type V = Seq<Option<RendererRecord>>;

    closed spec fn view(&self) -> Seq<Option<RendererRecord>> {
        self.records@
    }
}

impl RendererStore {
    /// An empty store of `RENDERER_CAPACITY` slots.
    pub fn new() -> (store: Self)
        ensures
            store@ == Seq::new(RENDERER_CAPACITY as nat, |i: int| None::<RendererRecord>),
    {
        let mut records: Vec<Option<RendererRecord>> = Vec::new();
        let mut i: usize = 0;
        while i < RENDERER_CAPACITY
            invariant
                i <= RENDERER_CAPACITY,
                records@ == Seq::new(i as nat, |k: int| None::<RendererRecord>),
            decreases RENDERER_CAPACITY - i,
        {
            records.push(None);
            i = i + 1;
            assert(records@ =~= Seq::new(i as nat, |k: int| None::<RendererRecord>));
        }
        RendererStore { records }
    }

    /// Stores `record` in the first empty slot, or else in place of the terminated
    /// renderer with the smallest incarnation; refuses it when every slot holds a live
    /// renderer.
    pub fn insert(&mut self, record: RendererRecord) -> (stored: bool)
        ensures
            (exists|i: int| 0 <= i < old(self)@.len() && #[trigger] old(self)@[i] is None) ==> {
                &&& stored
                &&& exists|i: int|
                    0 <= i < old(self)@.len() && #[trigger] old(self)@[i] is None && (forall|j: int|
                        0 <= j < i ==> old(self)@[j] is Some) && final(self)@ == old(self)@.update(
                        i,
                        Some(record),
                    )
            },
            (forall|i: int| 0 <= i < old(self)@.len() ==> #[trigger] old(self)@[i] is Some) ==> {
                &&& stored == exists|i: int| eviction_slot(old(self)@, i)
                &&& stored ==> exists|i: int|
                    eviction_slot(old(self)@, i) && final(self)@ == old(self)@.update(i, Some(record))
                &&& !stored ==> final(self)@ == old(self)@
            },
    {
        let ghost slots = self@;
        let mut i: usize = 0;
        while i < self.records.len()
            invariant
                self@ == slots,
                slots == old(self)@,
                i <= slots.len(),
                forall|j: int| 0 <= j < i ==> #[trigger] slots[j] is Some,
            decreases slots.len() - i,
        {
            if self.records[i].is_none() {
                self.records.set(i, Some(record));
                assert(slots[i as int] is None);
                return true;
            }
            i = i + 1;
        }
        let mut best: Option<usize> = None;
        let mut best_incarnation: u64 = 0;
        let mut k: usize = 0;
        while k < self.records.len()
            invariant
                self@ == slots,
                slots == old(self)@,
                k <= slots.len(),
                forall|j: int| 0 <= j < slots.len() ==> #[trigger] slots[j] is Some,
                match best {
                    None => forall|j: int|
                        0 <= j < k ==> !record_terminated(#[trigger] slots[j]->0),
                    Some(b) => {
                        &&& b < k
                        &&& record_terminated(slots[b as int]->0)
                        &&& slots[b as int]->0.source.incarnation@ == best_incarnation
                        &&& forall|j: int|
                            0 <= j < k && record_terminated(#[trigger] slots[j]->0) ==> (j < b
                                ==> slots[j]->0.source.incarnation@ > best_incarnation) && (j > b
                                ==> slots[j]->0.source.incarnation@ >= best_incarnation)
                    },
                },
            decreases slots.len() - k,
        {
            match &self.records[k] {
                Some(candidate) => {
                    let terminated = match candidate.lifecycle.value {
                        Some(RendererLifecycle::InitializationFailed) => true,
                        Some(RendererLifecycle::Destroyed) => true,
                        _ => false,
                    };
                    if terminated {
                        let incarnation = candidate.source.incarnation.get();
                        let better = match best {
                            None => true,
                            Some(_) => incarnation < best_incarnation,
                        };
                        if better {
                            best = Some(k);
                            best_incarnation = incarnation;
                        }
                    }
                },
                None => {},
            }
            k = k + 1;
        }
        match best {
            Some(index) => {
                assert(eviction_slot(slots, index as int));
                self.records.set(index, Some(record));
                true
            },
            None => {
                assert(!exists|i: int| eviction_slot(slots, i));
                false
            },
        }
    }

    /// The slot of the record that `source` identifies.
    pub fn find(&self, source: RendererSource) -> (slot: Option<usize>)
        ensures
            match slot {
                Some(i) => {
                    &&& i < self@.len()
                    &&& self@[i as int] is Some
                    &&& self@[i as int]->0.source == source
                    &&& forall|j: int|
                        0 <= j < i ==> !((#[trigger] self@[j]) is Some && self@[j]->0.source == source)
                },
                None => forall|j: int|
                    0 <= j < self@.len() ==> !((#[trigger] self@[j]) is Some && self@[j]->0.source
                        == source),
            },
    {
        let mut i: usize = 0;
        while i < self.records.len()
            invariant
                i <= self@.len(),
                forall|j: int|
                    0 <= j < i ==> !((#[trigger] self@[j]) is Some && self@[j]->0.source == source),
            decreases self@.len() - i,
        {
            match &self.records[i] {
                Some(record) => {
                    if record.source == source {
                        return Some(i);
                    }
                },
                None => {},
            }
            i = i + 1;
        }
        None
    }

    /// The record in slot `slot`.
    pub fn get(&self, slot: usize) -> (record: Option<&RendererRecord>)
        ensures
            slot < self@.len() ==> record == match self@[slot as int] {
                Some(r) => Some(&r),
                None => None,
            },
            slot >= self@.len() ==> record is None,
    {
        if slot < self.records.len() {
            match &self.records[slot] {
                Some(record) => Some(record),
                None => None,
            }
        } else {
            None
        }
    }

    /// Replaces the record in slot `slot`.
    pub fn replace(&mut self, slot: usize, record: RendererRecord)
        requires
            slot < old(self)@.len(),
        ensures
            final(self)@ == old(self)@.update(slot as int, Some(record)),
    {
        self.records.set(slot, Some(record));
    }

    /// A copy of the slots with the number of occupied ones and the given counters.
    pub fn materialize(&self, identities_issued: SaturatingCounter, records_dropped: SaturatingCounter) -> (observations: RendererObservations)
        ensures
            observations.records@ == self@,
            observations.retained == occupied(self@),
            observations.identities_issued == identities_issued,
            observations.records_dropped == records_dropped,
    {
        let mut records: Vec<Option<RendererRecord>> = Vec::new();
        let mut retained: usize = 0;
        let mut i: usize = 0;
        while i < self.records.len()
            invariant
                i <= self@.len(),
                records@ == self@.take(i as int),
                retained == occupied(self@.take(i as int)),
                retained <= i,
            decreases self@.len() - i,
        {
            let copy = match &self.records[i] {
                Some(record) => {
                    retained = retained + 1;
                    Some(clone_record(record))
                },
                None => None,
            };
            records.push(copy);
            assert(self@.take(i + 1).drop_last() =~= self@.take(i as int));
            i = i + 1;
            assert(records@ =~= self@.take(i as int));
        }
        assert(self@.take(self@.len() as int) =~= self@);
        RendererObservations { records, retained, identities_issued, records_dropped }
    }
}

} // verus!
