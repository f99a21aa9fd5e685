use gotoo_pixel_engine::{
    AdapterFacts, Availability, DiagnosticEvent, DiagnosticEventKind, DiagnosticField,
    DiagnosticProducer, EventRing, Freshness, ObservationStamp, OpaqueText, RendererIncarnation,
    RendererLifecycle, RendererRecord, RendererRole, RendererSource, RendererStore,
    RepresentationKind, RuntimeLifecycle, SaturatingCounter, StaleReason, EVENT_CAPACITY,
    RENDERER_CAPACITY,
};

#[test]
fn opaque_text_bounds_utf8() {
    let exact = OpaqueText::new(&"a".repeat(192));
    assert_eq!(exact.stored_len(), 192);
    assert!(!exact.truncated);
    let multi = OpaqueText::new(&format!("{}é", "a".repeat(191)));
    assert_eq!(multi.stored_len(), 191);
    assert!(multi.truncated);
    assert!(std::str::from_utf8(multi.as_str().as_bytes()).is_ok());
}

#[test]
fn counters_saturate_without_wrap() {
    let mut counter = SaturatingCounter {
        value: u64::MAX,
        saturated: false,
    };
    counter.increment();
    assert_eq!(counter.value, u64::MAX);
    assert!(counter.saturated);
}

fn stamp() -> ObservationStamp {
    ObservationStamp {
        monotonic_micros: 0,
        renderer_frame: None,
        producer: DiagnosticProducer::Runtime,
        producer_sequence: SaturatingCounter::zero(),
        record_order: None,
    }
}

fn event() -> DiagnosticEvent {
    DiagnosticEvent {
        stamp: stamp(),
        kind: DiagnosticEventKind::RuntimeLifecycle(RuntimeLifecycle::Running),
    }
}

#[test]
fn ring_overwrites_oldest_in_store_order() {
    let mut ring = EventRing::new();
    for _ in 0..(EVENT_CAPACITY + 3) {
        ring.push(event());
    }
    let history = ring.materialize(SaturatingCounter::zero());
    assert_eq!(history.retained, EVENT_CAPACITY);
    assert!(history.ever_wrapped);
    assert_eq!(history.overwritten.value, 3);
    assert!(history.first_record_order < history.last_record_order);
    assert_eq!(history.first_record_order.unwrap().value, 4);
    assert_eq!(history.last_record_order.unwrap().value, (EVENT_CAPACITY + 3) as u64);
}

#[test]
fn ring_keeps_events_in_order_before_wrapping() {
    let mut ring = EventRing::new();
    ring.push(event());
    ring.push(event());
    let history = ring.materialize(SaturatingCounter::zero());
    assert_eq!(history.retained, 2);
    assert!(!history.ever_wrapped);
    assert_eq!(history.records.len(), EVENT_CAPACITY);
    assert!(history.records[2].is_none());
    assert_eq!(history.first_record_order.unwrap().value, 1);
    assert_eq!(history.last_record_order.unwrap().value, 2);
}

fn record(incarnation: u64, lifecycle: RendererLifecycle) -> RendererRecord {
    RendererRecord {
        source: RendererSource {
            role: RendererRole::Tool,
            incarnation: RendererIncarnation::new(incarnation).unwrap(),
        },
        lifecycle: DiagnosticField::observed(lifecycle, stamp(), RepresentationKind::LastObserved),
        adapter: AdapterFacts::unknown(),
        surface_configuration: DiagnosticField::unknown(RepresentationKind::LastObserved),
        last_surface_failure: DiagnosticField::unknown(RepresentationKind::LastObserved),
        last_present: DiagnosticField::unknown(RepresentationKind::LastObserved),
        suboptimal_observed: DiagnosticField::unknown(RepresentationKind::LastObserved),
        device_lost: DiagnosticField::unknown(RepresentationKind::LastObserved),
        last_wgpu_error: DiagnosticField::unknown(RepresentationKind::LastObserved),
    }
}

#[test]
fn active_renderers_are_not_evicted_when_retention_is_full() {
    let mut store = RendererStore::new();
    for n in 1..=RENDERER_CAPACITY as u64 {
        assert!(store.insert(record(n, RendererLifecycle::Ready)));
    }
    assert!(!store.insert(record(99, RendererLifecycle::Initializing)));
    let observations = store.materialize(SaturatingCounter::zero(), SaturatingCounter::zero());
    assert_eq!(observations.retained, RENDERER_CAPACITY);
}

#[test]
fn oldest_terminated_renderer_is_evicted_first() {
    let mut store = RendererStore::new();
    for n in 1..=RENDERER_CAPACITY as u64 {
        let lifecycle = if n == 3 || n == 5 {
            RendererLifecycle::Destroyed
        } else {
            RendererLifecycle::Ready
        };
        assert!(store.insert(record(n, lifecycle)));
    }
    assert!(store.insert(record(42, RendererLifecycle::Initializing)));
    let source = |n| RendererSource {
        role: RendererRole::Tool,
        incarnation: RendererIncarnation::new(n).unwrap(),
    };
    assert_eq!(store.find(source(42)), Some(2));
    assert_eq!(store.find(source(3)), None);
    assert_eq!(store.find(source(5)), Some(4));
}

#[test]
fn stale_fields_keep_their_observation() {
    let mut field = DiagnosticField::observed(7u32, stamp(), RepresentationKind::LastObserved);
    field.make_stale(StaleReason::DeviceLost);
    assert_eq!(
        field.freshness,
        Some(Freshness::Stale {
            observed_at: stamp(),
            reason: StaleReason::DeviceLost
        })
    );
    let mut unknown: DiagnosticField<u32> = DiagnosticField::unknown(RepresentationKind::LastObserved);
    unknown.make_stale(StaleReason::Other);
    assert_eq!(unknown.freshness, None);
    assert_eq!(unknown.availability, Availability::Unknown);
    assert!(RendererIncarnation::new(0).is_none());
}
