//! Tests of the event model, builder and in-memory store.

use eventbook::event::{EventBuilder, EventError};
use eventbook::store::InMemoryEventStore;
use eventbook::value::{Value, ValueEntry};

fn source_payload(source: &str) -> Value {
    Value::Obj(vec![ValueEntry {
        key: "source".to_string(),
        value: Value::Str(source.to_string()),
    }])
}

#[test]
fn test_event_builder() {
    let event = EventBuilder::new()
        .event_type("CellCreated")
        .aggregate_id("cell-123")
        .payload(source_payload("print('hello')"))
        .unwrap()
        .build(1)
        .unwrap();

    assert_eq!(event.event_type, "CellCreated");
    assert_eq!(event.aggregate_id, "cell-123");
    assert_eq!(event.version, 1);
}

#[test]
fn test_in_memory_store() {
    let mut store = InMemoryEventStore::new();

    let event = EventBuilder::new()
        .event_type("CellCreated")
        .aggregate_id("cell-123")
        .payload(source_payload("print('hello')"))
        .unwrap()
        .build(1)
        .unwrap();

    store.append_event(event.clone()).unwrap();

    let events = store.get_events("cell-123").unwrap();
    assert_eq!(events.len(), 1);
    assert_eq!(events[0].id, event.id);

    assert_eq!(store.get_latest_version("cell-123"), 1);
}

#[test]
fn test_version_validation() {
    let mut store = InMemoryEventStore::new();

    let event1 = EventBuilder::new()
        .event_type("CellCreated")
        .aggregate_id("cell-123")
        .payload(source_payload("print('hello')"))
        .unwrap()
        .build(1)
        .unwrap();

    let event2 = EventBuilder::new()
        .event_type("CellSourceUpdated")
        .aggregate_id("cell-123")
        .payload(source_payload("print('world')"))
        .unwrap()
        .build(3) // wrong version - should be 2
        .unwrap();

    store.append_event(event1).unwrap();
    let result = store.append_event(event2);

    assert!(matches!(
        result,
        Err(EventError::InvalidVersion {
            expected: 2,
            got: 3
        })
    ));
}

#[test]
fn test_builder_rejects_blank_fields() {
    let err = EventBuilder::new()
        .event_type("   ")
        .aggregate_id("agg")
        .build(1);
    assert!(matches!(err, Err(EventError::InvalidEventType(_))));

    let err = EventBuilder::new()
        .event_type("Kind")
        .aggregate_id("")
        .build(1);
    assert!(matches!(err, Err(EventError::InvalidAggregateId(_))));

    let err = EventBuilder::new().aggregate_id("agg").build(1);
    assert!(matches!(err, Err(EventError::ValidationError(_))));

    let err = EventBuilder::new()
        .event_type("Kind")
        .aggregate_id("agg")
        .build(0);
    assert!(matches!(
        err,
        Err(EventError::InvalidVersion {
            expected: 1,
            got: 0
        })
    ));
}

#[test]
fn test_duplicate_event_id_rejected() {
    let mut store = InMemoryEventStore::new();
    let e1 = eventbook::event::Event {
        id: "evt-1".to_string(),
        event_type: "DocumentCreated".to_string(),
        aggregate_id: "d".to_string(),
        payload: Value::Null,
        timestamp: 100,
        version: 1,
    };
    let mut e2 = e1.clone();
    e2.version = 2;
    store.append_event(e1).unwrap();
    let result = store.append_event(e2);
    assert!(matches!(result, Err(EventError::DuplicateEventId(id)) if id == "evt-1"));
}

#[test]
fn test_all_events_sorted_by_timestamp_and_version() {
    let mut store = InMemoryEventStore::new();
    let mk = |id: &str, agg: &str, ts: i64, v: i64| eventbook::event::Event {
        id: id.to_string(),
        event_type: "DocumentCreated".to_string(),
        aggregate_id: agg.to_string(),
        payload: Value::Null,
        timestamp: ts,
        version: v,
    };
    store.append_event(mk("e1", "a", 300, 1)).unwrap();
    store.append_event(mk("e2", "b", 100, 1)).unwrap();
    store.append_event(mk("e3", "a", 200, 2)).unwrap();
    let all = store.get_all_events().unwrap();
    let keys: Vec<(i64, i64)> = all.iter().map(|e| (e.timestamp, e.version)).collect();
    assert_eq!(keys, vec![(100, 1), (200, 2), (300, 1)]);
}

#[test]
fn test_append_monotonic_versions() {
    let mut store = InMemoryEventStore::new();
    let mk = |id: &str, v: i64| eventbook::event::Event {
        id: id.to_string(),
        event_type: "DocumentCreated".to_string(),
        aggregate_id: "store".to_string(),
        payload: Value::Null,
        timestamp: 100 + v,
        version: v,
    };
    for v in 1..=5 {
        store.append_event(mk(&format!("e{}", v), v)).unwrap();
    }
    let events = store.get_events("store").unwrap();
    let versions: Vec<i64> = events.iter().map(|e| e.version).collect();
    assert_eq!(versions, vec![1, 2, 3, 4, 5]);
}

#[test]
fn test_error_messages_mention_subject() {
    let err = EventError::DuplicateEventId("evt-7".to_string());
    assert_eq!(err.message(), "Duplicate event ID: evt-7");
    let err = EventError::ValidationError("Missing cell_id".to_string());
    assert_eq!(err.message(), "Validation error: Missing cell_id");
    let err = EventError::InvalidVersion {
        expected: 2,
        got: 3,
    };
    assert_eq!(err.message(), "Invalid version: expected 2, got 3");
    let err = EventError::InvalidVersion {
        expected: 1,
        got: -10,
    };
    assert_eq!(err.message(), "Invalid version: expected 1, got -10");
}

#[test]
fn test_unicode_whitespace_is_blank() {
    let err = EventBuilder::new()
        .event_type("\u{00A0}")
        .aggregate_id("agg")
        .build(1);
    assert!(matches!(err, Err(EventError::InvalidEventType(_))));

    let err = EventBuilder::new()
        .event_type("\u{000B}\u{2003}")
        .aggregate_id("agg")
        .build(1);
    assert!(matches!(err, Err(EventError::InvalidEventType(_))));
}

#[test]
fn test_generated_ids_and_timestamps() {
    let event = EventBuilder::new()
        .event_type("DocumentCreated")
        .aggregate_id("d")
        .build(1)
        .unwrap();
    assert!(!event.id.is_empty());
    assert!(event.timestamp >= 0);
    assert!(eventbook::event::current_timestamp() >= 0);
    assert!(!eventbook::event::generate_event_id().is_empty());
}
