//! Scenario tests over the store, the materializer, the projection,
//! the server core and the push fan-out bookkeeping.

use eventbook::broadcast::ConnectionManager;
use eventbook::event::{Event, EventError};
use eventbook::materializer::DocumentMaterializer;
use eventbook::projection::DocumentProjection;
use eventbook::server_core::{event_error_to_response, GetEventsQuery, ServerCore};
use eventbook::store::InMemoryEventStore;
use eventbook::value::{Value, ValueEntry};

fn obj(entries: Vec<(&str, Value)>) -> Value {
    Value::Obj(
        entries
            .into_iter()
            .map(|(k, v)| ValueEntry {
                key: k.to_string(),
                value: v,
            })
            .collect(),
    )
}

fn s(v: &str) -> Value {
    Value::Str(v.to_string())
}

fn event(id: &str, kind: &str, agg: &str, payload: Value, ts: i64, version: i64) -> Event {
    Event {
        id: id.to_string(),
        event_type: kind.to_string(),
        aggregate_id: agg.to_string(),
        payload,
        timestamp: ts,
        version,
    }
}

#[test]
fn version_conflict_is_surfaced() {
    let mut store = InMemoryEventStore::new();
    let e1 = event(
        "e1",
        "DocumentCreated",
        "d",
        obj(vec![("title", s("T"))]),
        100,
        1,
    );
    let e2 = event("e2", "DocumentTitleUpdated", "d", obj(vec![]), 101, 3);
    store.append_event(e1).unwrap();
    let result = store.append_event(e2);
    assert!(matches!(
        result,
        Err(EventError::InvalidVersion {
            expected: 2,
            got: 3
        })
    ));
}

#[test]
fn minimal_notebook_materializes() {
    let events = vec![
        event(
            "e1",
            "DocumentCreated",
            "d",
            obj(vec![("title", s("T"))]),
            100,
            1,
        ),
        event(
            "e2",
            "CellCreated",
            "d",
            obj(vec![
                ("cell_id", s("c")),
                ("cell_type", s("code")),
                ("source", s("print(1)")),
                ("fractional_index", s("a0")),
            ]),
            101,
            2,
        ),
    ];
    let mut projection = DocumentProjection::new();
    projection.rebuild_from_events(&events).unwrap();

    assert_eq!(projection.get_document("d").unwrap().title, "T");
    let cell = projection.get_cell("c").unwrap();
    assert_eq!(cell.source, "print(1)");
    assert_eq!(cell.document_id, "d");
    let cells = projection.get_document_cells("d");
    assert_eq!(cells.len(), 1);
    assert_eq!(cells[0].id, "c");
}

#[test]
fn move_between_reorders_cells() {
    let mid = eventbook::fractional_index::between("a0", "a1").unwrap();
    let mut events = vec![event(
        "e1",
        "DocumentCreated",
        "d",
        obj(vec![("title", s("T"))]),
        100,
        1,
    )];
    for (i, (cell, idx)) in [("c1", "a0"), ("c2", "a1"), ("c3", "a2")].iter().enumerate() {
        events.push(event(
            &format!("e{}", i + 2),
            "CellCreated",
            "d",
            obj(vec![
                ("cell_id", s(cell)),
                ("cell_type", s("code")),
                ("fractional_index", s(idx)),
            ]),
            101 + i as i64,
            2 + i as i64,
        ));
    }
    events.push(event(
        "e5",
        "CellMoved",
        "d",
        obj(vec![("cell_id", s("c3")), ("fractional_index", s(&mid))]),
        105,
        5,
    ));

    let mut projection = DocumentProjection::new();
    projection.rebuild_from_events(&events).unwrap();
    let order: Vec<String> = projection
        .get_document_cells("d")
        .iter()
        .map(|c| c.id.clone())
        .collect();
    assert_eq!(order, vec!["c1", "c3", "c2"]);
}

#[test]
fn cascading_delete_removes_outputs() {
    let events = vec![
        event(
            "e1",
            "DocumentCreated",
            "d",
            obj(vec![("title", s("T"))]),
            100,
            1,
        ),
        event(
            "e2",
            "CellCreated",
            "d",
            obj(vec![("cell_id", s("c")), ("cell_type", s("code"))]),
            101,
            2,
        ),
        event(
            "e3",
            "CellOutputCreated",
            "d",
            obj(vec![
                ("output_id", s("o")),
                ("cell_id", s("c")),
                ("output_type", s("terminal")),
                ("data", s("hi")),
            ]),
            102,
            3,
        ),
        event(
            "e4",
            "CellDeleted",
            "d",
            obj(vec![("cell_id", s("c"))]),
            103,
            4,
        ),
    ];
    let mut projection = DocumentProjection::new();
    projection.rebuild_from_events(&events).unwrap();
    assert!(projection.get_cell("c").is_none());
    assert_eq!(projection.get_cell_outputs("c").len(), 0);
    assert_eq!(projection.get_state().outputs.len(), 0);
}

#[test]
fn unknown_kinds_are_inert() {
    let initial = DocumentMaterializer::initial_state();
    let e = event("e1", "SomethingElse", "d", obj(vec![("x", s("y"))]), 42, 7);
    let next = DocumentMaterializer::apply_event(&initial, &e).unwrap();
    assert_eq!(next.documents.len(), 0);
    assert_eq!(next.cells.len(), 0);
    assert_eq!(next.outputs.len(), 0);
    assert_eq!(next.last_processed_timestamp, 42);
    assert_eq!(next.last_processed_version, 7);
}

#[test]
fn rebuild_equals_incremental() {
    let events = vec![
        event(
            "e1",
            "DocumentCreated",
            "d",
            obj(vec![("title", s("T"))]),
            100,
            1,
        ),
        event(
            "e2",
            "CellCreated",
            "d",
            obj(vec![("cell_id", s("c")), ("cell_type", s("markdown"))]),
            101,
            2,
        ),
        event(
            "e3",
            "CellSourceUpdated",
            "d",
            obj(vec![("cell_id", s("c")), ("source", s("# hi"))]),
            101,
            3,
        ),
    ];

    let mut incremental = DocumentProjection::new();
    for e in &events {
        incremental.apply_new_events(&vec![e.clone()]).unwrap();
    }

    let mut rebuilt = DocumentProjection::new();
    rebuilt.rebuild_from_events(&events).unwrap();

    let a = incremental.get_state();
    let b = rebuilt.get_state();
    assert_eq!(a.documents.len(), b.documents.len());
    assert_eq!(a.cells.len(), b.cells.len());
    assert_eq!(a.outputs.len(), b.outputs.len());
    assert_eq!(a.last_processed_timestamp, b.last_processed_timestamp);
    assert_eq!(a.last_processed_version, b.last_processed_version);
    assert_eq!(
        incremental.get_cell("c").unwrap().source,
        rebuilt.get_cell("c").unwrap().source
    );
}

#[test]
fn rebuilds_are_deterministic() {
    let events = vec![
        event(
            "e1",
            "DocumentCreated",
            "d",
            obj(vec![("title", s("T"))]),
            100,
            1,
        ),
        event(
            "e2",
            "CellCreated",
            "d",
            obj(vec![("cell_id", s("c")), ("cell_type", s("sql"))]),
            101,
            2,
        ),
    ];
    let mut p1 = DocumentProjection::new();
    p1.rebuild_from_events(&events).unwrap();
    let mut p2 = DocumentProjection::new();
    p2.rebuild_from_events(&events).unwrap();

    let c1 = p1.get_cell("c").unwrap();
    let c2 = p2.get_cell("c").unwrap();
    assert_eq!(c1.id, c2.id);
    assert_eq!(c1.source, c2.source);
    assert_eq!(c1.created_at, c2.created_at);
    assert_eq!(p1.document_count(), p2.document_count());
    assert_eq!(p1.total_cell_count(), p2.total_cell_count());
}

#[test]
fn missing_required_key_fails_validation() {
    let initial = DocumentMaterializer::initial_state();
    let e = event(
        "e1",
        "CellCreated",
        "d",
        obj(vec![("cell_type", s("code"))]),
        100,
        1,
    );
    let result = DocumentMaterializer::apply_event(&initial, &e);
    assert!(matches!(result, Err(EventError::ValidationError(m)) if m == "Missing cell_id"));

    let e = event(
        "e2",
        "CellCreated",
        "d",
        obj(vec![("cell_id", s("c")), ("cell_type", s("strange"))]),
        100,
        1,
    );
    let result = DocumentMaterializer::apply_event(&initial, &e);
    assert!(
        matches!(result, Err(EventError::ValidationError(m)) if m == "Invalid cell_type: strange")
    );
}

#[test]
fn metadata_parses_or_defaults() {
    let good = obj(vec![
        ("title", s("T")),
        (
            "metadata",
            obj(vec![
                ("authors", Value::Arr(vec![s("ada")])),
                ("tags", Value::Arr(vec![])),
                ("custom", obj(vec![("origin", s("import"))])),
            ]),
        ),
    ]);
    let mut projection = DocumentProjection::new();
    projection
        .rebuild_from_events(&vec![event("e1", "DocumentCreated", "d", good, 100, 1)])
        .unwrap();
    let doc = projection.get_document("d").unwrap();
    assert_eq!(doc.metadata.authors, vec!["ada".to_string()]);
    assert_eq!(doc.metadata.custom.len(), 1);
    assert_eq!(doc.metadata.custom[0].key, "origin");
    assert_eq!(doc.metadata.custom[0].value, "import");

    // a metadata value of the wrong shape falls back to the default
    let bad = obj(vec![("title", s("U")), ("metadata", s("nonsense"))]);
    let mut projection = DocumentProjection::new();
    projection
        .rebuild_from_events(&vec![event("e1", "DocumentCreated", "d", bad, 100, 1)])
        .unwrap();
    let doc = projection.get_document("d").unwrap();
    assert_eq!(doc.metadata.authors.len(), 0);
    assert_eq!(doc.metadata.custom.len(), 0);
}

#[test]
fn server_submit_assigns_serial_versions() {
    let mut server = ServerCore::new();
    let (r1, e1) = server
        .submit_event("x", "DocumentCreated", obj(vec![("title", s("T"))]))
        .unwrap();
    assert_eq!(r1.version, 1);
    assert_eq!(e1.version, 1);
    assert_eq!(e1.aggregate_id, "x");

    let (r2, _) = server
        .submit_event(
            "x",
            "CellCreated",
            obj(vec![("cell_id", s("c")), ("cell_type", s("raw"))]),
        )
        .unwrap();
    assert_eq!(r2.version, 2);

    let stores = server.list_stores();
    assert_eq!(stores, vec!["x".to_string()]);

    let info = server.get_store_info("x");
    assert_eq!(info.event_count, 2);
    assert_eq!(info.latest_version, 2);
    assert_eq!(info.store_id, "x");
}

#[test]
fn server_listing_filters_and_paginates() {
    let mut server = ServerCore::new();
    for i in 0..5 {
        server
            .submit_event(
                "x",
                "CellSourceUpdated",
                obj(vec![("cell_id", s("c")), ("source", s(&format!("v{}", i)))]),
            )
            .unwrap();
    }
    let all = server.get_events(
        "x",
        &GetEventsQuery {
            limit: None,
            offset: None,
            since_timestamp: None,
        },
    );
    assert_eq!(all.total_count, 5);
    assert_eq!(all.events.len(), 5);
    assert_eq!(all.store_id, "x");
    let versions: Vec<i64> = all.events.iter().map(|e| e.version).collect();
    assert_eq!(versions, vec![1, 2, 3, 4, 5]);

    let page = server.get_events(
        "x",
        &GetEventsQuery {
            limit: Some(2),
            offset: Some(1),
            since_timestamp: None,
        },
    );
    assert_eq!(page.total_count, 5);
    assert_eq!(page.events.len(), 2);
    assert_eq!(page.events[0].version, 2);
    assert_eq!(page.events[1].version, 3);

    let none_since = server.get_events(
        "x",
        &GetEventsQuery {
            limit: None,
            offset: None,
            since_timestamp: Some(i64::MAX),
        },
    );
    assert_eq!(none_since.total_count, 0);
    assert_eq!(none_since.events.len(), 0);
}

#[test]
fn error_codes_follow_the_wire_contract() {
    let (status, body) = event_error_to_response(&EventError::InvalidVersion {
        expected: 2,
        got: 3,
    });
    assert_eq!(status, 409);
    assert_eq!(body.code, "VERSION_CONFLICT");

    let (status, body) =
        event_error_to_response(&EventError::DuplicateEventId("e".to_string()));
    assert_eq!(status, 409);
    assert_eq!(body.code, "DUPLICATE_EVENT");

    let (status, body) =
        event_error_to_response(&EventError::ValidationError("bad".to_string()));
    assert_eq!(status, 400);
    assert_eq!(body.code, "VALIDATION_ERROR");
}

#[test]
fn push_fan_out_reaches_both_subscribers() {
    let mut server = ServerCore::new();
    let mut manager = ConnectionManager::new();
    manager.subscribe("x", "conn-1");
    manager.subscribe("x", "conn-2");
    manager.subscribe("y", "conn-3");
    assert_eq!(manager.get_total_connections(), 3);

    let (resp, appended) = server
        .submit_event("x", "DocumentCreated", obj(vec![("title", s("T"))]))
        .unwrap();

    let targets = manager.broadcast_targets("x");
    assert_eq!(targets, vec!["conn-1".to_string(), "conn-2".to_string()]);

    // each target receives a frame carrying the submitted version
    for _target in &targets {
        let frame = eventbook::broadcast::WsMessage::Event {
            store_id: "x".to_string(),
            event: appended.clone(),
        };
        match frame {
            eventbook::broadcast::WsMessage::Event { store_id, event } => {
                assert_eq!(store_id, "x");
                assert_eq!(event.version, resp.version);
            }
            _ => panic!("unexpected frame"),
        }
    }

    manager.disconnect("conn-1");
    assert_eq!(manager.broadcast_targets("x"), vec!["conn-2".to_string()]);
    assert_eq!(manager.get_connection_count("x"), 1);
    manager.unsubscribe("x", "conn-2");
    assert_eq!(manager.get_connection_count("x"), 0);
    assert_eq!(manager.get_connection_count("y"), 1);
}

#[test]
fn client_mirror_tracks_local_submissions() {
    let mut client = eventbook::client::EventBookClient::new("http://localhost:3000");
    client
        .submit_event("DocumentCreated", "d", obj(vec![("title", s("T"))]))
        .unwrap();
    client
        .submit_event(
            "CellCreated",
            "d",
            obj(vec![("cell_id", s("c")), ("cell_type", s("ai"))]),
        )
        .unwrap();

    assert_eq!(client.get_event_count(), 2);
    assert_eq!(client.get_cell_count("d"), 1);
    assert_eq!(client.get_document("d").unwrap().title, "T");

    let pulled = client.rebuild_projections().unwrap();
    assert_eq!(pulled, 2);
    assert_eq!(client.get_cell_count("d"), 1);

    client.clear_local_store();
    assert_eq!(client.get_event_count(), 0);
    assert!(client.get_document("d").is_none());
}

#[test]
fn document_delete_cascades_to_cells_and_outputs() {
    let events = vec![
        event(
            "e1",
            "DocumentCreated",
            "d",
            obj(vec![("title", s("T"))]),
            100,
            1,
        ),
        event(
            "e2",
            "CellCreated",
            "d",
            obj(vec![("cell_id", s("c")), ("cell_type", s("code"))]),
            101,
            2,
        ),
        event(
            "e3",
            "CellOutputCreated",
            "d",
            obj(vec![
                ("output_id", s("o")),
                ("cell_id", s("c")),
                ("output_type", s("markdown")),
            ]),
            102,
            3,
        ),
        event("e4", "DocumentDeleted", "d", obj(vec![]), 103, 4),
    ];
    let mut projection = DocumentProjection::new();
    projection.rebuild_from_events(&events).unwrap();
    assert!(projection.get_document("d").is_none());
    assert!(projection.get_cell("c").is_none());
    assert_eq!(projection.get_state().outputs.len(), 0);
}

#[test]
fn outputs_order_by_position() {
    let events = vec![
        event(
            "e1",
            "CellOutputCreated",
            "d",
            obj(vec![
                ("output_id", s("o2")),
                ("cell_id", s("c")),
                ("output_type", s("terminal")),
                ("position", Value::Int(5)),
            ]),
            100,
            1,
        ),
        event(
            "e2",
            "CellOutputCreated",
            "d",
            obj(vec![
                ("output_id", s("o1")),
                ("cell_id", s("c")),
                ("output_type", s("terminal")),
                ("position", Value::Int(2)),
            ]),
            101,
            2,
        ),
    ];
    let mut projection = DocumentProjection::new();
    projection.rebuild_from_events(&events).unwrap();
    let outputs = projection.get_cell_outputs("c");
    let ids: Vec<String> = outputs.iter().map(|o| o.id.clone()).collect();
    assert_eq!(ids, vec!["o1", "o2"]);
}

#[test]
fn equal_indices_tie_break_by_created_at() {
    // the first event creates the later-born cell, so state order and
    // creation order disagree; creation order must win
    let events = vec![
        event(
            "e1",
            "CellCreated",
            "d",
            obj(vec![("cell_id", s("x")), ("cell_type", s("code")), ("fractional_index", s("a0"))]),
            200,
            1,
        ),
        event(
            "e2",
            "CellCreated",
            "d",
            obj(vec![("cell_id", s("y")), ("cell_type", s("code")), ("fractional_index", s("a0"))]),
            100,
            2,
        ),
    ];
    let mut projection = DocumentProjection::new();
    projection.rebuild_from_events(&events).unwrap();
    let order: Vec<String> = projection
        .get_document_cells("d")
        .iter()
        .map(|c| c.id.clone())
        .collect();
    assert_eq!(order, vec!["y", "x"]);
}

#[test]
fn client_sync_replaces_local_state() {
    let mut client = eventbook::client::EventBookClient::new("http://localhost:3000");
    client
        .submit_event("DocumentCreated", "stale", obj(vec![("title", s("Old"))]))
        .unwrap();

    let fetched = vec![
        event(
            "e1",
            "DocumentCreated",
            "d",
            obj(vec![("title", s("T"))]),
            100,
            1,
        ),
        event(
            "e2",
            "CellCreated",
            "d",
            obj(vec![("cell_id", s("c")), ("cell_type", s("code"))]),
            101,
            2,
        ),
    ];
    let n = client.sync_event_log(&fetched).unwrap();
    assert_eq!(n, 2);
    assert_eq!(client.get_event_count(), 2);
    assert!(client.get_document("stale").is_none());
    assert_eq!(client.get_document("d").unwrap().title, "T");
    assert_eq!(client.get_cell_count("d"), 1);

    // a sequence with a version gap is no well-formed log: refused,
    // and the mirror keeps its state
    let bad = vec![event(
        "x1",
        "DocumentCreated",
        "d",
        obj(vec![("title", s("U"))]),
        100,
        5,
    )];
    assert!(client.sync_event_log(&bad).is_err());
    assert_eq!(client.get_event_count(), 2);
    assert_eq!(client.get_document("d").unwrap().title, "T");
}
