//! Tests of the document event constructors and the projection.

use eventbook::document::{CellType, DocumentMetadata};
use eventbook::events_util::{create_cell_event, create_document_event};
use eventbook::projection::DocumentProjection;

#[test]
fn test_document_creation() {
    let event = create_document_event("doc-123", "My Document", &DocumentMetadata::default(), 1)
        .unwrap();

    assert_eq!(event.event_type, "DocumentCreated");
    assert_eq!(event.aggregate_id, "doc-123");
}

#[test]
fn test_cell_creation() {
    let event = create_cell_event(
        "doc-123",
        "cell-1",
        CellType::Code,
        "print('hello')",
        Some("a0"),
        "user-1",
        1,
    )
    .unwrap();

    assert_eq!(event.event_type, "CellCreated");
    assert_eq!(event.aggregate_id, "doc-123");
}

#[test]
fn test_document_projection() {
    let mut projection = DocumentProjection::new();

    let doc_event =
        create_document_event("doc-123", "Test Document", &DocumentMetadata::default(), 1)
            .unwrap();

    let cell_event = create_cell_event(
        "doc-123",
        "cell-1",
        CellType::Code,
        "print('hello')",
        Some("a0"),
        "user-1",
        2,
    )
    .unwrap();

    projection
        .rebuild_from_events(&vec![doc_event, cell_event])
        .unwrap();

    let document = projection.get_document("doc-123").unwrap();
    assert_eq!(document.title, "Test Document");

    let cell = projection.get_cell("cell-1").unwrap();
    assert_eq!(cell.source, "print('hello')");
    assert_eq!(cell.fractional_index, Some("a0".to_string()));
    assert_eq!(cell.document_id, "doc-123");

    // document cells are properly associated
    let document_cells = projection.get_document_cells("doc-123");
    assert_eq!(document_cells.len(), 1);
    assert_eq!(document_cells[0].id, "cell-1");
}
