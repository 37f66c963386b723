//! The deterministic materializer: a pure fold from the ordered event
//! sequence to notebook state.

use vstd::prelude::*;
use vstd::pervasive::VecAdditionalExecFns;

use crate::decode::{
    get_bool_field, get_i64_field, get_str_field, get_u64_field, parse_metadata, parse_reps,
    spec_parse_metadata, spec_parse_reps,
};
use crate::document::{
    Cell, CellOutput, CellOutputV, CellType, CellV, Document, DocumentMetadata, DocumentMetadataV,
    DocumentProjectionState, DocumentV, ExecutionState, OutputType, StateV,
};
use crate::event::{Event, EventError, EventErrorV, EventV};
use crate::fractional_index::valid_index_chars;
use crate::strutil::{str_eq, string_eq_str};
use crate::value::{get_bool, get_int, get_str, get_u64, obj_get, Value, ValueV};

verus! {

/// The cell type a payload tag names.
pub open spec fn spec_parse_cell_type(tag: Seq<char>) -> Option<CellType> {
    if tag == "code"@ {
        Some(CellType::Code)
    } else if tag == "markdown"@ {
        Some(CellType::Markdown)
    } else if tag == "sql"@ {
        Some(CellType::Sql)
    } else if tag == "ai"@ {
        Some(CellType::Ai)
    } else if tag == "raw"@ {
        Some(CellType::Raw)
    } else {
        None
    }
}

/// Decode a cell type tag.
pub fn parse_cell_type(tag: &str) -> (r: Option<CellType>)
    ensures
        r == spec_parse_cell_type(tag@),
{
    if str_eq(tag, "code") {
        Some(CellType::Code)
    } else if str_eq(tag, "markdown") {
        Some(CellType::Markdown)
    } else if str_eq(tag, "sql") {
        Some(CellType::Sql)
    } else if str_eq(tag, "ai") {
        Some(CellType::Ai)
    } else if str_eq(tag, "raw") {
        Some(CellType::Raw)
    } else {
        None
    }
}

/// The execution state a payload tag names.
pub open spec fn spec_parse_exec_state(tag: Seq<char>) -> Option<ExecutionState> {
    if tag == "idle"@ {
        Some(ExecutionState::Idle)
    } else if tag == "queued"@ {
        Some(ExecutionState::Queued)
    } else if tag == "running"@ {
        Some(ExecutionState::Running)
    } else if tag == "completed"@ {
        Some(ExecutionState::Completed)
    } else if tag == "error"@ {
        Some(ExecutionState::Error)
    } else {
        None
    }
}

/// Decode an execution state tag.
pub fn parse_exec_state(tag: &str) -> (r: Option<ExecutionState>)
    ensures
        r == spec_parse_exec_state(tag@),
{
    if str_eq(tag, "idle") {
        Some(ExecutionState::Idle)
    } else if str_eq(tag, "queued") {
        Some(ExecutionState::Queued)
    } else if str_eq(tag, "running") {
        Some(ExecutionState::Running)
    } else if str_eq(tag, "completed") {
        Some(ExecutionState::Completed)
    } else if str_eq(tag, "error") {
        Some(ExecutionState::Error)
    } else {
        None
    }
}

/// The output type a payload tag names.
pub open spec fn spec_parse_output_type(tag: Seq<char>) -> Option<OutputType> {
    if tag == "multimedia_display"@ {
        Some(OutputType::MultimediaDisplay)
    } else if tag == "multimedia_result"@ {
        Some(OutputType::MultimediaResult)
    } else if tag == "terminal"@ {
        Some(OutputType::Terminal)
    } else if tag == "markdown"@ {
        Some(OutputType::Markdown)
    } else if tag == "error"@ {
        Some(OutputType::Error)
    } else {
        None
    }
}

/// Decode an output type tag.
pub fn parse_output_type(tag: &str) -> (r: Option<OutputType>)
    ensures
        r == spec_parse_output_type(tag@),
{
    if str_eq(tag, "multimedia_display") {
        Some(OutputType::MultimediaDisplay)
    } else if str_eq(tag, "multimedia_result") {
        Some(OutputType::MultimediaResult)
    } else if str_eq(tag, "terminal") {
        Some(OutputType::Terminal)
    } else if str_eq(tag, "markdown") {
        Some(OutputType::Markdown)
    } else if str_eq(tag, "error") {
        Some(OutputType::Error)
    } else {
        None
    }
}

/// Position of the first document with an id, or the length when none
/// matches.
pub open spec fn doc_idx(docs: Seq<DocumentV>, id: Seq<char>) -> int
    decreases docs.len(),
{
    if docs.len() == 0 {
        0
    } else if docs[0].id == id {
        0
    } else {
        1 + doc_idx(docs.skip(1), id)
    }
}

/// Position of the first cell with an id, or the length when none
/// matches.
pub open spec fn cell_idx(cells: Seq<CellV>, id: Seq<char>) -> int
    decreases cells.len(),
{
    if cells.len() == 0 {
        0
    } else if cells[0].id == id {
        0
    } else {
        1 + cell_idx(cells.skip(1), id)
    }
}

/// Position of the first output with an id, or the length when none
/// matches.
pub open spec fn output_idx(outputs: Seq<CellOutputV>, id: Seq<char>) -> int
    decreases outputs.len(),
{
    if outputs.len() == 0 {
        0
    } else if outputs[0].id == id {
        0
    } else {
        1 + output_idx(outputs.skip(1), id)
    }
}

/// The first-match position is the scan position.
proof fn lemma_doc_idx_at(docs: Seq<DocumentV>, id: Seq<char>, k: int)
    requires
        0 <= k <= docs.len(),
        forall|j: int| 0 <= j < k ==> (#[trigger] docs[j]).id != id,
        k < docs.len() ==> docs[k].id == id,
    ensures
        doc_idx(docs, id) == k,
        doc_idx(docs, id) <= docs.len(),
        doc_idx(docs, id) < docs.len() ==> docs[doc_idx(docs, id)].id == id,
    decreases k,
{
    if k > 0 {
        lemma_doc_idx_at(docs.skip(1), id, k - 1);
    } else if docs.len() > 0 && docs[0].id != id {
        // the scan position is zero only when the head matches
        assert(k < docs.len());
    }
}

/// The first-match position is the scan position.
proof fn lemma_cell_idx_at(cells: Seq<CellV>, id: Seq<char>, k: int)
    requires
        0 <= k <= cells.len(),
        forall|j: int| 0 <= j < k ==> (#[trigger] cells[j]).id != id,
        k < cells.len() ==> cells[k].id == id,
    ensures
        cell_idx(cells, id) == k,
    decreases k,
{
    if k > 0 {
        lemma_cell_idx_at(cells.skip(1), id, k - 1);
    } else if cells.len() > 0 && cells[0].id != id {
        assert(k < cells.len());
    }
}

/// The first-match position is the scan position.
proof fn lemma_output_idx_at(outputs: Seq<CellOutputV>, id: Seq<char>, k: int)
    requires
        0 <= k <= outputs.len(),
        forall|j: int| 0 <= j < k ==> (#[trigger] outputs[j]).id != id,
        k < outputs.len() ==> outputs[k].id == id,
    ensures
        output_idx(outputs, id) == k,
    decreases k,
{
    if k > 0 {
        lemma_output_idx_at(outputs.skip(1), id, k - 1);
    } else if outputs.len() > 0 && outputs[0].id != id {
        assert(k < outputs.len());
    }
}

/// Scan for the first document carrying an id.
pub(crate) fn find_document(docs: &Vec<Document>, id: &str) -> (r: usize)
    ensures
        r == doc_idx(docs.deep_view(), id@),
        r <= docs.deep_view().len(),
        r < docs.deep_view().len() ==> docs.deep_view()[r as int].id == id@,
{
    let n = docs.len();
    let mut i: usize = 0;
    while i < n
        invariant
            n == docs@.len(),
            i <= n,
            forall|j: int| 0 <= j < i ==> (#[trigger] docs.deep_view()[j]).id != id@,
        decreases n - i,
    {
        proof {
            assert(docs.deep_view()[i as int] == docs@[i as int]@);
        }
        if string_eq_str(&docs[i].id, id) {
            proof {
                lemma_doc_idx_at(docs.deep_view(), id@, i as int);
            }
            return i;
        }
        i = i + 1;
    }
    proof {
        lemma_doc_idx_at(docs.deep_view(), id@, n as int);
    }
    n
}

/// Scan for the first cell carrying an id.
pub(crate) fn find_cell(cells: &Vec<Cell>, id: &str) -> (r: usize)
    ensures
        r == cell_idx(cells.deep_view(), id@),
        r <= cells.deep_view().len(),
        r < cells.deep_view().len() ==> cells.deep_view()[r as int].id == id@,
{
    let n = cells.len();
    let mut i: usize = 0;
    while i < n
        invariant
            n == cells@.len(),
            i <= n,
            forall|j: int| 0 <= j < i ==> (#[trigger] cells.deep_view()[j]).id != id@,
        decreases n - i,
    {
        proof {
            assert(cells.deep_view()[i as int] == cells@[i as int]@);
        }
        if string_eq_str(&cells[i].id, id) {
            proof {
                lemma_cell_idx_at(cells.deep_view(), id@, i as int);
            }
            return i;
        }
        i = i + 1;
    }
    proof {
        lemma_cell_idx_at(cells.deep_view(), id@, n as int);
    }
    n
}

/// Scan for the first output carrying an id.
pub(crate) fn find_output(outputs: &Vec<CellOutput>, id: &str) -> (r: usize)
    ensures
        r == output_idx(outputs.deep_view(), id@),
        r <= outputs.deep_view().len(),
        r < outputs.deep_view().len() ==> outputs.deep_view()[r as int].id == id@,
{
    let n = outputs.len();
    let mut i: usize = 0;
    while i < n
        invariant
            n == outputs@.len(),
            i <= n,
            forall|j: int| 0 <= j < i ==> (#[trigger] outputs.deep_view()[j]).id != id@,
        decreases n - i,
    {
        proof {
            assert(outputs.deep_view()[i as int] == outputs@[i as int]@);
        }
        if string_eq_str(&outputs[i].id, id) {
            proof {
                lemma_output_idx_at(outputs.deep_view(), id@, i as int);
            }
            return i;
        }
        i = i + 1;
    }
    proof {
        lemma_output_idx_at(outputs.deep_view(), id@, n as int);
    }
    n
}

/// Insert a document, replacing the first one with the same id.
pub open spec fn upsert_doc(docs: Seq<DocumentV>, d: DocumentV) -> Seq<DocumentV> {
    if doc_idx(docs, d.id) < docs.len() {
        docs.update(doc_idx(docs, d.id), d)
    } else {
        docs.push(d)
    }
}

/// Insert a cell, replacing the first one with the same id.
pub open spec fn upsert_cell(cells: Seq<CellV>, c: CellV) -> Seq<CellV> {
    if cell_idx(cells, c.id) < cells.len() {
        cells.update(cell_idx(cells, c.id), c)
    } else {
        cells.push(c)
    }
}

/// Insert an output, replacing the first one with the same id.
pub open spec fn upsert_output(outputs: Seq<CellOutputV>, o: CellOutputV) -> Seq<CellOutputV> {
    if output_idx(outputs, o.id) < outputs.len() {
        outputs.update(output_idx(outputs, o.id), o)
    } else {
        outputs.push(o)
    }
}

/// A document's `updated_at` bumped to a timestamp, when the document
/// exists.
pub open spec fn bump_doc(docs: Seq<DocumentV>, id: Seq<char>, ts: i64) -> Seq<DocumentV> {
    if doc_idx(docs, id) < docs.len() {
        docs.update(
            doc_idx(docs, id),
            DocumentV { updated_at: ts, ..docs[doc_idx(docs, id)] },
        )
    } else {
        docs
    }
}

/// Bump a document's `updated_at`, when the document exists.
fn bump_document(docs: &mut Vec<Document>, id: &str, ts: i64)
    ensures
        final(docs).deep_view() == bump_doc(old(docs).deep_view(), id@, ts),
{
    let i = find_document(docs, id);
    let ghost dv0 = docs.deep_view();
    if i < docs.len() {
        let mut d = docs[i].clone();
        d.updated_at = ts;
        docs.set(i, d);
        proof {
            assert(docs.deep_view() =~= dv0.update(
                i as int,
                DocumentV { updated_at: ts, ..dv0[i as int] },
            ));
        }
    }
}

/// The event kinds the notebook materializer folds.
pub open spec fn spec_handles(kind: Seq<char>) -> bool {
    ||| kind == "DocumentCreated"@
    ||| kind == "DocumentTitleUpdated"@
    ||| kind == "DocumentMetadataUpdated"@
    ||| kind == "CellCreated"@
    ||| kind == "CellSourceUpdated"@
    ||| kind == "CellExecutionStateChanged"@
    ||| kind == "CellOutputCreated"@
    ||| kind == "CellMoved"@
    ||| kind == "CellDeleted"@
    ||| kind == "DocumentDeleted"@
}

/// Effect of `DocumentCreated`: insert or replace the document named
/// by the aggregate, with the given or default title and metadata.
pub open spec fn step_document_created(s: StateV, e: EventV) -> StateV {
    let title = match get_str(e.payload, "title"@) {
        Some(t) => t,
        None => "Untitled"@,
    };
    let metadata = match obj_get(e.payload, "metadata"@) {
        Some(m) => match spec_parse_metadata(m) {
            Some(mv) => mv,
            None => DocumentMetadataV::empty(),
        },
        None => DocumentMetadataV::empty(),
    };
    let doc = DocumentV {
        id: e.aggregate_id,
        title,
        metadata,
        created_at: e.timestamp,
        updated_at: e.timestamp,
    };
    StateV { documents: upsert_doc(s.documents, doc), ..s }
}

/// Effect of `DocumentTitleUpdated`: set the title and bump
/// `updated_at`, when the document exists and a title is given.
pub open spec fn step_document_title_updated(s: StateV, e: EventV) -> StateV {
    let di = doc_idx(s.documents, e.aggregate_id);
    if di < s.documents.len() {
        match get_str(e.payload, "title"@) {
            Some(t) => StateV {
                documents: s.documents.update(
                    di,
                    DocumentV { title: t, updated_at: e.timestamp, ..s.documents[di] },
                ),
                ..s
            },
            None => s,
        }
    } else {
        s
    }
}

/// Effect of `DocumentMetadataUpdated`: replace the metadata when it
/// parses, keep it otherwise; bump `updated_at` either way.
pub open spec fn step_document_metadata_updated(s: StateV, e: EventV) -> StateV {
    let di = doc_idx(s.documents, e.aggregate_id);
    if di < s.documents.len() {
        match obj_get(e.payload, "metadata"@) {
            Some(m) => {
                let metadata = match spec_parse_metadata(m) {
                    Some(mv) => mv,
                    None => s.documents[di].metadata,
                };
                StateV {
                    documents: s.documents.update(
                        di,
                        DocumentV { metadata, updated_at: e.timestamp, ..s.documents[di] },
                    ),
                    ..s
                }
            },
            None => s,
        }
    } else {
        s
    }
}

/// Effect of `CellCreated`: insert the cell described by the payload;
/// requires `cell_id` and a known `cell_type`.
pub open spec fn step_cell_created(s: StateV, e: EventV) -> Result<StateV, EventErrorV> {
    match get_str(e.payload, "cell_id"@) {
        None => Err(EventErrorV::ValidationError("Missing cell_id"@)),
        Some(cell_id) => match get_str(e.payload, "cell_type"@) {
            None => Err(EventErrorV::ValidationError("Missing cell_type"@)),
            Some(ct_tag) => match spec_parse_cell_type(ct_tag) {
                None => Err(EventErrorV::ValidationError("Invalid cell_type: "@ + ct_tag)),
                Some(cell_type) => {
                    let cell = CellV {
                        id: cell_id,
                        cell_type,
                        source: match get_str(e.payload, "source"@) {
                            Some(src) => src,
                            None => Seq::empty(),
                        },
                        fractional_index: get_str(e.payload, "fractional_index"@),
                        execution_count: get_u64(e.payload, "execution_count"@),
                        execution_state: ExecutionState::Idle,
                        assigned_runtime_session: None,
                        last_execution_duration_ms: None,
                        sql_connection_id: get_str(e.payload, "sql_connection_id"@),
                        sql_result_variable: get_str(e.payload, "sql_result_variable"@),
                        ai_provider: get_str(e.payload, "ai_provider"@),
                        ai_model: get_str(e.payload, "ai_model"@),
                        ai_settings: obj_get(e.payload, "ai_settings"@),
                        source_visible: match get_bool(e.payload, "source_visible"@) {
                            Some(b) => b,
                            None => true,
                        },
                        output_visible: match get_bool(e.payload, "output_visible"@) {
                            Some(b) => b,
                            None => true,
                        },
                        ai_context_visible: match get_bool(e.payload, "ai_context_visible"@) {
                            Some(b) => b,
                            None => true,
                        },
                        created_by: match get_str(e.payload, "created_by"@) {
                            Some(c) => c,
                            None => "system"@,
                        },
                        document_id: e.aggregate_id,
                        created_at: e.timestamp,
                        updated_at: e.timestamp,
                    };
                    Ok(
                        StateV {
                            cells: upsert_cell(s.cells, cell),
                            documents: bump_doc(s.documents, e.aggregate_id, e.timestamp),
                            ..s
                        },
                    )
                },
            },
        },
    }
}

/// Effect of `CellSourceUpdated`: update the source and bump both the
/// cell's and the document's `updated_at`, when the cell exists.
pub open spec fn step_cell_source_updated(s: StateV, e: EventV) -> Result<StateV, EventErrorV> {
    match get_str(e.payload, "cell_id"@) {
        None => Err(EventErrorV::ValidationError("Missing cell_id"@)),
        Some(cell_id) => {
            let ci = cell_idx(s.cells, cell_id);
            if ci < s.cells.len() {
                let source = match get_str(e.payload, "source"@) {
                    Some(src) => src,
                    None => s.cells[ci].source,
                };
                Ok(
                    StateV {
                        cells: s.cells.update(
                            ci,
                            CellV { source, updated_at: e.timestamp, ..s.cells[ci] },
                        ),
                        documents: bump_doc(s.documents, e.aggregate_id, e.timestamp),
                        ..s
                    },
                )
            } else {
                Ok(s)
            }
        },
    }
}

/// Effect of `CellExecutionStateChanged`: update the execution fields
/// the payload names; an unrecognised state tag leaves the state as it
/// was.
pub open spec fn step_cell_execution_state_changed(s: StateV, e: EventV) -> Result<
    StateV,
    EventErrorV,
> {
    match get_str(e.payload, "cell_id"@) {
        None => Err(EventErrorV::ValidationError("Missing cell_id"@)),
        Some(cell_id) => {
            let ci = cell_idx(s.cells, cell_id);
            if ci < s.cells.len() {
                let execution_state = match get_str(e.payload, "execution_state"@) {
                    Some(tag) => match spec_parse_exec_state(tag) {
                        Some(st) => st,
                        None => s.cells[ci].execution_state,
                    },
                    None => s.cells[ci].execution_state,
                };
                let assigned_runtime_session = match get_str(
                    e.payload,
                    "assigned_runtime_session"@,
                ) {
                    Some(rs) => Some(rs),
                    None => s.cells[ci].assigned_runtime_session,
                };
                let last_execution_duration_ms = match get_u64(
                    e.payload,
                    "execution_duration_ms"@,
                ) {
                    Some(d) => Some(d),
                    None => s.cells[ci].last_execution_duration_ms,
                };
                Ok(
                    StateV {
                        cells: s.cells.update(
                            ci,
                            CellV {
                                execution_state,
                                assigned_runtime_session,
                                last_execution_duration_ms,
                                updated_at: e.timestamp,
                                ..s.cells[ci]
                            },
                        ),
                        ..s
                    },
                )
            } else {
                Ok(s)
            }
        },
    }
}

/// Effect of `CellOutputCreated`: insert the output described by the
/// payload; requires `output_id`, `cell_id` and a known `output_type`.
pub open spec fn step_cell_output_created(s: StateV, e: EventV) -> Result<StateV, EventErrorV> {
    match get_str(e.payload, "output_id"@) {
        None => Err(EventErrorV::ValidationError("Missing output_id"@)),
        Some(output_id) => match get_str(e.payload, "cell_id"@) {
            None => Err(EventErrorV::ValidationError("Missing cell_id"@)),
            Some(cell_id) => match get_str(e.payload, "output_type"@) {
                None => Err(EventErrorV::ValidationError("Missing output_type"@)),
                Some(ot_tag) => match spec_parse_output_type(ot_tag) {
                    None => Err(EventErrorV::ValidationError("Invalid output_type: "@ + ot_tag)),
                    Some(output_type) => {
                        let output = CellOutputV {
                            id: output_id,
                            cell_id,
                            output_type,
                            position: match get_int(e.payload, "position"@) {
                                Some(p) => p,
                                None => 0,
                            },
                            stream_name: get_str(e.payload, "stream_name"@),
                            execution_count: get_u64(e.payload, "execution_count"@),
                            display_id: get_str(e.payload, "display_id"@),
                            data: get_str(e.payload, "data"@),
                            artifact_id: get_str(e.payload, "artifact_id"@),
                            mime_type: get_str(e.payload, "mime_type"@),
                            metadata: obj_get(e.payload, "metadata"@),
                            representations: match obj_get(e.payload, "representations"@) {
                                Some(v) => spec_parse_reps(v),
                                None => None,
                            },
                            created_at: e.timestamp,
                        };
                        Ok(StateV { outputs: upsert_output(s.outputs, output), ..s })
                    },
                },
            },
        },
    }
}

/// Effect of `CellMoved`: set the cell's fractional index and bump
/// timestamps; the key must be well formed.
pub open spec fn step_cell_moved(s: StateV, e: EventV) -> Result<StateV, EventErrorV> {
    match get_str(e.payload, "cell_id"@) {
        None => Err(EventErrorV::ValidationError("Missing cell_id"@)),
        Some(cell_id) => match get_str(e.payload, "fractional_index"@) {
            None => Err(EventErrorV::ValidationError("Missing fractional_index"@)),
            Some(fi) => {
                if !valid_index_chars(fi) {
                    Err(EventErrorV::ValidationError("Invalid fractional_index: "@ + fi))
                } else {
                    let ci = cell_idx(s.cells, cell_id);
                    if ci < s.cells.len() {
                        Ok(
                            StateV {
                                cells: s.cells.update(
                                    ci,
                                    CellV {
                                        fractional_index: Some(fi),
                                        updated_at: e.timestamp,
                                        ..s.cells[ci]
                                    },
                                ),
                                documents: bump_doc(s.documents, e.aggregate_id, e.timestamp),
                                ..s
                            },
                        )
                    } else {
                        Ok(s)
                    }
                }
            },
        },
    }
}

/// The outputs that do not reference a cell.
pub open spec fn outputs_without_cell(outputs: Seq<CellOutputV>, cid: Seq<char>) -> Seq<
    CellOutputV,
> {
    outputs.filter(|o: CellOutputV| o.cell_id != cid)
}

/// The cells that belong to other documents.
pub open spec fn cells_without_doc(cells: Seq<CellV>, doc_id: Seq<char>) -> Seq<CellV> {
    cells.filter(|c: CellV| c.document_id != doc_id)
}

/// The outputs that do not reference any cell of a document.
pub open spec fn outputs_without_doc(
    outputs: Seq<CellOutputV>,
    cells: Seq<CellV>,
    doc_id: Seq<char>,
) -> Seq<CellOutputV> {
    outputs.filter(|o: CellOutputV| !doc_has_cell(cells, doc_id, o.cell_id))
}

/// Effect of `CellDeleted`: remove the cell and every output that
/// referenced it; bump the document.
pub open spec fn step_cell_deleted(s: StateV, e: EventV) -> Result<StateV, EventErrorV> {
    match get_str(e.payload, "cell_id"@) {
        None => Err(EventErrorV::ValidationError("Missing cell_id"@)),
        Some(cell_id) => {
            let ci = cell_idx(s.cells, cell_id);
            let cells = if ci < s.cells.len() {
                s.cells.remove(ci)
            } else {
                s.cells
            };
            Ok(
                StateV {
                    cells,
                    outputs: outputs_without_cell(s.outputs, cell_id),
                    documents: bump_doc(s.documents, e.aggregate_id, e.timestamp),
                    ..s
                },
            )
        },
    }
}

/// Whether some cell of a document carries an id.
pub open spec fn doc_has_cell(cells: Seq<CellV>, doc_id: Seq<char>, cell_id: Seq<char>) -> bool {
    exists|k: int|
        0 <= k < cells.len() && (#[trigger] cells[k]).document_id == doc_id && cells[k].id
            == cell_id
}

/// Effect of `DocumentDeleted`: remove the document, its cells, and
/// the outputs of those cells.
pub open spec fn step_document_deleted(s: StateV, e: EventV) -> StateV {
    let di = doc_idx(s.documents, e.aggregate_id);
    let documents = if di < s.documents.len() {
        s.documents.remove(di)
    } else {
        s.documents
    };
    StateV {
        documents,
        cells: cells_without_doc(s.cells, e.aggregate_id),
        outputs: outputs_without_doc(s.outputs, s.cells, e.aggregate_id),
        ..s
    }
}

/// One step of the fold: record the event's position, then apply the
/// effect its kind prescribes; unknown kinds change nothing else.
pub open spec fn spec_apply_event(s: StateV, e: EventV) -> Result<StateV, EventErrorV> {
    let s1 = StateV {
        last_processed_timestamp: e.timestamp,
        last_processed_version: e.version,
        ..s
    };
    if e.event_type == "DocumentCreated"@ {
        Ok(step_document_created(s1, e))
    } else if e.event_type == "DocumentTitleUpdated"@ {
        Ok(step_document_title_updated(s1, e))
    } else if e.event_type == "DocumentMetadataUpdated"@ {
        Ok(step_document_metadata_updated(s1, e))
    } else if e.event_type == "CellCreated"@ {
        step_cell_created(s1, e)
    } else if e.event_type == "CellSourceUpdated"@ {
        step_cell_source_updated(s1, e)
    } else if e.event_type == "CellExecutionStateChanged"@ {
        step_cell_execution_state_changed(s1, e)
    } else if e.event_type == "CellOutputCreated"@ {
        step_cell_output_created(s1, e)
    } else if e.event_type == "CellMoved"@ {
        step_cell_moved(s1, e)
    } else if e.event_type == "CellDeleted"@ {
        step_cell_deleted(s1, e)
    } else if e.event_type == "DocumentDeleted"@ {
        Ok(step_document_deleted(s1, e))
    } else {
        Ok(s1)
    }
}

/// Unknown event kinds are inert: folding one records the event's
/// position and changes nothing else.
pub proof fn lemma_unknown_kind_inert(s: StateV, e: EventV)
    requires
        !spec_handles(e.event_type),
    ensures
        spec_apply_event(s, e) == Ok::<StateV, EventErrorV>(
            StateV {
                last_processed_timestamp: e.timestamp,
                last_processed_version: e.version,
                ..s
            },
        ),
{
}

/// Deleting a cell cascades: afterwards no output references the
/// deleted cell.
pub proof fn lemma_cell_deleted_cascades(s: StateV, e: EventV, cid: Seq<char>)
    requires
        e.event_type == "CellDeleted"@,
        get_str(e.payload, "cell_id"@) == Some(cid),
        spec_apply_event(s, e) is Ok,
    ensures
        forall|i: int|
            0 <= i < spec_apply_event(s, e)->Ok_0.outputs.len() ==> (
            #[trigger] spec_apply_event(s, e)->Ok_0.outputs[i]).cell_id != cid,
{
    broadcast use vstd::seq_lib::group_filter_ensures;

    reveal_strlit("DocumentCreated");
    reveal_strlit("DocumentTitleUpdated");
    reveal_strlit("DocumentMetadataUpdated");
    reveal_strlit("CellCreated");
    reveal_strlit("CellSourceUpdated");
    reveal_strlit("CellExecutionStateChanged");
    reveal_strlit("CellOutputCreated");
    reveal_strlit("CellMoved");
    reveal_strlit("CellDeleted");
    let s1 = StateV {
        last_processed_timestamp: e.timestamp,
        last_processed_version: e.version,
        ..s
    };
    assert("CellDeleted"@.len() == 11);
    assert("DocumentCreated"@.len() == 15);
    assert("DocumentTitleUpdated"@.len() == 20);
    assert("DocumentMetadataUpdated"@.len() == 23);
    assert("CellCreated"@.len() == 11);
    assert("CellDeleted"@[4] != "CellCreated"@[4]);
    assert("CellSourceUpdated"@.len() == 17);
    assert("CellExecutionStateChanged"@.len() == 25);
    assert("CellOutputCreated"@.len() == 17);
    assert("CellMoved"@.len() == 9);
    assert(spec_apply_event(s, e) == step_cell_deleted(s1, e));
    let s2 = spec_apply_event(s, e)->Ok_0;
    assert(s2.outputs == outputs_without_cell(s.outputs, cid));
    assert forall|i: int| 0 <= i < s2.outputs.len() implies (#[trigger] s2.outputs[i]).cell_id
        != cid by {
        s.outputs.lemma_filter_pred(|o: CellOutputV| o.cell_id != cid, i);
    }
}

/// Owned string stored under a key of a mapping value.
fn get_opt_string(v: &Value, key: &str) -> (r: Option<String>)
    ensures
        r.deep_view() == get_str(v@, key@),
{
    match get_str_field(v, key) {
        Some(s) => Some(String::from_str(s)),
        None => None,
    }
}

/// Owned copy of the value stored under a key of a mapping value.
fn get_opt_value(v: &Value, key: &str) -> (r: Option<Value>)
    ensures
        r.deep_view() == obj_get(v@, key@),
{
    match v.get(key) {
        Some(x) => Some(x.clone()),
        None => None,
    }
}

fn handle_document_created(s: DocumentProjectionState, event: &Event) -> (r:
    DocumentProjectionState)
    ensures
        r@ == step_document_created(s@, event@),
{
    let mut st = s;
    let ghost s0 = st@;
    let title = match get_str_field(&event.payload, "title") {
        Some(t) => String::from_str(t),
        None => String::from_str("Untitled"),
    };
    let metadata = match event.payload.get("metadata") {
        Some(m) => match parse_metadata(m) {
            Some(md) => md,
            None => DocumentMetadata::default(),
        },
        None => DocumentMetadata::default(),
    };
    let doc = Document {
        id: event.aggregate_id.clone(),
        title,
        metadata,
        created_at: event.timestamp,
        updated_at: event.timestamp,
    };
    let ghost dv = doc@;
    let i = find_document(&st.documents, event.aggregate_id.as_str());
    let ghost docs0 = st.documents.deep_view();
    if i < st.documents.len() {
        st.documents.set(i, doc);
    } else {
        st.documents.push(doc);
    }
    proof {
        assert(st.documents.deep_view() =~= upsert_doc(docs0, dv));
        assert(st@ =~= step_document_created(s0, event@));
    }
    st
}

fn handle_document_title_updated(s: DocumentProjectionState, event: &Event) -> (r:
    DocumentProjectionState)
    ensures
        r@ == step_document_title_updated(s@, event@),
{
    let mut st = s;
    let ghost s0 = st@;
    let i = find_document(&st.documents, event.aggregate_id.as_str());
    if i < st.documents.len() {
        match get_str_field(&event.payload, "title") {
            Some(t) => {
                let ghost docs0 = st.documents.deep_view();
                let mut d = st.documents[i].clone();
                d.title = String::from_str(t);
                d.updated_at = event.timestamp;
                st.documents.set(i, d);
                proof {
                    assert(st.documents.deep_view() =~= docs0.update(
                        i as int,
                        DocumentV { title: t@, updated_at: event@.timestamp, ..docs0[i as int] },
                    ));
                    assert(st@ =~= step_document_title_updated(s0, event@));
                }
            },
            None => {
                proof {
                    assert(st@ =~= step_document_title_updated(s0, event@));
                }
            },
        }
    } else {
        proof {
            assert(st@ =~= step_document_title_updated(s0, event@));
        }
    }
    st
}

fn handle_document_metadata_updated(s: DocumentProjectionState, event: &Event) -> (r:
    DocumentProjectionState)
    ensures
        r@ == step_document_metadata_updated(s@, event@),
{
    let mut st = s;
    let ghost s0 = st@;
    let i = find_document(&st.documents, event.aggregate_id.as_str());
    if i < st.documents.len() {
        match event.payload.get("metadata") {
            Some(m) => {
                let ghost docs0 = st.documents.deep_view();
                let mut d = st.documents[i].clone();
                match parse_metadata(m) {
                    Some(md) => {
                        d.metadata = md;
                    },
                    None => {},
                }
                d.updated_at = event.timestamp;
                st.documents.set(i, d);
                proof {
                    assert(st.documents.deep_view() =~= docs0.update(
                        i as int,
                        DocumentV {
                            metadata: match spec_parse_metadata(obj_get(
                                event@.payload,
                                "metadata"@,
                            ).unwrap()) {
                                Some(mv) => mv,
                                None => docs0[i as int].metadata,
                            },
                            updated_at: event@.timestamp,
                            ..docs0[i as int]
                        },
                    ));
                    assert(st@ =~= step_document_metadata_updated(s0, event@));
                }
            },
            None => {
                proof {
                    assert(st@ =~= step_document_metadata_updated(s0, event@));
                }
            },
        }
    } else {
        proof {
            assert(st@ =~= step_document_metadata_updated(s0, event@));
        }
    }
    st
}

fn handle_cell_created(s: DocumentProjectionState, event: &Event) -> (r: Result<
    DocumentProjectionState,
    EventError,
>)
    ensures
        match step_cell_created(s@, event@) {
            Ok(sv) => r matches Ok(ns) && ns@ == sv,
            Err(ev) => r matches Err(er) && er@ == ev,
        },
{
    let mut st = s;
    let ghost s0 = st@;
    let cell_id = match get_str_field(&event.payload, "cell_id") {
        Some(c) => String::from_str(c),
        None => {
            return Err(EventError::ValidationError(String::from_str("Missing cell_id")));
        },
    };
    let cell_type_tag = match get_str_field(&event.payload, "cell_type") {
        Some(c) => c,
        None => {
            return Err(EventError::ValidationError(String::from_str("Missing cell_type")));
        },
    };
    let cell_type = match parse_cell_type(cell_type_tag) {
        Some(ct) => ct,
        None => {
            return Err(
                EventError::ValidationError(
                    String::from_str("Invalid cell_type: ").concat(cell_type_tag),
                ),
            );
        },
    };
    let cell = Cell {
        id: cell_id,
        cell_type,
        source: match get_str_field(&event.payload, "source") {
            Some(src) => String::from_str(src),
            None => String::new(),
        },
        fractional_index: get_opt_string(&event.payload, "fractional_index"),
        execution_count: get_u64_field(&event.payload, "execution_count"),
        execution_state: ExecutionState::Idle,
        assigned_runtime_session: None,
        last_execution_duration_ms: None,
        sql_connection_id: get_opt_string(&event.payload, "sql_connection_id"),
        sql_result_variable: get_opt_string(&event.payload, "sql_result_variable"),
        ai_provider: get_opt_string(&event.payload, "ai_provider"),
        ai_model: get_opt_string(&event.payload, "ai_model"),
        ai_settings: get_opt_value(&event.payload, "ai_settings"),
        source_visible: match get_bool_field(&event.payload, "source_visible") {
            Some(b) => b,
            None => true,
        },
        output_visible: match get_bool_field(&event.payload, "output_visible") {
            Some(b) => b,
            None => true,
        },
        ai_context_visible: match get_bool_field(&event.payload, "ai_context_visible") {
            Some(b) => b,
            None => true,
        },
        created_by: match get_str_field(&event.payload, "created_by") {
            Some(c) => String::from_str(c),
            None => String::from_str("system"),
        },
        document_id: event.aggregate_id.clone(),
        created_at: event.timestamp,
        updated_at: event.timestamp,
    };
    let ghost cv = cell@;
    let i = find_cell(&st.cells, cell.id.as_str());
    let ghost cells0 = st.cells.deep_view();
    if i < st.cells.len() {
        st.cells.set(i, cell);
    } else {
        st.cells.push(cell);
    }
    bump_document(&mut st.documents, event.aggregate_id.as_str(), event.timestamp);
    proof {
        assert(st.cells.deep_view() =~= upsert_cell(cells0, cv));
        assert(st@ =~= step_cell_created(s0, event@)->Ok_0);
    }
    Ok(st)
}

fn handle_cell_source_updated(s: DocumentProjectionState, event: &Event) -> (r: Result<
    DocumentProjectionState,
    EventError,
>)
    ensures
        match step_cell_source_updated(s@, event@) {
            Ok(sv) => r matches Ok(ns) && ns@ == sv,
            Err(ev) => r matches Err(er) && er@ == ev,
        },
{
    let mut st = s;
    let ghost s0 = st@;
    let cell_id = match get_str_field(&event.payload, "cell_id") {
        Some(c) => String::from_str(c),
        None => {
            return Err(EventError::ValidationError(String::from_str("Missing cell_id")));
        },
    };
    let i = find_cell(&st.cells, cell_id.as_str());
    if i < st.cells.len() {
        let ghost cells0 = st.cells.deep_view();
        let mut c = st.cells[i].clone();
        match get_str_field(&event.payload, "source") {
            Some(src) => {
                c.source = String::from_str(src);
            },
            None => {},
        }
        c.updated_at = event.timestamp;
        st.cells.set(i, c);
        bump_document(&mut st.documents, event.aggregate_id.as_str(), event.timestamp);
        proof {
            assert(st.cells.deep_view() =~= cells0.update(
                i as int,
                CellV {
                    source: match get_str(event@.payload, "source"@) {
                        Some(src) => src,
                        None => cells0[i as int].source,
                    },
                    updated_at: event@.timestamp,
                    ..cells0[i as int]
                },
            ));
            assert(st@ =~= step_cell_source_updated(s0, event@)->Ok_0);
        }
    } else {
        proof {
            assert(st@ =~= step_cell_source_updated(s0, event@)->Ok_0);
        }
    }
    Ok(st)
}

fn handle_cell_execution_state_changed(s: DocumentProjectionState, event: &Event) -> (r: Result<
    DocumentProjectionState,
    EventError,
>)
    ensures
        match step_cell_execution_state_changed(s@, event@) {
            Ok(sv) => r matches Ok(ns) && ns@ == sv,
            Err(ev) => r matches Err(er) && er@ == ev,
        },
{
    let mut st = s;
    let ghost s0 = st@;
    let cell_id = match get_str_field(&event.payload, "cell_id") {
        Some(c) => String::from_str(c),
        None => {
            return Err(EventError::ValidationError(String::from_str("Missing cell_id")));
        },
    };
    let i = find_cell(&st.cells, cell_id.as_str());
    if i < st.cells.len() {
        let ghost cells0 = st.cells.deep_view();
        let mut c = st.cells[i].clone();
        match get_str_field(&event.payload, "execution_state") {
            Some(tag) => match parse_exec_state(tag) {
                Some(est) => {
                    c.execution_state = est;
                },
                None => {},
            },
            None => {},
        }
        match get_str_field(&event.payload, "assigned_runtime_session") {
            Some(rs) => {
                c.assigned_runtime_session = Some(String::from_str(rs));
            },
            None => {},
        }
        match get_u64_field(&event.payload, "execution_duration_ms") {
            Some(d) => {
                c.last_execution_duration_ms = Some(d);
            },
            None => {},
        }
        c.updated_at = event.timestamp;
        st.cells.set(i, c);
        proof {
            assert(st.cells.deep_view() =~= cells0.update(
                i as int,
                CellV {
                    execution_state: match get_str(event@.payload, "execution_state"@) {
                        Some(tag) => match spec_parse_exec_state(tag) {
                            Some(est) => est,
                            None => cells0[i as int].execution_state,
                        },
                        None => cells0[i as int].execution_state,
                    },
                    assigned_runtime_session: match get_str(
                        event@.payload,
                        "assigned_runtime_session"@,
                    ) {
                        Some(rs) => Some(rs),
                        None => cells0[i as int].assigned_runtime_session,
                    },
                    last_execution_duration_ms: match get_u64(
                        event@.payload,
                        "execution_duration_ms"@,
                    ) {
                        Some(d) => Some(d),
                        None => cells0[i as int].last_execution_duration_ms,
                    },
                    updated_at: event@.timestamp,
                    ..cells0[i as int]
                },
            ));
            assert(st@ =~= step_cell_execution_state_changed(s0, event@)->Ok_0);
        }
    } else {
        proof {
            assert(st@ =~= step_cell_execution_state_changed(s0, event@)->Ok_0);
        }
    }
    Ok(st)
}

fn handle_cell_output_created(s: DocumentProjectionState, event: &Event) -> (r: Result<
    DocumentProjectionState,
    EventError,
>)
    ensures
        match step_cell_output_created(s@, event@) {
            Ok(sv) => r matches Ok(ns) && ns@ == sv,
            Err(ev) => r matches Err(er) && er@ == ev,
        },
{
    let mut st = s;
    let ghost s0 = st@;
    let output_id = match get_str_field(&event.payload, "output_id") {
        Some(c) => String::from_str(c),
        None => {
            return Err(EventError::ValidationError(String::from_str("Missing output_id")));
        },
    };
    let cell_id = match get_str_field(&event.payload, "cell_id") {
        Some(c) => String::from_str(c),
        None => {
            return Err(EventError::ValidationError(String::from_str("Missing cell_id")));
        },
    };
    let output_type_tag = match get_str_field(&event.payload, "output_type") {
        Some(c) => c,
        None => {
            return Err(EventError::ValidationError(String::from_str("Missing output_type")));
        },
    };
    let output_type = match parse_output_type(output_type_tag) {
        Some(ot) => ot,
        None => {
            return Err(
                EventError::ValidationError(
                    String::from_str("Invalid output_type: ").concat(output_type_tag),
                ),
            );
        },
    };
    let representations = match event.payload.get("representations") {
        Some(v) => parse_reps(v),
        None => None,
    };
    let output = CellOutput {
        id: output_id,
        cell_id,
        output_type,
        position: match get_i64_field(&event.payload, "position") {
            Some(p) => p,
            None => 0,
        },
        stream_name: get_opt_string(&event.payload, "stream_name"),
        execution_count: get_u64_field(&event.payload, "execution_count"),
        display_id: get_opt_string(&event.payload, "display_id"),
        data: get_opt_string(&event.payload, "data"),
        artifact_id: get_opt_string(&event.payload, "artifact_id"),
        mime_type: get_opt_string(&event.payload, "mime_type"),
        metadata: get_opt_value(&event.payload, "metadata"),
        representations,
        created_at: event.timestamp,
    };
    let ghost ov = output@;
    let i = find_output(&st.outputs, output.id.as_str());
    let ghost outputs0 = st.outputs.deep_view();
    if i < st.outputs.len() {
        st.outputs.set(i, output);
    } else {
        st.outputs.push(output);
    }
    proof {
        assert(st.outputs.deep_view() =~= upsert_output(outputs0, ov));
        assert(st@ =~= step_cell_output_created(s0, event@)->Ok_0);
    }
    Ok(st)
}

fn handle_cell_moved(s: DocumentProjectionState, event: &Event) -> (r: Result<
    DocumentProjectionState,
    EventError,
>)
    ensures
        match step_cell_moved(s@, event@) {
            Ok(sv) => r matches Ok(ns) && ns@ == sv,
            Err(ev) => r matches Err(er) && er@ == ev,
        },
{
    let mut st = s;
    let ghost s0 = st@;
    let cell_id = match get_str_field(&event.payload, "cell_id") {
        Some(c) => String::from_str(c),
        None => {
            return Err(EventError::ValidationError(String::from_str("Missing cell_id")));
        },
    };
    let fi = match get_str_field(&event.payload, "fractional_index") {
        Some(f) => f,
        None => {
            return Err(
                EventError::ValidationError(String::from_str("Missing fractional_index")),
            );
        },
    };
    if crate::fractional_index::validate_index(fi).is_err() {
        return Err(
            EventError::ValidationError(
                String::from_str("Invalid fractional_index: ").concat(fi),
            ),
        );
    }
    let i = find_cell(&st.cells, cell_id.as_str());
    if i < st.cells.len() {
        let ghost cells0 = st.cells.deep_view();
        let mut c = st.cells[i].clone();
        c.fractional_index = Some(String::from_str(fi));
        c.updated_at = event.timestamp;
        st.cells.set(i, c);
        bump_document(&mut st.documents, event.aggregate_id.as_str(), event.timestamp);
        proof {
            assert(st.cells.deep_view() =~= cells0.update(
                i as int,
                CellV {
                    fractional_index: Some(fi@),
                    updated_at: event@.timestamp,
                    ..cells0[i as int]
                },
            ));
            assert(st@ =~= step_cell_moved(s0, event@)->Ok_0);
        }
    } else {
        proof {
            assert(st@ =~= step_cell_moved(s0, event@)->Ok_0);
        }
    }
    Ok(st)
}

fn handle_cell_deleted(s: DocumentProjectionState, event: &Event) -> (r: Result<
    DocumentProjectionState,
    EventError,
>)
    ensures
        match step_cell_deleted(s@, event@) {
            Ok(sv) => r matches Ok(ns) && ns@ == sv,
            Err(ev) => r matches Err(er) && er@ == ev,
        },
{
    let mut st = s;
    let ghost s0 = st@;
    let cell_id = match get_str_field(&event.payload, "cell_id") {
        Some(c) => String::from_str(c),
        None => {
            return Err(EventError::ValidationError(String::from_str("Missing cell_id")));
        },
    };
    // remove the cell itself
    let i = find_cell(&st.cells, cell_id.as_str());
    let ghost cells0 = st.cells.deep_view();
    if i < st.cells.len() {
        st.cells.remove(i);
        proof {
            assert(st.cells.deep_view() =~= cells0.remove(i as int));
        }
    }
    // remove every output that referenced it
    let ghost outs0 = st.outputs.deep_view();
    let n = st.outputs.len();
    let mut kept: Vec<CellOutput> = Vec::new();
    let mut j: usize = 0;
    proof {
        reveal(Seq::filter);
        assert(outs0.take(0) =~= Seq::<CellOutputV>::empty());
        assert(kept.deep_view() =~= outputs_without_cell(outs0.take(0), cell_id@));
    }
    while j < n
        invariant
            n == st.outputs@.len(),
            outs0 == st.outputs.deep_view(),
            outs0.len() == n,
            j <= n,
            kept.deep_view() == outputs_without_cell(outs0.take(j as int), cell_id@),
        decreases n - j,
    {
        proof {
            reveal(Seq::filter);
            assert(st.outputs.deep_view()[j as int] == st.outputs@[j as int]@);
            assert(outs0.take(j + 1).drop_last() =~= outs0.take(j as int));
            assert(outs0.take(j + 1).last() == outs0[j as int]);
        }
        let ghost kept0 = kept.deep_view();
        if !string_eq_str(&st.outputs[j].cell_id, cell_id.as_str()) {
            kept.push(st.outputs[j].clone());
            proof {
                assert(kept.deep_view() =~= kept0.push(outs0[j as int]));
            }
        }
        j = j + 1;
    }
    proof {
        assert(outs0.take(n as int) =~= outs0);
    }
    st.outputs = kept;
    bump_document(&mut st.documents, event.aggregate_id.as_str(), event.timestamp);
    proof {
        assert(st@ =~= step_cell_deleted(s0, event@)->Ok_0);
    }
    Ok(st)
}

/// Whether a document's cells include one with the given id.
fn doc_cell_match(cells: &Vec<Cell>, doc_id: &str, cell_id: &String) -> (r: bool)
    ensures
        r == doc_has_cell(cells.deep_view(), doc_id@, cell_id@),
{
    let n = cells.len();
    let mut i: usize = 0;
    while i < n
        invariant
            n == cells@.len(),
            i <= n,
            forall|j: int|
                0 <= j < i ==> !((#[trigger] cells.deep_view()[j]).document_id == doc_id@
                    && cells.deep_view()[j].id == cell_id@),
        decreases n - i,
    {
        proof {
            assert(cells.deep_view()[i as int] == cells@[i as int]@);
        }
        if string_eq_str(&cells[i].document_id, doc_id) && string_eq_str(&cells[i].id,
            cell_id.as_str()) {
            proof {
                assert(doc_has_cell(cells.deep_view(), doc_id@, cell_id@));
            }
            return true;
        }
        i = i + 1;
    }
    false
}

fn handle_document_deleted(s: DocumentProjectionState, event: &Event) -> (r:
    DocumentProjectionState)
    ensures
        r@ == step_document_deleted(s@, event@),
{
    let mut st = s;
    let ghost s0 = st@;
    // the outputs of the document's cells go with it; judge them
    // against the cells as they stand now
    let ghost outs0 = st.outputs.deep_view();
    let n = st.outputs.len();
    let mut kept_outputs: Vec<CellOutput> = Vec::new();
    let mut j: usize = 0;
    proof {
        reveal(Seq::filter);
        assert(outs0.take(0) =~= Seq::<CellOutputV>::empty());
        assert(kept_outputs.deep_view() =~= outputs_without_doc(
            outs0.take(0),
            s0.cells,
            event@.aggregate_id,
        ));
    }
    while j < n
        invariant
            n == st.outputs@.len(),
            outs0 == st.outputs.deep_view(),
            s0.cells == st.cells.deep_view(),
            outs0.len() == n,
            j <= n,
            kept_outputs.deep_view() == outputs_without_doc(
                outs0.take(j as int),
                s0.cells,
                event@.aggregate_id,
            ),
        decreases n - j,
    {
        proof {
            reveal(Seq::filter);
            assert(st.outputs.deep_view()[j as int] == st.outputs@[j as int]@);
            assert(outs0.take(j + 1).drop_last() =~= outs0.take(j as int));
            assert(outs0.take(j + 1).last() == outs0[j as int]);
        }
        let ghost kept0 = kept_outputs.deep_view();
        let cid = st.outputs[j].cell_id.clone();
        if !doc_cell_match(&st.cells, event.aggregate_id.as_str(), &cid) {
            kept_outputs.push(st.outputs[j].clone());
            proof {
                assert(kept_outputs.deep_view() =~= kept0.push(outs0[j as int]));
            }
        }
        j = j + 1;
    }
    proof {
        assert(outs0.take(n as int) =~= outs0);
    }
    st.outputs = kept_outputs;

    // drop the document's cells
    let ghost cells0 = st.cells.deep_view();
    let cn = st.cells.len();
    let mut kept_cells: Vec<Cell> = Vec::new();
    let mut k: usize = 0;
    proof {
        reveal(Seq::filter);
        assert(cells0.take(0) =~= Seq::<CellV>::empty());
        assert(kept_cells.deep_view() =~= cells_without_doc(
            cells0.take(0),
            event@.aggregate_id,
        ));
    }
    while k < cn
        invariant
            cn == st.cells@.len(),
            cells0 == st.cells.deep_view(),
            cells0.len() == cn,
            k <= cn,
            kept_cells.deep_view() == cells_without_doc(
                cells0.take(k as int),
                event@.aggregate_id,
            ),
        decreases cn - k,
    {
        proof {
            reveal(Seq::filter);
            assert(st.cells.deep_view()[k as int] == st.cells@[k as int]@);
            assert(cells0.take(k + 1).drop_last() =~= cells0.take(k as int));
            assert(cells0.take(k + 1).last() == cells0[k as int]);
        }
        let ghost keptc0 = kept_cells.deep_view();
        if !string_eq_str(&st.cells[k].document_id, event.aggregate_id.as_str()) {
            kept_cells.push(st.cells[k].clone());
            proof {
                assert(kept_cells.deep_view() =~= keptc0.push(cells0[k as int]));
            }
        }
        k = k + 1;
    }
    proof {
        assert(cells0.take(cn as int) =~= cells0);
    }
    st.cells = kept_cells;

    // drop the document itself
    let i = find_document(&st.documents, event.aggregate_id.as_str());
    let ghost docs0 = st.documents.deep_view();
    if i < st.documents.len() {
        st.documents.remove(i);
        proof {
            assert(st.documents.deep_view() =~= docs0.remove(i as int));
        }
    }
    proof {
        assert(st@ =~= step_document_deleted(s0, event@));
    }
    st
}

/// Materializer for notebook document events.
pub struct DocumentMaterializer;

impl DocumentMaterializer {
    /// The state before any event.
    pub fn initial_state() -> (r: DocumentProjectionState)
        ensures
            r@ == StateV::initial(),
    {
        DocumentProjectionState::default()
    }

    /// Whether the materializer folds events of a kind.
    pub fn handles_event_type(event_type: &str) -> (r: bool)
        ensures
            r == spec_handles(event_type@),
    {
        str_eq(event_type, "DocumentCreated") || str_eq(event_type, "DocumentTitleUpdated")
            || str_eq(event_type, "DocumentMetadataUpdated") || str_eq(event_type, "CellCreated")
            || str_eq(event_type, "CellSourceUpdated") || str_eq(
            event_type,
            "CellExecutionStateChanged",
        ) || str_eq(event_type, "CellOutputCreated") || str_eq(event_type, "CellMoved") || str_eq(
            event_type,
            "CellDeleted",
        ) || str_eq(event_type, "DocumentDeleted")
    }

    /// Apply one event to a state, yielding the next state; pure and
    /// deterministic, exactly the fold step `spec_apply_event`.
    pub fn apply_event(state: &DocumentProjectionState, event: &Event) -> (r: Result<
        DocumentProjectionState,
        EventError,
    >)
        ensures
            match spec_apply_event(state@, event@) {
                Ok(sv) => r matches Ok(ns) && ns@ == sv,
                Err(ev) => r matches Err(er) && er@ == ev,
            },
    {
        let mut st = state.clone();
        st.last_processed_timestamp = event.timestamp;
        st.last_processed_version = event.version;
        proof {
            assert(st@ =~= (StateV {
                last_processed_timestamp: event@.timestamp,
                last_processed_version: event@.version,
                ..state@
            }));
        }
        let kind = event.event_type.as_str();
        if str_eq(kind, "DocumentCreated") {
            Ok(handle_document_created(st, event))
        } else if str_eq(kind, "DocumentTitleUpdated") {
            Ok(handle_document_title_updated(st, event))
        } else if str_eq(kind, "DocumentMetadataUpdated") {
            Ok(handle_document_metadata_updated(st, event))
        } else if str_eq(kind, "CellCreated") {
            handle_cell_created(st, event)
        } else if str_eq(kind, "CellSourceUpdated") {
            handle_cell_source_updated(st, event)
        } else if str_eq(kind, "CellExecutionStateChanged") {
            handle_cell_execution_state_changed(st, event)
        } else if str_eq(kind, "CellOutputCreated") {
            handle_cell_output_created(st, event)
        } else if str_eq(kind, "CellMoved") {
            handle_cell_moved(st, event)
        } else if str_eq(kind, "CellDeleted") {
            handle_cell_deleted(st, event)
        } else if str_eq(kind, "DocumentDeleted") {
            Ok(handle_document_deleted(st, event))
        } else {
            Ok(st)
        }
    }
}

} // verus!
