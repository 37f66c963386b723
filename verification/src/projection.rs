//! The projection: materialized state maintained over the event log,
//! with full rebuild and incremental apply.

use vstd::prelude::*;
use vstd::pervasive::VecAdditionalExecFns;

use crate::document::{Cell, CellOutput, CellOutputV, CellV, Document, DocumentProjectionState, StateV};
use crate::event::{Event, EventError, EventErrorV, EventResult, EventV};
use crate::fractional_index::str_lt;
use crate::materializer::{
    cell_idx, doc_idx, spec_apply_event, spec_handles, DocumentMaterializer,
};
use crate::strutil::string_eq_str;

verus! {

/// Rebuild fold: apply every handled event in order; an error aborts
/// the whole fold.
pub open spec fn fold_rebuild(s: StateV, events: Seq<EventV>) -> Result<StateV, EventErrorV>
    decreases events.len(),
{
    if events.len() == 0 {
        Ok(s)
    } else {
        let e = events[0];
        if spec_handles(e.event_type) {
            match spec_apply_event(s, e) {
                Ok(s2) => fold_rebuild(s2, events.skip(1)),
                Err(er) => Err(er),
            }
        } else {
            fold_rebuild(s, events.skip(1))
        }
    }
}

/// Whether an event lies past a `(timestamp, version)` position.
pub open spec fn past_position(e: EventV, ts: i64, ver: i64) -> bool {
    e.timestamp > ts || (e.timestamp == ts && e.version > ver)
}

/// Incremental fold: apply each handled event that lies past the
/// state's high-water mark; an error stops the fold and keeps the
/// prefix applied so far.
pub open spec fn fold_incremental(s: StateV, events: Seq<EventV>) -> (StateV, Option<EventErrorV>)
    decreases events.len(),
{
    if events.len() == 0 {
        (s, None)
    } else {
        let e = events[0];
        if past_position(e, s.last_processed_timestamp, s.last_processed_version)
            && spec_handles(e.event_type) {
            match spec_apply_event(s, e) {
                Ok(s2) => fold_incremental(s2, events.skip(1)),
                Err(er) => (s, Some(er)),
            }
        } else {
            fold_incremental(s, events.skip(1))
        }
    }
}

/// A successful fold step leaves the state at the event's position.
proof fn lemma_apply_sets_position(s: StateV, e: EventV)
    requires
        spec_apply_event(s, e) is Ok,
    ensures
        spec_apply_event(s, e)->Ok_0.last_processed_timestamp == e.timestamp,
        spec_apply_event(s, e)->Ok_0.last_processed_version == e.version,
{
}

/// Events strictly ordered by `(timestamp, version)`.
pub open spec fn strictly_ordered(events: Seq<EventV>) -> bool {
    forall|i: int|
        0 <= i && i + 1 < events.len() ==> past_position(
            #[trigger] events[i + 1],
            events[i].timestamp,
            events[i].version,
        )
}

/// Rebuilding and incremental application agree: starting behind the
/// first event and folding a strictly ordered run, the incremental
/// fold applies exactly the events the rebuild fold applies.
pub proof fn lemma_folds_agree(s: StateV, events: Seq<EventV>)
    requires
        strictly_ordered(events),
        events.len() > 0 ==> past_position(
            events[0],
            s.last_processed_timestamp,
            s.last_processed_version,
        ),
    ensures
        match fold_rebuild(s, events) {
            Ok(sv) => fold_incremental(s, events) == (sv, None::<EventErrorV>),
            Err(ev) => fold_incremental(s, events).1 == Some(ev),
        },
    decreases events.len(),
{
    if events.len() == 0 {
    } else {
        let e = events[0];
        let rest = events.skip(1);
        assert(strictly_ordered(rest)) by {
            assert forall|i: int|
                0 <= i && i + 1 < rest.len() implies past_position(
                #[trigger] rest[i + 1],
                rest[i].timestamp,
                rest[i].version,
            ) by {
                assert(rest[i] == events[i + 1]);
                assert(rest[i + 1] == events[i + 2]);
            }
        }
        if spec_handles(e.event_type) {
            match spec_apply_event(s, e) {
                Ok(s2) => {
                    lemma_apply_sets_position(s, e);
                    if rest.len() > 0 {
                        assert(rest[0] == events[1]);
                    }
                    lemma_folds_agree(s2, rest);
                },
                Err(er) => {},
            }
        } else {
            if rest.len() > 0 {
                assert(rest[0] == events[1]);
                // the skipped event's position lies between, so the
                // next event still lies past the untouched mark
                assert(past_position(
                    rest[0],
                    s.last_processed_timestamp,
                    s.last_processed_version,
                ));
            }
            lemma_folds_agree(s, rest);
        }
    }
}

/// Rebuilding is deterministic: equal logs fold to equal states.
pub proof fn lemma_rebuild_deterministic(e1: Seq<EventV>, e2: Seq<EventV>)
    requires
        e1 == e2,
    ensures
        fold_rebuild(StateV::initial(), e1) == fold_rebuild(StateV::initial(), e2),
{
}

/// Ordering of cells in a document: by fractional index, keys before
/// the unkeyed, ties broken by creation time.
pub open spec fn cell_le(a: CellV, b: CellV) -> bool {
    match (a.fractional_index, b.fractional_index) {
        (Some(x), Some(y)) => if x == y {
            a.created_at <= b.created_at
        } else {
            str_lt(x, y)
        },
        (Some(x), None) => true,
        (None, Some(y)) => false,
        (None, None) => a.created_at <= b.created_at,
    }
}

/// The cells of one document, in state order.
pub open spec fn cells_of_doc(cells: Seq<CellV>, doc_id: Seq<char>) -> Seq<CellV> {
    cells.filter(|c: CellV| c.document_id == doc_id)
}

/// Insert a cell behind every cell that does not order after it.
pub open spec fn insert_cell_sorted(s: Seq<CellV>, c: CellV) -> Seq<CellV>
    decreases s.len(),
{
    if s.len() == 0 {
        seq![c]
    } else if cell_le(s[0], c) {
        seq![s[0]] + insert_cell_sorted(s.skip(1), c)
    } else {
        seq![c] + s
    }
}

/// Stable insertion sort of cells by their display order.
pub open spec fn sort_cells(s: Seq<CellV>) -> Seq<CellV>
    decreases s.len(),
{
    if s.len() == 0 {
        s
    } else {
        insert_cell_sorted(sort_cells(s.drop_last()), s.last())
    }
}

/// Where the first cell ordering after the new one stands, the
/// insertion splits the sequence.
proof fn lemma_insert_cell_at(s: Seq<CellV>, c: CellV, pos: int)
    requires
        0 <= pos <= s.len(),
        forall|j: int| 0 <= j < pos ==> cell_le(#[trigger] s[j], c),
        pos < s.len() ==> !cell_le(s[pos], c),
    ensures
        insert_cell_sorted(s, c) == s.take(pos) + seq![c] + s.skip(pos),
    decreases pos,
{
    if pos == 0 {
        assert(insert_cell_sorted(s, c) =~= s.take(0) + seq![c] + s.skip(0));
    } else {
        lemma_insert_cell_at(s.skip(1), c, pos - 1);
        assert(s.skip(1).take(pos - 1) =~= s.take(pos).skip(1));
        assert(s.skip(1).skip(pos - 1) =~= s.skip(pos));
        assert(seq![s[0]] + (s.skip(1).take(pos - 1) + seq![c] + s.skip(pos)) =~= s.take(pos)
            + seq![c] + s.skip(pos));
    }
}

/// Exec comparison of two cells by display order.
fn cell_le_exec(a: &Cell, b: &Cell) -> (r: bool)
    ensures
        r == cell_le(a@, b@),
{
    match (&a.fractional_index, &b.fractional_index) {
        (Some(x), Some(y)) => {
            if crate::strutil::str_eq(x.as_str(), y.as_str()) {
                a.created_at <= b.created_at
            } else {
                crate::fractional_index::index_lt(x.as_str(), y.as_str())
            }
        },
        (Some(_), None) => true,
        (None, Some(_)) => false,
        (None, None) => a.created_at <= b.created_at,
    }
}

/// Ordering of outputs of a cell: by position ascending.
pub open spec fn output_le(a: CellOutputV, b: CellOutputV) -> bool {
    a.position <= b.position
}

/// The outputs of one cell, in state order.
pub open spec fn outputs_of_cell(outputs: Seq<CellOutputV>, cell_id: Seq<char>) -> Seq<
    CellOutputV,
> {
    outputs.filter(|o: CellOutputV| o.cell_id == cell_id)
}

/// Insert an output behind every output that does not order after it.
pub open spec fn insert_output_sorted(s: Seq<CellOutputV>, o: CellOutputV) -> Seq<CellOutputV>
    decreases s.len(),
{
    if s.len() == 0 {
        seq![o]
    } else if output_le(s[0], o) {
        seq![s[0]] + insert_output_sorted(s.skip(1), o)
    } else {
        seq![o] + s
    }
}

/// Stable insertion sort of outputs by position.
pub open spec fn sort_outputs(s: Seq<CellOutputV>) -> Seq<CellOutputV>
    decreases s.len(),
{
    if s.len() == 0 {
        s
    } else {
        insert_output_sorted(sort_outputs(s.drop_last()), s.last())
    }
}

/// Where the first output ordering after the new one stands, the
/// insertion splits the sequence.
proof fn lemma_insert_output_at(s: Seq<CellOutputV>, o: CellOutputV, pos: int)
    requires
        0 <= pos <= s.len(),
        forall|j: int| 0 <= j < pos ==> output_le(#[trigger] s[j], o),
        pos < s.len() ==> !output_le(s[pos], o),
    ensures
        insert_output_sorted(s, o) == s.take(pos) + seq![o] + s.skip(pos),
    decreases pos,
{
    if pos == 0 {
        assert(insert_output_sorted(s, o) =~= s.take(0) + seq![o] + s.skip(0));
    } else {
        lemma_insert_output_at(s.skip(1), o, pos - 1);
        assert(s.skip(1).take(pos - 1) =~= s.take(pos).skip(1));
        assert(s.skip(1).skip(pos - 1) =~= s.skip(pos));
        assert(seq![s[0]] + (s.skip(1).take(pos - 1) + seq![o] + s.skip(pos)) =~= s.take(pos)
            + seq![o] + s.skip(pos));
    }
}

impl DocumentProjectionState {
    /// The cells of a document, sorted by fractional index (unkeyed
    /// cells last, ordered by creation time).
    pub fn get_document_cells(&self, document_id: &str) -> (r: Vec<Cell>)
        ensures
            r.deep_view() == sort_cells(cells_of_doc(self@.cells, document_id@)),
    {
        let ghost cv = self.cells.deep_view();
        let n = self.cells.len();
        // collect the document's cells in state order
        let mut mine: Vec<Cell> = Vec::new();
        let mut i: usize = 0;
        proof {
            reveal(Seq::filter);
            assert(cv.take(0) =~= Seq::<CellV>::empty());
            assert(mine.deep_view() =~= cells_of_doc(cv.take(0), document_id@));
        }
        while i < n
            invariant
                n == self.cells@.len(),
                cv == self.cells.deep_view(),
                cv.len() == n,
                i <= n,
                mine.deep_view() == cells_of_doc(cv.take(i as int), document_id@),
            decreases n - i,
        {
            proof {
                reveal(Seq::filter);
                assert(self.cells.deep_view()[i as int] == self.cells@[i as int]@);
                assert(cv.take(i + 1).drop_last() =~= cv.take(i as int));
                assert(cv.take(i + 1).last() == cv[i as int]);
            }
            let ghost mine0 = mine.deep_view();
            if string_eq_str(&self.cells[i].document_id, document_id) {
                mine.push(self.cells[i].clone());
                proof {
                    assert(mine.deep_view() =~= mine0.push(cv[i as int]));
                }
            }
            i = i + 1;
        }
        proof {
            assert(cv.take(n as int) =~= cv);
        }
        // sort stably by display order
        let ghost fv = mine.deep_view();
        let m = mine.len();
        let mut out: Vec<Cell> = Vec::new();
        let mut k: usize = 0;
        proof {
            assert(fv.take(0) =~= Seq::<CellV>::empty());
            assert(out.deep_view() =~= sort_cells(fv.take(0)));
        }
        while k < m
            invariant
                m == mine@.len(),
                fv == mine.deep_view(),
                fv.len() == m,
                k <= m,
                out.deep_view() == sort_cells(fv.take(k as int)),
            decreases m - k,
        {
            let c = mine[k].clone();
            let ghost cvk = fv[k as int];
            let ghost out0 = out.deep_view();
            proof {
                assert(mine@[k as int]@ == fv[k as int]);
            }
            let olen = out.len();
            let mut pos: usize = 0;
            let mut stop = false;
            while pos < olen && !stop
                invariant
                    olen == out.deep_view().len(),
                    olen == out@.len(),
                    out.deep_view() == out0,
                    pos <= olen,
                    c@ == cvk,
                    forall|j: int| 0 <= j < pos ==> cell_le(#[trigger] out0[j], cvk),
                    stop ==> pos < olen && !cell_le(out0[pos as int], cvk),
                decreases olen - pos + (if stop {
                    0int
                } else {
                    1int
                }),
            {
                proof {
                    assert(out.deep_view()[pos as int] == out@[pos as int]@);
                }
                if !cell_le_exec(&out[pos], &c) {
                    stop = true;
                } else {
                    pos = pos + 1;
                }
            }
            proof {
                lemma_insert_cell_at(out0, cvk, pos as int);
            }
            out.insert(pos, c);
            proof {
                assert(out.deep_view() =~= out0.take(pos as int) + seq![cvk] + out0.skip(
                    pos as int,
                ));
                assert(out.deep_view() =~= insert_cell_sorted(out0, cvk));
                assert(fv.take(k + 1).drop_last() =~= fv.take(k as int));
                assert(fv.take(k + 1).last() == cvk);
            }
            k = k + 1;
        }
        proof {
            assert(fv.take(m as int) =~= fv);
        }
        out
    }

    /// The outputs of a cell, sorted by position ascending.
    pub fn get_cell_outputs(&self, cell_id: &str) -> (r: Vec<CellOutput>)
        ensures
            r.deep_view() == sort_outputs(outputs_of_cell(self@.outputs, cell_id@)),
    {
        let ghost ov = self.outputs.deep_view();
        let n = self.outputs.len();
        let mut mine: Vec<CellOutput> = Vec::new();
        let mut i: usize = 0;
        proof {
            reveal(Seq::filter);
            assert(ov.take(0) =~= Seq::<CellOutputV>::empty());
            assert(mine.deep_view() =~= outputs_of_cell(ov.take(0), cell_id@));
        }
        while i < n
            invariant
                n == self.outputs@.len(),
                ov == self.outputs.deep_view(),
                ov.len() == n,
                i <= n,
                mine.deep_view() == outputs_of_cell(ov.take(i as int), cell_id@),
            decreases n - i,
        {
            proof {
                reveal(Seq::filter);
                assert(self.outputs.deep_view()[i as int] == self.outputs@[i as int]@);
                assert(ov.take(i + 1).drop_last() =~= ov.take(i as int));
                assert(ov.take(i + 1).last() == ov[i as int]);
            }
            let ghost mine0 = mine.deep_view();
            if string_eq_str(&self.outputs[i].cell_id, cell_id) {
                mine.push(self.outputs[i].clone());
                proof {
                    assert(mine.deep_view() =~= mine0.push(ov[i as int]));
                }
            }
            i = i + 1;
        }
        proof {
            assert(ov.take(n as int) =~= ov);
        }
        let ghost fv = mine.deep_view();
        let m = mine.len();
        let mut out: Vec<CellOutput> = Vec::new();
        let mut k: usize = 0;
        proof {
            assert(fv.take(0) =~= Seq::<CellOutputV>::empty());
            assert(out.deep_view() =~= sort_outputs(fv.take(0)));
        }
        while k < m
            invariant
                m == mine@.len(),
                fv == mine.deep_view(),
                fv.len() == m,
                k <= m,
                out.deep_view() == sort_outputs(fv.take(k as int)),
            decreases m - k,
        {
            let o = mine[k].clone();
            let ghost ovk = fv[k as int];
            let ghost out0 = out.deep_view();
            proof {
                assert(mine@[k as int]@ == fv[k as int]);
            }
            let olen = out.len();
            let mut pos: usize = 0;
            let mut stop = false;
            while pos < olen && !stop
                invariant
                    olen == out.deep_view().len(),
                    olen == out@.len(),
                    out.deep_view() == out0,
                    pos <= olen,
                    o@ == ovk,
                    forall|j: int| 0 <= j < pos ==> output_le(#[trigger] out0[j], ovk),
                    stop ==> pos < olen && !output_le(out0[pos as int], ovk),
                decreases olen - pos + (if stop {
                    0int
                } else {
                    1int
                }),
            {
                proof {
                    assert(out.deep_view()[pos as int] == out@[pos as int]@);
                }
                if !(out[pos].position <= o.position) {
                    stop = true;
                } else {
                    pos = pos + 1;
                }
            }
            proof {
                lemma_insert_output_at(out0, ovk, pos as int);
            }
            out.insert(pos, o);
            proof {
                assert(out.deep_view() =~= out0.take(pos as int) + seq![ovk] + out0.skip(
                    pos as int,
                ));
                assert(out.deep_view() =~= insert_output_sorted(out0, ovk));
                assert(fv.take(k + 1).drop_last() =~= fv.take(k as int));
                assert(fv.take(k + 1).last() == ovk);
            }
            k = k + 1;
        }
        proof {
            assert(fv.take(m as int) =~= fv);
        }
        out
    }
}

/// The notebook projection: current state plus progress bookkeeping.
pub struct DocumentProjection {
    state: DocumentProjectionState,
}

impl View for DocumentProjection {
    type V = StateV;

    closed spec fn view(&self) -> StateV {
        self.state@
    }
}

impl DocumentProjection {
    /// A projection at the initial state.
    pub fn new() -> (r: Self)
        ensures
            r@ == StateV::initial(),
    {
        DocumentProjection { state: DocumentMaterializer::initial_state() }
    }

    /// Rebuild the projection from a sequence of events: start at the
    /// initial state and fold every handled event in order. An error
    /// discards the partial state and leaves the projection unchanged.
    pub fn rebuild_from_events(&mut self, events: &Vec<Event>) -> (r: EventResult<()>)
        ensures
            match fold_rebuild(StateV::initial(), events.deep_view()) {
                Ok(sv) => r is Ok && final(self)@ == sv,
                Err(ev) => (r matches Err(er) && er@ == ev) && final(self)@ == old(self)@,
            },
    {
        let ghost evs = events.deep_view();
        let mut state = DocumentMaterializer::initial_state();
        let n = events.len();
        let mut i: usize = 0;
        proof {
            assert(evs.skip(0) =~= evs);
        }
        while i < n
            invariant
                n == events@.len(),
                evs == events.deep_view(),
                evs.len() == n,
                i <= n,
                self == old(self),
                fold_rebuild(StateV::initial(), evs) == fold_rebuild(state@, evs.skip(i as int)),
            decreases n - i,
        {
            proof {
                assert(evs.skip(i as int)[0] == evs[i as int]);
                assert(evs.skip(i as int).skip(1) =~= evs.skip(i + 1));
                assert(events@[i as int]@ == evs[i as int]);
            }
            if DocumentMaterializer::handles_event_type(events[i].event_type.as_str()) {
                match DocumentMaterializer::apply_event(&state, &events[i]) {
                    Ok(s2) => {
                        state = s2;
                    },
                    Err(er) => {
                        return Err(er);
                    },
                }
            }
            i = i + 1;
        }
        proof {
            assert(evs.skip(n as int).len() == 0);
        }
        self.state = state;
        Ok(())
    }

    /// A read-only view of the materialized state.
    pub fn get_state(&self) -> (r: &DocumentProjectionState)
        ensures
            r@ == self@,
    {
        &self.state
    }

    /// The `(timestamp)` high-water mark of the projection.
    pub fn last_processed_timestamp(&self) -> (r: i64)
        ensures
            r == self@.last_processed_timestamp,
    {
        self.state.last_processed_timestamp
    }

    /// Apply the events lying past the high-water mark, in order. An
    /// error keeps the successfully applied prefix.
    pub fn apply_new_events(&mut self, events: &Vec<Event>) -> (r: EventResult<()>)
        ensures
            final(self)@ == fold_incremental(old(self)@, events.deep_view()).0,
            match fold_incremental(old(self)@, events.deep_view()).1 {
                None => r is Ok,
                Some(ev) => r matches Err(er) && er@ == ev,
            },
    {
        let ghost evs = events.deep_view();
        let n = events.len();
        let mut i: usize = 0;
        proof {
            assert(evs.skip(0) =~= evs);
        }
        while i < n
            invariant
                n == events@.len(),
                evs == events.deep_view(),
                evs.len() == n,
                i <= n,
                fold_incremental(old(self)@, evs) == fold_incremental(self@, evs.skip(i as int)),
            decreases n - i,
        {
            proof {
                assert(evs.skip(i as int)[0] == evs[i as int]);
                assert(evs.skip(i as int).skip(1) =~= evs.skip(i + 1));
                assert(events@[i as int]@ == evs[i as int]);
            }
            let e = &events[i];
            let past = e.timestamp > self.state.last_processed_timestamp || (e.timestamp
                == self.state.last_processed_timestamp && e.version
                > self.state.last_processed_version);
            if past && DocumentMaterializer::handles_event_type(e.event_type.as_str()) {
                match DocumentMaterializer::apply_event(&self.state, e) {
                    Ok(s2) => {
                        self.state = s2;
                    },
                    Err(er) => {
                        return Err(er);
                    },
                }
            }
            i = i + 1;
        }
        proof {
            assert(evs.skip(n as int).len() == 0);
        }
        Ok(())
    }
}

impl DocumentProjection {
    /// Every document of the projection, in state order.
    pub fn get_documents(&self) -> (r: Vec<Document>)
        ensures
            r.deep_view() == self@.documents,
    {
        let n = self.state.documents.len();
        let mut out: Vec<Document> = Vec::new();
        let mut i: usize = 0;
        proof {
            assert(out.deep_view() =~= self@.documents.take(0));
        }
        while i < n
            invariant
                n == self.state.documents@.len(),
                self@.documents == self.state.documents.deep_view(),
                i <= n,
                out.deep_view() == self@.documents.take(i as int),
            decreases n - i,
        {
            proof {
                assert(self.state.documents.deep_view()[i as int]
                    == self.state.documents@[i as int]@);
            }
            let ghost out0 = out.deep_view();
            out.push(self.state.documents[i].clone());
            proof {
                assert(out.deep_view() =~= out0.push(self@.documents[i as int]));
                assert(out.deep_view() =~= self@.documents.take(i + 1));
            }
            i = i + 1;
        }
        proof {
            assert(self@.documents.take(n as int) =~= self@.documents);
        }
        out
    }

    /// A document by id.
    pub fn get_document(&self, document_id: &str) -> (r: Option<&Document>)
        ensures
            doc_idx(self@.documents, document_id@) < self@.documents.len() ==> (r matches Some(d)
                && d@ == self@.documents[doc_idx(self@.documents, document_id@)]),
            doc_idx(self@.documents, document_id@) >= self@.documents.len() ==> r is None,
    {
        let i = crate::materializer::find_document(&self.state.documents, document_id);
        if i < self.state.documents.len() {
            Some(&self.state.documents[i])
        } else {
            None
        }
    }

    /// A cell by id.
    pub fn get_cell(&self, cell_id: &str) -> (r: Option<&Cell>)
        ensures
            cell_idx(self@.cells, cell_id@) < self@.cells.len() ==> (r matches Some(c) && c@
                == self@.cells[cell_idx(self@.cells, cell_id@)]),
            cell_idx(self@.cells, cell_id@) >= self@.cells.len() ==> r is None,
    {
        let i = crate::materializer::find_cell(&self.state.cells, cell_id);
        if i < self.state.cells.len() {
            Some(&self.state.cells[i])
        } else {
            None
        }
    }

    /// The cells of a document, in display order.
    pub fn get_document_cells(&self, document_id: &str) -> (r: Vec<Cell>)
        ensures
            r.deep_view() == sort_cells(cells_of_doc(self@.cells, document_id@)),
    {
        self.state.get_document_cells(document_id)
    }

    /// The outputs of a cell, in position order.
    pub fn get_cell_outputs(&self, cell_id: &str) -> (r: Vec<CellOutput>)
        ensures
            r.deep_view() == sort_outputs(outputs_of_cell(self@.outputs, cell_id@)),
    {
        self.state.get_cell_outputs(cell_id)
    }

    /// The number of documents.
    pub fn document_count(&self) -> (r: usize)
        ensures
            r == self@.documents.len(),
    {
        self.state.documents.len()
    }

    /// The number of cells over all documents.
    pub fn total_cell_count(&self) -> (r: usize)
        ensures
            r == self@.cells.len(),
    {
        self.state.cells.len()
    }
}

impl Default for DocumentProjection {
    fn default() -> (r: Self)
        ensures
            r@ == StateV::initial(),
    {
        DocumentProjection::new()
    }
}

} // verus!
