//! The client facade: a local mirror of a store and its projection.
//! Fetching from a server is the transport's concern; everything the
//! mirror decides happens here, exactly as the server would.

use vstd::prelude::*;

use crate::document::{Cell, CellOutput, Document, StateV};
use crate::event::{Event, EventBuilder, EventError, EventErrorV, EventResult, EventV};
use crate::materializer::{cell_idx, doc_idx};
use crate::projection::{
    cells_of_doc, fold_incremental, fold_rebuild, outputs_of_cell, sort_cells, sort_outputs,
    DocumentProjection,
};
use crate::store::{
    events_for_agg, lemma_events_for_len, lemma_filtered_versions, sort_by_ts_ver,
    spec_latest_version, versions_sequential, wf_log, InMemoryEventStore,
};
use crate::strutil::is_blank;
use crate::value::Value;

verus! {

/// The mathematical shape of the client: its log, its state, and the
/// server it mirrors.
#[verifier::ext_equal]
pub struct ClientV {
    pub log: Seq<EventV>,
    pub state: StateV,
    pub server_url: Seq<char>,
}

/// A local event-book mirror.
pub struct EventBookClient {
    local_store: InMemoryEventStore,
    document_projection: DocumentProjection,
    server_url: String,
}

impl View for EventBookClient {
    type V = ClientV;

    closed spec fn view(&self) -> ClientV {
        ClientV {
            log: self.local_store@,
            state: self.document_projection@,
            server_url: self.server_url@,
        }
    }
}

impl EventBookClient {
    /// A fresh mirror of a server.
    pub fn new(server_url: &str) -> (r: Self)
        ensures
            r@.log == Seq::<EventV>::empty(),
            r@.state == StateV::initial(),
            r@.server_url == server_url@,
    {
        EventBookClient {
            local_store: InMemoryEventStore::new(),
            document_projection: DocumentProjection::new(),
            server_url: String::from_str(server_url),
        }
    }

    /// The server this mirror pulls from.
    pub fn server_url(&self) -> (r: &str)
        ensures
            r@ == self@.server_url,
    {
        self.server_url.as_str()
    }

    /// Submit an event locally: bind it to the aggregate's next local
    /// version, append it, and fold it into the local projection.
    ///
    /// On well-formed inputs below the version cap the submit
    /// succeeds, unless the freshly generated id collides (a
    /// duplicate, nothing recorded) or the fold rejects the payload,
    /// which reports the fold's error after the append stands: the
    /// log is authoritative.
    pub fn submit_event(&mut self, event_type: &str, aggregate_id: &str, payload: Value) -> (r:
        EventResult<Event>)
        ensures
            is_blank(event_type@) ==> (r matches Err(e) && e@ == EventErrorV::InvalidEventType(
                event_type@,
            )),
            !is_blank(event_type@) && is_blank(aggregate_id@) ==> (r matches Err(e) && e@
                == EventErrorV::InvalidAggregateId(aggregate_id@)),
            r matches Ok(ev) ==> {
                &&& ev@.event_type == event_type@
                &&& ev@.aggregate_id == aggregate_id@
                &&& ev@.payload == payload@
                &&& ev@.version == spec_latest_version(old(self)@.log, aggregate_id@) + 1
                &&& final(self)@.log == old(self)@.log.push(ev@)
                &&& final(self)@.state == fold_incremental(old(self)@.state, seq![ev@]).0
                &&& fold_incremental(old(self)@.state, seq![ev@]).1 is None
            },
            r is Err ==> final(self)@.log == old(self)@.log || (exists|ev: EventV|
                final(self)@.log == old(self)@.log.push(ev)),
            !is_blank(event_type@) && !is_blank(aggregate_id@) && spec_latest_version(
                old(self)@.log,
                aggregate_id@,
            ) < i64::MAX ==> ((r is Ok) || (r matches Err(e) && e@ matches
                EventErrorV::DuplicateEventId(_) && final(self)@.log == old(self)@.log
                && final(self)@.state == old(self)@.state) || (r matches Err(e) && exists|ev: EventV|
                final(self)@.log == #[trigger] old(self)@.log.push(ev) && fold_incremental(
                    old(self)@.state,
                    seq![ev],
                ).1 == Some(e@) && final(self)@.state == fold_incremental(
                    old(self)@.state,
                    seq![ev],
                ).0)),
            final(self)@.server_url == old(self)@.server_url,
    {
        let current_version = self.local_store.get_latest_version(aggregate_id);
        let next_version = if current_version == i64::MAX {
            current_version
        } else {
            current_version + 1
        };

        let built = match EventBuilder::new().event_type(event_type).aggregate_id(
            aggregate_id,
        ).payload(payload) {
            Ok(b) => b.build(next_version),
            Err(e) => Err(e),
        };
        let event = match built {
            Ok(ev) => ev,
            Err(e) => {
                return Err(e);
            },
        };

        match self.local_store.append_event(event.clone()) {
            Ok(()) => {},
            Err(e) => {
                return Err(e);
            },
        }

        let batch = vec![event.clone()];
        proof {
            assert(batch.deep_view() =~= seq![event@]);
        }
        match self.document_projection.apply_new_events(&batch) {
            Ok(()) => Ok(event),
            Err(e) => Err(e),
        }
    }

    /// Every local event, ordered by `(timestamp, version)`.
    pub fn get_events(&self) -> (r: EventResult<Vec<Event>>)
        ensures
            r matches Ok(v) && v.deep_view() == sort_by_ts_ver(self@.log),
    {
        self.local_store.get_all_events()
    }

    /// The local events of one aggregate, in version order.
    pub fn get_events_for_aggregate(&self, aggregate_id: &str) -> (r: EventResult<Vec<Event>>)
        ensures
            r matches Ok(v) && v.deep_view() == events_for_agg(self@.log, aggregate_id@),
    {
        self.local_store.get_events(aggregate_id)
    }

    /// The cells of a document, in display order.
    pub fn get_document_cells(&self, document_id: &str) -> (r: Vec<Cell>)
        ensures
            r.deep_view() == sort_cells(cells_of_doc(self@.state.cells, document_id@)),
    {
        self.document_projection.get_document_cells(document_id)
    }

    /// The cells of a document, in display order.
    pub fn get_ordered_cells(&self, document_id: &str) -> (r: Vec<Cell>)
        ensures
            r.deep_view() == sort_cells(cells_of_doc(self@.state.cells, document_id@)),
    {
        self.document_projection.get_document_cells(document_id)
    }

    /// A cell by id.
    pub fn get_cell(&self, cell_id: &str) -> (r: Option<&Cell>)
        ensures
            cell_idx(self@.state.cells, cell_id@) < self@.state.cells.len() ==> (r matches Some(c)
                && c@ == self@.state.cells[cell_idx(self@.state.cells, cell_id@)]),
            cell_idx(self@.state.cells, cell_id@) >= self@.state.cells.len() ==> r is None,
    {
        self.document_projection.get_cell(cell_id)
    }

    /// A document by id.
    pub fn get_document(&self, document_id: &str) -> (r: Option<&Document>)
        ensures
            doc_idx(self@.state.documents, document_id@) < self@.state.documents.len() ==> (
            r matches Some(d) && d@ == self@.state.documents[doc_idx(
                self@.state.documents,
                document_id@,
            )]),
            doc_idx(self@.state.documents, document_id@) >= self@.state.documents.len()
                ==> r is None,
    {
        self.document_projection.get_document(document_id)
    }

    /// How many cells a document holds.
    pub fn get_cell_count(&self, document_id: &str) -> (r: usize)
        ensures
            r == sort_cells(cells_of_doc(self@.state.cells, document_id@)).len(),
    {
        self.document_projection.get_document_cells(document_id).len()
    }

    /// The total number of local events.
    pub fn get_event_count(&self) -> (r: usize)
        ensures
            r == self@.log.len(),
    {
        self.local_store.get_event_count()
    }

    /// Drop the local log and projection.
    pub fn clear_local_store(&mut self)
        ensures
            final(self)@.log == Seq::<EventV>::empty(),
            final(self)@.state == StateV::initial(),
            final(self)@.server_url == old(self)@.server_url,
    {
        self.local_store = InMemoryEventStore::new();
        self.document_projection = DocumentProjection::new();
    }

    /// Replace the mirror with the authoritative event sequence
    /// fetched from the server: the log becomes exactly that sequence
    /// and the projection is rebuilt from it, in its order. A sequence
    /// that is no well-formed log, or that the materializer rejects,
    /// is refused and leaves the mirror unchanged.
    pub fn sync_event_log(&mut self, events: &Vec<Event>) -> (r: EventResult<usize>)
        ensures
            r matches Ok(n) ==> {
                &&& n == events.deep_view().len()
                &&& wf_log(events.deep_view())
                &&& final(self)@.log == events.deep_view()
                &&& fold_rebuild(StateV::initial(), events.deep_view()) matches Ok(sv)
                    && final(self)@.state == sv
            },
            r is Err ==> final(self)@ == old(self)@,
            wf_log(events.deep_view()) && events.deep_view().len() < i64::MAX && fold_rebuild(
                StateV::initial(),
                events.deep_view(),
            ) is Ok ==> r is Ok,
            final(self)@.server_url == old(self)@.server_url,
    {
        let ghost evs = events.deep_view();
        let mut store = InMemoryEventStore::new();
        let n = events.len();
        let mut i: usize = 0;
        proof {
            assert(evs.take(0) =~= Seq::<EventV>::empty());
        }
        while i < n
            invariant
                evs == events.deep_view(),
                n == events@.len(),
                evs.len() == n,
                i <= n,
                store@ == evs.take(i as int),
                self == old(self),
            decreases n - i,
        {
            proof {
                assert(events@[i as int]@ == evs[i as int]);
            }
            match store.append_event(events[i].clone()) {
                Ok(()) => {
                    proof {
                        assert(store@ =~= evs.take(i + 1));
                    }
                },
                Err(e) => {
                    proof {
                        // a well-formed bounded log never fails to
                        // append: each id is fresh and each version
                        // continues its aggregate's run
                        if wf_log(evs) && evs.len() < i64::MAX {
                            let agg = evs[i as int].aggregate_id;
                            assert forall|j: int|
                                0 <= j < i implies (#[trigger] evs.take(i as int)[j]).id != evs[
                                i as int
                            ].id by {
                                assert(evs.take(i as int)[j] == evs[j]);
                                assert(evs[j].id != evs[i as int].id);
                            }
                            assert(versions_sequential(evs.take(i as int))) by {
                                assert forall|j: int|
                                    0 <= j < evs.take(i as int).len() implies (#[trigger] evs.take(
                                    i as int,
                                )[j]).version == events_for_agg(
                                    evs.take(i as int).take(j),
                                    evs.take(i as int)[j].aggregate_id,
                                ).len() + 1 by {
                                    assert(evs.take(i as int)[j] == evs[j]);
                                    assert(evs.take(i as int).take(j) =~= evs.take(j));
                                }
                            }
                            lemma_filtered_versions(evs.take(i as int), agg);
                            lemma_events_for_len(evs.take(i as int), agg);
                            assert(evs[i as int].version == spec_latest_version(
                                evs.take(i as int),
                                agg,
                            ) + 1);
                            assert(false);
                        }
                    }
                    return Err(e);
                },
            }
            i = i + 1;
        }
        proof {
            assert(evs.take(n as int) =~= evs);
        }
        let count = store.get_event_count();
        let mut projection = DocumentProjection::new();
        match projection.rebuild_from_events(events) {
            Ok(()) => {},
            Err(e) => {
                return Err(e);
            },
        }
        self.local_store = store;
        self.document_projection = projection;
        Ok(count)
    }

    /// Rebuild the local projection from the local log in
    /// `(timestamp, version)` order; reports how many events fed it.
    pub fn rebuild_projections(&mut self) -> (r: EventResult<usize>)
        ensures
            final(self)@.log == old(self)@.log,
            final(self)@.server_url == old(self)@.server_url,
            match fold_rebuild(StateV::initial(), sort_by_ts_ver(old(self)@.log)) {
                Ok(sv) => (r matches Ok(n) && n == old(self)@.log.len()) && final(self)@.state
                    == sv,
                Err(ev) => (r matches Err(er) && er@ == ev) && final(self)@.state == old(
                    self,
                )@.state,
            },
    {
        let events = match self.local_store.get_all_events() {
            Ok(v) => v,
            Err(e) => {
                proof {
                    assert(false);
                }
                return Err(e);
            },
        };
        let ghost n0 = self@.log.len();
        proof {
            crate::store::lemma_sort_by_ts_ver_len(self@.log);
        }
        match self.document_projection.rebuild_from_events(&events) {
            Ok(()) => Ok(events.len()),
            Err(e) => Err(e),
        }
    }
}

} // verus!
