//! The server's sequential core: per-store event logs and projections,
//! and the request handling behind the HTTP endpoints. Transport,
//! locking and fan-out live outside; every submission for one store
//! runs through here one at a time.

use vstd::prelude::*;

use crate::document::StateV;
use crate::event::{Event, EventBuilder, EventError, EventErrorV, EventV};
use crate::projection::{fold_incremental, DocumentProjection};
use crate::store::{events_for_agg, spec_latest_version, InMemoryEventStore};
use crate::strutil::{is_blank, string_eq_str};
use crate::value::Value;

verus! {

/// Body of a submit request.
pub struct SubmitEventRequest {
    pub event_type: String,
    pub payload: Value,
}

/// Reply to a successful submit.
pub struct SubmitEventResponse {
    pub event_id: String,
    pub version: i64,
}

/// Query parameters of an event listing.
pub struct GetEventsQuery {
    pub limit: Option<u32>,
    pub offset: Option<u32>,
    pub since_timestamp: Option<i64>,
}

/// Reply to an event listing.
pub struct GetEventsResponse {
    pub events: Vec<Event>,
    pub total_count: usize,
    pub store_id: String,
}

/// Reply to a store information request.
pub struct StoreInfoResponse {
    pub store_id: String,
    pub event_count: usize,
    pub latest_version: i64,
    pub first_event_timestamp: Option<i64>,
    pub last_event_timestamp: Option<i64>,
}

/// Body of an error reply.
pub struct ErrorResponse {
    pub error: String,
    pub code: String,
}

/// Map an event error to an HTTP status and an error reply: version
/// conflicts and duplicates are conflicts, the rest are bad requests.
pub fn event_error_to_response(err: &EventError) -> (r: (u16, ErrorResponse))
    ensures
        err@ matches EventErrorV::InvalidVersion { .. } ==> r.0 == 409 && r.1.code@
            == "VERSION_CONFLICT"@,
        err@ matches EventErrorV::DuplicateEventId(_) ==> r.0 == 409 && r.1.code@
            == "DUPLICATE_EVENT"@,
        !(err@ matches EventErrorV::InvalidVersion { .. }) && !(err@
            matches EventErrorV::DuplicateEventId(_)) ==> r.0 == 400 && r.1.code@
            == "VALIDATION_ERROR"@,
        r.1.error@.len() > 0,
        err@ matches EventErrorV::InvalidVersion { expected, got } ==> r.1.error@
            == "Invalid version: expected "@ + crate::strutil::dec_of(expected as int)
            + ", got "@ + crate::strutil::dec_of(got as int),
        err@ matches EventErrorV::DuplicateEventId(id) ==> r.1.error@ == "Duplicate event ID: "@
            + id,
        err@ matches EventErrorV::InvalidEventType(t) ==> r.1.error@ == "Invalid event type: "@
            + t,
        err@ matches EventErrorV::InvalidAggregateId(id) ==> r.1.error@
            == "Invalid aggregate ID: "@ + id,
        err@ matches EventErrorV::SerializationError(m) ==> r.1.error@
            == "Serialization error: "@ + m,
        err@ matches EventErrorV::ValidationError(m) ==> r.1.error@ == "Validation error: "@ + m,
{
    let message = err.message();
    match err {
        EventError::InvalidVersion { .. } => (
            409,
            ErrorResponse { error: message, code: String::from_str("VERSION_CONFLICT") },
        ),
        EventError::DuplicateEventId(_) => (
            409,
            ErrorResponse { error: message, code: String::from_str("DUPLICATE_EVENT") },
        ),
        _ => (400, ErrorResponse { error: message, code: String::from_str("VALIDATION_ERROR") }),
    }
}

/// One store: its id, its log, and its materialized projection.
pub struct StoreEntry {
    pub store_id: String,
    pub store: InMemoryEventStore,
    pub projection: DocumentProjection,
}

/// The mathematical shape of one store.
#[verifier::ext_equal]
pub struct StoreEntryV {
    pub store_id: Seq<char>,
    pub log: Seq<EventV>,
    pub state: StateV,
}

impl View for StoreEntry {
    type V = StoreEntryV;

    open spec fn view(&self) -> StoreEntryV {
        StoreEntryV { store_id: self.store_id@, log: self.store@, state: self.projection@ }
    }
}

impl DeepView for StoreEntry {
    type V = StoreEntryV;

    open spec fn deep_view(&self) -> StoreEntryV {
        self.view()
    }
}

/// Position of the first store with an id, or the length when none
/// matches.
pub open spec fn entry_idx(entries: Seq<StoreEntryV>, id: Seq<char>) -> int
    decreases entries.len(),
{
    if entries.len() == 0 {
        0
    } else if entries[0].store_id == id {
        0
    } else {
        1 + entry_idx(entries.skip(1), id)
    }
}

/// The first-match position is the scan position.
proof fn lemma_entry_idx_at(entries: Seq<StoreEntryV>, id: Seq<char>, k: int)
    requires
        0 <= k <= entries.len(),
        forall|j: int| 0 <= j < k ==> (#[trigger] entries[j]).store_id != id,
        k < entries.len() ==> entries[k].store_id == id,
    ensures
        entry_idx(entries, id) == k,
    decreases k,
{
    if k > 0 {
        lemma_entry_idx_at(entries.skip(1), id, k - 1);
    } else if entries.len() > 0 && entries[0].store_id != id {
        assert(k < entries.len());
    }
}

/// The set of stores after a reference to an id: unchanged when the
/// store exists, extended by a fresh one when it does not.
pub open spec fn ensured(entries: Seq<StoreEntryV>, id: Seq<char>) -> Seq<StoreEntryV> {
    if entry_idx(entries, id) < entries.len() {
        entries
    } else {
        entries.push(StoreEntryV { store_id: id, log: Seq::empty(), state: StateV::initial() })
    }
}

/// The sequential server core: every known store with its projection.
pub struct ServerCore {
    entries: Vec<StoreEntry>,
}

impl View for ServerCore {
    type V = Seq<StoreEntryV>;

    closed spec fn view(&self) -> Seq<StoreEntryV> {
        self.entries.deep_view()
    }
}

impl ServerCore {
    /// A server with no stores.
    pub fn new() -> (r: Self)
        ensures
            r@ == Seq::<StoreEntryV>::empty(),
    {
        let r = ServerCore { entries: Vec::new() };
        proof {
            assert(r@ =~= Seq::<StoreEntryV>::empty());
        }
        r
    }

    /// Scan for the store carrying an id.
    fn find_entry(&self, store_id: &str) -> (r: usize)
        ensures
            r == entry_idx(self@, store_id@),
            r <= self@.len(),
            r < self@.len() ==> self@[r as int].store_id == store_id@,
            forall|j: int| 0 <= j < r ==> (#[trigger] self@[j]).store_id != store_id@,
    {
        let n = self.entries.len();
        let mut i: usize = 0;
        while i < n
            invariant
                n == self.entries@.len(),
                self@ == self.entries.deep_view(),
                i <= n,
                forall|j: int| 0 <= j < i ==> (#[trigger] self@[j]).store_id != store_id@,
            decreases n - i,
        {
            proof {
                assert(self@[i as int] == self.entries@[i as int]@);
            }
            if string_eq_str(&self.entries[i].store_id, store_id) {
                proof {
                    lemma_entry_idx_at(self@, store_id@, i as int);
                }
                return i;
            }
            i = i + 1;
        }
        proof {
            lemma_entry_idx_at(self@, store_id@, n as int);
        }
        n
    }

    /// Create the store and projection for an id on first reference.
    pub fn ensure_store_exists(&mut self, store_id: &str)
        ensures
            final(self)@ == ensured(old(self)@, store_id@),
            entry_idx(final(self)@, store_id@) < final(self)@.len(),
            final(self)@[entry_idx(final(self)@, store_id@)].store_id == store_id@,
    {
        let i = self.find_entry(store_id);
        if i == self.entries.len() {
            let ghost s0 = self@;
            let entry = StoreEntry {
                store_id: String::from_str(store_id),
                store: InMemoryEventStore::new(),
                projection: DocumentProjection::new(),
            };
            self.entries.push(entry);
            proof {
                assert(self@ =~= s0.push(
                    StoreEntryV {
                        store_id: store_id@,
                        log: Seq::empty(),
                        state: StateV::initial(),
                    },
                ));
                assert(forall|j: int|
                    0 <= j < s0.len() ==> (#[trigger] self@[j]).store_id != store_id@);
                lemma_entry_idx_at(self@, store_id@, s0.len() as int);
            }
        }
    }

    /// Handle a submit: bind the event to the store's next version,
    /// append it, fold it into the projection, and hand it back for
    /// fan-out.
    ///
    /// A blank event type or store id is rejected. On well-formed
    /// inputs below the version cap the submit succeeds, unless the
    /// freshly generated event id collides with a stored one, which
    /// surfaces as a duplicate. A projection failure leaves the
    /// projection at its prior state and does not fail the submit: the
    /// log is authoritative.
    pub fn submit_event(&mut self, store_id: &str, event_type: &str, payload: Value) -> (r: Result<
        (SubmitEventResponse, Event),
        EventError,
    >)
        ensures
            ({
                let s1 = ensured(old(self)@, store_id@);
                let i = entry_idx(s1, store_id@);
                &&& (r matches Ok(p) ==> {
                    &&& p.1@.event_type == event_type@
                    &&& p.1@.aggregate_id == store_id@
                    &&& p.1@.payload == payload@
                    &&& p.1@.version == spec_latest_version(s1[i].log, store_id@) + 1
                    &&& p.0.event_id@ == p.1@.id
                    &&& p.0.version == p.1@.version
                    &&& final(self)@ == s1.update(
                        i,
                        StoreEntryV {
                            log: s1[i].log.push(p.1@),
                            state: fold_incremental(s1[i].state, seq![p.1@]).0,
                            ..s1[i]
                        },
                    )
                })
                &&& (r is Err ==> final(self)@ == s1)
                &&& (is_blank(event_type@) ==> (r matches Err(e) && e@
                    == EventErrorV::InvalidEventType(event_type@)))
                &&& (!is_blank(event_type@) && is_blank(store_id@) ==> (r matches Err(e) && e@
                    == EventErrorV::InvalidAggregateId(store_id@)))
                &&& (r is Ok ==> !is_blank(event_type@) && !is_blank(store_id@))
                &&& (!is_blank(event_type@) && !is_blank(store_id@) && spec_latest_version(
                    s1[i].log,
                    store_id@,
                ) < i64::MAX ==> (r is Ok || (r matches Err(e) && e@ matches
                EventErrorV::DuplicateEventId(_))))
            }),
    {
        self.ensure_store_exists(store_id);
        let i = self.find_entry(store_id);
        let ghost s1 = self@;
        let mut entry = self.entries.remove(i);
        proof {
            assert(entry@ == s1[i as int]);
        }

        let current_version = entry.store.get_latest_version(store_id);
        let next_version = if current_version == i64::MAX {
            current_version
        } else {
            current_version + 1
        };

        let built = match EventBuilder::new().event_type(event_type).aggregate_id(
            store_id,
        ).payload(payload) {
            Ok(b) => b.build(next_version),
            Err(e) => Err(e),
        };
        let event = match built {
            Ok(ev) => ev,
            Err(e) => {
                self.entries.insert(i, entry);
                proof {
                    assert(self@ =~= s1);
                }
                return Err(e);
            },
        };

        match entry.store.append_event(event.clone()) {
            Ok(()) => {},
            Err(e) => {
                self.entries.insert(i, entry);
                proof {
                    assert(self@ =~= s1);
                }
                return Err(e);
            },
        }

        // fold the new event into the projection; a failure leaves the
        // projection as it was and is not the submitter's concern
        let batch = vec![event.clone()];
        proof {
            assert(batch.deep_view() =~= seq![event@]);
        }
        let _ = entry.projection.apply_new_events(&batch);

        let response = SubmitEventResponse {
            event_id: event.id.clone(),
            version: event.version,
        };
        let ghost newv = entry@;
        self.entries.insert(i, entry);
        proof {
            assert(self@ =~= s1.update(i as int, newv));
        }
        Ok((response, event))
    }

    /// The events a listing returns: the store's log, filtered by the
    /// `since` bound and paginated.
    pub fn get_events(&mut self, store_id: &str, query: &GetEventsQuery) -> (r: GetEventsResponse)
        ensures
            final(self)@ == ensured(old(self)@, store_id@),
            ({
                let s1 = ensured(old(self)@, store_id@);
                let i = entry_idx(s1, store_id@);
                let filtered = filter_since(
                    events_for_agg(s1[i].log, store_id@),
                    query.since_timestamp,
                );
                &&& r.events.deep_view() == paginate(filtered, query.limit, query.offset)
                &&& r.total_count == filtered.len()
                &&& r.store_id@ == store_id@
            }),
    {
        self.ensure_store_exists(store_id);
        let i = self.find_entry(store_id);
        let entry = &self.entries[i];
        proof {
            assert(entry@ == self@[i as int]);
        }
        let all = match entry.store.get_events(store_id) {
            Ok(v) => v,
            Err(_) => {
                proof {
                    assert(false);
                }
                Vec::new()
            },
        };

        // filter by timestamp when requested
        let ghost av = all.deep_view();
        let mut filtered: Vec<Event> = Vec::new();
        let n = all.len();
        let mut k: usize = 0;
        proof {
            reveal(Seq::filter);
            assert(av.take(0) =~= Seq::<EventV>::empty());
            assert(filtered.deep_view() =~= filter_since(av.take(0), query.since_timestamp));
        }
        while k < n
            invariant
                n == all@.len(),
                av == all.deep_view(),
                av.len() == n,
                k <= n,
                filtered.deep_view() == filter_since(av.take(k as int), query.since_timestamp),
            decreases n - k,
        {
            proof {
                reveal(Seq::filter);
                assert(all.deep_view()[k as int] == all@[k as int]@);
                assert(av.take(k + 1).drop_last() =~= av.take(k as int));
                assert(av.take(k + 1).last() == av[k as int]);
            }
            let ghost f0 = filtered.deep_view();
            let keep = match query.since_timestamp {
                Some(t) => all[k].timestamp > t,
                None => true,
            };
            if keep {
                filtered.push(all[k].clone());
                proof {
                    assert(filtered.deep_view() =~= f0.push(av[k as int]));
                }
            }
            k = k + 1;
        }
        proof {
            assert(av.take(n as int) =~= av);
        }

        let total_count = filtered.len();

        // paginate when both bounds are given
        let ghost fvw = filtered.deep_view();
        let events: Vec<Event> = match (query.limit, query.offset) {
            (Some(limit), Some(offset)) => {
                let off = if (offset as usize) < filtered.len() {
                    offset as usize
                } else {
                    filtered.len()
                };
                let end = if (limit as usize) < filtered.len() - off {
                    off + (limit as usize)
                } else {
                    filtered.len()
                };
                let mut page: Vec<Event> = Vec::new();
                let mut j: usize = off;
                proof {
                    assert(page.deep_view() =~= fvw.subrange(off as int, off as int));
                }
                while j < end
                    invariant
                        fvw == filtered.deep_view(),
                        off <= j <= end <= fvw.len(),
                        fvw.len() == filtered@.len(),
                        page.deep_view() == fvw.subrange(off as int, j as int),
                    decreases end - j,
                {
                    proof {
                        assert(filtered.deep_view()[j as int] == filtered@[j as int]@);
                    }
                    let ghost p0 = page.deep_view();
                    page.push(filtered[j].clone());
                    proof {
                        assert(page.deep_view() =~= p0.push(fvw[j as int]));
                        assert(p0.push(fvw[j as int]) =~= fvw.subrange(off as int, j + 1));
                    }
                    j = j + 1;
                }
                page
            },
            _ => filtered,
        };

        GetEventsResponse { events, total_count, store_id: String::from_str(store_id) }
    }

    /// A store's summary: its size, latest version and the timestamps
    /// bracketing its log.
    pub fn get_store_info(&mut self, store_id: &str) -> (r: StoreInfoResponse)
        ensures
            final(self)@ == ensured(old(self)@, store_id@),
            ({
                let s1 = ensured(old(self)@, store_id@);
                let i = entry_idx(s1, store_id@);
                let evs = events_for_agg(s1[i].log, store_id@);
                &&& r.store_id@ == store_id@
                &&& r.event_count == evs.len()
                &&& r.latest_version == spec_latest_version(s1[i].log, store_id@)
                &&& r.first_event_timestamp == (if evs.len() == 0 {
                    None::<i64>
                } else {
                    Some(evs[0].timestamp)
                })
                &&& r.last_event_timestamp == (if evs.len() == 0 {
                    None::<i64>
                } else {
                    Some(evs.last().timestamp)
                })
            }),
    {
        self.ensure_store_exists(store_id);
        let i = self.find_entry(store_id);
        let entry = &self.entries[i];
        proof {
            assert(entry@ == self@[i as int]);
        }
        let events = match entry.store.get_events(store_id) {
            Ok(v) => v,
            Err(_) => {
                proof {
                    assert(false);
                }
                Vec::new()
            },
        };
        let latest_version = entry.store.get_latest_version(store_id);
        let event_count = events.len();
        let first_event_timestamp = if events.len() > 0 {
            proof {
                assert(events.deep_view()[0] == events@[0]@);
            }
            Some(events[0].timestamp)
        } else {
            None
        };
        let last_event_timestamp = if events.len() > 0 {
            proof {
                assert(events.deep_view()[events@.len() - 1] == events@[events@.len() - 1]@);
            }
            Some(events[events.len() - 1].timestamp)
        } else {
            None
        };
        StoreInfoResponse {
            store_id: String::from_str(store_id),
            event_count,
            latest_version,
            first_event_timestamp,
            last_event_timestamp,
        }
    }

    /// The ids of every known store, in creation order.
    pub fn list_stores(&self) -> (r: Vec<String>)
        ensures
            r.deep_view().len() == self@.len(),
            forall|i: int|
                0 <= i < self@.len() ==> #[trigger] r.deep_view()[i] == self@[i].store_id,
    {
        let n = self.entries.len();
        let mut out: Vec<String> = Vec::new();
        let mut i: usize = 0;
        while i < n
            invariant
                n == self.entries@.len(),
                self@ == self.entries.deep_view(),
                i <= n,
                out.deep_view().len() == i,
                forall|j: int| 0 <= j < i ==> #[trigger] out.deep_view()[j] == self@[j].store_id,
            decreases n - i,
        {
            proof {
                assert(self@[i as int] == self.entries@[i as int]@);
            }
            let ghost out0 = out.deep_view();
            out.push(self.entries[i].store_id.clone());
            proof {
                assert(out.deep_view() =~= out0.push(self@[i as int].store_id));
            }
            i = i + 1;
        }
        out
    }
}

/// Events past a timestamp bound, or all of them without one.
pub open spec fn filter_since(s: Seq<EventV>, since: Option<i64>) -> Seq<EventV> {
    match since {
        Some(t) => s.filter(|e: EventV| e.timestamp > t),
        None => s,
    }
}

/// A page of a listing: `offset` and `limit` cut the sequence when
/// both are given, clamped to its length.
pub open spec fn paginate(s: Seq<EventV>, limit: Option<u32>, offset: Option<u32>) -> Seq<EventV> {
    if limit is Some && offset is Some {
        let off = if offset->0 < s.len() {
            offset->0 as int
        } else {
            s.len() as int
        };
        let end = if limit->0 < s.len() - off {
            off + limit->0
        } else {
            s.len() as int
        };
        s.subrange(off, end)
    } else {
        s
    }
}

} // verus!
