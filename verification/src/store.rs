//! The in-memory event store: an append-only log with per-aggregate
//! version enforcement and duplicate suppression.

use vstd::prelude::*;
use vstd::seq_lib::*;

use crate::event::{Event, EventError, EventErrorV, EventResult, EventV};
use crate::strutil::string_eq_str;

verus! {

/// The events of one aggregate, in log order.
pub open spec fn events_for_agg(s: Seq<EventV>, agg: Seq<char>) -> Seq<EventV> {
    s.filter(|e: EventV| e.aggregate_id == agg)
}

/// The latest version of an aggregate: the version of its last event,
/// or zero when it has none.
pub open spec fn spec_latest_version(s: Seq<EventV>, agg: Seq<char>) -> int {
    if events_for_agg(s, agg).len() == 0 {
        0
    } else {
        events_for_agg(s, agg).last().version as int
    }
}

/// The version an aggregate's next event must carry, saturated at the
/// integer limit (which a real log never reaches).
pub open spec fn spec_next_version(s: Seq<EventV>, agg: Seq<char>) -> int {
    if spec_latest_version(s, agg) < i64::MAX {
        spec_latest_version(s, agg) + 1
    } else {
        i64::MAX as int
    }
}

/// No two events of the log share an id.
pub open spec fn unique_ids(s: Seq<EventV>) -> bool {
    forall|i: int, j: int| 0 <= i < j < s.len() ==> (#[trigger] s[i].id) != (#[trigger] s[j].id)
}

/// Every event's version continues its own aggregate's run `1, 2, …`
/// with no gap or repeat.
pub open spec fn versions_sequential(s: Seq<EventV>) -> bool {
    forall|i: int|
        0 <= i < s.len() ==> (#[trigger] s[i]).version == events_for_agg(
            s.take(i),
            s[i].aggregate_id,
        ).len() + 1
}

/// A well-formed event log.
pub open spec fn wf_log(s: Seq<EventV>) -> bool {
    unique_ids(s) && versions_sequential(s)
}

/// Appending an event extends exactly the filters that match its
/// aggregate.
proof fn lemma_events_for_snoc(s: Seq<EventV>, e: EventV, agg: Seq<char>)
    ensures
        e.aggregate_id == agg ==> events_for_agg(s.push(e), agg) == events_for_agg(s, agg).push(e),
        e.aggregate_id != agg ==> events_for_agg(s.push(e), agg) == events_for_agg(s, agg),
{
    reveal(Seq::filter);
    assert(s.push(e).drop_last() =~= s);
    assert(s.push(e).last() == e);
}

/// In a log with sequential versions, the events of an aggregate carry
/// the versions `1, 2, …, n` in order.
pub proof fn lemma_filtered_versions(s: Seq<EventV>, agg: Seq<char>)
    requires
        versions_sequential(s),
    ensures
        forall|i: int|
            0 <= i < events_for_agg(s, agg).len() ==> (#[trigger] events_for_agg(s, agg)[i]).version
                == i + 1,
        spec_latest_version(s, agg) == events_for_agg(s, agg).len(),
    decreases s.len(),
{
    reveal(Seq::filter);
    if s.len() == 0 {
    } else {
        let s0 = s.drop_last();
        let e = s.last();
        assert(s0.push(e) =~= s);
        assert(versions_sequential(s0)) by {
            assert forall|i: int|
                0 <= i < s0.len() implies (#[trigger] s0[i]).version == events_for_agg(
                s0.take(i),
                s0[i].aggregate_id,
            ).len() + 1 by {
                assert(s0.take(i) =~= s.take(i));
                assert(s0[i] == s[i]);
            }
        }
        lemma_filtered_versions(s0, agg);
        lemma_events_for_snoc(s0, e, agg);
        if e.aggregate_id == agg {
            assert(s.take(s.len() - 1) =~= s0);
            assert(e.version == events_for_agg(s0, agg).len() + 1);
        }
    }
}

/// An aggregate has no more events than the whole log.
pub proof fn lemma_events_for_len(s: Seq<EventV>, agg: Seq<char>)
    ensures
        events_for_agg(s, agg).len() <= s.len(),
{
    broadcast use vstd::seq_lib::group_filter_ensures;

    assert(events_for_agg(s, agg).len() <= s.len());
}

/// Cross-aggregate ordering key: `(timestamp, version)`, compared
/// lexicographically.
pub open spec fn ts_ver_le(a: EventV, b: EventV) -> bool {
    a.timestamp < b.timestamp || (a.timestamp == b.timestamp && a.version <= b.version)
}

/// Exec comparison by the `(timestamp, version)` key.
fn ts_ver_le_exec(a: &Event, b: &Event) -> (r: bool)
    ensures
        r == ts_ver_le(a@, b@),
{
    a.timestamp < b.timestamp || (a.timestamp == b.timestamp && a.version <= b.version)
}

/// Insert an event behind every element whose key does not exceed its
/// own, keeping insertion stable.
pub open spec fn insert_by_key(s: Seq<EventV>, e: EventV) -> Seq<EventV>
    decreases s.len(),
{
    if s.len() == 0 {
        seq![e]
    } else if ts_ver_le(s[0], e) {
        seq![s[0]] + insert_by_key(s.skip(1), e)
    } else {
        seq![e] + s
    }
}

/// Stable insertion sort by the `(timestamp, version)` key.
pub open spec fn sort_by_ts_ver(s: Seq<EventV>) -> Seq<EventV>
    decreases s.len(),
{
    if s.len() == 0 {
        s
    } else {
        insert_by_key(sort_by_ts_ver(s.drop_last()), s.last())
    }
}

/// Insertion adds exactly one element.
proof fn lemma_insert_by_key_len(s: Seq<EventV>, e: EventV)
    ensures
        insert_by_key(s, e).len() == s.len() + 1,
    decreases s.len(),
{
    if s.len() > 0 && ts_ver_le(s[0], e) {
        lemma_insert_by_key_len(s.skip(1), e);
    }
}

/// Sorting keeps the number of events.
pub proof fn lemma_sort_by_ts_ver_len(s: Seq<EventV>)
    ensures
        sort_by_ts_ver(s).len() == s.len(),
    decreases s.len(),
{
    if s.len() > 0 {
        lemma_sort_by_ts_ver_len(s.drop_last());
        lemma_insert_by_key_len(sort_by_ts_ver(s.drop_last()), s.last());
    }
}

/// Where the first key greater than the new event's stands, the
/// insertion splits the sequence.
proof fn lemma_insert_by_key_at(s: Seq<EventV>, e: EventV, pos: int)
    requires
        0 <= pos <= s.len(),
        forall|j: int| 0 <= j < pos ==> ts_ver_le(#[trigger] s[j], e),
        pos < s.len() ==> !ts_ver_le(s[pos], e),
    ensures
        insert_by_key(s, e) == s.take(pos) + seq![e] + s.skip(pos),
    decreases pos,
{
    if pos == 0 {
        if s.len() == 0 {
            assert(insert_by_key(s, e) =~= s.take(0) + seq![e] + s.skip(0));
        } else {
            assert(insert_by_key(s, e) =~= s.take(0) + seq![e] + s.skip(0));
        }
    } else {
        lemma_insert_by_key_at(s.skip(1), e, pos - 1);
        assert(s.skip(1).take(pos - 1) =~= s.take(pos).skip(1));
        assert(s.skip(1).skip(pos - 1) =~= s.skip(pos));
        assert(insert_by_key(s, e) =~= seq![s[0]] + insert_by_key(s.skip(1), e));
        assert(seq![s[0]] + (s.skip(1).take(pos - 1) + seq![e] + s.skip(pos)) =~= s.take(pos)
            + seq![e] + s.skip(pos));
    }
}

/// An in-memory event store: the log itself, in append order.
pub struct InMemoryEventStore {
    events: Vec<Event>,
}

impl View for InMemoryEventStore {
    type V = Seq<EventV>;

    closed spec fn view(&self) -> Seq<EventV> {
        self.events.deep_view()
    }
}

impl InMemoryEventStore {
    /// A well-formed store: unique ids, sequential versions.
    #[verifier::type_invariant]
    spec fn wf(self) -> bool {
        wf_log(self@)
    }

    /// An empty store.
    pub fn new() -> (r: Self)
        ensures
            r@ == Seq::<EventV>::empty(),
    {
        let r = InMemoryEventStore { events: Vec::new() };
        proof {
            assert(r@ =~= Seq::<EventV>::empty());
        }
        r
    }

    /// Append an event to the store.
    ///
    /// Fails with `DuplicateEventId` when any prior event carries the
    /// same id, and with `InvalidVersion` when the event does not carry
    /// its aggregate's next version; otherwise the event is appended.
    pub fn append_event(&mut self, event: Event) -> (r: EventResult<()>)
        ensures
            r is Ok <==> ((forall|i: int|
                0 <= i < old(self)@.len() ==> (#[trigger] old(self)@[i].id) != event.id@)
                && event.version == spec_latest_version(old(self)@, event.aggregate_id@) + 1),
            r is Ok ==> final(self)@ == old(self)@.push(event@),
            r matches Err(e) ==> final(self)@ == old(self)@,
            (exists|i: int| 0 <= i < old(self)@.len() && (#[trigger] old(self)@[i].id) == event.id@)
                ==> (r matches Err(e) && e@ == EventErrorV::DuplicateEventId(event.id@)),
            (forall|i: int|
                0 <= i < old(self)@.len() ==> (#[trigger] old(self)@[i].id) != event.id@)
                && event.version != spec_latest_version(old(self)@, event.aggregate_id@) + 1 ==> (
            r matches Err(e) && e@ matches EventErrorV::InvalidVersion { expected, got } && got
                == event.version && expected == spec_next_version(
                old(self)@,
                event.aggregate_id@,
            )),
    {
        proof {
            use_type_invariant(&*self);
            lemma_filtered_versions(self@, event.aggregate_id@);
        }
        // Check for duplicate event id
        let n = self.events.len();
        let mut i: usize = 0;
        while i < n
            invariant
                self@ == old(self)@,
                n == self@.len(),
                n == self.events@.len(),
                self@ == self.events.deep_view(),
                i <= n,
                forall|j: int| 0 <= j < i ==> (#[trigger] self@[j].id) != event.id@,
            decreases n - i,
        {
            proof {
                assert(self@[i as int] == self.events@[i as int]@);
            }
            if string_eq_str(&self.events[i].id, event.id.as_str()) {
                proof {
                    assert(self@ == old(self)@);
                    assert(self.events@[i as int].id@ == event.id@);
                    assert(self@[i as int].id == event.id@);
                    assert(exists|k: int|
                        0 <= k < old(self)@.len() && (#[trigger] old(self)@[k].id) == event.id@);
                }
                return Err(EventError::DuplicateEventId(event.id));
            }
            i = i + 1;
        }

        // Check version ordering; a version at the integer limit can
        // never be continued
        let current_version = self.get_latest_version(event.aggregate_id.as_str());
        if current_version == i64::MAX {
            return Err(
                EventError::InvalidVersion { expected: current_version, got: event.version },
            );
        }
        let expected_version = current_version + 1;
        if event.version != expected_version {
            return Err(
                EventError::InvalidVersion { expected: expected_version, got: event.version },
            );
        }

        let ghost s0 = self@;
        let ghost ev = event@;
        let mut events: Vec<Event> = Vec::new();
        proof {
            assert(events.deep_view() =~= Seq::<EventV>::empty());
        }
        core::mem::swap(&mut self.events, &mut events);
        events.push(event);
        proof {
            let s1 = events.deep_view();
            assert(s1 =~= s0.push(ev));
            assert(wf_log(s1)) by {
                assert forall|k: int|
                    0 <= k < s1.len() implies (#[trigger] s1[k]).version == events_for_agg(
                    s1.take(k),
                    s1[k].aggregate_id,
                ).len() + 1 by {
                    if k < s0.len() {
                        assert(s1.take(k) =~= s0.take(k));
                        assert(s1[k] == s0[k]);
                    } else {
                        assert(s1[k] == ev);
                        assert(s1.take(k) =~= s0);
                        lemma_filtered_versions(s0, ev.aggregate_id);
                    }
                }
            }
        }
        core::mem::swap(&mut self.events, &mut events);
        proof {
            assert(self@ =~= s0.push(ev));
        }
        Ok(())
    }

    /// The events of one aggregate, in strict version order.
    pub fn get_events(&self, aggregate_id: &str) -> (r: EventResult<Vec<Event>>)
        ensures
            wf_log(self@),
            r matches Ok(v) && v.deep_view() == events_for_agg(self@, aggregate_id@),
            r matches Ok(v) ==> forall|i: int|
                0 <= i < v.deep_view().len() ==> (#[trigger] v.deep_view()[i]).version == i + 1,
    {
        proof {
            use_type_invariant(&*self);
            lemma_filtered_versions(self@, aggregate_id@);
            reveal(Seq::filter);
        }
        let n = self.events.len();
        let mut out: Vec<Event> = Vec::new();
        let mut i: usize = 0;
        proof {
            assert(self@.take(0) =~= Seq::<EventV>::empty());
            assert(out.deep_view() =~= events_for_agg(self@.take(0), aggregate_id@));
        }
        while i < n
            invariant
                n == self@.len(),
                n == self.events@.len(),
                self@ == self.events.deep_view(),
                i <= n,
                out.deep_view() == events_for_agg(self@.take(i as int), aggregate_id@),
            decreases n - i,
        {
            proof {
                reveal(Seq::filter);
                assert(self@[i as int] == self.events@[i as int]@);
                lemma_events_for_snoc(self@.take(i as int), self@[i as int], aggregate_id@);
                assert(self@.take(i + 1) =~= self@.take(i as int).push(self@[i as int]));
            }
            let ghost out0 = out.deep_view();
            if string_eq_str(&self.events[i].aggregate_id, aggregate_id) {
                out.push(self.events[i].clone());
                proof {
                    assert(out.deep_view() =~= out0.push(self@[i as int]));
                }
            }
            i = i + 1;
        }
        proof {
            assert(self@.take(n as int) =~= self@);
        }
        Ok(out)
    }

    /// Every event in the store, ordered by `(timestamp, version)`
    /// ascending; events with equal keys keep their log order.
    pub fn get_all_events(&self) -> (r: EventResult<Vec<Event>>)
        ensures
            r matches Ok(v) && v.deep_view() == sort_by_ts_ver(self@),
    {
        let n = self.events.len();
        let mut out: Vec<Event> = Vec::new();
        let mut i: usize = 0;
        proof {
            assert(self@.take(0) =~= Seq::<EventV>::empty());
            assert(out.deep_view() =~= sort_by_ts_ver(self@.take(0)));
        }
        while i < n
            invariant
                n == self@.len(),
                n == self.events@.len(),
                self@ == self.events.deep_view(),
                i <= n,
                out.deep_view() == sort_by_ts_ver(self@.take(i as int)),
            decreases n - i,
        {
            let e = self.events[i].clone();
            let ghost ev = self@[i as int];
            let ghost out0 = out.deep_view();
            proof {
                assert(self.events@[i as int]@ == ev);
            }
            // find the first position whose key exceeds the new event's
            let m = out.len();
            let mut pos: usize = 0;
            let mut stop = false;
            while pos < m && !stop
                invariant
                    m == out.deep_view().len(),
                    m == out@.len(),
                    out.deep_view() == out0,
                    pos <= m,
                    e@ == ev,
                    forall|j: int| 0 <= j < pos ==> ts_ver_le(#[trigger] out0[j], ev),
                    stop ==> pos < m && !ts_ver_le(out0[pos as int], ev),
                decreases m - pos + (if stop {
                    0int
                } else {
                    1int
                }),
            {
                proof {
                    assert(out.deep_view()[pos as int] == out@[pos as int]@);
                }
                if !ts_ver_le_exec(&out[pos], &e) {
                    stop = true;
                } else {
                    pos = pos + 1;
                }
            }
            proof {
                lemma_insert_by_key_at(out0, ev, pos as int);
            }
            out.insert(pos, e);
            proof {
                assert(out.deep_view() =~= out0.take(pos as int) + seq![ev] + out0.skip(
                    pos as int,
                ));
                assert(out.deep_view() =~= insert_by_key(out0, ev));
                assert(self@.take(i + 1).drop_last() =~= self@.take(i as int));
                assert(self@.take(i + 1).last() == ev);
                assert(sort_by_ts_ver(self@.take(i + 1)) == insert_by_key(
                    sort_by_ts_ver(self@.take(i as int)),
                    ev,
                ));
            }
            i = i + 1;
        }
        proof {
            assert(self@.take(n as int) =~= self@);
        }
        Ok(out)
    }

    /// The latest stored version of an aggregate, zero when it has
    /// none.
    pub fn get_latest_version(&self, aggregate_id: &str) -> (r: i64)
        ensures
            r == spec_latest_version(self@, aggregate_id@),
            r >= 0,
    {
        proof {
            reveal(Seq::filter);
            use_type_invariant(&*self);
            lemma_filtered_versions(self@, aggregate_id@);
        }
        let n = self.events.len();
        let mut latest: i64 = 0;
        let mut i: usize = 0;
        proof {
            assert(self@.take(0) =~= Seq::<EventV>::empty());
        }
        while i < n
            invariant
                n == self@.len(),
                n == self.events@.len(),
                self@ == self.events.deep_view(),
                i <= n,
                latest == spec_latest_version(self@.take(i as int), aggregate_id@),
            decreases n - i,
        {
            proof {
                reveal(Seq::filter);
                assert(self@[i as int] == self.events@[i as int]@);
                lemma_events_for_snoc(self@.take(i as int), self@[i as int], aggregate_id@);
                assert(self@.take(i + 1) =~= self@.take(i as int).push(self@[i as int]));
            }
            if string_eq_str(&self.events[i].aggregate_id, aggregate_id) {
                latest = self.events[i].version;
            }
            i = i + 1;
        }
        proof {
            assert(self@.take(n as int) =~= self@);
        }
        latest
    }

    /// The total number of stored events.
    pub fn get_event_count(&self) -> (r: usize)
        ensures
            r == self@.len(),
            wf_log(self@),
    {
        proof {
            use_type_invariant(&*self);
        }
        self.events.len()
    }
}

} // verus!
