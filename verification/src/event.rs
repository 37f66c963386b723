//! Immutable event records, their validation, and the builder that
//! assembles them.

use vstd::prelude::*;

use crate::strutil::{dec_of, i64_to_dec, is_blank, str_is_blank};
use crate::value::{Value, ValueV};

verus! {

/// Core event structure for event sourcing.
#[derive(Debug)]
pub struct Event {
    pub id: String,
    pub event_type: String,
    pub aggregate_id: String,
    pub payload: Value,
    pub timestamp: i64,
    pub version: i64,
}

/// The mathematical shape of an event.
#[verifier::ext_equal]
pub struct EventV {
    pub id: Seq<char>,
    pub event_type: Seq<char>,
    pub aggregate_id: Seq<char>,
    pub payload: ValueV,
    pub timestamp: i64,
    pub version: i64,
}

impl View for Event {
    type V = EventV;

    open spec fn view(&self) -> EventV {
        EventV {
            id: self.id@,
            event_type: self.event_type@,
            aggregate_id: self.aggregate_id@,
            payload: self.payload@,
            timestamp: self.timestamp,
            version: self.version,
        }
    }
}

impl DeepView for Event {
    type V = EventV;

    open spec fn deep_view(&self) -> EventV {
        self.view()
    }
}

impl Clone for Event {
    fn clone(&self) -> (res: Self)
        ensures
            res@ == self@,
    {
        let res = Event {
            id: self.id.clone(),
            event_type: self.event_type.clone(),
            aggregate_id: self.aggregate_id.clone(),
            payload: self.payload.clone(),
            timestamp: self.timestamp,
            version: self.version,
        };
        proof {
            assert(res@ =~= self@);
        }
        res
    }
}

/// Errors that can occur in event operations.
#[derive(Debug)]
pub enum EventError {
    InvalidVersion { expected: i64, got: i64 },
    DuplicateEventId(String),
    InvalidEventType(String),
    InvalidAggregateId(String),
    SerializationError(String),
    ValidationError(String),
}

/// The mathematical shape of an event error.
#[verifier::ext_equal]
pub enum EventErrorV {
    InvalidVersion { expected: i64, got: i64 },
    DuplicateEventId(Seq<char>),
    InvalidEventType(Seq<char>),
    InvalidAggregateId(Seq<char>),
    SerializationError(Seq<char>),
    ValidationError(Seq<char>),
}

impl View for EventError {
    type V = EventErrorV;

    open spec fn view(&self) -> EventErrorV {
        match self {
            EventError::InvalidVersion { expected, got } => EventErrorV::InvalidVersion {
                expected: *expected,
                got: *got,
            },
            EventError::DuplicateEventId(s) => EventErrorV::DuplicateEventId(s@),
            EventError::InvalidEventType(s) => EventErrorV::InvalidEventType(s@),
            EventError::InvalidAggregateId(s) => EventErrorV::InvalidAggregateId(s@),
            EventError::SerializationError(s) => EventErrorV::SerializationError(s@),
            EventError::ValidationError(s) => EventErrorV::ValidationError(s@),
        }
    }
}

impl Clone for EventError {
    fn clone(&self) -> (res: Self)
        ensures
            res@ == self@,
    {
        match self {
            EventError::InvalidVersion { expected, got } => EventError::InvalidVersion {
                expected: *expected,
                got: *got,
            },
            EventError::DuplicateEventId(s) => EventError::DuplicateEventId(s.clone()),
            EventError::InvalidEventType(s) => EventError::InvalidEventType(s.clone()),
            EventError::InvalidAggregateId(s) => EventError::InvalidAggregateId(s.clone()),
            EventError::SerializationError(s) => EventError::SerializationError(s.clone()),
            EventError::ValidationError(s) => EventError::ValidationError(s.clone()),
        }
    }
}

impl EventError {
    /// A short human-readable description of the error.
    pub fn message(&self) -> (r: String)
        ensures
            r@.len() > 0,
            self@ matches EventErrorV::InvalidVersion { expected, got } ==> r@
                == "Invalid version: expected "@ + dec_of(expected as int) + ", got "@ + dec_of(
                got as int,
            ),
            self@ matches EventErrorV::DuplicateEventId(id) ==> r@ == "Duplicate event ID: "@
                + id,
            self@ matches EventErrorV::InvalidEventType(t) ==> r@ == "Invalid event type: "@ + t,
            self@ matches EventErrorV::InvalidAggregateId(id) ==> r@
                == "Invalid aggregate ID: "@ + id,
            self@ matches EventErrorV::SerializationError(m) ==> r@
                == "Serialization error: "@ + m,
            self@ matches EventErrorV::ValidationError(m) ==> r@ == "Validation error: "@ + m,
    {
        proof {
            reveal_strlit("Invalid version: expected ");
            reveal_strlit("Duplicate event ID: ");
            reveal_strlit("Invalid event type: ");
            reveal_strlit("Invalid aggregate ID: ");
            reveal_strlit("Serialization error: ");
            reveal_strlit("Validation error: ");
        }
        match self {
            EventError::InvalidVersion { expected, got } => String::from_str(
                "Invalid version: expected ",
            ).concat(i64_to_dec(*expected).as_str()).concat(", got ").concat(
                i64_to_dec(*got).as_str(),
            ),
            EventError::DuplicateEventId(id) => String::from_str("Duplicate event ID: ").concat(
                id.as_str(),
            ),
            EventError::InvalidEventType(t) => String::from_str("Invalid event type: ").concat(
                t.as_str(),
            ),
            EventError::InvalidAggregateId(id) => String::from_str("Invalid aggregate ID: ")
                .concat(id.as_str()),
            EventError::SerializationError(m) => String::from_str("Serialization error: ").concat(
                m.as_str(),
            ),
            EventError::ValidationError(m) => String::from_str("Validation error: ").concat(
                m.as_str(),
            ),
        }
    }
}

/// Result type for event operations.
pub type EventResult<T> = Result<T, EventError>;

/// Relies on `std::time::SystemTime::now`: seconds since the Unix
/// epoch, clamped to a non-negative count.
#[verifier::external_body]
pub fn current_timestamp() -> (r: i64)
    ensures
        r >= 0,
{
    let secs = std::time::SystemTime::now().duration_since(std::time::UNIX_EPOCH)
        .unwrap_or_default()
        .as_secs();
    if secs > i64::MAX as u64 {
        i64::MAX
    } else {
        secs as i64
    }
}

/// Relies on `std::time::SystemTime::now`: nanoseconds since the Unix
/// epoch, formatted into a fresh event id.
#[verifier::external_body]
pub fn generate_event_id() -> (r: String)
    ensures
        r@.len() > 0,
{
    let nanos = std::time::SystemTime::now().duration_since(std::time::UNIX_EPOCH)
        .unwrap_or_default()
        .as_nanos();
    format!("event-{}", nanos)
}

/// Whether an event carries well-formed identity fields.
pub open spec fn event_fields_valid(event_type: Seq<char>, aggregate_id: Seq<char>, version: i64) -> bool {
    !is_blank(event_type) && !is_blank(aggregate_id) && version >= 1
}

/// Validate event structure: a non-blank type and aggregate, and a
/// version of at least one.
pub fn validate_event(event: &Event) -> (r: EventResult<()>)
    ensures
        r is Ok <==> event_fields_valid(event.event_type@, event.aggregate_id@, event.version),
        is_blank(event.event_type@) ==> (r matches Err(e) && e@ == EventErrorV::InvalidEventType(
            event.event_type@,
        )),
        !is_blank(event.event_type@) && is_blank(event.aggregate_id@) ==> (r matches Err(e) && e@
            == EventErrorV::InvalidAggregateId(event.aggregate_id@)),
        !is_blank(event.event_type@) && !is_blank(event.aggregate_id@) && event.version < 1 ==> (
        r matches Err(e) && e@ == EventErrorV::InvalidVersion { expected: 1, got: event.version }),
{
    if str_is_blank(event.event_type.as_str()) {
        return Err(EventError::InvalidEventType(event.event_type.clone()));
    }
    if str_is_blank(event.aggregate_id.as_str()) {
        return Err(EventError::InvalidAggregateId(event.aggregate_id.clone()));
    }
    if event.version < 1 {
        return Err(EventError::InvalidVersion { expected: 1, got: event.version });
    }
    Ok(())
}

/// Builder for creating events with validation.
#[derive(Debug)]
pub struct EventBuilder {
    pub event_type: Option<String>,
    pub aggregate_id: Option<String>,
    pub payload: Value,
}

impl EventBuilder {
    /// A builder with no fields set and a null payload.
    pub fn new() -> (r: Self)
        ensures
            r.event_type is None,
            r.aggregate_id is None,
            r.payload@ == ValueV::Null,
    {
        EventBuilder { event_type: None, aggregate_id: None, payload: Value::Null }
    }

    /// Set the event type.
    pub fn event_type(self, event_type: &str) -> (r: Self)
        ensures
            r.event_type matches Some(t) && t@ == event_type@,
            r.aggregate_id == self.aggregate_id,
            r.payload@ == self.payload@,
    {
        EventBuilder {
            event_type: Some(String::from_str(event_type)),
            aggregate_id: self.aggregate_id,
            payload: self.payload,
        }
    }

    /// Set the aggregate the event belongs to.
    pub fn aggregate_id(self, aggregate_id: &str) -> (r: Self)
        ensures
            r.aggregate_id matches Some(a) && a@ == aggregate_id@,
            r.event_type == self.event_type,
            r.payload@ == self.payload@,
    {
        EventBuilder {
            event_type: self.event_type,
            aggregate_id: Some(String::from_str(aggregate_id)),
            payload: self.payload,
        }
    }

    /// Set the payload.
    pub fn payload(self, payload: Value) -> (r: EventResult<Self>)
        ensures
            r matches Ok(b) && b.payload@ == payload@ && b.event_type == self.event_type
                && b.aggregate_id == self.aggregate_id,
    {
        Ok(
            EventBuilder {
                event_type: self.event_type,
                aggregate_id: self.aggregate_id,
                payload,
            },
        )
    }

    /// Build the event at a version, assigning a fresh id and the
    /// current timestamp.
    ///
    /// Succeeds exactly when both identity fields were set and pass
    /// validation and the version is at least one.
    pub fn build(self, version: i64) -> (r: EventResult<Event>)
        ensures
            r is Ok <==> (self.event_type matches Some(t) && self.aggregate_id matches Some(a)
                && event_fields_valid(t@, a@, version)),
            self.event_type is None ==> (r matches Err(e) && e@ matches
                EventErrorV::ValidationError(m) && m == "Event type is required"@),
            self.event_type is Some && self.aggregate_id is None ==> (r matches Err(e) && e@
                matches EventErrorV::ValidationError(m) && m == "Aggregate ID is required"@),
            self.event_type matches Some(t) ==> (self.aggregate_id is Some && is_blank(t@) ==> (
            r matches Err(e) && e@ == EventErrorV::InvalidEventType(t@))),
            self.event_type matches Some(t) ==> (self.aggregate_id matches Some(a) ==> (!is_blank(
                t@,
            ) && is_blank(a@) ==> (r matches Err(e) && e@ == EventErrorV::InvalidAggregateId(a@)))),
            self.event_type matches Some(t) ==> (self.aggregate_id matches Some(a) ==> (!is_blank(
                t@,
            ) && !is_blank(a@) && version < 1 ==> (r matches Err(e) && e@
                == EventErrorV::InvalidVersion { expected: 1, got: version }))),
            r matches Ok(e) ==> ((self.event_type matches Some(t) ==> e.event_type@ == t@) && (
            self.aggregate_id matches Some(a) ==> e.aggregate_id@ == a@) && e.payload@
                == self.payload@ && e.version == version && e.id@.len() > 0 && e.timestamp >= 0),
    {
        let event_type = match self.event_type {
            Some(t) => t,
            None => {
                return Err(
                    EventError::ValidationError(String::from_str("Event type is required")),
                );
            },
        };
        let aggregate_id = match self.aggregate_id {
            Some(a) => a,
            None => {
                return Err(
                    EventError::ValidationError(String::from_str("Aggregate ID is required")),
                );
            },
        };

        if str_is_blank(event_type.as_str()) {
            return Err(EventError::InvalidEventType(event_type));
        }
        if str_is_blank(aggregate_id.as_str()) {
            return Err(EventError::InvalidAggregateId(aggregate_id));
        }
        if version < 1 {
            return Err(EventError::InvalidVersion { expected: 1, got: version });
        }

        Ok(
            Event {
                id: generate_event_id(),
                event_type,
                aggregate_id,
                payload: self.payload,
                timestamp: current_timestamp(),
                version,
            },
        )
    }
}

impl Default for EventBuilder {
    fn default() -> (r: Self)
        ensures
            r.event_type is None,
            r.aggregate_id is None,
            r.payload@ == ValueV::Null,
    {
        EventBuilder::new()
    }
}

} // verus!
