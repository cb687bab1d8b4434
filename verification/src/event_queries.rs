//! Request checks of the event endpoints: which events `GET /api/events`
//! reads, and the identifiers in event and task paths.

use vstd::prelude::*;

use crate::ids::{parse_ulid, parse_utc, ulid_error_text, ulid_value, utc_parse, UlidError};
use crate::text::{concat2, trim, trim_str};

verus! {

/// Query parameters of `GET /api/events`.
#[derive(Debug, Clone, PartialEq, Eq)]
pub struct EventsQuery {
    /// Filter events by task id (ULID text).
    pub task_id: Option<String>,
    /// Filter events since this RFC 3339 time.
    pub since: Option<String>,
}

/// Which events a query reads.
#[derive(Debug, Clone, Copy, PartialEq, Eq)]
pub enum EventsSelection {
    /// The events of one task, by ULID value.
    ForTask(u128),
    /// The events at or after an instant (seconds and nanoseconds since the
    /// Unix epoch).
    Since(i64, u32),
    /// Every event.
    All,
}

/// Why a query was refused (answered with 400).
#[derive(Debug, Clone, PartialEq, Eq)]
pub enum EventsQueryError {
    InvalidTaskId(UlidError),
    InvalidSince(String),
}

/// Message of a refused query.
pub open spec fn events_error_text(e: EventsQueryError) -> Seq<char> {
    match e {
        EventsQueryError::InvalidTaskId(u) => "invalid task_id: "@ + ulid_error_text(u),
        EventsQueryError::InvalidSince(m) => "invalid since timestamp: "@ + m@,
    }
}

impl EventsQueryError {
    /// The error text sent with the 400 answer.
    pub fn message(&self) -> (s: String)
        ensures
            s@ == events_error_text(*self),
    {
        match self {
            EventsQueryError::InvalidTaskId(u) => {
                let t = u.as_str();
                concat2("invalid task_id: ", t.as_str())
            },
            EventsQueryError::InvalidSince(m) => concat2("invalid since timestamp: ", m.as_str()),
        }
    }
}

/// Decide which events `GET /api/events` reads: the `task_id` filter if
/// given (refused when it is not a ULID), else the `since` filter (refused
/// when it is not a date-time), else all events.
pub fn events_selection(q: &EventsQuery) -> (r: Result<EventsSelection, EventsQueryError>)
    ensures
        match q.task_id {
            Some(t) => match ulid_value(t@) {
                Some(v) => r == Ok::<EventsSelection, EventsQueryError>(EventsSelection::ForTask(v)),
                None => r == Err::<EventsSelection, EventsQueryError>(
                    EventsQueryError::InvalidTaskId(
                        if vstd::utf8::encode_utf8(t@).len() != 26 {
                            UlidError::InvalidLength
                        } else {
                            UlidError::InvalidChar
                        },
                    ),
                ),
            },
            None => match q.since {
                Some(s) => match utc_parse(s@) {
                    Ok((secs, nanos)) => r == Ok::<EventsSelection, EventsQueryError>(
                        EventsSelection::Since(secs, nanos),
                    ),
                    Err(m) => r matches Err(EventsQueryError::InvalidSince(x)) && x@ == m,
                },
                None => r == Ok::<EventsSelection, EventsQueryError>(EventsSelection::All),
            },
        },
{
    match &q.task_id {
        Some(t) => match parse_ulid(t.as_str()) {
            Ok(v) => Ok(EventsSelection::ForTask(v)),
            Err(e) => Err(EventsQueryError::InvalidTaskId(e)),
        },
        None => match &q.since {
            Some(s) => match parse_utc(s.as_str()) {
                Ok((secs, nanos)) => Ok(EventsSelection::Since(secs, nanos)),
                Err(m) => Err(EventsQueryError::InvalidSince(m)),
            },
            None => Ok(EventsSelection::All),
        },
    }
}

/// Message for an event id that is not a ULID.
pub open spec fn invalid_event_id_text(e: UlidError) -> Seq<char> {
    "invalid event id: "@ + ulid_error_text(e)
}

/// Message for a task id that is not a ULID.
pub open spec fn invalid_task_id_text(e: UlidError) -> Seq<char> {
    "invalid task id: "@ + ulid_error_text(e)
}

/// The event id of `GET /api/events/:id`, taken as it is; a text that is not
/// a ULID is refused with its message.
pub fn parse_event_id(raw: &str) -> (r: Result<u128, String>)
    ensures
        match ulid_value(raw@) {
            Some(v) => r == Ok::<u128, String>(v),
            None => r matches Err(m) && m@ == invalid_event_id_text(
                if vstd::utf8::encode_utf8(raw@).len() != 26 {
                    UlidError::InvalidLength
                } else {
                    UlidError::InvalidChar
                },
            ),
        },
{
    match parse_ulid(raw) {
        Ok(v) => Ok(v),
        Err(e) => {
            let t = e.as_str();
            Err(concat2("invalid event id: ", t.as_str()))
        },
    }
}

/// The task id of a `/api/tasks/:id` path, trimmed; a text that is not a
/// ULID is refused with its message.
pub fn parse_task_id(raw: &str) -> (r: Result<u128, String>)
    ensures
        match ulid_value(trim(raw@)) {
            Some(v) => r == Ok::<u128, String>(v),
            None => r matches Err(m) && m@ == invalid_task_id_text(
                if vstd::utf8::encode_utf8(trim(raw@)).len() != 26 {
                    UlidError::InvalidLength
                } else {
                    UlidError::InvalidChar
                },
            ),
        },
{
    let t = trim_str(raw);
    match parse_ulid(t.as_str()) {
        Ok(v) => Ok(v),
        Err(e) => {
            let m = e.as_str();
            Err(concat2("invalid task id: ", m.as_str()))
        },
    }
}

} // verus!
