//! The event value, and the event read back from its stored row.
use vstd::prelude::*;
use vstd::utf8::encode_utf8;

use crate::headers::{headers_of_json, Headers};
use crate::outbox::EventRow;

verus! {

/// Types that can be represented as a reference to a bytes array.
pub trait AsBytesRef {
    /// The bytes that the value stands for.
    spec fn bytes_view(&self) -> Seq<u8>;

    fn as_bytes_ref(&self) -> (r: &[u8])
        ensures
            r@ == self.bytes_view(),
    ;
}

impl AsBytesRef for String {
    open spec fn bytes_view(&self) -> Seq<u8> {
        encode_utf8(self@)
    }

    fn as_bytes_ref(&self) -> (r: &[u8]) {
        self.as_str().as_bytes()
    }
}

impl<'a> AsBytesRef for &'a str {
    open spec fn bytes_view(&self) -> Seq<u8> {
        encode_utf8((*self)@)
    }

    fn as_bytes_ref(&self) -> (r: &[u8]) {
        (*self).as_bytes()
    }
}

impl<'a> AsBytesRef for &'a [u8] {
    open spec fn bytes_view(&self) -> Seq<u8> {
        (*self)@
    }

    fn as_bytes_ref(&self) -> (r: &[u8]) {
        *self
    }
}

impl AsBytesRef for Vec<u8> {
    open spec fn bytes_view(&self) -> Seq<u8> {
        self@
    }

    fn as_bytes_ref(&self) -> (r: &[u8]) {
        self.as_slice()
    }
}

/// A point in time, in UTC: whole seconds since the Unix epoch and the
/// nanoseconds past that second.
#[derive(Clone, Copy, Debug, PartialEq, Eq, Structural)]
pub struct Timestamp {
    pub secs: i64,
    pub nanos: u32,
}

impl Timestamp {
    /// The Unix epoch.
    pub fn epoch() -> (r: Timestamp)
        ensures
            r.secs == 0,
            r.nanos == 0,
    {
        Timestamp { secs: 0, nanos: 0 }
    }
}

/// Why a stored row could not be read back as an event.
#[derive(Debug)]
pub enum EventError {
    /// The row's headers are not a JSON object of strings.
    MalformedHeaders(serde_json::Error),
}

/// A unit of business information to be dispatched or persisted.
#[derive(Debug)]
pub struct Event {
    pub topic: String,
    pub key: Option<String>,
    pub payload: Vec<u8>,
    pub headers: Headers,
    pub created_at: Timestamp,
}

impl Clone for Event {
    fn clone(&self) -> (r: Event)
        ensures
            r.topic@ == self.topic@,
            r.key == self.key,
            r.payload@ == self.payload@,
            r.headers@ == self.headers@,
            r.created_at == self.created_at,
    {
        let key = match &self.key {
            Some(k) => Some(k.clone()),
            None => None,
        };
        Event {
            topic: self.topic.clone(),
            key,
            payload: vstd::slice::slice_to_vec(self.payload.as_slice()),
            headers: self.headers.clone(),
            created_at: self.created_at,
        }
    }
}

impl Default for Event {
    fn default() -> (r: Event)
        ensures
            r.topic@ == Seq::<char>::empty(),
            r.key is None,
            r.payload@ == Seq::<u8>::empty(),
            r.headers@ == Map::<Seq<char>, Seq<char>>::empty(),
            r.created_at.secs == 0 && r.created_at.nanos == 0,
    {
        Event {
            topic: String::new(),
            key: None,
            payload: Vec::new(),
            headers: Headers::new(),
            created_at: Timestamp::epoch(),
        }
    }
}

/// Builds an event for `topic`. A missing key becomes the empty key, missing
/// headers become empty headers, and the payload is copied.
pub fn new<P: AsBytesRef>(topic: &str, key: Option<&str>, payload: &P, headers: Option<Headers>) -> (r: Event)
    ensures
        r.topic@ == topic@,
        r.key matches Some(k) && k@ == (match key {
            Some(k) => k@,
            None => Seq::<char>::empty(),
        }),
        r.payload@ == payload.bytes_view(),
        r.headers@ == (match headers {
            Some(h) => h@,
            None => Map::<Seq<char>, Seq<char>>::empty(),
        }),
        r.created_at.secs == 0 && r.created_at.nanos == 0,
{
    let key = match key {
        Some(k) => k.to_owned(),
        None => String::new(),
    };
    let headers = match headers {
        Some(h) => h,
        None => Headers::new(),
    };
    Event {
        topic: topic.to_owned(),
        key: Some(key),
        payload: vstd::slice::slice_to_vec(payload.as_bytes_ref()),
        headers,
        created_at: Timestamp::epoch(),
    }
}

impl Event {
    /// Reads an event back from its stored row: the row's fields carry over,
    /// and its headers text must be a JSON object of strings.
    pub fn from_row(row: EventRow) -> (r: Result<Event, EventError>)
        ensures
            r is Ok <==> headers_of_json(row.headers@) is Some,
            r matches Ok(e) ==> e.topic == row.topic && e.key == row.key && e.payload == row.payload
                && e.created_at == row.created_at && headers_of_json(row.headers@) == Some(e.headers@),
            r matches Err(err) ==> err is MalformedHeaders,
    {
        let headers = Headers::from_json(row.headers.as_str());
        Event::from_row_with(row, headers)
    }

    /// The event of a stored row, given what became of reading the row's
    /// headers: the row's fields with those headers, or the decoding error.
    pub fn from_row_with(row: EventRow, headers: Result<Headers, serde_json::Error>) -> (r: Result<Event, EventError>)
        ensures
            r is Ok <==> headers is Ok,
            r matches Ok(e) ==> e.topic == row.topic && e.key == row.key && e.payload == row.payload
                && e.created_at == row.created_at && headers is Ok && e.headers@ == headers->Ok_0@,
            r matches Err(err) ==> err is MalformedHeaders && headers is Err,
    {
        match headers {
            Ok(headers) => Ok(
                Event {
                    topic: row.topic,
                    key: row.key,
                    payload: row.payload,
                    headers,
                    created_at: row.created_at,
                },
            ),
            Err(e) => Err(EventError::MalformedHeaders(e)),
        }
    }
}

} // verus!
