//! The values written to the outbox table for an event, and its rows.
use vstd::prelude::*;

use crate::event::{Event, Timestamp};
use crate::headers::json_of_headers;

verus! {

/// A stored outbox row, as read back.
#[derive(Debug)]
pub struct EventRow {
    pub id: i64,
    pub topic: String,
    pub key: Option<String>,
    pub payload: Vec<u8>,
    pub headers: String,
    pub created_at: Timestamp,
    pub is_delivered: bool,
}

/// The values written for one event into a new outbox row; the store assigns
/// the identity and the creation time.
#[derive(Debug)]
pub struct NewRow {
    pub topic: String,
    pub key: String,
    pub payload: Vec<u8>,
    pub headers: String,
}

/// Why an event could not be stored.
#[derive(Debug)]
pub enum StoreError {
    /// The headers could not be written as JSON.
    HeadersEncoding(serde_json::Error),
}

/// The key written for an event: its own, or the empty key.
pub open spec fn key_text(key: Option<String>) -> Seq<char> {
    match key {
        Some(k) => k@,
        None => Seq::<char>::empty(),
    }
}

/// The row to insert for `event`: its topic, its key (empty when it has none),
/// its payload, and its headers as a JSON object.
pub fn new_row(event: Event) -> (r: Result<NewRow, StoreError>)
    ensures
        r is Ok <==> json_of_headers(event.headers@) is Some,
        r matches Ok(row) ==> row.topic == event.topic && row.payload == event.payload
            && row.key@ == key_text(event.key) && json_of_headers(event.headers@) == Some(row.headers@),
        r matches Err(e) ==> e is HeadersEncoding,
{
    let headers = event.headers.to_json();
    row_with_headers(event, headers)
}

/// The row to insert for `event`, given what became of writing its headers
/// as JSON: the row when that succeeded, the encoding error otherwise.
pub fn row_with_headers(event: Event, headers: Result<String, serde_json::Error>) -> (r: Result<NewRow, StoreError>)
    ensures
        r is Ok <==> headers is Ok,
        r matches Ok(row) ==> row.topic == event.topic && row.payload == event.payload
            && row.key@ == key_text(event.key) && headers == Ok::<String, serde_json::Error>(row.headers),
        r matches Err(e) ==> e is HeadersEncoding && headers == Err::<String, serde_json::Error>(e->HeadersEncoding_0),
{
    match headers {
        Ok(headers) => {
            let key = match event.key {
                Some(k) => k,
                None => String::new(),
            };
            Ok(NewRow { topic: event.topic, key, payload: event.payload, headers })
        },
        Err(e) => Err(StoreError::HeadersEncoding(e)),
    }
}

} // verus!
