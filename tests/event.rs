use panacea::event::{new, Event, EventError, Timestamp};
use panacea::headers::Headers;
use panacea::outbox::{new_row, EventRow, StoreError};

#[test]
fn new_fills_defaults() {
    let e = new("users", None, &"data", None);
    assert_eq!(e.topic, "users");
    assert_eq!(e.key, Some(String::new()));
    assert_eq!(e.payload, b"data".to_vec());
    assert!(e.headers == Headers::new());
    assert_eq!(e.created_at, Timestamp::epoch());
}

#[test]
fn new_takes_key_headers_and_any_bytes() {
    let mut h = Headers::new();
    h.insert("answer".to_string(), "42".to_string());
    let e = new("t", Some("420"), &vec![1u8, 2, 3], Some(h.clone()));
    assert_eq!(e.key, Some("420".to_string()));
    assert_eq!(e.payload, vec![1u8, 2, 3]);
    assert!(e.headers == h);
    let bytes: &[u8] = &[9u8, 8];
    assert_eq!(new("t", None, &bytes, None).payload, vec![9u8, 8]);
    assert_eq!(new("t", None, &"é".to_string(), None).payload, vec![0xC3u8, 0xA9]);
}

#[test]
fn default_event_is_empty() {
    let e = Event::default();
    assert_eq!(e.topic, "");
    assert_eq!(e.key, None);
    assert!(e.payload.is_empty());
    assert_eq!(e.created_at, Timestamp { secs: 0, nanos: 0 });
}

fn row(headers: &str) -> EventRow {
    EventRow {
        id: 7,
        topic: "users".to_string(),
        key: Some("k".to_string()),
        payload: vec![1, 2],
        headers: headers.to_string(),
        created_at: Timestamp { secs: 1_700_000_000, nanos: 5 },
        is_delivered: false,
    }
}

#[test]
fn row_reads_back_as_event() {
    let e = Event::from_row(row("{\"event\":\"user_created\"}")).unwrap();
    assert_eq!(e.topic, "users");
    assert_eq!(e.key, Some("k".to_string()));
    assert_eq!(e.payload, vec![1, 2]);
    assert_eq!(e.created_at, Timestamp { secs: 1_700_000_000, nanos: 5 });
    assert_eq!(e.headers.get(&"event".to_string()), Some(&"user_created".to_string()));
}

#[test]
fn row_with_malformed_headers_is_refused() {
    let r = Event::from_row(row("{broken"));
    assert!(matches!(r, Err(EventError::MalformedHeaders(_))));
}

#[test]
fn new_row_encodes_headers_and_key() {
    let mut h = Headers::new();
    h.insert("event".to_string(), "user_created".to_string());
    let r = new_row(new("users", None, &"data", Some(h))).unwrap();
    assert_eq!(r.topic, "users");
    assert_eq!(r.key, "");
    assert_eq!(r.payload, b"data".to_vec());
    assert_eq!(r.headers, "{\"event\":\"user_created\"}");
    let stored = Event::from_row(EventRow {
        id: 1,
        topic: r.topic,
        key: Some(r.key),
        payload: r.payload,
        headers: r.headers,
        created_at: Timestamp::epoch(),
        is_delivered: false,
    })
    .unwrap();
    assert_eq!(stored.headers.get(&"event".to_string()), Some(&"user_created".to_string()));
}

#[test]
fn new_row_keeps_key_of_event() {
    let mut e = Event::default();
    e.key = Some("420".to_string());
    let r = new_row(e).unwrap();
    assert_eq!(r.key, "420");
    assert_eq!(r.headers, "{}");
}

#[test]
fn row_with_encoding_error_is_refused() {
    let err = serde_json::from_str::<String>("not json").unwrap_err();
    let r = panacea::outbox::row_with_headers(Event::default(), Err(err));
    assert!(matches!(r, Err(StoreError::HeadersEncoding(_))));
    let ok = panacea::outbox::row_with_headers(Event::default(), Ok("{\"a\":\"b\"}".to_string())).unwrap();
    assert_eq!(ok.headers, "{\"a\":\"b\"}");
    assert_eq!(ok.key, "");
}

#[test]
fn row_with_decoding_error_is_refused() {
    let err = serde_json::from_str::<String>("{").unwrap_err();
    let r = Event::from_row_with(row("{}"), Err(err));
    assert!(matches!(r, Err(EventError::MalformedHeaders(_))));
    let mut h = Headers::new();
    h.insert("x".to_string(), "y".to_string());
    let e = Event::from_row_with(row("ignored"), Ok(h.clone())).unwrap();
    assert!(e.headers == h);
    assert_eq!(e.topic, "users");
}

#[test]
fn cloned_event_is_equal() {
    let mut h = Headers::new();
    h.insert("event".to_string(), "user_created".to_string());
    let e = new("users", Some("7"), &"data", Some(h));
    let c = e.clone();
    assert_eq!(c.topic, e.topic);
    assert_eq!(c.key, e.key);
    assert_eq!(c.payload, e.payload);
    assert!(c.headers == e.headers);
    assert_eq!(c.created_at, e.created_at);
}
