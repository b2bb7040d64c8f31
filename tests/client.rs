use aw_client_rust::{
    check_status, checked_body, decimal, event_count, form_encode_str, parse_count, AwClient,
    Body, BucketMetadata, ClientError, Method, Timestamp,
};

fn client() -> AwClient {
    AwClient::new("localhost", 5600, "test-client").unwrap()
}

#[test]
fn new_builds_base_url() {
    let c = client();
    assert_eq!(c.baseurl, "http://localhost:5600");
    assert_eq!(c.name, "test-client");
}

#[test]
fn new_keeps_default_http_port() {
    let c = AwClient::new("127.0.0.1", 80, "x").unwrap();
    assert_eq!(c.baseurl, "http://127.0.0.1:80");
}

#[test]
fn new_rejects_invalid_host() {
    let r = AwClient::new("bad host", 5600, "x");
    assert_eq!(r.err(), Some(ClientError::Url));
}

#[test]
fn bucket_paths() {
    let c = client();
    let r = c.get_bucket("aw-watcher-window_host");
    assert_eq!(r.method, Method::Get);
    assert_eq!(r.url, "http://localhost:5600/api/0/buckets/aw-watcher-window_host");
    assert!(matches!(r.body, Body::Empty));
    let r = c.delete_bucket("b1");
    assert_eq!(r.method, Method::Delete);
    assert_eq!(r.url, "http://localhost:5600/api/0/buckets/b1");
    let r = c.get_buckets();
    assert_eq!(r.url, "http://localhost:5600/api/0/buckets/");
    let r = c.get_info();
    assert_eq!(r.url, "http://localhost:5600/api/0/info");
}

#[test]
fn event_paths() {
    let c = client();
    assert_eq!(
        c.get_event_count("b1").url,
        "http://localhost:5600/api/0/buckets/b1/events/count"
    );
    let r = c.delete_event("b1", 42);
    assert_eq!(r.method, Method::Delete);
    assert_eq!(r.url, "http://localhost:5600/api/0/buckets/b1/events/42");
    let r = c.delete_event("b1", -7);
    assert_eq!(r.url, "http://localhost:5600/api/0/buckets/b1/events/-7");
    let r = c.delete_event("b1", i64::MIN);
    assert_eq!(
        r.url,
        "http://localhost:5600/api/0/buckets/b1/events/-9223372036854775808"
    );
}

#[test]
fn events_query_none() {
    let r = client().get_events("b1", None, None, None);
    assert_eq!(r.method, Method::Get);
    assert_eq!(r.url, "http://localhost:5600/api/0/buckets/b1/events");
}

#[test]
fn events_query_limit_only() {
    let r = client().get_events("b1", None, None, Some(100));
    assert_eq!(r.url, "http://localhost:5600/api/0/buckets/b1/events?limit=100");
}

#[test]
fn events_query_all() {
    let start = Timestamp::new(1_577_836_800, 0).unwrap();
    let end = Timestamp::new(1_577_923_200, 500_000_000).unwrap();
    let r = client().get_events("b1", Some(start), Some(end), Some(5));
    assert_eq!(
        r.url,
        "http://localhost:5600/api/0/buckets/b1/events?start=2020-01-01T00%3A00%3A00%2B00%3A00&end=2020-01-02T00%3A00%3A00.500%2B00%3A00&limit=5"
    );
}

#[test]
fn events_query_end_only() {
    let end = Timestamp::new(0, 0).unwrap();
    let r = client().get_events("b1", None, Some(end), None);
    assert_eq!(
        r.url,
        "http://localhost:5600/api/0/buckets/b1/events?end=1970-01-01T00%3A00%3A00%2B00%3A00"
    );
}

#[test]
fn timestamp_range() {
    assert!(Timestamp::new(aw_client_rust::MAX_SECS, 999_999_999).is_some());
    assert!(Timestamp::new(aw_client_rust::MAX_SECS + 1, 0).is_none());
    assert!(Timestamp::new(aw_client_rust::MIN_SECS - 1, 0).is_none());
    assert!(Timestamp::new(0, 1_000_000_000).is_none());
}

#[test]
fn insert_event_matches_single_insert() {
    let c = client();
    let e = br#"{"timestamp":"2020-01-01T00:00:00Z","duration":1.0,"data":{}}"#.to_vec();
    let one = c.insert_event("b1", &e);
    let many = c.insert_events("b1", vec![e.clone()]);
    assert_eq!(one.method, Method::Post);
    assert_eq!(one.url, many.url);
    assert_eq!(one.url, "http://localhost:5600/api/0/buckets/b1/events");
    match (one.body, many.body) {
        (Body::Json(a), Body::Json(b)) => {
            assert_eq!(a, b);
            let mut expected = b"[".to_vec();
            expected.extend_from_slice(&e);
            expected.push(b']');
            assert_eq!(a, expected);
        }
        _ => panic!("expected JSON bodies"),
    }
}

#[test]
fn insert_events_frames_array() {
    let r = client().insert_events("b1", vec![b"1".to_vec(), b"{}".to_vec(), b"3".to_vec()]);
    match r.body {
        Body::Json(b) => assert_eq!(b, b"[1,{},3]".to_vec()),
        _ => panic!("expected a JSON body"),
    }
    let r = client().insert_events("b1", vec![]);
    match r.body {
        Body::Json(b) => assert_eq!(b, b"[]".to_vec()),
        _ => panic!("expected a JSON body"),
    }
}

#[test]
fn heartbeat_url_and_body() {
    let r = client().heartbeat("b1", b"{}".to_vec(), "60");
    assert_eq!(r.method, Method::Post);
    assert_eq!(
        r.url,
        "http://localhost:5600/api/0/buckets/b1/heartbeat?pulsetime=60"
    );
    match r.body {
        Body::Json(b) => assert_eq!(b, b"{}".to_vec()),
        _ => panic!("expected a JSON body"),
    }
}

#[test]
fn create_bucket_simple_defaults() {
    let c = client();
    let r = c.create_bucket_simple("test", "test-type");
    assert_eq!(r.method, Method::Post);
    assert_eq!(r.url, "http://localhost:5600/api/0/buckets/test");
    match r.body {
        Body::Bucket(b) => {
            assert_eq!(b.id, "test");
            assert_eq!(b._type, "test-type");
            assert_eq!(b.client, "test-client");
            assert_eq!(b.hostname, c.hostname);
            assert_eq!(b.data, "{}");
            assert_eq!(b.metadata, BucketMetadata { start: None, end: None });
            assert!(b.events.is_none());
            assert!(b.created.is_none());
            assert!(b.last_updated.is_none());
            assert!(b.bid.is_none());
        }
        _ => panic!("expected a bucket body"),
    }
}

#[test]
fn get_bucket_404_is_status_error() {
    let r = checked_body(404, b"<html>Not Found</html>".to_vec());
    assert_eq!(r, Err(ClientError::HttpStatus(404)));
    let r = checked_body(200, b"{}".to_vec());
    assert_eq!(r, Ok(b"{}".to_vec()));
}

#[test]
fn status_bounds() {
    assert_eq!(check_status(200), Ok(()));
    assert_eq!(check_status(299), Ok(()));
    assert_eq!(check_status(199), Err(ClientError::HttpStatus(199)));
    assert_eq!(check_status(300), Err(ClientError::HttpStatus(300)));
    assert_eq!(check_status(500), Err(ClientError::HttpStatus(500)));
}

#[test]
fn count_parses() {
    assert_eq!(parse_count("42"), Ok(42));
    assert_eq!(parse_count("+7"), Ok(7));
    assert_eq!(parse_count("-3"), Ok(-3));
    assert_eq!(parse_count("0"), Ok(0));
    assert_eq!(parse_count("9223372036854775807"), Ok(i64::MAX));
    assert_eq!(parse_count("-9223372036854775808"), Ok(i64::MIN));
}

#[test]
fn count_malformed() {
    for text in ["abc", "", "-", "+", "4 2", "42a", "9223372036854775808", "-9223372036854775809", "99999999999999999999999"] {
        assert_eq!(parse_count(text), Err(ClientError::MalformedCount), "{text}");
    }
}

#[test]
fn event_count_trims_and_checks_status() {
    assert_eq!(event_count(200, "42"), Ok(42));
    assert_eq!(event_count(200, " 42\n"), Ok(42));
    assert_eq!(event_count(200, "abc"), Err(ClientError::MalformedCount));
    assert_eq!(event_count(404, "42"), Err(ClientError::HttpStatus(404)));
}

#[test]
fn decimal_text() {
    assert_eq!(decimal(0), "0");
    assert_eq!(decimal(5600), "5600");
    assert_eq!(decimal(u64::MAX), "18446744073709551615");
}

#[test]
fn form_encoding() {
    assert_eq!(form_encode_str("a-b_c.d*e"), "a-b_c.d*e");
    assert_eq!(form_encode_str("a b"), "a+b");
    assert_eq!(form_encode_str("12:00+01"), "12%3A00%2B01");
    assert_eq!(form_encode_str("é"), "%C3%A9");
    assert_eq!(form_encode_str("€"), "%E2%82%AC");
    assert_eq!(form_encode_str("😀"), "%F0%9F%98%80");
}

#[test]
fn bucket_json_round_trip() {
    let c = client();
    let b = c.simple_bucket("test", "test-type");
    let sent = aw_models::Bucket {
        bid: b.bid,
        id: b.id.clone(),
        _type: b._type.clone(),
        client: b.client.clone(),
        hostname: b.hostname.clone(),
        created: None,
        data: serde_json::from_str(&b.data).unwrap(),
        metadata: aw_models::BucketMetadata::default(),
        events: None,
        last_updated: None,
    };
    let text = serde_json::to_string(&sent).unwrap();
    let back: aw_models::Bucket = serde_json::from_str(&text).unwrap();
    assert_eq!(back.id, "test");
    assert_eq!(back._type, "test-type");
    assert_eq!(back.client, b.client);
    assert_eq!(back.hostname, b.hostname);
    assert_eq!(back.data, sent.data);
    assert!(back.metadata.start.is_none() && back.metadata.end.is_none());
    assert!(back.events.is_none());
}
