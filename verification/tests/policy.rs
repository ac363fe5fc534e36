use caje::message::{CacheEntry, CachedRequest, CachedResponse, Header, HttpVersion};
use caje::policy::{
    before_request, request_is_acceptable, response_is_acceptable, should_store, storable,
    time_to_live, Verdict,
};
use caje::time::{Span, Timestamp};

fn header(name: &str, value: &str) -> Header {
    Header { name: name.to_string(), value: value.as_bytes().to_vec() }
}

fn get(uri: &str) -> CachedRequest {
    CachedRequest {
        method: "GET".to_string(),
        uri: uri.to_string(),
        version: HttpVersion::Http11,
        headers: vec![header("host", "slow.coreyja.com")],
        body: Vec::new(),
    }
}

fn ok_with(headers: Vec<Header>, body: &str) -> CachedResponse {
    CachedResponse {
        status_code: 200,
        version: HttpVersion::Http11,
        headers,
        body: body.as_bytes().to_vec(),
    }
}

fn at(secs: u64) -> Timestamp {
    Timestamp { secs, nanos: 0 }
}

fn entry_with(cache_control: &str, cached_at: Timestamp) -> CacheEntry {
    CacheEntry {
        request: get("http://slow.coreyja.com/x"),
        response: ok_with(vec![header("cache-control", cache_control)], "hello"),
        cached_at,
    }
}

#[test]
fn max_age_response_is_storable() {
    let response = ok_with(vec![header("cache-control", "max-age=60")], "hello");
    assert!(storable(&get("http://slow.coreyja.com/x"), &response));
}

#[test]
fn no_store_response_is_not_storable() {
    let response = ok_with(vec![header("cache-control", "no-store")], "a");
    assert!(!storable(&get("http://slow.coreyja.com/y"), &response));
}

#[test]
fn private_response_is_not_storable() {
    let response = ok_with(vec![header("cache-control", "private, max-age=60")], "a");
    assert!(!storable(&get("http://slow.coreyja.com/y"), &response));
}

#[test]
fn bad_header_name_is_not_acceptable() {
    let mut request = get("http://slow.coreyja.com/x");
    assert!(request_is_acceptable(&request));
    request.headers.push(header("bad name", "x"));
    assert!(!request_is_acceptable(&request));
    let response = ok_with(vec![header("cache-control", "max-age=60")], "hello");
    assert!(!storable(&request, &response));
}

#[test]
fn status_beyond_three_digits_is_not_acceptable() {
    let mut response = ok_with(Vec::new(), "");
    assert!(response_is_acceptable(&response));
    response.status_code = 1000;
    assert!(!response_is_acceptable(&response));
}

#[test]
fn time_to_live_counts_down_from_max_age() {
    let entry = entry_with("max-age=60", at(1_700_000_000));
    assert_eq!(time_to_live(&entry, &at(1_700_000_000)), Span { secs: 60, nanos: 0 });
    assert_eq!(time_to_live(&entry, &at(1_700_000_030)), Span { secs: 30, nanos: 0 });
    assert_eq!(
        time_to_live(&entry, &Timestamp { secs: 1_700_000_059, nanos: 750_000_000 }),
        Span { secs: 0, nanos: 250_000_000 }
    );
    assert_eq!(time_to_live(&entry, &at(1_700_000_060)), Span { secs: 0, nanos: 0 });
    assert_eq!(time_to_live(&entry, &at(1_700_000_061)), Span { secs: 0, nanos: 0 });
}

#[test]
fn time_to_live_before_receipt_is_the_full_lifetime() {
    let entry = entry_with("max-age=60", at(1_700_000_000));
    assert_eq!(time_to_live(&entry, &at(1_600_000_000)), Span { secs: 60, nanos: 0 });
}

#[test]
fn age_header_shortens_the_lifetime() {
    let mut entry = entry_with("max-age=60", at(1_700_000_000));
    entry.response.headers.push(header("age", "45"));
    assert_eq!(time_to_live(&entry, &at(1_700_000_000)), Span { secs: 15, nanos: 0 });
    assert_eq!(time_to_live(&entry, &at(1_700_000_010)), Span { secs: 5, nanos: 0 });
}

#[test]
fn fresh_at_an_instant_is_fresh_earlier() {
    let entry = entry_with("max-age=60", at(1_700_000_000));
    let t0 = at(1_700_000_050);
    let t1 = at(1_700_000_020);
    assert_ne!(time_to_live(&entry, &t0), Span { secs: 0, nanos: 0 });
    assert_ne!(time_to_live(&entry, &t1), Span { secs: 0, nanos: 0 });
}

#[test]
fn unreadable_entry_has_no_time_to_live() {
    let mut entry = entry_with("max-age=60", at(1_700_000_000));
    entry.request.method = "G E T".to_string();
    assert_eq!(time_to_live(&entry, &at(1_700_000_000)), Span { secs: 0, nanos: 0 });
}

#[test]
fn store_only_what_is_storable_and_fresh() {
    assert!(should_store(true, &Span { secs: 0, nanos: 1 }));
    assert!(should_store(true, &Span { secs: 60, nanos: 0 }));
    assert!(!should_store(true, &Span { secs: 0, nanos: 0 }));
    assert!(!should_store(false, &Span { secs: 60, nanos: 0 }));
}

#[test]
fn fresh_entry_answers_the_same_request() {
    let entry = entry_with("max-age=60", at(1_700_000_000));
    let request = get("http://slow.coreyja.com/x");
    assert_eq!(before_request(&entry, &request, &at(1_700_000_001)), Verdict::Fresh);
}

#[test]
fn expired_entry_is_stale() {
    let entry = entry_with("max-age=1", at(1_700_000_000));
    let request = get("http://slow.coreyja.com/x");
    assert_eq!(
        before_request(&entry, &request, &at(1_700_000_002)),
        Verdict::Stale { request: request.clone(), matches: true }
    );
}

#[test]
fn stale_verdict_carries_the_conditions_for_revalidation() {
    let mut entry = entry_with("max-age=1", at(1_700_000_000));
    entry.response.headers.push(header("etag", "\"v1\""));
    entry.response.headers.push(header("last-modified", "Tue, 14 Nov 2023 22:00:00 GMT"));
    let mut request = get("http://slow.coreyja.com/x");
    request.headers.push(header("connection", "keep-alive"));
    request.body = b"kept".to_vec();
    request.version = HttpVersion::H2;
    let verdict = before_request(&entry, &request, &at(1_700_000_002));
    let (asked, matches) = match verdict {
        Verdict::Stale { request, matches } => (request, matches),
        other => panic!("expected a stale verdict, got {:?}", other),
    };
    assert!(matches);
    assert_eq!(asked.method, "GET");
    assert_eq!(asked.uri, "http://slow.coreyja.com/x");
    assert_eq!(asked.version, HttpVersion::H2);
    assert_eq!(asked.body, b"kept".to_vec());
    let value_of = |name: &str| {
        asked.headers.iter().find(|h| h.name == name).map(|h| h.value.clone())
    };
    assert_eq!(value_of("host"), Some(b"slow.coreyja.com".to_vec()));
    assert_eq!(value_of("if-none-match"), Some(b"\"v1\"".to_vec()));
    assert_eq!(value_of("if-modified-since"), Some(b"Tue, 14 Nov 2023 22:00:00 GMT".to_vec()));
    assert_eq!(value_of("connection"), None);
}

#[test]
fn other_uri_does_not_match() {
    let entry = entry_with("max-age=60", at(1_700_000_000));
    let request = get("http://slow.coreyja.com/other");
    assert_eq!(
        before_request(&entry, &request, &at(1_700_000_001)),
        Verdict::Stale { request: request.clone(), matches: false }
    );
}

#[test]
fn method_mismatch_is_a_miss() {
    let entry = entry_with("max-age=60", at(1_700_000_000));
    let mut request = get("http://slow.coreyja.com/x");
    request.method = "HEAD".to_string();
    assert_eq!(before_request(&entry, &request, &at(1_700_000_001)), Verdict::Miss);
}

#[test]
fn vary_star_never_matches() {
    let mut entry = entry_with("max-age=60", at(1_700_000_000));
    entry.response.headers.push(header("vary", "*"));
    let request = get("http://slow.coreyja.com/x");
    assert_eq!(before_request(&entry, &request, &at(1_700_000_001)), Verdict::Miss);
    assert_eq!(before_request(&entry, &entry.request, &at(1_700_000_000)), Verdict::Miss);
}

#[test]
fn only_three_methods_and_understood_statuses_are_storable() {
    for (method, expected) in
        [("GET", true), ("HEAD", true), ("PUT", false), ("DELETE", false), ("get", false)]
    {
        let mut request = get("http://slow.coreyja.com/x");
        request.method = method.to_string();
        let response = ok_with(vec![header("cache-control", "max-age=60")], "hello");
        assert_eq!(storable(&request, &response), expected, "method {}", method);
    }
    for (status, expected) in
        [(200u16, true), (301, true), (404, true), (206, false), (500, false), (304, false)]
    {
        let mut response = ok_with(vec![header("cache-control", "max-age=60")], "hello");
        response.status_code = status;
        assert_eq!(storable(&get("http://slow.coreyja.com/x"), &response), expected, "status {}", status);
    }
    let mut post = get("http://slow.coreyja.com/x");
    post.method = "POST".to_string();
    assert!(storable(&post, &ok_with(vec![header("cache-control", "max-age=60")], "hello")));
    assert!(!storable(&post, &ok_with(Vec::new(), "hello")));
}

#[test]
fn authorized_request_is_stored_only_with_leave() {
    let mut request = get("http://slow.coreyja.com/x");
    request.headers.push(header("authorization", "Basic abc"));
    assert!(!storable(&request, &ok_with(vec![header("cache-control", "max-age=60")], "x")));
    assert!(storable(&request, &ok_with(vec![header("cache-control", "public, max-age=60")], "x")));
}

#[test]
fn vary_header_must_be_equal() {
    let mut entry = entry_with("max-age=60", at(1_700_000_000));
    entry.response.headers.push(header("vary", "accept-language"));
    entry.request.headers.push(header("accept-language", "en"));
    let mut same = get("http://slow.coreyja.com/x");
    same.headers.push(header("Accept-Language", "en"));
    assert_eq!(before_request(&entry, &same, &at(1_700_000_001)), Verdict::Fresh);
    let mut other = get("http://slow.coreyja.com/x");
    other.headers.push(header("accept-language", "EN"));
    assert_eq!(
        before_request(&entry, &other, &at(1_700_000_001)),
        Verdict::Stale { request: other.clone(), matches: false }
    );
}

fn many_headers(count: usize) -> Vec<Header> {
    (0..count).map(|i| header(&format!("x-{}", i), "v")).collect()
}

#[test]
fn most_headers_that_are_taken_do_not_fail() {
    // a fresh answer: the stored response's headers are copied and an age
    // and a date are added
    let mut entry = entry_with("max-age=60", at(1_700_000_000));
    entry.response.headers.extend(many_headers(4_095));
    assert_eq!(entry.response.headers.len(), 4_096);
    let request = get("http://slow.coreyja.com/x");
    assert_eq!(before_request(&entry, &request, &at(1_700_000_001)), Verdict::Fresh);
    // a stale answer: the request's headers are copied and the conditions
    // are added
    let mut stale = entry_with("max-age=1", at(1_700_000_000));
    stale.response.headers.push(header("etag", "\"v1\""));
    stale.response.headers.push(header("last-modified", "Tue, 14 Nov 2023 22:00:00 GMT"));
    let mut full = get("http://slow.coreyja.com/x");
    full.headers.extend(many_headers(4_095));
    assert_eq!(full.headers.len(), 4_096);
    match before_request(&stale, &full, &at(1_700_000_002)) {
        Verdict::Stale { request, matches } => {
            assert!(matches);
            assert_eq!(request.headers.len(), 4_098);
        }
        other => panic!("expected a stale verdict, got {:?}", other),
    }
}

#[test]
fn one_header_too_many_is_a_miss() {
    let mut entry = entry_with("max-age=60", at(1_700_000_000));
    entry.response.headers.extend(many_headers(4_096));
    let request = get("http://slow.coreyja.com/x");
    assert_eq!(before_request(&entry, &request, &at(1_700_000_001)), Verdict::Miss);
    let entry = entry_with("max-age=60", at(1_700_000_000));
    let mut full = get("http://slow.coreyja.com/x");
    full.headers.extend(many_headers(4_096));
    assert_eq!(full.headers.len(), 4_097);
    assert_eq!(before_request(&entry, &full, &at(1_700_000_001)), Verdict::Miss);
    let mut near = entry_with("max-age=60", at(1_700_000_000));
    near.response.headers.extend(many_headers(24_574));
    assert_eq!(before_request(&near, &request, &at(1_700_000_001)), Verdict::Miss);
}

#[test]
fn huge_age_header_is_a_miss_and_not_a_failure() {
    let mut entry = entry_with("max-age=60", at(1_700_000_000));
    entry.response.headers.push(header("age", "18446744073709551615"));
    let request = get("http://slow.coreyja.com/x");
    assert_eq!(before_request(&entry, &request, &at(1_700_000_001)), Verdict::Miss);
    assert_eq!(time_to_live(&entry, &at(1_700_000_001)), Span { secs: 0, nanos: 0 });
}
