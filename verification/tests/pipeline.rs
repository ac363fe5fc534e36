use std::collections::HashMap;

use caje::codec::{decode, encode};
use caje::message::{CacheEntry, CachedRequest, CachedResponse, Header, HttpVersion};
use caje::origin::OriginError;
use caje::pipeline::{step, Action, Config, Event, ProxyError, Stage};
use caje::time::Timestamp;

const FROM: &str = "slow.coreyja.com";
const ORIGIN: &str = "slow-server.fly.dev";

struct World {
    blobs: HashMap<String, Vec<u8>>,
    rows: Vec<(String, String)>,
    origin: Option<CachedResponse>,
    origin_calls: usize,
    fetched: Vec<(String, String)>,
    halts: usize,
    unhalts: usize,
    write_fails: bool,
    halt_fails: bool,
    insert_fails: bool,
    trace: Vec<String>,
}

fn world(origin: Option<CachedResponse>) -> World {
    World {
        blobs: HashMap::new(),
        rows: Vec::new(),
        origin,
        origin_calls: 0,
        fetched: Vec::new(),
        halts: 0,
        unhalts: 0,
        write_fails: false,
        halt_fails: false,
        insert_fails: false,
        trace: Vec::new(),
    }
}

fn config(replicated: bool) -> Config {
    Config {
        from_domain: FROM.to_string(),
        origin_domain: ORIGIN.to_string(),
        database_path: if replicated { Some("/data/caje.db".to_string()) } else { None },
        replicated,
    }
}

fn header(name: &str, value: &str) -> Header {
    Header { name: name.to_string(), value: value.as_bytes().to_vec() }
}

fn get(uri: &str) -> CachedRequest {
    CachedRequest {
        method: "GET".to_string(),
        uri: uri.to_string(),
        version: HttpVersion::Http11,
        headers: vec![header("host", FROM), header("accept", "*/*")],
        body: Vec::new(),
    }
}

fn ok(cache_control: &str, body: &str) -> CachedResponse {
    CachedResponse {
        status_code: 200,
        version: HttpVersion::Http11,
        headers: vec![header("cache-control", cache_control), header("content-type", "text/plain")],
        body: body.as_bytes().to_vec(),
    }
}

fn at(secs: u64) -> Timestamp {
    Timestamp { secs, nanos: 0 }
}

/// Runs one request to its end and hands out the last action.
fn serve(w: &mut World, c: &Config, host: &str, request: CachedRequest, now: Timestamp) -> Action {
    let mut event = Event::Arrived { host: host.to_string(), request };
    let mut stage = Stage::Admit;
    loop {
        let (next, action) = step(c, stage, event, &now);
        stage = next;
        event = match action {
            Action::ReadBlob { key } => {
                w.trace.push("read".to_string());
                Event::Blob { bytes: w.blobs.get(&key).cloned() }
            }
            Action::Fetch { method, url, .. } => {
                w.trace.push("fetch".to_string());
                w.origin_calls += 1;
                w.fetched.push((method, url));
                Event::Origin { response: w.origin.clone() }
            }
            Action::WriteBlob { key, bytes } => {
                w.trace.push("write".to_string());
                if w.write_fails {
                    Event::Stored { ok: false }
                } else {
                    w.blobs.insert(key, bytes);
                    Event::Stored { ok: true }
                }
            }
            Action::Halt { database_path } => {
                w.trace.push(format!("halt {}", database_path));
                if w.halt_fails {
                    Event::Halted { ok: false }
                } else {
                    w.halts += 1;
                    Event::Halted { ok: true }
                }
            }
            Action::InsertRow { method, url } => {
                w.trace.push("insert".to_string());
                if w.insert_fails {
                    Event::Indexed { ok: false }
                } else {
                    w.rows.push((method, url));
                    Event::Indexed { ok: true }
                }
            }
            Action::Unhalt => {
                w.trace.push("unhalt".to_string());
                w.unhalts += 1;
                Event::Released { ok: true }
            }
            last => {
                assert_eq!(stage, Stage::Done);
                return last;
            }
        };
    }
}

#[test]
fn cold_miss_then_hit() {
    let c = config(false);
    let mut w = world(Some(ok("max-age=60", "hello")));
    let first = serve(&mut w, &c, FROM, get("http://slow.coreyja.com/x"), at(1_700_000_000));
    assert_eq!(first, Action::Emit { response: ok("max-age=60", "hello") });
    assert_eq!(w.blobs.len(), 1);
    assert_eq!(w.rows.len(), 1);
    assert_eq!(w.origin_calls, 1);
    let second = serve(&mut w, &c, FROM, get("http://slow.coreyja.com/x"), at(1_700_000_000));
    assert_eq!(second, Action::Emit { response: ok("max-age=60", "hello") });
    assert_eq!(w.origin_calls, 1);
    assert_eq!(w.blobs.len(), 1);
    assert_eq!(w.rows.len(), 1);
}

#[test]
fn miss_writes_blob_then_index_row() {
    let c = config(false);
    let mut w = world(Some(ok("max-age=60", "hello")));
    serve(&mut w, &c, FROM, get("http://slow.coreyja.com/x"), at(1_700_000_000));
    assert_eq!(w.trace, vec!["read", "fetch", "write", "insert"]);
    assert_eq!(w.rows, vec![("GET".to_string(), "http://slow.coreyja.com/x".to_string())]);
    let bytes = w.blobs.get("GET@http://slow.coreyja.com/x").expect("blob under the key");
    let entry = decode(bytes).expect("a record");
    assert_eq!(
        entry,
        CacheEntry {
            request: get("http://slow.coreyja.com/x"),
            response: ok("max-age=60", "hello"),
            cached_at: at(1_700_000_000),
        }
    );
}

#[test]
fn miss_asks_the_origin_over_https_for_the_same_path_and_query() {
    let c = config(false);
    let mut w = world(Some(ok("max-age=60", "hello")));
    let mut request = get("http://slow.coreyja.com/a/b?c=d&e=f");
    request.method = "POST".to_string();
    request.body = b"payload".to_vec();
    let (stage, action) = step(
        &c,
        Stage::Lookup { request: request.clone() },
        Event::Blob { bytes: None },
        &at(1_700_000_000),
    );
    assert_eq!(stage, Stage::Fetch { request: request.clone() });
    assert_eq!(
        action,
        Action::Fetch {
            method: "POST".to_string(),
            url: "https://slow-server.fly.dev/a/b?c=d&e=f".to_string(),
            headers: request.headers.clone(),
            body: b"payload".to_vec(),
        }
    );
    serve(&mut w, &c, FROM, get("http://slow.coreyja.com"), at(1_700_000_000));
    assert_eq!(w.fetched, vec![("GET".to_string(), "https://slow-server.fly.dev/".to_string())]);
}

#[test]
fn no_store_never_caches() {
    let c = config(false);
    let mut w = world(Some(ok("no-store", "a")));
    let first = serve(&mut w, &c, FROM, get("http://slow.coreyja.com/y"), at(1_700_000_000));
    assert_eq!(first, Action::Emit { response: ok("no-store", "a") });
    assert_eq!(w.blobs.len(), 0);
    assert_eq!(w.rows.len(), 0);
    let second = serve(&mut w, &c, FROM, get("http://slow.coreyja.com/y"), at(1_700_000_001));
    assert_eq!(second, Action::Emit { response: ok("no-store", "a") });
    assert_eq!(w.origin_calls, 2);
    assert_eq!(w.blobs.len(), 0);
    assert_eq!(w.rows.len(), 0);
}

#[test]
fn word_inside_another_directive_is_no_directive() {
    let c = config(false);
    let mut w = world(Some(ok("max-age=60, ext=\"no-store\"", "a")));
    serve(&mut w, &c, FROM, get("http://slow.coreyja.com/y"), at(1_700_000_000));
    assert_eq!(w.trace, vec!["read", "fetch", "write", "insert"]);
    assert_eq!(w.blobs.len(), 1);
}

#[test]
fn no_store_in_any_case_beside_max_age_is_not_written() {
    let c = config(false);
    let mut w = world(Some(ok("max-age=60, No-Store", "a")));
    serve(&mut w, &c, FROM, get("http://slow.coreyja.com/y"), at(1_700_000_000));
    assert_eq!(w.trace, vec!["read", "fetch"]);
    assert!(w.blobs.is_empty());
}

#[test]
fn host_gating() {
    let c = config(false);
    let mut w = world(Some(ok("max-age=60", "hello")));
    let last = serve(&mut w, &c, "other.example", get("http://other.example/z"), at(1_700_000_000));
    let error = match last {
        Action::Fail { error } => error,
        other => panic!("expected a failure, got {:?}", other),
    };
    assert_eq!(
        error,
        ProxyError::HostNotAllowed {
            found: "other.example".to_string(),
            expected: "slow.coreyja.com".to_string(),
        }
    );
    assert_eq!(error.status(), 421);
    assert!(error.message().contains("other.example"));
    assert!(error.message().contains("slow.coreyja.com"));
    assert_eq!(
        error.message(),
        "We only proxy requests to the specified domain. Found: other.example Expected: slow.coreyja.com"
    );
    assert!(w.trace.is_empty());
    assert!(w.blobs.is_empty());
    assert!(w.rows.is_empty());
    assert_eq!(w.origin_calls, 0);
}

#[test]
fn host_with_port_is_admitted() {
    let c = config(false);
    let mut w = world(Some(ok("max-age=60", "hello")));
    let last = serve(&mut w, &c, "slow.coreyja.com:3001", get("http://slow.coreyja.com/x"), at(5));
    assert_eq!(last, Action::Emit { response: ok("max-age=60", "hello") });
}

#[test]
fn expiry() {
    let c = config(false);
    let mut w = world(Some(ok("max-age=1", "one")));
    serve(&mut w, &c, FROM, get("http://slow.coreyja.com/x"), at(1_700_000_000));
    assert_eq!(w.origin_calls, 1);
    let before = w.blobs.get("GET@http://slow.coreyja.com/x").cloned().expect("cached");
    w.origin = Some(ok("max-age=1", "two"));
    let second = serve(&mut w, &c, FROM, get("http://slow.coreyja.com/x"), at(1_700_000_002));
    assert_eq!(second, Action::Emit { response: ok("max-age=1", "two") });
    assert_eq!(w.origin_calls, 2);
    assert_eq!(w.blobs.len(), 1);
    let after = w.blobs.get("GET@http://slow.coreyja.com/x").cloned().expect("cached");
    assert_ne!(before, after);
    let entry = decode(&after).expect("a record");
    assert_eq!(entry.cached_at, at(1_700_000_002));
    assert_eq!(entry.response.body, b"two".to_vec());
}

#[test]
fn clearing_the_index_leaves_the_store_servable() {
    let c = config(false);
    let mut w = world(Some(ok("max-age=60", "hello")));
    serve(&mut w, &c, FROM, get("http://slow.coreyja.com/x"), at(1_700_000_000));
    let blobs = w.blobs.clone();
    w.rows.clear();
    assert_eq!(w.blobs, blobs);
    let again = serve(&mut w, &c, FROM, get("http://slow.coreyja.com/x"), at(1_700_000_010));
    assert_eq!(again, Action::Emit { response: ok("max-age=60", "hello") });
    assert_eq!(w.origin_calls, 1);
    assert!(w.rows.is_empty());
}

#[test]
fn clear_isolation() {
    let c = config(false);
    let mut w = world(Some(ok("max-age=60", "hello")));
    serve(&mut w, &c, FROM, get("http://slow.coreyja.com/x"), at(1_700_000_000));
    let blobs = w.blobs.clone();
    w.rows.clear();
    assert_eq!(w.blobs, blobs);
    assert!(w.rows.is_empty());
    w.blobs.clear();
    assert!(w.blobs.is_empty());
    serve(&mut w, &c, FROM, get("http://slow.coreyja.com/x"), at(1_700_000_010));
    assert_eq!(w.origin_calls, 2);
}

#[test]
fn replicated_write_halts_and_unhalts_once() {
    let c = config(true);
    let mut w = world(Some(ok("max-age=60", "hello")));
    let last = serve(&mut w, &c, FROM, get("http://slow.coreyja.com/x"), at(1_700_000_000));
    assert_eq!(last, Action::Emit { response: ok("max-age=60", "hello") });
    assert_eq!(w.trace, vec!["read", "fetch", "write", "halt /data/caje.db", "insert", "unhalt"]);
    assert_eq!((w.halts, w.unhalts), (1, 1));
    assert_eq!(w.rows.len(), 1);
}

#[test]
fn failed_insert_still_unhalts_and_emits() {
    let c = config(true);
    let mut w = world(Some(ok("max-age=60", "hello")));
    w.insert_fails = true;
    let last = serve(&mut w, &c, FROM, get("http://slow.coreyja.com/x"), at(1_700_000_000));
    assert_eq!(last, Action::Emit { response: ok("max-age=60", "hello") });
    assert_eq!((w.halts, w.unhalts), (1, 1));
    assert_eq!(w.blobs.len(), 1);
    assert!(w.rows.is_empty());
}

#[test]
fn refused_lock_skips_the_index_write() {
    let c = config(true);
    let mut w = world(Some(ok("max-age=60", "hello")));
    w.halt_fails = true;
    let last = serve(&mut w, &c, FROM, get("http://slow.coreyja.com/x"), at(1_700_000_000));
    assert_eq!(last, Action::Emit { response: ok("max-age=60", "hello") });
    assert_eq!(w.trace, vec!["read", "fetch", "write", "halt /data/caje.db"]);
    assert_eq!((w.halts, w.unhalts), (0, 0));
    assert_eq!(w.blobs.len(), 1);
    assert!(w.rows.is_empty());
}

#[test]
fn replication_flag_without_database_path_takes_no_lock() {
    let mut c = config(true);
    c.database_path = None;
    let mut w = world(Some(ok("max-age=60", "hello")));
    serve(&mut w, &c, FROM, get("http://slow.coreyja.com/x"), at(1_700_000_000));
    assert_eq!(w.trace, vec!["read", "fetch", "write", "insert"]);
}

#[test]
fn failed_blob_write_emits_and_leaves_the_index_alone() {
    let c = config(true);
    let mut w = world(Some(ok("max-age=60", "hello")));
    w.write_fails = true;
    let last = serve(&mut w, &c, FROM, get("http://slow.coreyja.com/x"), at(1_700_000_000));
    assert_eq!(last, Action::Emit { response: ok("max-age=60", "hello") });
    assert_eq!(w.trace, vec!["read", "fetch", "write"]);
    assert!(w.rows.is_empty());
}

#[test]
fn unreachable_origin_fails_without_a_cache_write() {
    let c = config(false);
    let mut w = world(None);
    let last = serve(&mut w, &c, FROM, get("http://slow.coreyja.com/x"), at(1_700_000_000));
    assert_eq!(last, Action::Fail { error: ProxyError::OriginUnreachable });
    assert_eq!(ProxyError::OriginUnreachable.status(), 502);
    assert_eq!(ProxyError::OriginUnreachable.message(), "Request failed");
    assert!(w.blobs.is_empty());
    assert!(w.rows.is_empty());
}

#[test]
fn unreachable_origin_does_not_fall_back_to_a_stale_entry() {
    let c = config(false);
    let mut w = world(Some(ok("max-age=1", "one")));
    serve(&mut w, &c, FROM, get("http://slow.coreyja.com/x"), at(1_700_000_000));
    w.origin = None;
    let last = serve(&mut w, &c, FROM, get("http://slow.coreyja.com/x"), at(1_700_000_005));
    assert_eq!(last, Action::Fail { error: ProxyError::OriginUnreachable });
}

#[test]
fn malformed_blob_is_a_miss() {
    let c = config(false);
    let mut w = world(Some(ok("max-age=60", "hello")));
    w.blobs.insert("GET@http://slow.coreyja.com/x".to_string(), vec![1, 2, 3]);
    let last = serve(&mut w, &c, FROM, get("http://slow.coreyja.com/x"), at(1_700_000_000));
    assert_eq!(last, Action::Emit { response: ok("max-age=60", "hello") });
    assert_eq!(w.origin_calls, 1);
    assert!(decode(w.blobs.get("GET@http://slow.coreyja.com/x").unwrap()).is_ok());
}

#[test]
fn entry_of_another_method_under_the_same_key_is_a_miss() {
    let c = config(false);
    let mut w = world(Some(ok("max-age=60", "fresh")));
    let mut stored = get("http://slow.coreyja.com/x");
    stored.method = "get".to_string();
    let entry = CacheEntry {
        request: stored,
        response: ok("max-age=60", "old"),
        cached_at: at(1_700_000_000),
    };
    w.blobs.insert("GET@http://slow.coreyja.com/x".to_string(), encode(&entry));
    let last = serve(&mut w, &c, FROM, get("http://slow.coreyja.com/x"), at(1_700_000_001));
    assert_eq!(last, Action::Emit { response: ok("max-age=60", "fresh") });
    assert_eq!(w.origin_calls, 1);
}

#[test]
fn uri_that_is_no_uri_fails_before_the_origin_is_asked() {
    let c = config(false);
    let mut w = world(Some(ok("max-age=60", "hello")));
    let last = serve(&mut w, &c, FROM, get("http://slow.coreyja.com/a b"), at(1_700_000_000));
    assert_eq!(
        last,
        Action::Fail { error: ProxyError::NoOriginUrl { reason: OriginError::InvalidUri } }
    );
    assert_eq!(w.origin_calls, 0);
    let error = ProxyError::NoOriginUrl { reason: OriginError::InvalidUri };
    assert_eq!(error.status(), 400);
    assert_eq!(error.message(), "Could not build url");
}

#[test]
fn response_with_a_status_out_of_range_is_emitted_and_not_written() {
    let c = config(false);
    let mut odd = ok("max-age=60", "hello");
    odd.status_code = 600;
    let mut w = world(Some(odd.clone()));
    let last = serve(&mut w, &c, FROM, get("http://slow.coreyja.com/x"), at(1_700_000_000));
    assert_eq!(last, Action::Emit { response: odd });
    assert!(w.blobs.is_empty());
}

#[test]
fn events_out_of_turn_end_the_request() {
    let c = config(false);
    let now = at(1_700_000_000);
    let refused = (Stage::Done, Action::Fail { error: ProxyError::OutOfTurn });
    assert_eq!(step(&c, Stage::Admit, Event::Stored { ok: true }, &now), refused);
    assert_eq!(step(&c, Stage::Done, Event::Blob { bytes: None }, &now), refused);
    let lookup = Stage::Lookup { request: get("http://slow.coreyja.com/x") };
    assert_eq!(step(&c, lookup, Event::Halted { ok: true }, &now), refused);
    let fetch = Stage::Fetch { request: get("http://slow.coreyja.com/x") };
    assert_eq!(step(&c, fetch, Event::Indexed { ok: true }, &now), refused);
    assert_eq!(ProxyError::OutOfTurn.status(), 500);
    assert_eq!(ProxyError::OutOfTurn.message(), "Unexpected event");
}

#[test]
fn lock_is_released_whatever_is_reported_while_it_is_held() {
    let c = config(true);
    let now = at(1_700_000_000);
    let response = ok("max-age=60", "hello");
    let events = vec![
        Event::Indexed { ok: true },
        Event::Indexed { ok: false },
        Event::Blob { bytes: None },
        Event::Origin { response: None },
        Event::Halted { ok: true },
        Event::Released { ok: true },
    ];
    for event in events {
        let held = Stage::Index {
            request: get("http://slow.coreyja.com/x"),
            response: response.clone(),
            held: true,
        };
        let (stage, action) = step(&c, held, event, &now);
        assert_eq!(action, Action::Unhalt);
        assert_eq!(stage, Stage::Release { response: response.clone() });
        let (stage, action) = step(&c, stage, Event::Released { ok: false }, &now);
        assert_eq!(action, Action::Emit { response: response.clone() });
        assert_eq!(stage, Stage::Done);
    }
}
