use caje::codec::{decode, encode, MalformedRecord};
use caje::message::{CacheEntry, CachedRequest, CachedResponse, Header, HttpVersion};
use caje::time::Timestamp;
use caje::varint::{put_varint, take_u64, take_varint};

fn sample_entry() -> CacheEntry {
    CacheEntry {
        request: CachedRequest {
            method: "GET".to_string(),
            uri: "http://slow.coreyja.com/x".to_string(),
            version: HttpVersion::Http11,
            headers: vec![Header { name: "host".to_string(), value: b"slow.coreyja.com".to_vec() }],
            body: Vec::new(),
        },
        response: CachedResponse {
            status_code: 200,
            version: HttpVersion::Http11,
            headers: vec![
                Header { name: "cache-control".to_string(), value: b"max-age=60".to_vec() },
                Header { name: "set-cookie".to_string(), value: b"a=1".to_vec() },
                Header { name: "set-cookie".to_string(), value: b"b=2".to_vec() },
            ],
            body: b"hello".to_vec(),
        },
        cached_at: Timestamp { secs: 1_700_000_000, nanos: 123_456_789 },
    }
}

fn tiny_entry() -> CacheEntry {
    CacheEntry {
        request: CachedRequest {
            method: "GET".to_string(),
            uri: "/".to_string(),
            version: HttpVersion::Http11,
            headers: Vec::new(),
            body: Vec::new(),
        },
        response: CachedResponse {
            status_code: 200,
            version: HttpVersion::H2,
            headers: vec![Header { name: "a".to_string(), value: vec![0xff] }],
            body: b"hi".to_vec(),
        },
        cached_at: Timestamp { secs: 300, nanos: 5 },
    }
}

fn tiny_record() -> Vec<u8> {
    vec![
        1, // format
        3, b'G', b'E', b'T', // method
        1, b'/', // uri
        2, // HTTP/1.1
        0, // no headers
        0, // no body
        0xc8, 0x01, // status 200
        3, // HTTP/2
        1, 1, b'a', 1, 0xff, // one header
        2, b'h', b'i', // body
        0xac, 0x02, // 300 seconds
        5, // 5 nanoseconds
    ]
}

fn encoded(v: u64) -> Vec<u8> {
    let mut out = Vec::new();
    put_varint(&mut out, v);
    out
}

#[test]
fn round_trip_gives_the_entry_back() {
    let entry = sample_entry();
    let bytes = encode(&entry);
    assert_eq!(decode(&bytes), Ok(entry));
}

#[test]
fn round_trip_keeps_header_order_and_duplicates() {
    let entry = sample_entry();
    let back = decode(&encode(&entry)).expect("a record");
    let names: Vec<&str> = back.response.headers.iter().map(|h| h.name.as_str()).collect();
    assert_eq!(names, vec!["cache-control", "set-cookie", "set-cookie"]);
    assert_eq!(back.response.headers[1].value, b"a=1".to_vec());
    assert_eq!(back.response.headers[2].value, b"b=2".to_vec());
}

#[test]
fn round_trip_of_text_beyond_ascii_and_of_every_version() {
    for version in [
        HttpVersion::Http09,
        HttpVersion::Http10,
        HttpVersion::Http11,
        HttpVersion::H2,
        HttpVersion::H3,
    ] {
        let mut entry = sample_entry();
        entry.request.uri = "http://slow.coreyja.com/caf\u{e9}/\u{1f980}".to_string();
        entry.request.version = version;
        entry.response.version = version;
        entry.request.body = vec![0, 255, 128, 127];
        assert_eq!(decode(&encode(&entry)), Ok(entry));
    }
}

#[test]
fn round_trip_at_the_edges_of_status_and_time() {
    for (status, secs, nanos) in
        [(100u16, 0u64, 0u32), (599, 253_402_300_799, 999_999_999), (404, 1, 1)]
    {
        let mut entry = sample_entry();
        entry.response.status_code = status;
        entry.cached_at = Timestamp { secs, nanos };
        assert_eq!(decode(&encode(&entry)), Ok(entry));
    }
}

#[test]
fn record_is_laid_out_field_by_field() {
    assert_eq!(encode(&tiny_entry()), tiny_record());
    assert_eq!(decode(&tiny_record()), Ok(tiny_entry()));
}

#[test]
fn encoding_is_the_same_for_a_clone() {
    let entry = sample_entry();
    assert_eq!(encode(&entry), encode(&entry.clone()));
}

#[test]
fn empty_input_is_malformed() {
    assert_eq!(decode(&[]), Err(MalformedRecord));
}

#[test]
fn unknown_format_tag_is_malformed() {
    let mut bytes = tiny_record();
    bytes[0] = 2;
    assert_eq!(decode(&bytes), Err(MalformedRecord));
    bytes[0] = 0;
    assert_eq!(decode(&bytes), Err(MalformedRecord));
}

#[test]
fn every_truncation_is_malformed() {
    let bytes = encode(&sample_entry());
    for cut in 0..bytes.len() {
        assert_eq!(decode(&bytes[..cut]), Err(MalformedRecord), "cut at {}", cut);
    }
}

#[test]
fn trailing_bytes_are_malformed() {
    let mut bytes = tiny_record();
    bytes.push(0);
    assert_eq!(decode(&bytes), Err(MalformedRecord));
}

#[test]
fn number_in_longer_form_is_malformed() {
    let mut bytes = tiny_record();
    // the last byte is the nanoseconds, 5; write it as 0x85 0x00
    bytes.pop();
    bytes.push(0x85);
    bytes.push(0x00);
    assert_eq!(decode(&bytes), Err(MalformedRecord));
}

#[test]
fn text_that_is_not_utf8_is_malformed() {
    let mut bytes = tiny_record();
    assert_eq!(bytes[2], b'G');
    bytes[2] = 0xff;
    assert_eq!(decode(&bytes), Err(MalformedRecord));
}

#[test]
fn unknown_version_is_malformed() {
    let mut bytes = tiny_record();
    assert_eq!(bytes[7], 2);
    bytes[7] = 5;
    assert_eq!(decode(&bytes), Err(MalformedRecord));
}

#[test]
fn status_out_of_range_is_malformed() {
    for status in [0u16, 99, 600, 999, 1000, u16::MAX] {
        let mut entry = tiny_entry();
        entry.response.status_code = status;
        assert_eq!(decode(&encode(&entry)), Err(MalformedRecord), "status {}", status);
    }
}

#[test]
fn instant_out_of_range_is_malformed() {
    let mut entry = tiny_entry();
    entry.cached_at = Timestamp { secs: 253_402_300_800, nanos: 0 };
    assert_eq!(decode(&encode(&entry)), Err(MalformedRecord));
    entry.cached_at = Timestamp { secs: 1, nanos: 1_000_000_000 };
    assert_eq!(decode(&encode(&entry)), Err(MalformedRecord));
}

#[test]
fn length_beyond_the_input_is_malformed() {
    // method of length 2^63 in a record of a few bytes
    let mut bytes = vec![1u8];
    bytes.extend_from_slice(&encoded(1 << 63));
    bytes.extend_from_slice(b"GET");
    assert_eq!(decode(&bytes), Err(MalformedRecord));
}

#[test]
fn header_count_beyond_the_input_is_malformed() {
    let mut bytes = vec![1u8, 3, b'G', b'E', b'T', 1, b'/', 2];
    bytes.extend_from_slice(&encoded(u64::MAX));
    bytes.extend_from_slice(&[1, b'a', 0]);
    assert_eq!(decode(&bytes), Err(MalformedRecord));
}

#[test]
fn varint_of_small_and_large_numbers() {
    assert_eq!(encoded(0), vec![0]);
    assert_eq!(encoded(1), vec![1]);
    assert_eq!(encoded(127), vec![0x7f]);
    assert_eq!(encoded(128), vec![0x80, 0x01]);
    assert_eq!(encoded(300), vec![0xac, 0x02]);
    assert_eq!(encoded(16_383), vec![0xff, 0x7f]);
    assert_eq!(encoded(16_384), vec![0x80, 0x80, 0x01]);
    assert_eq!(
        encoded(u64::MAX),
        vec![0xff, 0xff, 0xff, 0xff, 0xff, 0xff, 0xff, 0xff, 0xff, 0x01]
    );
}

#[test]
fn varint_appends_to_what_is_there() {
    let mut out = vec![9u8, 9];
    put_varint(&mut out, 300);
    assert_eq!(out, vec![9, 9, 0xac, 0x02]);
}

#[test]
fn varint_reads_back_at_a_position() {
    for v in [0u64, 1, 127, 128, 300, 65_535, 1 << 32, u64::MAX - 1, u64::MAX] {
        let mut bytes = vec![7u8, 7, 7];
        put_varint(&mut bytes, v);
        let end = bytes.len();
        bytes.push(0x55);
        assert_eq!(take_u64(&bytes, 3), Some((v, end)), "value {}", v);
    }
}

#[test]
fn varint_refuses_what_is_no_number() {
    assert_eq!(take_u64(&[], 0), None);
    assert_eq!(take_u64(&[1], 1), None);
    assert_eq!(take_u64(&[1], 7), None);
    assert_eq!(take_u64(&[0x80], 0), None);
    assert_eq!(take_u64(&[0x80, 0x00], 0), None);
    assert_eq!(take_u64(&[0xff, 0x80, 0x00], 0), None);
    // 2^64 does not fit
    assert_eq!(
        take_u64(&[0x80, 0x80, 0x80, 0x80, 0x80, 0x80, 0x80, 0x80, 0x80, 0x02], 0),
        None
    );
    // eleven bytes
    assert_eq!(
        take_u64(&[0x80, 0x80, 0x80, 0x80, 0x80, 0x80, 0x80, 0x80, 0x80, 0x80, 0x01], 0),
        None
    );
}

#[test]
fn varint_looks_at_no_more_than_the_limit() {
    assert_eq!(take_varint(&[0xac, 0x02], 0, 2), Some((300, 2)));
    assert_eq!(take_varint(&[0xac, 0x02], 0, 1), None);
    assert_eq!(take_varint(&[0x05], 0, 0), None);
}
