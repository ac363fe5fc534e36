//! The wire format of a cache entry.
//!
//! A record is one tag byte, then the request, the response and the instant
//! of receipt. Numbers are variable-length integers in shortest form; a byte
//! string is its length and its bytes; text is a byte string that holds
//! UTF-8; a list is its count and its items. Every entry has exactly one
//! record, and a record is read back only as a whole.

use crate::message::{
    headers_view, CacheEntry, CachedRequest, CachedResponse, EntryView, Header, HeaderView,
    HttpVersion, RequestView, ResponseView, MAX_STATUS, MIN_STATUS,
};
use crate::time::{Timestamp, MAX_SECS, NANOS_PER_SEC};
use crate::varint::{
    lemma_parse_of_varint, lemma_varint_len_u64, lemma_varint_of_parse, parse_u64, put_varint,
    take_u64, varint, MAX_VARINT_LEN,
};
use vstd::prelude::*;
use vstd::slice::*;
use vstd::utf8::*;

verus! {

/// First byte of every record: the version of the format.
pub const FORMAT_TAG: u8 = 1;

/// The input is not the record of any well-formed entry.
#[derive(Clone, Copy, Debug, PartialEq, Eq, Structural)]
pub struct MalformedRecord;

/// The error of `String::from_utf8`, carried and never looked into.
#[verifier::external_type_specification]
#[verifier::external_body]
pub struct ExFromUtf8Error(std::string::FromUtf8Error);

/// `String::from_utf8` of std: it accepts exactly the byte vectors that
/// are valid UTF-8, and the string it gives has those bytes.
pub assume_specification[ String::from_utf8 ](vec: Vec<u8>) -> (r: Result<
    String,
    std::string::FromUtf8Error,
>)
    ensures
        r is Ok == valid_utf8(vec@),
        r matches Ok(s) ==> encode_utf8(s@) == vec@,
;

/// A stretch of `s` that spells `a` and then `b` spells each where it stands.
pub proof fn lemma_split_at<T>(s: Seq<T>, pos: int, a: Seq<T>, b: Seq<T>)
    requires
        0 <= pos,
        pos + a.len() + b.len() <= s.len(),
        s.subrange(pos, pos + a.len() + b.len()) == a + b,
    ensures
        s.subrange(pos, pos + a.len()) == a,
        s.subrange(pos + a.len(), pos + a.len() + b.len()) == b,
{
    let n = a.len() as int;
    let m = b.len() as int;
    let whole = s.subrange(pos, pos + n + m);
    assert(whole.len() == n + m);
    let left = s.subrange(pos, pos + n);
    let right = s.subrange(pos + n, pos + n + m);
    assert forall|i: int| 0 <= i < n implies left[i] == a[i] by {
        assert(whole[i] == s[pos + i]);
        assert((a + b)[i] == a[i]);
    }
    assert forall|i: int| 0 <= i < m implies right[i] == b[i] by {
        assert(whole[i + n] == s[pos + i + n]);
        assert((a + b)[i + n] == b[i]);
    }
    assert(left =~= a);
    assert(right =~= b);
}

/// Two stretches of `s` that meet make one.
pub proof fn lemma_join_at<T>(s: Seq<T>, pos: int, mid: int, end: int)
    requires
        0 <= pos <= mid <= end <= s.len(),
    ensures
        s.subrange(pos, end) == s.subrange(pos, mid) + s.subrange(mid, end),
{
    assert(s.subrange(pos, end) =~= s.subrange(pos, mid) + s.subrange(mid, end));
}

/// The view of a byte string that may be absent.
pub open spec fn bytes_view(b: Option<Vec<u8>>) -> Option<Seq<u8>> {
    match b {
        Some(v) => Some(v@),
        None => None,
    }
}

// ---------------------------------------------------------------- numbers

/// The bytes of a 64-bit number.
pub open spec fn ser_u64(v: u64) -> Seq<u8> {
    varint(v as nat)
}

/// Where the bytes of `s` at `pos` spell `v`, `v` is read there.
pub proof fn lemma_parse_ser_u64(s: Seq<u8>, pos: int, v: u64)
    requires
        0 <= pos,
        pos + ser_u64(v).len() <= s.len(),
        s.subrange(pos, pos + ser_u64(v).len()) == ser_u64(v),
    ensures
        parse_u64(s, pos) == Some((v, pos + ser_u64(v).len())),
{
    lemma_varint_len_u64(v as nat);
    lemma_parse_of_varint(s, pos, v as nat, MAX_VARINT_LEN as nat);
}

/// A number that was read is spelled by the bytes that were read.
pub proof fn lemma_ser_parse_u64(s: Seq<u8>, pos: int)
    requires
        parse_u64(s, pos) is Some,
    ensures
        ({
            let (v, next) = parse_u64(s, pos).unwrap();
            0 <= pos < next <= s.len() && s.subrange(pos, next) == ser_u64(v)
        }),
{
    lemma_varint_of_parse(s, pos, MAX_VARINT_LEN as nat);
}

// ----------------------------------------------------------- byte strings

/// The bytes of a byte string: its length, then its content.
pub open spec fn ser_bytes(b: Seq<u8>) -> Seq<u8> {
    varint(b.len()) + b
}

/// Reads a byte string from `s` at `pos`.
pub open spec fn parse_bytes(s: Seq<u8>, pos: int) -> Option<(Seq<u8>, int)> {
    match parse_u64(s, pos) {
        Some((n, start)) => if start + n <= s.len() {
            Some((s.subrange(start, start + n), start + n))
        } else {
            None
        },
        None => None,
    }
}

/// Where the bytes of `s` at `pos` spell a byte string, it is read there.
pub proof fn lemma_parse_ser_bytes(s: Seq<u8>, pos: int, b: Seq<u8>)
    requires
        0 <= pos,
        b.len() <= u64::MAX,
        pos + ser_bytes(b).len() <= s.len(),
        s.subrange(pos, pos + ser_bytes(b).len()) == ser_bytes(b),
    ensures
        parse_bytes(s, pos) == Some((b, pos + ser_bytes(b).len())),
{
    let n = b.len() as u64;
    lemma_split_at(s, pos, varint(b.len()), b);
    lemma_parse_ser_u64(s, pos, n);
}

/// What is read as a byte string is spelled by the bytes that were read.
pub proof fn lemma_ser_parse_bytes(s: Seq<u8>, pos: int)
    requires
        parse_bytes(s, pos) is Some,
    ensures
        ({
            let (b, next) = parse_bytes(s, pos).unwrap();
            &&& 0 <= pos < next <= s.len()
            &&& b.len() <= u64::MAX
            &&& s.subrange(pos, next) == ser_bytes(b)
        }),
{
    lemma_ser_parse_u64(s, pos);
    let (n, start) = parse_u64(s, pos).unwrap();
    lemma_join_at(s, pos, start, start + n);
}

/// Appends a byte string to `out`.
pub fn put_bytes(out: &mut Vec<u8>, b: &[u8])
    ensures
        final(out)@ == old(out)@ + ser_bytes(b@),
        b@.len() <= u64::MAX,
{
    let ghost start = out@;
    put_varint(out, b.len() as u64);
    let ghost mid = out@;
    let mut i: usize = 0;
    while i < b.len()
        invariant
            i <= b.len(),
            out@ == mid + b@.subrange(0, i as int),
        decreases b.len() - i,
    {
        out.push(b[i]);
        i += 1;
        assert(out@ =~= mid + b@.subrange(0, i as int));
    }
    assert(b@.subrange(0, b.len() as int) =~= b@);
    assert(out@ =~= start + ser_bytes(b@));
}

/// Reads a byte string from `bytes` at `pos`.
pub fn take_bytes(bytes: &[u8], pos: usize) -> (r: Option<(Vec<u8>, usize)>)
    ensures
        match r {
            Some((b, next)) => parse_bytes(bytes@, pos as int) == Some((b@, next as int)),
            None => parse_bytes(bytes@, pos as int) is None,
        },
{
    match take_u64(bytes, pos) {
        None => None,
        Some((n, start)) => {
            proof {
                lemma_ser_parse_u64(bytes@, pos as int);
            }
            if n > (bytes.len() - start) as u64 {
                None
            } else {
                let end: usize = start + n as usize;
                let b = slice_to_vec(slice_subrange(bytes, start, end));
                Some((b, end))
            }
        },
    }
}

// -------------------------------------------------------------------- text

/// The bytes of a text: its UTF-8 form as a byte string.
pub open spec fn ser_str(t: Seq<char>) -> Seq<u8> {
    ser_bytes(encode_utf8(t))
}

/// Reads a text from `s` at `pos`.
pub open spec fn parse_str(s: Seq<u8>, pos: int) -> Option<(Seq<char>, int)> {
    match parse_bytes(s, pos) {
        Some((b, next)) => if valid_utf8(b) {
            Some((decode_utf8(b), next))
        } else {
            None
        },
        None => None,
    }
}

/// The text is short enough for its length to be written down.
pub open spec fn text_fits(t: Seq<char>) -> bool {
    encode_utf8(t).len() <= u64::MAX
}

/// Where the bytes of `s` at `pos` spell a text, it is read there.
pub proof fn lemma_parse_ser_str(s: Seq<u8>, pos: int, t: Seq<char>)
    requires
        0 <= pos,
        text_fits(t),
        pos + ser_str(t).len() <= s.len(),
        s.subrange(pos, pos + ser_str(t).len()) == ser_str(t),
    ensures
        parse_str(s, pos) == Some((t, pos + ser_str(t).len())),
{
    lemma_parse_ser_bytes(s, pos, encode_utf8(t));
    encode_utf8_valid_utf8(t);
    encode_utf8_decode_utf8(t);
}

/// What is read as a text is spelled by the bytes that were read.
pub proof fn lemma_ser_parse_str(s: Seq<u8>, pos: int)
    requires
        parse_str(s, pos) is Some,
    ensures
        ({
            let (t, next) = parse_str(s, pos).unwrap();
            &&& 0 <= pos < next <= s.len()
            &&& text_fits(t)
            &&& s.subrange(pos, next) == ser_str(t)
        }),
{
    lemma_ser_parse_bytes(s, pos);
    let (b, next) = parse_bytes(s, pos).unwrap();
    decode_utf8_encode_utf8(b);
}

/// Appends a text to `out`.
pub fn put_str(out: &mut Vec<u8>, t: &str)
    ensures
        final(out)@ == old(out)@ + ser_str(t@),
        text_fits(t@),
{
    put_bytes(out, t.as_bytes());
}

/// Reads a text from `bytes` at `pos`.
pub fn take_str(bytes: &[u8], pos: usize) -> (r: Option<(String, usize)>)
    ensures
        match r {
            Some((t, next)) => parse_str(bytes@, pos as int) == Some((t@, next as int)),
            None => parse_str(bytes@, pos as int) is None,
        },
{
    match take_bytes(bytes, pos) {
        None => None,
        Some((b, next)) => {
            let ghost raw = b@;
            match String::from_utf8(b) {
                Ok(t) => {
                    proof {
                        encode_utf8_decode_utf8(t@);
                    }
                    Some((t, next))
                },
                Err(_) => None,
            }
        },
    }
}

// ----------------------------------------------------------------- version

/// The byte that stands for a protocol version.
pub open spec fn version_tag(v: HttpVersion) -> u8 {
    match v {
        HttpVersion::Http09 => 0,
        HttpVersion::Http10 => 1,
        HttpVersion::Http11 => 2,
        HttpVersion::H2 => 3,
        HttpVersion::H3 => 4,
    }
}

/// The bytes of a protocol version.
pub open spec fn ser_version(v: HttpVersion) -> Seq<u8> {
    seq![version_tag(v)]
}

/// Reads a protocol version from `s` at `pos`.
pub open spec fn parse_version(s: Seq<u8>, pos: int) -> Option<(HttpVersion, int)> {
    if 0 <= pos < s.len() && s[pos] <= 4 {
        let v = if s[pos] == 0 {
            HttpVersion::Http09
        } else if s[pos] == 1 {
            HttpVersion::Http10
        } else if s[pos] == 2 {
            HttpVersion::Http11
        } else if s[pos] == 3 {
            HttpVersion::H2
        } else {
            HttpVersion::H3
        };
        Some((v, pos + 1))
    } else {
        None
    }
}

/// Where the bytes of `s` at `pos` spell a protocol version, it is read there.
pub proof fn lemma_parse_ser_version(s: Seq<u8>, pos: int, v: HttpVersion)
    requires
        0 <= pos,
        pos + ser_version(v).len() <= s.len(),
        s.subrange(pos, pos + ser_version(v).len()) == ser_version(v),
    ensures
        parse_version(s, pos) == Some((v, pos + ser_version(v).len())),
{
    assert(s[pos] == s.subrange(pos, pos + 1)[0]);
}

/// What is read as a protocol version is spelled by the bytes that were read.
pub proof fn lemma_ser_parse_version(s: Seq<u8>, pos: int)
    requires
        parse_version(s, pos) is Some,
    ensures
        ({
            let (v, next) = parse_version(s, pos).unwrap();
            0 <= pos < next <= s.len() && s.subrange(pos, next) == ser_version(v)
        }),
{
    let (v, next) = parse_version(s, pos).unwrap();
    assert(s.subrange(pos, next) =~= ser_version(v));
}

/// Appends a protocol version to `out`.
pub fn put_version(out: &mut Vec<u8>, v: HttpVersion)
    ensures
        final(out)@ == old(out)@ + ser_version(v),
{
    let ghost start = out@;
    let tag: u8 = match v {
        HttpVersion::Http09 => 0,
        HttpVersion::Http10 => 1,
        HttpVersion::Http11 => 2,
        HttpVersion::H2 => 3,
        HttpVersion::H3 => 4,
    };
    out.push(tag);
    assert(out@ =~= start + ser_version(v));
}

/// Reads a protocol version from `bytes` at `pos`.
pub fn take_version(bytes: &[u8], pos: usize) -> (r: Option<(HttpVersion, usize)>)
    ensures
        match r {
            Some((v, next)) => parse_version(bytes@, pos as int) == Some((v, next as int)),
            None => parse_version(bytes@, pos as int) is None,
        },
{
    if pos >= bytes.len() {
        return None;
    }
    let tag: u8 = bytes[pos];
    let v = if tag == 0 {
        HttpVersion::Http09
    } else if tag == 1 {
        HttpVersion::Http10
    } else if tag == 2 {
        HttpVersion::Http11
    } else if tag == 3 {
        HttpVersion::H2
    } else if tag == 4 {
        HttpVersion::H3
    } else {
        return None;
    };
    Some((v, pos + 1))
}

// ----------------------------------------------------------------- headers

/// The header is short enough for its lengths to be written down.
pub open spec fn header_fits(h: HeaderView) -> bool {
    text_fits(h.name) && h.value.len() <= u64::MAX
}

/// The bytes of one header: its name, then its value.
pub open spec fn ser_header(h: HeaderView) -> Seq<u8> {
    ser_str(h.name) + ser_bytes(h.value)
}

/// Reads one header from `s` at `pos`.
pub open spec fn parse_header(s: Seq<u8>, pos: int) -> Option<(HeaderView, int)> {
    match parse_str(s, pos) {
        Some((name, mid)) => match parse_bytes(s, mid) {
            Some((value, next)) => Some((HeaderView { name, value }, next)),
            None => None,
        },
        None => None,
    }
}

/// Where the bytes of `s` at `pos` spell a header, it is read there.
pub proof fn lemma_parse_ser_header(s: Seq<u8>, pos: int, h: HeaderView)
    requires
        0 <= pos,
        header_fits(h),
        pos + ser_header(h).len() <= s.len(),
        s.subrange(pos, pos + ser_header(h).len()) == ser_header(h),
    ensures
        parse_header(s, pos) == Some((h, pos + ser_header(h).len())),
{
    lemma_split_at(s, pos, ser_str(h.name), ser_bytes(h.value));
    lemma_parse_ser_str(s, pos, h.name);
    lemma_parse_ser_bytes(s, pos + ser_str(h.name).len(), h.value);
}

/// What is read as a header is spelled by the bytes that were read.
pub proof fn lemma_ser_parse_header(s: Seq<u8>, pos: int)
    requires
        parse_header(s, pos) is Some,
    ensures
        ({
            let (h, next) = parse_header(s, pos).unwrap();
            &&& 0 <= pos < next <= s.len()
            &&& header_fits(h)
            &&& s.subrange(pos, next) == ser_header(h)
        }),
{
    lemma_ser_parse_str(s, pos);
    let (name, mid) = parse_str(s, pos).unwrap();
    lemma_ser_parse_bytes(s, mid);
    let (value, next) = parse_bytes(s, mid).unwrap();
    lemma_join_at(s, pos, mid, next);
}

/// Appends one header to `out`.
pub fn put_header(out: &mut Vec<u8>, h: &Header)
    ensures
        final(out)@ == old(out)@ + ser_header(h@),
        header_fits(h@),
{
    let ghost start = out@;
    put_str(out, h.name.as_str());
    put_bytes(out, h.value.as_slice());
    assert(out@ =~= start + ser_header(h@));
}

/// Reads one header from `bytes` at `pos`.
pub fn take_header(bytes: &[u8], pos: usize) -> (r: Option<(Header, usize)>)
    ensures
        match r {
            Some((h, next)) => parse_header(bytes@, pos as int) == Some((h@, next as int)),
            None => parse_header(bytes@, pos as int) is None,
        },
{
    match take_str(bytes, pos) {
        None => None,
        Some((name, mid)) => match take_bytes(bytes, mid) {
            None => None,
            Some((value, next)) => Some((Header { name, value }, next)),
        },
    }
}

/// Every header of the list fits, and so does their number.
pub open spec fn headers_fit(hs: Seq<HeaderView>) -> bool {
    hs.len() <= u64::MAX && forall|i: int| 0 <= i < hs.len() ==> header_fits(#[trigger] hs[i])
}

/// The bytes of the headers of a list, one after the other.
pub open spec fn ser_header_list(hs: Seq<HeaderView>) -> Seq<u8>
    decreases hs.len(),
{
    if hs.len() == 0 {
        Seq::empty()
    } else {
        ser_header(hs[0]) + ser_header_list(hs.skip(1))
    }
}

/// Reads `count` headers from `s` at `pos`.
pub open spec fn parse_header_list(s: Seq<u8>, pos: int, count: nat) -> Option<
    (Seq<HeaderView>, int),
>
    decreases count,
{
    if count == 0 {
        Some((Seq::empty(), pos))
    } else {
        match parse_header(s, pos) {
            Some((h, mid)) => match parse_header_list(s, mid, (count - 1) as nat) {
                Some((rest, next)) => Some((seq![h] + rest, next)),
                None => None,
            },
            None => None,
        }
    }
}

/// The bytes of a list of headers: their number, then each of them.
pub open spec fn ser_headers(hs: Seq<HeaderView>) -> Seq<u8> {
    varint(hs.len()) + ser_header_list(hs)
}

/// Reads a list of headers from `s` at `pos`.
pub open spec fn parse_headers(s: Seq<u8>, pos: int) -> Option<(Seq<HeaderView>, int)> {
    match parse_u64(s, pos) {
        Some((count, start)) => parse_header_list(s, start, count as nat),
        None => None,
    }
}

/// One more header at the end adds its bytes at the end.
pub proof fn lemma_ser_header_list_push(hs: Seq<HeaderView>, h: HeaderView)
    ensures
        ser_header_list(hs.push(h)) == ser_header_list(hs) + ser_header(h),
    decreases hs.len(),
{
    let all = hs.push(h);
    if hs.len() == 0 {
        assert(all.skip(1) =~= Seq::<HeaderView>::empty());
        assert(ser_header_list(all.skip(1)) =~= Seq::<u8>::empty());
        assert(ser_header_list(all) =~= ser_header_list(hs) + ser_header(h));
    } else {
        assert(all.skip(1) =~= hs.skip(1).push(h));
        lemma_ser_header_list_push(hs.skip(1), h);
        assert(ser_header_list(all) =~= ser_header_list(hs) + ser_header(h));
    }
}

/// Where the bytes of `s` at `pos` spell a run of headers, it is read there.
pub proof fn lemma_parse_ser_header_list(s: Seq<u8>, pos: int, hs: Seq<HeaderView>)
    requires
        0 <= pos,
        headers_fit(hs),
        pos + ser_header_list(hs).len() <= s.len(),
        s.subrange(pos, pos + ser_header_list(hs).len()) == ser_header_list(hs),
    ensures
        parse_header_list(s, pos, hs.len()) == Some((hs, pos + ser_header_list(hs).len())),
    decreases hs.len(),
{
    if hs.len() == 0 {
        assert(hs =~= Seq::<HeaderView>::empty());
    } else {
        let tail = hs.skip(1);
        lemma_split_at(s, pos, ser_header(hs[0]), ser_header_list(tail));
        lemma_parse_ser_header(s, pos, hs[0]);
        assert(headers_fit(tail)) by {
            assert forall|i: int| 0 <= i < tail.len() implies header_fits(#[trigger] tail[i]) by {
                assert(tail[i] == hs[i + 1]);
            }
        }
        lemma_parse_ser_header_list(s, pos + ser_header(hs[0]).len(), tail);
        assert(seq![hs[0]] + tail =~= hs);
    }
}

/// What is read as a run of headers is spelled by the bytes that were read.
pub proof fn lemma_ser_parse_header_list(s: Seq<u8>, pos: int, count: nat)
    requires
        0 <= pos <= s.len(),
        parse_header_list(s, pos, count) is Some,
    ensures
        ({
            let (hs, next) = parse_header_list(s, pos, count).unwrap();
            &&& pos <= next <= s.len()
            &&& hs.len() == count
            &&& forall|i: int| 0 <= i < hs.len() ==> header_fits(#[trigger] hs[i])
            &&& s.subrange(pos, next) == ser_header_list(hs)
        }),
    decreases count,
{
    let (hs, next) = parse_header_list(s, pos, count).unwrap();
    if count == 0 {
        assert(s.subrange(pos, next) =~= ser_header_list(hs));
    } else {
        lemma_ser_parse_header(s, pos);
        let (h, mid) = parse_header(s, pos).unwrap();
        lemma_ser_parse_header_list(s, mid, (count - 1) as nat);
        let (rest, _) = parse_header_list(s, mid, (count - 1) as nat).unwrap();
        assert(hs.skip(1) =~= rest);
        assert(hs[0] == h);
        lemma_join_at(s, pos, mid, next);
        assert forall|i: int| 0 <= i < hs.len() implies header_fits(#[trigger] hs[i]) by {
            if i > 0 {
                assert(hs[i] == rest[i - 1]);
            }
        }
    }
}

/// Where the bytes of `s` at `pos` spell a list of headers, it is read there.
pub proof fn lemma_parse_ser_headers(s: Seq<u8>, pos: int, hs: Seq<HeaderView>)
    requires
        0 <= pos,
        headers_fit(hs),
        pos + ser_headers(hs).len() <= s.len(),
        s.subrange(pos, pos + ser_headers(hs).len()) == ser_headers(hs),
    ensures
        parse_headers(s, pos) == Some((hs, pos + ser_headers(hs).len())),
{
    lemma_split_at(s, pos, varint(hs.len()), ser_header_list(hs));
    lemma_parse_ser_u64(s, pos, hs.len() as u64);
    lemma_parse_ser_header_list(s, pos + varint(hs.len()).len(), hs);
}

/// What is read as a list of headers is spelled by the bytes that were read.
pub proof fn lemma_ser_parse_headers(s: Seq<u8>, pos: int)
    requires
        parse_headers(s, pos) is Some,
    ensures
        ({
            let (hs, next) = parse_headers(s, pos).unwrap();
            &&& 0 <= pos < next <= s.len()
            &&& headers_fit(hs)
            &&& s.subrange(pos, next) == ser_headers(hs)
        }),
{
    lemma_ser_parse_u64(s, pos);
    let (count, start) = parse_u64(s, pos).unwrap();
    lemma_ser_parse_header_list(s, start, count as nat);
    let (hs, next) = parse_header_list(s, start, count as nat).unwrap();
    lemma_join_at(s, pos, start, next);
}

/// Appends a list of headers to `out`.
pub fn put_headers(out: &mut Vec<u8>, headers: &Vec<Header>)
    ensures
        final(out)@ == old(out)@ + ser_headers(headers_view(headers@)),
        headers_fit(headers_view(headers@)),
{
    let ghost start = out@;
    let ghost all = headers_view(headers@);
    put_varint(out, headers.len() as u64);
    let ghost mid = out@;
    let mut i: usize = 0;
    assert(all.take(0) =~= Seq::<HeaderView>::empty());
    while i < headers.len()
        invariant
            i <= headers.len(),
            all == headers_view(headers@),
            out@ == mid + ser_header_list(all.take(i as int)),
            forall|k: int| 0 <= k < i ==> header_fits(#[trigger] all[k]),
        decreases headers.len() - i,
    {
        let ghost before = out@;
        put_header(out, &headers[i]);
        proof {
            lemma_ser_header_list_push(all.take(i as int), all[i as int]);
            assert(all.take(i as int).push(all[i as int]) =~= all.take(i + 1));
            assert(out@ =~= mid + ser_header_list(all.take(i + 1)));
        }
        i += 1;
    }
    assert(all.take(i as int) =~= all);
    assert(out@ =~= start + ser_headers(all));
}

/// Puts what was read so far in front of what the rest gives.
pub open spec fn after(done: Seq<HeaderView>, rest: Option<(Seq<HeaderView>, int)>) -> Option<
    (Seq<HeaderView>, int),
> {
    match rest {
        Some((more, next)) => Some((done + more, next)),
        None => None,
    }
}

/// Reads a list of headers from `bytes` at `pos`.
pub fn take_headers(bytes: &[u8], pos: usize) -> (r: Option<(Vec<Header>, usize)>)
    ensures
        match r {
            Some((hs, next)) => parse_headers(bytes@, pos as int) == Some(
                (headers_view(hs@), next as int),
            ),
            None => parse_headers(bytes@, pos as int) is None,
        },
{
    let (count, start) = match take_u64(bytes, pos) {
        None => { return None; },
        Some(found) => found,
    };
    let mut out: Vec<Header> = Vec::new();
    let mut at: usize = start;
    let mut i: u64 = 0;
    assert(headers_view(out@) =~= Seq::<HeaderView>::empty());
    assert(parse_header_list(bytes@, start as int, count as nat) == after(
        headers_view(out@),
        parse_header_list(bytes@, at as int, (count - i) as nat),
    )) by {
        let r = parse_header_list(bytes@, start as int, count as nat);
        if r is Some {
            assert(Seq::<HeaderView>::empty() + r.unwrap().0 =~= r.unwrap().0);
        }
    }
    while i < count
        invariant
            i <= count,
            parse_u64(bytes@, pos as int) == Some((count, start as int)),
            parse_header_list(bytes@, start as int, count as nat) == after(
                headers_view(out@),
                parse_header_list(bytes@, at as int, (count - i) as nat),
            ),
        decreases count - i,
    {
        let ghost done = headers_view(out@);
        match take_header(bytes, at) {
            None => { return None; },
            Some((h, next)) => {
                proof {
                    let rest = parse_header_list(bytes@, next as int, (count - i - 1) as nat);
                    assert(headers_view(out@.push(h)) =~= done.push(h@));
                    if rest is Some {
                        assert(done + (seq![h@] + rest.unwrap().0) =~= done.push(h@)
                            + rest.unwrap().0);
                    }
                }
                out.push(h);
                at = next;
                i += 1;
            },
        }
    }
    assert(headers_view(out@) + Seq::<HeaderView>::empty() =~= headers_view(out@));
    Some((out, at))
}

// ----------------------------------------------------------------- request

/// The request is short enough for its lengths to be written down.
pub open spec fn request_fits(r: RequestView) -> bool {
    &&& text_fits(r.method)
    &&& text_fits(r.uri)
    &&& headers_fit(r.headers)
    &&& r.body.len() <= u64::MAX
}

/// The bytes of a request: method, URI, version, headers, body.
pub open spec fn ser_request(r: RequestView) -> Seq<u8> {
    ser_str(r.method) + (ser_str(r.uri) + (ser_version(r.version) + (ser_headers(r.headers)
        + ser_bytes(r.body))))
}

/// Reads a request from `s` at `pos`.
pub open spec fn parse_request(s: Seq<u8>, pos: int) -> Option<(RequestView, int)> {
    match parse_str(s, pos) {
        Some((method, end1)) => match parse_str(s, end1) {
            Some((uri, end2)) => match parse_version(s, end2) {
                Some((version, end3)) => match parse_headers(s, end3) {
                    Some((headers, end4)) => match parse_bytes(s, end4) {
                        Some((body, end5)) => Some(
                            (RequestView { method, uri, version, headers, body }, end5),
                        ),
                        None => None,
                    },
                    None => None,
                },
                None => None,
            },
            None => None,
        },
        None => None,
    }
}

/// Where the bytes of `s` at `pos` spell a request, it is read there.
pub proof fn lemma_parse_ser_request(s: Seq<u8>, pos: int, r: RequestView)
    requires
        0 <= pos,
        request_fits(r),
        pos + ser_request(r).len() <= s.len(),
        s.subrange(pos, pos + ser_request(r).len()) == ser_request(r),
    ensures
        parse_request(s, pos) == Some((r, pos + ser_request(r).len())),
{
    let a = ser_str(r.method);
    let b = ser_str(r.uri);
    let c = ser_version(r.version);
    let d = ser_headers(r.headers);
    let e = ser_bytes(r.body);
    lemma_split_at(s, pos, a, b + (c + (d + e)));
    lemma_parse_ser_str(s, pos, r.method);
    let end1 = pos + a.len();
    lemma_split_at(s, end1, b, c + (d + e));
    lemma_parse_ser_str(s, end1, r.uri);
    let end2 = end1 + b.len();
    lemma_split_at(s, end2, c, d + e);
    lemma_parse_ser_version(s, end2, r.version);
    let end3 = end2 + c.len();
    lemma_split_at(s, end3, d, e);
    lemma_parse_ser_headers(s, end3, r.headers);
    lemma_parse_ser_bytes(s, end3 + d.len(), r.body);
}

/// What is read as a request is spelled by the bytes that were read.
pub proof fn lemma_ser_parse_request(s: Seq<u8>, pos: int)
    requires
        parse_request(s, pos) is Some,
    ensures
        ({
            let (r, next) = parse_request(s, pos).unwrap();
            &&& 0 <= pos < next <= s.len()
            &&& request_fits(r)
            &&& s.subrange(pos, next) == ser_request(r)
        }),
{
    lemma_ser_parse_str(s, pos);
    let (method, end1) = parse_str(s, pos).unwrap();
    lemma_ser_parse_str(s, end1);
    let (uri, end2) = parse_str(s, end1).unwrap();
    lemma_ser_parse_version(s, end2);
    let (version, end3) = parse_version(s, end2).unwrap();
    lemma_ser_parse_headers(s, end3);
    let (headers, end4) = parse_headers(s, end3).unwrap();
    lemma_ser_parse_bytes(s, end4);
    let (body, end5) = parse_bytes(s, end4).unwrap();
    lemma_join_at(s, end3, end4, end5);
    lemma_join_at(s, end2, end3, end5);
    lemma_join_at(s, end1, end2, end5);
    lemma_join_at(s, pos, end1, end5);
}

/// Appends a request to `out`.
pub fn put_request(out: &mut Vec<u8>, r: &CachedRequest)
    ensures
        final(out)@ == old(out)@ + ser_request(r@),
        request_fits(r@),
{
    let ghost start = out@;
    put_str(out, r.method.as_str());
    put_str(out, r.uri.as_str());
    put_version(out, r.version);
    put_headers(out, &r.headers);
    put_bytes(out, r.body.as_slice());
    assert(out@ =~= start + ser_request(r@));
}

/// Reads a request from `bytes` at `pos`.
pub fn take_request(bytes: &[u8], pos: usize) -> (r: Option<(CachedRequest, usize)>)
    ensures
        match r {
            Some((q, next)) => parse_request(bytes@, pos as int) == Some((q@, next as int)),
            None => parse_request(bytes@, pos as int) is None,
        },
{
    let (method, end1) = match take_str(bytes, pos) {
        None => { return None; },
        Some(found) => found,
    };
    let (uri, end2) = match take_str(bytes, end1) {
        None => { return None; },
        Some(found) => found,
    };
    let (version, end3) = match take_version(bytes, end2) {
        None => { return None; },
        Some(found) => found,
    };
    let (headers, end4) = match take_headers(bytes, end3) {
        None => { return None; },
        Some(found) => found,
    };
    let (body, end5) = match take_bytes(bytes, end4) {
        None => { return None; },
        Some(found) => found,
    };
    Some((CachedRequest { method, uri, version, headers, body }, end5))
}

// ---------------------------------------------------------------- response

/// The response is short enough for its lengths to be written down.
pub open spec fn response_fits(r: ResponseView) -> bool {
    headers_fit(r.headers) && r.body.len() <= u64::MAX
}

/// The bytes of a response: status, version, headers, body.
pub open spec fn ser_response(r: ResponseView) -> Seq<u8> {
    ser_u64(r.status_code as u64) + (ser_version(r.version) + (ser_headers(r.headers) + ser_bytes(
        r.body,
    )))
}

/// Reads a response from `s` at `pos`; its status lies from 100 to 599.
pub open spec fn parse_response(s: Seq<u8>, pos: int) -> Option<(ResponseView, int)> {
    match parse_u64(s, pos) {
        Some((status, end1)) => if MIN_STATUS <= status <= MAX_STATUS {
            match parse_version(s, end1) {
                Some((version, end2)) => match parse_headers(s, end2) {
                    Some((headers, end3)) => match parse_bytes(s, end3) {
                        Some((body, end4)) => Some(
                            (
                                ResponseView {
                                    status_code: status as u16,
                                    version,
                                    headers,
                                    body,
                                },
                                end4,
                            ),
                        ),
                        None => None,
                    },
                    None => None,
                },
                None => None,
            }
        } else {
            None
        },
        None => None,
    }
}

/// Where the bytes of `s` at `pos` spell a response, it is read there.
pub proof fn lemma_parse_ser_response(s: Seq<u8>, pos: int, r: ResponseView)
    requires
        0 <= pos,
        r.wf(),
        response_fits(r),
        pos + ser_response(r).len() <= s.len(),
        s.subrange(pos, pos + ser_response(r).len()) == ser_response(r),
    ensures
        parse_response(s, pos) == Some((r, pos + ser_response(r).len())),
{
    let a = ser_u64(r.status_code as u64);
    let c = ser_version(r.version);
    let d = ser_headers(r.headers);
    let e = ser_bytes(r.body);
    lemma_split_at(s, pos, a, c + (d + e));
    lemma_parse_ser_u64(s, pos, r.status_code as u64);
    let end1 = pos + a.len();
    lemma_split_at(s, end1, c, d + e);
    lemma_parse_ser_version(s, end1, r.version);
    let end2 = end1 + c.len();
    lemma_split_at(s, end2, d, e);
    lemma_parse_ser_headers(s, end2, r.headers);
    lemma_parse_ser_bytes(s, end2 + d.len(), r.body);
}

/// What is read as a response is spelled by the bytes that were read.
pub proof fn lemma_ser_parse_response(s: Seq<u8>, pos: int)
    requires
        parse_response(s, pos) is Some,
    ensures
        ({
            let (r, next) = parse_response(s, pos).unwrap();
            &&& 0 <= pos < next <= s.len()
            &&& r.wf()
            &&& response_fits(r)
            &&& s.subrange(pos, next) == ser_response(r)
        }),
{
    lemma_ser_parse_u64(s, pos);
    let (status, end1) = parse_u64(s, pos).unwrap();
    lemma_ser_parse_version(s, end1);
    let (version, end2) = parse_version(s, end1).unwrap();
    lemma_ser_parse_headers(s, end2);
    let (headers, end3) = parse_headers(s, end2).unwrap();
    lemma_ser_parse_bytes(s, end3);
    let (body, end4) = parse_bytes(s, end3).unwrap();
    lemma_join_at(s, end2, end3, end4);
    lemma_join_at(s, end1, end2, end4);
    lemma_join_at(s, pos, end1, end4);
}

/// Appends a response to `out`.
pub fn put_response(out: &mut Vec<u8>, r: &CachedResponse)
    ensures
        final(out)@ == old(out)@ + ser_response(r@),
        response_fits(r@),
{
    let ghost start = out@;
    put_varint(out, r.status_code as u64);
    put_version(out, r.version);
    put_headers(out, &r.headers);
    put_bytes(out, r.body.as_slice());
    assert(out@ =~= start + ser_response(r@));
}

/// Reads a response from `bytes` at `pos`.
pub fn take_response(bytes: &[u8], pos: usize) -> (r: Option<(CachedResponse, usize)>)
    ensures
        match r {
            Some((q, next)) => parse_response(bytes@, pos as int) == Some((q@, next as int)),
            None => parse_response(bytes@, pos as int) is None,
        },
{
    let (status, end1) = match take_u64(bytes, pos) {
        None => { return None; },
        Some(found) => found,
    };
    if status < MIN_STATUS as u64 || status > MAX_STATUS as u64 {
        return None;
    }
    let (version, end2) = match take_version(bytes, end1) {
        None => { return None; },
        Some(found) => found,
    };
    let (headers, end3) = match take_headers(bytes, end2) {
        None => { return None; },
        Some(found) => found,
    };
    let (body, end4) = match take_bytes(bytes, end3) {
        None => { return None; },
        Some(found) => found,
    };
    Some((CachedResponse { status_code: status as u16, version, headers, body }, end4))
}

// --------------------------------------------------------------- timestamp

/// The bytes of an instant: its seconds, then its nanoseconds.
pub open spec fn ser_timestamp(t: Timestamp) -> Seq<u8> {
    ser_u64(t.secs) + ser_u64(t.nanos as u64)
}

/// Reads a well-formed instant from `s` at `pos`.
pub open spec fn parse_timestamp(s: Seq<u8>, pos: int) -> Option<(Timestamp, int)> {
    match parse_u64(s, pos) {
        Some((secs, mid)) => match parse_u64(s, mid) {
            Some((nanos, next)) => if secs <= MAX_SECS && nanos < NANOS_PER_SEC {
                Some((Timestamp { secs, nanos: nanos as u32 }, next))
            } else {
                None
            },
            None => None,
        },
        None => None,
    }
}

/// Where the bytes of `s` at `pos` spell an instant, it is read there.
pub proof fn lemma_parse_ser_timestamp(s: Seq<u8>, pos: int, t: Timestamp)
    requires
        0 <= pos,
        t.wf(),
        pos + ser_timestamp(t).len() <= s.len(),
        s.subrange(pos, pos + ser_timestamp(t).len()) == ser_timestamp(t),
    ensures
        parse_timestamp(s, pos) == Some((t, pos + ser_timestamp(t).len())),
{
    lemma_split_at(s, pos, ser_u64(t.secs), ser_u64(t.nanos as u64));
    lemma_parse_ser_u64(s, pos, t.secs);
    lemma_parse_ser_u64(s, pos + ser_u64(t.secs).len(), t.nanos as u64);
}

/// What is read as an instant is spelled by the bytes that were read.
pub proof fn lemma_ser_parse_timestamp(s: Seq<u8>, pos: int)
    requires
        parse_timestamp(s, pos) is Some,
    ensures
        ({
            let (t, next) = parse_timestamp(s, pos).unwrap();
            &&& 0 <= pos < next <= s.len()
            &&& t.wf()
            &&& s.subrange(pos, next) == ser_timestamp(t)
        }),
{
    lemma_ser_parse_u64(s, pos);
    let (secs, mid) = parse_u64(s, pos).unwrap();
    lemma_ser_parse_u64(s, mid);
    let (nanos, next) = parse_u64(s, mid).unwrap();
    lemma_join_at(s, pos, mid, next);
}

/// Appends an instant to `out`.
pub fn put_timestamp(out: &mut Vec<u8>, t: &Timestamp)
    ensures
        final(out)@ == old(out)@ + ser_timestamp(*t),
{
    let ghost start = out@;
    put_varint(out, t.secs);
    put_varint(out, t.nanos as u64);
    assert(out@ =~= start + ser_timestamp(*t));
}

/// Reads a well-formed instant from `bytes` at `pos`.
pub fn take_timestamp(bytes: &[u8], pos: usize) -> (r: Option<(Timestamp, usize)>)
    ensures
        match r {
            Some((t, next)) => parse_timestamp(bytes@, pos as int) == Some((t, next as int)),
            None => parse_timestamp(bytes@, pos as int) is None,
        },
{
    let (secs, mid) = match take_u64(bytes, pos) {
        None => { return None; },
        Some(found) => found,
    };
    let (nanos, next) = match take_u64(bytes, mid) {
        None => { return None; },
        Some(found) => found,
    };
    if secs <= MAX_SECS && nanos < NANOS_PER_SEC as u64 {
        Some((Timestamp { secs, nanos: nanos as u32 }, next))
    } else {
        None
    }
}

// ------------------------------------------------------------------- entry

/// The entry is well formed and short enough to be written down.
pub open spec fn encodable(e: EntryView) -> bool {
    e.wf() && request_fits(e.request) && response_fits(e.response)
}

/// The record of an entry.
pub open spec fn encoding(e: EntryView) -> Seq<u8> {
    seq![FORMAT_TAG] + (ser_request(e.request) + (ser_response(e.response) + ser_timestamp(
        e.cached_at,
    )))
}

/// The entry that a whole record stands for, if it stands for one.
pub open spec fn decoding(s: Seq<u8>) -> Option<EntryView> {
    if s.len() > 0 && s[0] == FORMAT_TAG {
        match parse_request(s, 1) {
            Some((request, end1)) => match parse_response(s, end1) {
                Some((response, end2)) => match parse_timestamp(s, end2) {
                    Some((cached_at, end3)) => if end3 == s.len() {
                        Some(EntryView { request, response, cached_at })
                    } else {
                        None
                    },
                    None => None,
                },
                None => None,
            },
            None => None,
        }
    } else {
        None
    }
}

/// Reading back the record of a well-formed entry gives that entry.
pub proof fn lemma_round_trip(e: EntryView)
    requires
        encodable(e),
    ensures
        decoding(encoding(e)) == Some(e),
{
    let s = encoding(e);
    let a = ser_request(e.request);
    let b = ser_response(e.response);
    let c = ser_timestamp(e.cached_at);
    let end1 = 1 + a.len() as int;
    let end2 = end1 + b.len() as int;
    assert(s.len() == end2 + c.len());
    assert(s.subrange(0, s.len() as int) =~= seq![FORMAT_TAG] + (a + (b + c)));
    lemma_split_at(s, 0, seq![FORMAT_TAG], a + (b + c));
    lemma_split_at(s, 1, a, b + c);
    lemma_parse_ser_request(s, 1, e.request);
    lemma_split_at(s, end1, b, c);
    lemma_parse_ser_response(s, end1, e.response);
    lemma_parse_ser_timestamp(s, end2, e.cached_at);
}

/// What is read back from a record is a well-formed entry, and the record
/// is the one of that entry.
pub proof fn lemma_decoding_is_exact(s: Seq<u8>)
    requires
        decoding(s) is Some,
    ensures
        encodable(decoding(s).unwrap()),
        encoding(decoding(s).unwrap()) == s,
{
    lemma_ser_parse_request(s, 1);
    let (request, end1) = parse_request(s, 1).unwrap();
    lemma_ser_parse_response(s, end1);
    let (response, end2) = parse_response(s, end1).unwrap();
    lemma_ser_parse_timestamp(s, end2);
    lemma_join_at(s, end1, end2, s.len() as int);
    lemma_join_at(s, 1, end1, s.len() as int);
    lemma_join_at(s, 0, 1, s.len() as int);
    assert(s.subrange(0, 1) =~= seq![FORMAT_TAG]);
    assert(s.subrange(0, s.len() as int) =~= s);
}

/// Two well-formed entries with the same record are the same entry.
pub proof fn lemma_encoding_is_injective(a: EntryView, b: EntryView)
    requires
        encodable(a),
        encodable(b),
        encoding(a) == encoding(b),
    ensures
        a == b,
{
    lemma_round_trip(a);
    lemma_round_trip(b);
}

/// Writes the record of `entry`. Where the entry is well formed, reading
/// the record back gives the entry again.
pub fn encode(entry: &CacheEntry) -> (r: Vec<u8>)
    ensures
        r@ == encoding(entry@),
        entry@.wf() ==> decoding(r@) == Some(entry@),
{
    let mut out: Vec<u8> = Vec::new();
    out.push(FORMAT_TAG);
    put_request(&mut out, &entry.request);
    put_response(&mut out, &entry.response);
    put_timestamp(&mut out, &entry.cached_at);
    assert(out@ =~= encoding(entry@));
    proof {
        if entry@.wf() {
            lemma_round_trip(entry@);
        }
    }
    out
}

/// Reads a whole record. It gives an entry exactly where `bytes` is the
/// record of a well-formed entry, and then that entry; any other input is
/// refused as a whole.
pub fn decode(bytes: &[u8]) -> (r: Result<CacheEntry, MalformedRecord>)
    ensures
        match r {
            Ok(entry) => {
                &&& encodable(entry@)
                &&& encoding(entry@) == bytes@
                &&& decoding(bytes@) == Some(entry@)
            },
            Err(_) => {
                &&& decoding(bytes@) is None
                &&& forall|e: EntryView| encodable(e) ==> encoding(e) != bytes@
            },
        },
{
    let found = read_record(bytes);
    proof {
        if decoding(bytes@) is Some {
            lemma_decoding_is_exact(bytes@);
        } else {
            assert forall|e: EntryView| encodable(e) implies encoding(e) != bytes@ by {
                lemma_round_trip(e);
            }
        }
    }
    match found {
        Some(entry) => Ok(entry),
        None => Err(MalformedRecord),
    }
}

/// Reads a whole record as the format lays it out.
fn read_record(bytes: &[u8]) -> (r: Option<CacheEntry>)
    ensures
        match r {
            Some(entry) => decoding(bytes@) == Some(entry@),
            None => decoding(bytes@) is None,
        },
{
    if bytes.len() == 0 || bytes[0] != FORMAT_TAG {
        return None;
    }
    let (request, end1) = match take_request(bytes, 1) {
        None => { return None; },
        Some(found) => found,
    };
    let (response, end2) = match take_response(bytes, end1) {
        None => { return None; },
        Some(found) => found,
    };
    let (cached_at, end3) = match take_timestamp(bytes, end2) {
        None => { return None; },
        Some(found) => found,
    };
    if end3 != bytes.len() {
        return None;
    }
    Some(CacheEntry { request, response, cached_at })
}

} // verus!
