//! The stored form of an HTTP exchange: the request, the origin's response
//! and the instant the response arrived.

use crate::time::Timestamp;
use vstd::prelude::*;

verus! {

/// Lowest status code that a stored response may carry.
pub const MIN_STATUS: u16 = 100;

/// Highest status code that a stored response may carry.
pub const MAX_STATUS: u16 = 599;

/// HTTP protocol version.
#[derive(Clone, Copy, Debug, PartialEq, Eq, Structural)]
pub enum HttpVersion {
    Http09,
    Http10,
    Http11,
    H2,
    H3,
}

/// One header line. Names compare without regard to case; the value is
/// kept byte for byte.
#[derive(Clone, Debug, PartialEq, Eq)]
pub struct Header {
    pub name: String,
    pub value: Vec<u8>,
}

/// What a `Header` holds.
pub struct HeaderView {
    pub name: Seq<char>,
    pub value: Seq<u8>,
}

impl View for Header {
    type V = HeaderView;

    open spec fn view(&self) -> HeaderView {
        HeaderView { name: self.name@, value: self.value@ }
    }
}

/// What a list of headers holds, in order and with duplicates.
pub open spec fn headers_view(headers: Seq<Header>) -> Seq<HeaderView> {
    Seq::new(headers.len(), |i: int| headers[i]@)
}

/// The part of a request that is stored with its response.
#[derive(Clone, Debug, PartialEq, Eq)]
pub struct CachedRequest {
    pub method: String,
    pub uri: String,
    pub version: HttpVersion,
    pub headers: Vec<Header>,
    pub body: Vec<u8>,
}

/// What a `CachedRequest` holds.
pub struct RequestView {
    pub method: Seq<char>,
    pub uri: Seq<char>,
    pub version: HttpVersion,
    pub headers: Seq<HeaderView>,
    pub body: Seq<u8>,
}

impl View for CachedRequest {
    type V = RequestView;

    open spec fn view(&self) -> RequestView {
        RequestView {
            method: self.method@,
            uri: self.uri@,
            version: self.version,
            headers: headers_view(self.headers@),
            body: self.body@,
        }
    }
}

/// The origin's response as stored.
#[derive(Clone, Debug, PartialEq, Eq)]
pub struct CachedResponse {
    pub status_code: u16,
    pub version: HttpVersion,
    pub headers: Vec<Header>,
    pub body: Vec<u8>,
}

/// What a `CachedResponse` holds.
pub struct ResponseView {
    pub status_code: u16,
    pub version: HttpVersion,
    pub headers: Seq<HeaderView>,
    pub body: Seq<u8>,
}

impl ResponseView {
    /// The status code is one that HTTP defines a class for.
    pub open spec fn wf(self) -> bool {
        MIN_STATUS <= self.status_code <= MAX_STATUS
    }
}

impl View for CachedResponse {
    type V = ResponseView;

    open spec fn view(&self) -> ResponseView {
        ResponseView {
            status_code: self.status_code,
            version: self.version,
            headers: headers_view(self.headers@),
            body: self.body@,
        }
    }
}

/// The unit that the blob store keeps under one key.
#[derive(Clone, Debug, PartialEq, Eq)]
pub struct CacheEntry {
    pub request: CachedRequest,
    pub response: CachedResponse,
    pub cached_at: Timestamp,
}

/// What a `CacheEntry` holds.
pub struct EntryView {
    pub request: RequestView,
    pub response: ResponseView,
    pub cached_at: Timestamp,
}

impl EntryView {
    /// The entry can be written down and read back.
    pub open spec fn wf(self) -> bool {
        self.response.wf() && self.cached_at.wf()
    }
}

impl View for CacheEntry {
    type V = EntryView;

    open spec fn view(&self) -> EntryView {
        EntryView { request: self.request@, response: self.response@, cached_at: self.cached_at }
    }
}

impl Header {
    /// A copy that holds the same name and value.
    pub fn duplicate(&self) -> (r: Header)
        ensures
            r@ == self@,
    {
        Header { name: self.name.clone(), value: self.value.clone() }
    }
}

/// A copy of a list of headers, each equal to the one it was made from.
pub fn duplicate_headers(headers: &Vec<Header>) -> (r: Vec<Header>)
    ensures
        headers_view(r@) == headers_view(headers@),
{
    let mut out: Vec<Header> = Vec::new();
    let mut i: usize = 0;
    while i < headers.len()
        invariant
            i <= headers.len(),
            out.len() == i,
            forall|k: int| 0 <= k < i ==> out[k]@ == headers[k]@,
        decreases headers.len() - i,
    {
        out.push(headers[i].duplicate());
        i += 1;
    }
    assert(headers_view(out@) =~= headers_view(headers@));
    out
}

impl CachedRequest {
    /// A copy that holds the same request.
    pub fn duplicate(&self) -> (r: CachedRequest)
        ensures
            r@ == self@,
    {
        CachedRequest {
            method: self.method.clone(),
            uri: self.uri.clone(),
            version: self.version,
            headers: duplicate_headers(&self.headers),
            body: self.body.clone(),
        }
    }
}

impl CachedResponse {
    /// A copy that holds the same response.
    pub fn duplicate(&self) -> (r: CachedResponse)
        ensures
            r@ == self@,
    {
        CachedResponse {
            status_code: self.status_code,
            version: self.version,
            headers: duplicate_headers(&self.headers),
            body: self.body.clone(),
        }
    }

    /// Tells whether the status code lies in the range that can be stored.
    pub fn has_valid_status(&self) -> (r: bool)
        ensures
            r == self@.wf(),
    {
        MIN_STATUS <= self.status_code && self.status_code <= MAX_STATUS
    }
}

impl CacheEntry {
    /// Tells whether the entry can be written down and read back.
    pub fn is_valid(&self) -> (r: bool)
        ensures
            r == self@.wf(),
    {
        self.response.has_valid_status() && self.cached_at.is_valid()
    }
}

} // verus!
