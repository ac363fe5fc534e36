//! The freshness rules of HTTP caching.
//!
//! What the headers of an exchange mean is worked out by the crate
//! `http-cache-semantics`. This module hands it the stored exchange, keeps
//! it away from the inputs on which it would fail, and decides on what it
//! answers. How time wears freshness down is computed here.

use crate::directive::{forbids_reuse, varies_on_everything};
use crate::message::{
    headers_view, CacheEntry, CachedRequest, CachedResponse, EntryView, Header, HeaderView,
    RequestView, ResponseView,
};
use crate::time::{elapsed, left_after, Span, Timestamp};
use http_cache_semantics::{BeforeRequest, CachePolicy};
use std::time::{Duration, UNIX_EPOCH};
use vstd::prelude::*;

verus! {

/// A request of `http`, built for the freshness rules and never looked
/// into.
#[verifier::external_type_specification]
#[verifier::external_body]
#[verifier::reject_recursive_types(T)]
pub struct ExHttpRequest<T>(http::Request<T>);

/// A response of `http`, built for the freshness rules and never looked
/// into.
#[verifier::external_type_specification]
#[verifier::external_body]
#[verifier::reject_recursive_types(T)]
pub struct ExHttpResponse<T>(http::Response<T>);

/// Largest number of headers that a message may carry into the freshness
/// rules. The rules copy the headers to a header map of their own and add
/// up to three more. Such a map takes no more than 32,768 slots, and it
/// asks for twice its slots when it is full to three quarters, or when an
/// insert had to move many entries while a fifth of the slots is in use.
/// With at most 4,099 entries a map of 32,768 slots has under a fifth in
/// use, and smaller maps may double: no insert ever asks for more slots
/// than there can be.
pub const MAX_HEADERS: usize = 4_096;

/// Largest age at receipt, in seconds, that the freshness rules are asked
/// about: up to it the age of an entry can be counted at every instant
/// that a `Timestamp` holds.
pub const MAX_AGE_SECS: u64 = 18_446_743_820_307_250_815;

/// What a stored entry is worth to a request.
#[derive(Clone, Debug, PartialEq, Eq)]
pub enum Verdict {
    /// The stored response answers the request as it is.
    Fresh,
    /// The origin has to be asked. `request` is what to ask it: the new
    /// request with the headers that the freshness rules give it, which
    /// carry the conditions under which the origin may answer that the
    /// stored response still holds. `matches` tells whether the entry is
    /// for the same resource as the request.
    Stale { request: CachedRequest, matches: bool },
    /// The entry cannot be held against the request at all.
    Miss,
}

/// What a `Verdict` holds.
pub enum VerdictView {
    Fresh,
    Stale { request: RequestView, matches: bool },
    Miss,
}

impl View for Verdict {
    type V = VerdictView;

    open spec fn view(&self) -> VerdictView {
        match *self {
            Verdict::Fresh => VerdictView::Fresh,
            Verdict::Stale { request, matches } => VerdictView::Stale {
                request: request@,
                matches,
            },
            Verdict::Miss => VerdictView::Miss,
        }
    }
}

/// What the freshness rules answer when an entry is held against a
/// request: the entry is fresh, or the origin is to be asked with these
/// headers.
pub enum Answer {
    Fresh,
    Stale { headers: Seq<HeaderView>, matches: bool },
}

/// Whether `http` makes a request of these parts: a method, a URI and
/// header lines that it accepts.
pub uninterp spec fn http_accepts_request(request: RequestView) -> bool;

/// Whether `http` makes a response of these parts: a status code and
/// header lines that it accepts.
pub uninterp spec fn http_accepts_response(response: ResponseView) -> bool;

/// What `CachePolicy::is_storable` answers for the exchange.
pub uninterp spec fn storable_of(request: RequestView, response: ResponseView) -> bool;

/// What `CachePolicy::time_to_live` answers for the entry at the instant
/// of its receipt.
pub uninterp spec fn remaining_at_receipt(entry: EntryView) -> Span;

/// What `CachePolicy::age` answers for the entry at the instant of its
/// receipt: the age that the response came with.
pub uninterp spec fn age_at_receipt(entry: EntryView) -> Span;

/// What `CachePolicy::before_request` answers when the entry is held
/// against `request` at `now`.
pub uninterp spec fn before_request_of(
    entry: EntryView,
    request: RequestView,
    now: Timestamp,
) -> Answer;

/// Whether a stale answer is for the same resource; `None` for a fresh
/// one.
pub open spec fn stale_matches(answer: Answer) -> Option<bool> {
    match answer {
        Answer::Fresh => None,
        Answer::Stale { matches, .. } => Some(matches),
    }
}

/// Builds an `http::Request` with `http::request::Builder` from the method,
/// the URI and the headers. The contract names whether the builder accepts
/// them and says nothing of the request.
#[verifier::external_body]
fn outside_request(request: &CachedRequest) -> (r: Result<http::Request<()>, http::Error>)
    ensures
        r is Ok == http_accepts_request(request@),
{
    let mut builder = http::Request::builder().method(request.method.as_str()).uri(
        request.uri.as_str(),
    );
    for header in request.headers.iter() {
        builder = builder.header(header.name.as_str(), header.value.as_slice());
    }
    builder.body(())
}

/// Builds an `http::Response` with `http::response::Builder` from the
/// status code and the headers. The contract names whether the builder
/// accepts them and says nothing of the response.
#[verifier::external_body]
fn outside_response(response: &CachedResponse) -> (r: Result<http::Response<()>, http::Error>)
    ensures
        r is Ok == http_accepts_response(response@),
{
    let mut builder = http::Response::builder().status(response.status_code);
    for header in response.headers.iter() {
        builder = builder.header(header.name.as_str(), header.value.as_slice());
    }
    builder.body(())
}

/// The methods whose responses the freshness rules store.
pub open spec fn is_cacheable_method(method: Seq<char>) -> bool {
    method == "GET"@ || method == "HEAD"@ || method == "POST"@
}

/// The status codes that the freshness rules understand.
pub open spec fn is_understood_status(status: u16) -> bool {
    ||| status == 200
    ||| status == 203
    ||| status == 204
    ||| status == 300
    ||| status == 301
    ||| status == 302
    ||| status == 303
    ||| status == 307
    ||| status == 308
    ||| status == 404
    ||| status == 405
    ||| status == 410
    ||| status == 414
    ||| status == 501
}

/// Asks `CachePolicy::is_storable` about the exchange, with the default
/// options. The contract names the answer, which depends on the two
/// messages alone, and states two of the conditions that the crate puts
/// on a storable exchange: the method is `GET`, `HEAD` or `POST`, and the
/// status code is on its list of understood ones.
#[verifier::external_body]
fn outside_is_storable(request: &CachedRequest, response: &CachedResponse) -> (r: bool)
    requires
        http_accepts_request(request@),
        http_accepts_response(response@),
    ensures
        r == storable_of(request@, response@),
        r ==> is_cacheable_method(request.method@),
        r ==> is_understood_status(response.status_code),
{
    let req = outside_request(request).unwrap();
    let res = outside_response(response).unwrap();
    let policy = CachePolicy::new_options(&req, &res, UNIX_EPOCH, Default::default());
    policy.is_storable()
}

/// Asks `CachePolicy::time_to_live` about the entry at the instant of its
/// receipt, with the default options. The contract names the answer and
/// says that it is a duration in normal form.
#[verifier::external_body]
fn outside_remaining_at_receipt(entry: &CacheEntry) -> (r: Span)
    requires
        http_accepts_request(entry.request@),
        http_accepts_response(entry.response@),
        entry.cached_at.wf(),
    ensures
        r == remaining_at_receipt(entry@),
        r.wf(),
{
    let req = outside_request(&entry.request).unwrap();
    let res = outside_response(&entry.response).unwrap();
    let at = UNIX_EPOCH + Duration::new(entry.cached_at.secs, entry.cached_at.nanos);
    let policy = CachePolicy::new_options(&req, &res, at, Default::default());
    let left = policy.time_to_live(at);
    Span { secs: left.as_secs(), nanos: left.subsec_nanos() }
}

/// Asks `CachePolicy::age` about the entry at the instant of its receipt,
/// with the default options. The contract names the answer and says that
/// it is a duration in normal form.
#[verifier::external_body]
fn outside_age_at_receipt(entry: &CacheEntry) -> (r: Span)
    requires
        http_accepts_request(entry.request@),
        http_accepts_response(entry.response@),
        entry.cached_at.wf(),
    ensures
        r == age_at_receipt(entry@),
        r.wf(),
{
    let req = outside_request(&entry.request).unwrap();
    let res = outside_response(&entry.response).unwrap();
    let at = UNIX_EPOCH + Duration::new(entry.cached_at.secs, entry.cached_at.nanos);
    let policy = CachePolicy::new_options(&req, &res, at, Default::default());
    let age = policy.age(at);
    Span { secs: age.as_secs(), nanos: age.subsec_nanos() }
}

/// Asks `CachePolicy::before_request` whether the entry answers `request`
/// at `now`, with the default options. The contract names the answer and
/// hands out whether it is fresh and, if not, whether it matches. The
/// `requires` keeps out what the crate fails on: an age that cannot be
/// added to, an instant that has no HTTP date, and so many headers that
/// the header map they are copied to would have to grow beyond its limit.
#[verifier::external_body]
fn outside_before_request(entry: &CacheEntry, request: &CachedRequest, now: &Timestamp) -> (r:
    Option<bool>)
    requires
        http_accepts_request(entry.request@),
        http_accepts_response(entry.response@),
        http_accepts_request(request@),
        entry.cached_at.wf(),
        now.wf(),
        age_at_receipt(entry@).secs <= MAX_AGE_SECS,
        entry.response.headers.len() <= MAX_HEADERS,
        request.headers.len() <= MAX_HEADERS,
    ensures
        r == stale_matches(before_request_of(entry@, request@, *now)),
{
    let req = outside_request(&entry.request).unwrap();
    let res = outside_response(&entry.response).unwrap();
    let at = UNIX_EPOCH + Duration::new(entry.cached_at.secs, entry.cached_at.nanos);
    let policy = CachePolicy::new_options(&req, &res, at, Default::default());
    let asked = outside_request(request).unwrap();
    let when = UNIX_EPOCH + Duration::new(now.secs, now.nanos);
    match policy.before_request(&asked, when) {
        BeforeRequest::Fresh(_) => None,
        BeforeRequest::Stale { matches, .. } => Some(matches),
    }
}

/// Asks `CachePolicy::before_request` as `outside_before_request` does,
/// and hands out, line by line, the headers of the request that a stale
/// answer carries; none for a fresh answer. The contract says that these
/// are the headers of the named answer. The `requires` is the same.
#[verifier::external_body]
fn outside_revalidation_headers(
    entry: &CacheEntry,
    request: &CachedRequest,
    now: &Timestamp,
) -> (r: Vec<Header>)
    requires
        http_accepts_request(entry.request@),
        http_accepts_response(entry.response@),
        http_accepts_request(request@),
        entry.cached_at.wf(),
        now.wf(),
        age_at_receipt(entry@).secs <= MAX_AGE_SECS,
        entry.response.headers.len() <= MAX_HEADERS,
        request.headers.len() <= MAX_HEADERS,
    ensures
        before_request_of(entry@, request@, *now) matches Answer::Stale { headers, .. }
            ==> headers_view(r@) == headers,
{
    let req = outside_request(&entry.request).unwrap();
    let res = outside_response(&entry.response).unwrap();
    let at = UNIX_EPOCH + Duration::new(entry.cached_at.secs, entry.cached_at.nanos);
    let policy = CachePolicy::new_options(&req, &res, at, Default::default());
    let asked = outside_request(request).unwrap();
    let when = UNIX_EPOCH + Duration::new(now.secs, now.nanos);
    let mut lines = Vec::new();
    if let BeforeRequest::Stale { request: parts, .. } = policy.before_request(&asked, when) {
        for (name, value) in parts.headers.iter() {
            lines.push(Header { name: name.as_str().to_owned(), value: value.as_bytes().to_vec() });
        }
    }
    lines
}

/// Tells whether the parts make a request that the freshness rules can
/// read.
pub fn request_is_acceptable(request: &CachedRequest) -> (r: bool)
    ensures
        r == http_accepts_request(request@),
{
    match outside_request(request) {
        Ok(_) => true,
        Err(_) => false,
    }
}

/// Tells whether the parts make a response that the freshness rules can
/// read.
pub fn response_is_acceptable(response: &CachedResponse) -> (r: bool)
    ensures
        r == http_accepts_response(response@),
{
    match outside_response(response) {
        Ok(_) => true,
        Err(_) => false,
    }
}

/// The exchange may be stored: both messages can be read, and the rules
/// allow it.
pub open spec fn is_storable(request: RequestView, response: ResponseView) -> bool {
    &&& http_accepts_request(request)
    &&& http_accepts_response(response)
    &&& storable_of(request, response)
}

/// Tells whether the response to `request` may be stored at all. Only
/// responses to `GET`, `HEAD` and `POST` with an understood status code
/// are.
pub fn storable(request: &CachedRequest, response: &CachedResponse) -> (r: bool)
    ensures
        r == is_storable(request@, response@),
        r ==> is_cacheable_method(request.method@),
        r ==> is_understood_status(response.status_code),
{
    if request_is_acceptable(request) && response_is_acceptable(response) {
        outside_is_storable(request, response)
    } else {
        false
    }
}

/// The freshness rules can read the entry.
pub open spec fn evaluable(entry: EntryView) -> bool {
    &&& entry.cached_at.wf()
    &&& http_accepts_request(entry.request)
    &&& http_accepts_response(entry.response)
}

/// Nanoseconds of freshness that are left to the entry at `now`: what was
/// left when it arrived, less the time that has passed since, and nothing
/// for an entry that the rules cannot read.
pub open spec fn ttl_of(entry: EntryView, now: Timestamp) -> nat {
    if evaluable(entry) {
        left_after(remaining_at_receipt(entry).total_nanos(), elapsed(entry.cached_at, now))
    } else {
        0
    }
}

/// Tells whether the freshness rules can read the entry.
pub fn is_evaluable(entry: &CacheEntry) -> (r: bool)
    ensures
        r == evaluable(entry@),
{
    entry.cached_at.is_valid() && request_is_acceptable(&entry.request) && response_is_acceptable(
        &entry.response,
    )
}

/// The time for which the entry stays fresh from `now` on; zero once it is
/// stale.
pub fn time_to_live(entry: &CacheEntry, now: &Timestamp) -> (ttl: Span)
    requires
        now.wf(),
    ensures
        ttl.wf(),
        ttl.total_nanos() == ttl_of(entry@, *now),
{
    if is_evaluable(entry) {
        let at_receipt = outside_remaining_at_receipt(entry);
        let passed = entry.cached_at.elapsed_until(now);
        at_receipt.saturating_sub(&passed)
    } else {
        Span::zero()
    }
}

/// An entry that is fresh at one instant is fresh at every earlier one.
pub proof fn lemma_fresh_at_earlier_instants(entry: EntryView, t0: Timestamp, t1: Timestamp)
    requires
        ttl_of(entry, t0) > 0,
        t1.total_nanos() <= t0.total_nanos(),
    ensures
        ttl_of(entry, t1) > 0,
{
}

/// Freshness never grows as time goes by.
pub proof fn lemma_time_to_live_never_grows(entry: EntryView, earlier: Timestamp, later: Timestamp)
    requires
        earlier.total_nanos() <= later.total_nanos(),
    ensures
        ttl_of(entry, later) <= ttl_of(entry, earlier),
{
}

/// The rule for writing an entry: the exchange is storable and some
/// freshness is left to it.
pub open spec fn worth_storing(storable: bool, ttl: Span) -> bool {
    storable && ttl.total_nanos() > 0
}

/// Tells whether an exchange is written to the store, given what the
/// freshness rules said of it.
pub fn should_store(storable: bool, ttl: &Span) -> (r: bool)
    requires
        ttl.wf(),
    ensures
        r == worth_storing(storable, *ttl),
{
    storable && !ttl.is_zero()
}

/// The entry can be held against `request` at every instant.
pub open spec fn comparable(entry: EntryView, request: RequestView) -> bool {
    &&& evaluable(entry)
    &&& http_accepts_request(request)
    &&& entry.request.method == request.method
    &&& !varies_on_everything(entry.response)
    &&& entry.response.headers.len() <= MAX_HEADERS
    &&& request.headers.len() <= MAX_HEADERS
    &&& age_at_receipt(entry).secs <= MAX_AGE_SECS
}

/// The request that is sent to the origin for `request` when the stored
/// entry is stale: `request` with the headers that the rules give it.
pub open spec fn conditional_request(request: RequestView, headers: Seq<HeaderView>) -> RequestView {
    RequestView {
        method: request.method,
        uri: request.uri,
        version: request.version,
        headers,
        body: request.body,
    }
}

/// What the entry is worth to `request` at `now`: a miss where the two
/// cannot be compared, differ in method, or the response varies on
/// everything; else what the rules answer.
pub open spec fn verdict_of(entry: EntryView, request: RequestView, now: Timestamp) -> VerdictView {
    if comparable(entry, request) {
        match before_request_of(entry, request, now) {
            Answer::Fresh => VerdictView::Fresh,
            Answer::Stale { headers, matches } => VerdictView::Stale {
                request: conditional_request(request, headers),
                matches,
            },
        }
    } else {
        VerdictView::Miss
    }
}

/// Tells whether two texts are the same.
fn same_text(a: &String, b: &String) -> (r: bool)
    ensures
        r == (a@ == b@),
{
    *a == *b
}

/// Holds a stored entry against a new request at `now`.
pub fn before_request(entry: &CacheEntry, request: &CachedRequest, now: &Timestamp) -> (r: Verdict)
    requires
        now.wf(),
    ensures
        r@ == verdict_of(entry@, request@, *now),
        entry.request.method@ != request.method@ ==> r is Miss,
        varies_on_everything(entry.response@) ==> r is Miss,
{
    if !same_text(&entry.request.method, &request.method) || forbids_reuse(&entry.response) {
        return Verdict::Miss;
    }
    if entry.response.headers.len() > MAX_HEADERS || request.headers.len() > MAX_HEADERS {
        assert(headers_view(entry.response.headers@).len()
            == entry.response.headers@.len());
        assert(headers_view(request.headers@).len() == request.headers@.len());
        return Verdict::Miss;
    }
    if !is_evaluable(entry) || !request_is_acceptable(request) {
        return Verdict::Miss;
    }
    let age = outside_age_at_receipt(entry);
    if age.secs > MAX_AGE_SECS {
        return Verdict::Miss;
    }
    assert(headers_view(entry.response.headers@).len()
        == entry.response.headers@.len());
    assert(headers_view(request.headers@).len() == request.headers@.len());
    match outside_before_request(entry, request, now) {
        None => Verdict::Fresh,
        Some(matches) => {
            let headers = outside_revalidation_headers(entry, request, now);
            Verdict::Stale {
                request: CachedRequest {
                    method: request.method.clone(),
                    uri: request.uri.clone(),
                    version: request.version,
                    headers,
                    body: request.body.clone(),
                },
                matches,
            }
        },
    }
}

} // verus!
