//! What the operator's pages decide: how the store and the index are
//! listed, and how the index is replayed to warm the store.

use crate::codec::{bytes_view, decode, decoding, encode, encoding};
use crate::key::{cache_key, key_of};
use crate::message::{
    CacheEntry, CachedRequest, EntryView, Header, HeaderView, HttpVersion, RequestView,
    ResponseView,
};
use crate::origin::{origin_url, origin_url_of, OriginError};
use crate::pipeline::{is_worth_writing, worth_writing, Config, ConfigView, Event, EventView};
use crate::policy::{time_to_live, ttl_of};
use crate::text::{decimal_of, push_decimal};
use crate::time::{Span, Timestamp};
use vstd::prelude::*;
use vstd::string::{StrSliceExecFns, StringExecFns};
use vstd::utf8::encode_utf8;

verus! {

// ----------------------------------------------------------------- listing

/// Nanoseconds of freshness that are left at `now` to what the store
/// holds under a key; nothing where it holds no record of an entry.
pub open spec fn stored_ttl(bytes: Option<Seq<u8>>, now: Timestamp) -> nat {
    match bytes {
        Some(b) => match decoding(b) {
            Some(entry) => ttl_of(entry, now),
            None => 0,
        },
        None => 0,
    }
}

/// The time for which what the store holds under a key stays fresh.
pub fn stored_time_to_live(bytes: &Option<Vec<u8>>, now: &Timestamp) -> (ttl: Span)
    requires
        now.wf(),
    ensures
        ttl.wf(),
        ttl.total_nanos() == stored_ttl(bytes_view(*bytes), *now),
{
    match bytes {
        None => Span::zero(),
        Some(record) => match decode(record.as_slice()) {
            Ok(entry) => time_to_live(&entry, now),
            Err(_) => Span::zero(),
        },
    }
}

/// The line that lists a blob: its key and the whole seconds of freshness
/// that are left to it.
pub fn blob_line(key: &str, ttl: &Span) -> (line: String)
    ensures
        line@ == key@ + " TTL Seconds: "@ + decimal_of(ttl.secs as nat),
{
    let mut line = String::from_str(key);
    line.append(" TTL Seconds: ");
    push_decimal(&mut line, ttl.secs);
    line
}

/// The line that lists an index row: its method and its URL.
pub fn row_line(method: &str, url: &str) -> (line: String)
    ensures
        line@ == method@ + " "@ + url@,
{
    let mut line = String::from_str(method);
    line.append(" ");
    line.append(url);
    line
}

// ---------------------------------------------------------------- sessions

/// What becomes of a request for one of the operator's pages.
#[derive(Clone, Copy, Debug, PartialEq, Eq, Structural)]
pub enum Access {
    /// The page is served.
    Granted,
    /// The operator is sent to the login page.
    Login,
}

/// Decides on a request for one of the operator's pages: it is served
/// where the request carries a session cookie and the sessions table
/// knows that session; a request without a cookie, or with one that the
/// table does not know, is sent to the login page.
pub fn operator_access(has_cookie: bool, session_known: bool) -> (r: Access)
    ensures
        r == (if has_cookie && session_known {
            Access::Granted
        } else {
            Access::Login
        }),
{
    if has_cookie && session_known {
        Access::Granted
    } else {
        Access::Login
    }
}

/// Tells whether a login mints a new session: it does unless the request
/// carries the cookie of a session that the table knows. A cookie that
/// the table does not know counts as no cookie.
pub fn login_mints_session(has_cookie: bool, session_known: bool) -> (r: bool)
    ensures
        r == !(has_cookie && session_known),
{
    !(has_cookie && session_known)
}

// ------------------------------------------------------------------ replay

/// Where the replay of one index row stands.
#[derive(Clone, Debug, PartialEq, Eq)]
pub enum RowStage {
    /// The blob for the row's key is being read.
    Lookup { request: CachedRequest },
    /// The origin is being asked.
    Fetch { request: CachedRequest },
    /// The blob is being written.
    Store,
    /// The row is dealt with.
    Done,
}

/// What a `RowStage` holds.
pub enum RowStageView {
    Lookup { request: RequestView },
    Fetch { request: RequestView },
    Store,
    Done,
}

impl View for RowStage {
    type V = RowStageView;

    open spec fn view(&self) -> RowStageView {
        match *self {
            RowStage::Lookup { request } => RowStageView::Lookup { request: request@ },
            RowStage::Fetch { request } => RowStageView::Fetch { request: request@ },
            RowStage::Store => RowStageView::Store,
            RowStage::Done => RowStageView::Done,
        }
    }
}

/// How the replay of a row ended.
#[derive(Clone, Copy, Debug, PartialEq, Eq, Structural)]
pub enum RowOutcome {
    /// The store holds a fresh entry for the row.
    StillFresh,
    /// The origin's response was written to the store.
    Stored,
    /// The origin's response is not to be stored.
    NotStored,
    /// The blob could not be written.
    StoreFailed,
    /// The origin could not be reached.
    OriginUnreachable,
    /// The row's URL cannot be addressed to the origin.
    NoOriginUrl { reason: OriginError },
    /// An event was reported that the replay was not waiting for.
    OutOfTurn,
}

/// What the replay asks the program to do next.
#[derive(Clone, Debug, PartialEq, Eq)]
pub enum RowAction {
    /// Read the blob under `key` and report `Event::Blob`.
    ReadBlob { key: String },
    /// Ask the origin with `method` for `url`, without headers or body,
    /// and report `Event::Origin`.
    Fetch { method: String, url: String },
    /// Write `bytes` under `key`, all or nothing, and report
    /// `Event::Stored`.
    WriteBlob { key: String, bytes: Vec<u8> },
    /// Go on with the next row.
    Finish { outcome: RowOutcome },
}

/// What a `RowAction` holds.
pub enum RowActionView {
    ReadBlob { key: Seq<char> },
    Fetch { method: Seq<char>, url: Seq<char> },
    WriteBlob { key: Seq<char>, bytes: Seq<u8> },
    Finish { outcome: RowOutcome },
}

impl View for RowAction {
    type V = RowActionView;

    open spec fn view(&self) -> RowActionView {
        match *self {
            RowAction::ReadBlob { key } => RowActionView::ReadBlob { key: key@ },
            RowAction::Fetch { method, url } => RowActionView::Fetch { method: method@, url: url@ },
            RowAction::WriteBlob { key, bytes } => RowActionView::WriteBlob {
                key: key@,
                bytes: bytes@,
            },
            RowAction::Finish { outcome } => RowActionView::Finish { outcome },
        }
    }
}

/// The request that stands for an index row: its method and URL, the
/// served host as its only header, and no body.
pub open spec fn row_request(config: ConfigView, method: Seq<char>, url: Seq<char>) -> RequestView {
    RequestView {
        method,
        uri: url,
        version: HttpVersion::Http11,
        headers: seq![HeaderView { name: "host"@, value: encode_utf8(config.from_domain) }],
        body: Seq::empty(),
    }
}

/// How the replay of a row starts: the blob under the row's key is asked
/// for.
pub open spec fn first_of_row(config: ConfigView, method: Seq<char>, url: Seq<char>) -> (
    RowStageView,
    RowActionView,
) {
    (
        RowStageView::Lookup { request: row_request(config, method, url) },
        RowActionView::ReadBlob { key: key_of(method, url) },
    )
}

/// The end of a row's replay.
pub open spec fn finish(outcome: RowOutcome) -> (RowStageView, RowActionView) {
    (RowStageView::Done, RowActionView::Finish { outcome })
}

/// The next stage and action of a row's replay, for every stage and
/// event. A row whose blob is still fresh is left alone; for any other the
/// origin is asked, and its response is written where it is worth
/// writing. The index is never written.
pub open spec fn next_of_row(
    config: ConfigView,
    stage: RowStageView,
    event: EventView,
    now: Timestamp,
) -> (RowStageView, RowActionView) {
    match stage {
        RowStageView::Lookup { request } => match event {
            EventView::Blob { bytes } => if stored_ttl(bytes, now) > 0 {
                finish(RowOutcome::StillFresh)
            } else {
                match origin_url_of(config.origin_domain, request.uri) {
                    Ok(url) => (
                        RowStageView::Fetch { request },
                        RowActionView::Fetch { method: request.method, url },
                    ),
                    Err(reason) => finish(RowOutcome::NoOriginUrl { reason }),
                }
            },
            _ => finish(RowOutcome::OutOfTurn),
        },
        RowStageView::Fetch { request } => match event {
            EventView::Origin { response: Some(response) } => {
                let entry = EntryView { request, response, cached_at: now };
                if worth_writing(entry) {
                    (
                        RowStageView::Store,
                        RowActionView::WriteBlob {
                            key: key_of(request.method, request.uri),
                            bytes: encoding(entry),
                        },
                    )
                } else {
                    finish(RowOutcome::NotStored)
                }
            },
            EventView::Origin { response: None } => finish(RowOutcome::OriginUnreachable),
            _ => finish(RowOutcome::OutOfTurn),
        },
        RowStageView::Store => match event {
            EventView::Stored { ok: true } => finish(RowOutcome::Stored),
            EventView::Stored { ok: false } => finish(RowOutcome::StoreFailed),
            _ => finish(RowOutcome::OutOfTurn),
        },
        RowStageView::Done => finish(RowOutcome::OutOfTurn),
    }
}

/// The end of a row's replay.
fn finished(outcome: RowOutcome) -> (r: (RowStage, RowAction))
    ensures
        (r.0@, r.1@) == finish(outcome),
{
    (RowStage::Done, RowAction::Finish { outcome })
}

/// Starts the replay of the index row with `method` and `url`.
pub fn begin_row(config: &Config, method: &str, url: &str) -> (r: (RowStage, RowAction))
    ensures
        (r.0@, r.1@) == first_of_row(config@, method@, url@),
{
    let mut headers: Vec<Header> = Vec::new();
    headers.push(
        Header {
            name: String::from_str("host"),
            value: config.from_domain.as_str().as_bytes_vec(),
        },
    );
    let request = CachedRequest {
        method: String::from_str(method),
        uri: String::from_str(url),
        version: HttpVersion::Http11,
        headers,
        body: Vec::new(),
    };
    assert(request@.headers =~= row_request(config@, method@, url@).headers);
    let key = cache_key(method, url);
    (RowStage::Lookup { request }, RowAction::ReadBlob { key })
}

/// Performs one step of a row's replay.
pub fn row_step(config: &Config, stage: RowStage, event: Event, now: &Timestamp) -> (r: (
    RowStage,
    RowAction,
))
    requires
        now.wf(),
    ensures
        (r.0@, r.1@) == next_of_row(config@, stage@, event@, *now),
{
    match stage {
        RowStage::Lookup { request } => match event {
            Event::Blob { bytes } => {
                let ttl = stored_time_to_live(&bytes, now);
                if !ttl.is_zero() {
                    finished(RowOutcome::StillFresh)
                } else {
                    match origin_url(config.origin_domain.as_str(), request.uri.as_str()) {
                        Ok(url) => {
                            let method = request.method.clone();
                            (RowStage::Fetch { request }, RowAction::Fetch { method, url })
                        },
                        Err(reason) => finished(RowOutcome::NoOriginUrl { reason }),
                    }
                }
            },
            _ => finished(RowOutcome::OutOfTurn),
        },
        RowStage::Fetch { request } => match event {
            Event::Origin { response: Some(response) } => {
                let entry = CacheEntry { request, response, cached_at: *now };
                if is_worth_writing(&entry) {
                    let key = cache_key(entry.request.method.as_str(), entry.request.uri.as_str());
                    let bytes = encode(&entry);
                    (RowStage::Store, RowAction::WriteBlob { key, bytes })
                } else {
                    finished(RowOutcome::NotStored)
                }
            },
            Event::Origin { response: None } => finished(RowOutcome::OriginUnreachable),
            _ => finished(RowOutcome::OutOfTurn),
        },
        RowStage::Store => match event {
            Event::Stored { ok: true } => finished(RowOutcome::Stored),
            Event::Stored { ok: false } => finished(RowOutcome::StoreFailed),
            _ => finished(RowOutcome::OutOfTurn),
        },
        RowStage::Done => finished(RowOutcome::OutOfTurn),
    }
}

/// Whatever a replay writes is the record of an exchange that is worth
/// writing, under the key of the row that is replayed.
pub proof fn lemma_replay_writes_under_row_key(
    config: ConfigView,
    method: Seq<char>,
    url: Seq<char>,
    blob: EventView,
    response: ResponseView,
    now: Timestamp,
    later: Timestamp,
)
    requires
        next_of_row(config, first_of_row(config, method, url).0, blob, now).0 is Fetch,
    ensures
        ({
            let asked = next_of_row(config, first_of_row(config, method, url).0, blob, now).0;
            let entry = EntryView {
                request: row_request(config, method, url),
                response,
                cached_at: later,
            };
            let answer = next_of_row(
                config,
                asked,
                EventView::Origin { response: Some(response) },
                later,
            );
            if worth_writing(entry) {
                answer.1 == (RowActionView::WriteBlob {
                    key: key_of(method, url),
                    bytes: encoding(entry),
                })
            } else {
                answer == finish(RowOutcome::NotStored)
            }
        }),
{
}

/// A row whose blob is still fresh is left alone.
pub proof fn lemma_fresh_row_is_left_alone(
    config: ConfigView,
    request: RequestView,
    bytes: Option<Seq<u8>>,
    now: Timestamp,
)
    requires
        stored_ttl(bytes, now) > 0,
    ensures
        next_of_row(config, RowStageView::Lookup { request }, EventView::Blob { bytes }, now)
            == finish(RowOutcome::StillFresh),
{
}

} // verus!
