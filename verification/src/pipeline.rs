//! The course of one request through the proxy, as a state machine.
//!
//! The program around this library does the work that takes time: it reads
//! and writes blobs, asks the origin, locks, and inserts index rows. After
//! each piece of work it reports what happened as an `Event`, and `step`
//! answers with the next `Action` to perform. The machine decides; it
//! never waits.

use crate::admission::{check_host, host_name_of, refusal_text, STATUS_MISDIRECTED};
use vstd::string::StringExecFns;
use crate::codec::{bytes_view, decode, decoding, encode, encoding};
use crate::directive::{carries_no_store, forbids_storing};
use crate::key::{key_for, request_key};
use crate::message::{
    duplicate_headers, CacheEntry, CachedRequest, CachedResponse, EntryView, Header, HeaderView,
    RequestView, ResponseView, headers_view,
};
use crate::origin::{origin_url, origin_url_of, text_view, OriginError};
use crate::policy::{
    before_request, is_cacheable_method, is_storable, is_understood_status, should_store,
    storable, time_to_live, ttl_of, verdict_of, Verdict,
};
use crate::time::Timestamp;
use vstd::prelude::*;

verus! {

/// What the proxy is set up with.
#[derive(Clone, Debug, PartialEq, Eq)]
pub struct Config {
    /// The host name that clients ask for.
    pub from_domain: String,
    /// The host name of the origin.
    pub origin_domain: String,
    /// Where the index database lies, if it lies in a file.
    pub database_path: Option<String>,
    /// Whether the database is a replica whose replication has to be
    /// halted around a write.
    pub replicated: bool,
}

/// What a `Config` holds.
pub struct ConfigView {
    pub from_domain: Seq<char>,
    pub origin_domain: Seq<char>,
    pub database_path: Option<Seq<char>>,
    pub replicated: bool,
}

impl View for Config {
    type V = ConfigView;

    open spec fn view(&self) -> ConfigView {
        ConfigView {
            from_domain: self.from_domain@,
            origin_domain: self.origin_domain@,
            database_path: text_view(self.database_path),
            replicated: self.replicated,
        }
    }
}

impl ConfigView {
    /// Replication has to be halted around a write to the index.
    pub open spec fn needs_halt(self) -> bool {
        self.replicated && self.database_path is Some
    }
}

/// Why a request got no response from the origin or the cache.
#[derive(Clone, Debug, PartialEq, Eq)]
pub enum ProxyError {
    /// The request named a host that the proxy does not serve.
    HostNotAllowed { found: String, expected: String },
    /// The origin could not be reached.
    OriginUnreachable,
    /// The request could not be addressed to the origin.
    NoOriginUrl { reason: OriginError },
    /// An event was reported that the machine was not waiting for.
    OutOfTurn,
}

/// What a `ProxyError` holds.
pub enum ProxyErrorView {
    HostNotAllowed { found: Seq<char>, expected: Seq<char> },
    OriginUnreachable,
    NoOriginUrl { reason: OriginError },
    OutOfTurn,
}

impl View for ProxyError {
    type V = ProxyErrorView;

    open spec fn view(&self) -> ProxyErrorView {
        match *self {
            ProxyError::HostNotAllowed { found, expected } => ProxyErrorView::HostNotAllowed {
                found: found@,
                expected: expected@,
            },
            ProxyError::OriginUnreachable => ProxyErrorView::OriginUnreachable,
            ProxyError::NoOriginUrl { reason } => ProxyErrorView::NoOriginUrl { reason },
            ProxyError::OutOfTurn => ProxyErrorView::OutOfTurn,
        }
    }
}

/// Where a request stands.
#[derive(Clone, Debug, PartialEq, Eq)]
pub enum Stage {
    /// No request has arrived yet.
    Admit,
    /// The blob for the request's key is being read.
    Lookup { request: CachedRequest },
    /// The origin is being asked.
    Fetch { request: CachedRequest },
    /// The blob is being written.
    Store { request: CachedRequest, response: CachedResponse },
    /// The lock that halts replication is being waited for.
    Halt { request: CachedRequest, response: CachedResponse },
    /// The index row is being inserted; `held` tells whether the lock is
    /// held meanwhile.
    Index { request: CachedRequest, response: CachedResponse, held: bool },
    /// The lock is being released.
    Release { response: CachedResponse },
    /// The request has been answered.
    Done,
}

/// What a `Stage` holds.
pub enum StageView {
    Admit,
    Lookup { request: RequestView },
    Fetch { request: RequestView },
    Store { request: RequestView, response: ResponseView },
    Halt { request: RequestView, response: ResponseView },
    Index { request: RequestView, response: ResponseView, held: bool },
    Release { response: ResponseView },
    Done,
}

impl View for Stage {
    type V = StageView;

    open spec fn view(&self) -> StageView {
        match *self {
            Stage::Admit => StageView::Admit,
            Stage::Lookup { request } => StageView::Lookup { request: request@ },
            Stage::Fetch { request } => StageView::Fetch { request: request@ },
            Stage::Store { request, response } => StageView::Store {
                request: request@,
                response: response@,
            },
            Stage::Halt { request, response } => StageView::Halt {
                request: request@,
                response: response@,
            },
            Stage::Index { request, response, held } => StageView::Index {
                request: request@,
                response: response@,
                held,
            },
            Stage::Release { response } => StageView::Release { response: response@ },
            Stage::Done => StageView::Done,
        }
    }
}

/// What the program reports to the machine.
#[derive(Clone, Debug, PartialEq, Eq)]
pub enum Event {
    /// A request has arrived, with the value of its `Host`.
    Arrived { host: String, request: CachedRequest },
    /// The blob was read; `None` where there is none or it cannot be read.
    Blob { bytes: Option<Vec<u8>> },
    /// The origin has answered; `None` where it could not be reached.
    Origin { response: Option<CachedResponse> },
    /// The blob was written, or could not be.
    Stored { ok: bool },
    /// The lock was granted, or was not.
    Halted { ok: bool },
    /// The index row was inserted, or could not be.
    Indexed { ok: bool },
    /// The lock was released, or could not be.
    Released { ok: bool },
}

/// What an `Event` holds.
pub enum EventView {
    Arrived { host: Seq<char>, request: RequestView },
    Blob { bytes: Option<Seq<u8>> },
    Origin { response: Option<ResponseView> },
    Stored { ok: bool },
    Halted { ok: bool },
    Indexed { ok: bool },
    Released { ok: bool },
}

impl View for Event {
    type V = EventView;

    open spec fn view(&self) -> EventView {
        match *self {
            Event::Arrived { host, request } => EventView::Arrived {
                host: host@,
                request: request@,
            },
            Event::Blob { bytes } => EventView::Blob {
                bytes: match bytes {
                    Some(b) => Some(b@),
                    None => None,
                },
            },
            Event::Origin { response } => EventView::Origin {
                response: match response {
                    Some(r) => Some(r@),
                    None => None,
                },
            },
            Event::Stored { ok } => EventView::Stored { ok },
            Event::Halted { ok } => EventView::Halted { ok },
            Event::Indexed { ok } => EventView::Indexed { ok },
            Event::Released { ok } => EventView::Released { ok },
        }
    }
}

/// What the machine asks the program to do next.
#[derive(Clone, Debug, PartialEq, Eq)]
pub enum Action {
    /// Read the blob under `key` and report `Event::Blob`.
    ReadBlob { key: String },
    /// Send the request to the origin and report `Event::Origin`.
    Fetch { method: String, url: String, headers: Vec<Header>, body: Vec<u8> },
    /// Write `bytes` under `key`, all or nothing, and report
    /// `Event::Stored`.
    WriteBlob { key: String, bytes: Vec<u8> },
    /// Take the lock that halts replication of the database and report
    /// `Event::Halted`.
    Halt { database_path: String },
    /// Insert the row into the index and report `Event::Indexed`.
    InsertRow { method: String, url: String },
    /// Release the lock and report `Event::Released`.
    Unhalt,
    /// Send the response to the client. The request is done.
    Emit { response: CachedResponse },
    /// Send the error to the client. The request is done.
    Fail { error: ProxyError },
}

/// What an `Action` holds.
pub enum ActionView {
    ReadBlob { key: Seq<char> },
    Fetch { method: Seq<char>, url: Seq<char>, headers: Seq<HeaderView>, body: Seq<u8> },
    WriteBlob { key: Seq<char>, bytes: Seq<u8> },
    Halt { database_path: Seq<char> },
    InsertRow { method: Seq<char>, url: Seq<char> },
    Unhalt,
    Emit { response: ResponseView },
    Fail { error: ProxyErrorView },
}

impl View for Action {
    type V = ActionView;

    open spec fn view(&self) -> ActionView {
        match *self {
            Action::ReadBlob { key } => ActionView::ReadBlob { key: key@ },
            Action::Fetch { method, url, headers, body } => ActionView::Fetch {
                method: method@,
                url: url@,
                headers: headers_view(headers@),
                body: body@,
            },
            Action::WriteBlob { key, bytes } => ActionView::WriteBlob { key: key@, bytes: bytes@ },
            Action::Halt { database_path } => ActionView::Halt { database_path: database_path@ },
            Action::InsertRow { method, url } => ActionView::InsertRow {
                method: method@,
                url: url@,
            },
            Action::Unhalt => ActionView::Unhalt,
            Action::Emit { response } => ActionView::Emit { response: response@ },
            Action::Fail { error } => ActionView::Fail { error: error@ },
        }
    }
}

/// Status code of the answer where the origin could not be reached.
pub const STATUS_BAD_GATEWAY: u16 = 502;

/// Status code of the answer to a request that cannot be addressed to the
/// origin.
pub const STATUS_BAD_REQUEST: u16 = 400;

/// Status code of the answer where the program and the machine disagree.
pub const STATUS_INTERNAL_ERROR: u16 = 500;

/// The status code that goes with an error.
pub open spec fn status_of(error: ProxyErrorView) -> u16 {
    match error {
        ProxyErrorView::HostNotAllowed { .. } => STATUS_MISDIRECTED,
        ProxyErrorView::OriginUnreachable => STATUS_BAD_GATEWAY,
        ProxyErrorView::NoOriginUrl { .. } => STATUS_BAD_REQUEST,
        ProxyErrorView::OutOfTurn => STATUS_INTERNAL_ERROR,
    }
}

/// The text that goes with an error. It names hosts and nothing of the
/// proxy's inside.
pub open spec fn message_of(error: ProxyErrorView) -> Seq<char> {
    match error {
        ProxyErrorView::HostNotAllowed { found, expected } => refusal_text(found, expected),
        ProxyErrorView::OriginUnreachable => "Request failed"@,
        ProxyErrorView::NoOriginUrl { .. } => "Could not build url"@,
        ProxyErrorView::OutOfTurn => "Unexpected event"@,
    }
}

impl ProxyError {
    /// The status code that is sent back.
    pub fn status(&self) -> (code: u16)
        ensures
            code == status_of(self@),
            400 <= code <= 599,
    {
        match self {
            ProxyError::HostNotAllowed { .. } => STATUS_MISDIRECTED,
            ProxyError::OriginUnreachable => STATUS_BAD_GATEWAY,
            ProxyError::NoOriginUrl { .. } => STATUS_BAD_REQUEST,
            ProxyError::OutOfTurn => STATUS_INTERNAL_ERROR,
        }
    }

    /// The text that is sent back.
    pub fn message(&self) -> (text: String)
        ensures
            text@ == message_of(self@),
    {
        match self {
            ProxyError::HostNotAllowed { found, expected } => {
                let mut text = String::from_str(
                    "We only proxy requests to the specified domain. Found: ",
                );
                text.append(found.as_str());
                text.append(" Expected: ");
                text.append(expected.as_str());
                text
            },
            ProxyError::OriginUnreachable => String::from_str("Request failed"),
            ProxyError::NoOriginUrl { .. } => String::from_str("Could not build url"),
            ProxyError::OutOfTurn => String::from_str("Unexpected event"),
        }
    }
}

// ------------------------------------------------------------ the decisions

/// The answer to an event that the machine was not waiting for.
pub open spec fn out_of_turn() -> (StageView, ActionView) {
    (StageView::Done, ActionView::Fail { error: ProxyErrorView::OutOfTurn })
}

/// The response that the store holds for `request` at `now`: the one of
/// the entry that `bytes` is the record of, where the freshness rules
/// call that entry fresh for the request.
pub open spec fn hit(bytes: Option<Seq<u8>>, request: RequestView, now: Timestamp) -> Option<
    ResponseView,
> {
    match bytes {
        Some(b) => match decoding(b) {
            Some(entry) => if verdict_of(entry, request, now) is Fresh {
                Some(entry.response)
            } else {
                None
            },
            None => None,
        },
        None => None,
    }
}

/// What is done for a request that the store has no fresh answer to: the
/// origin is asked for the same path and query, with the same method,
/// headers and body.
pub open spec fn ask_origin(config: ConfigView, request: RequestView) -> (StageView, ActionView) {
    match origin_url_of(config.origin_domain, request.uri) {
        Ok(url) => (
            StageView::Fetch { request },
            ActionView::Fetch {
                method: request.method,
                url,
                headers: request.headers,
                body: request.body,
            },
        ),
        Err(reason) => (
            StageView::Done,
            ActionView::Fail { error: ProxyErrorView::NoOriginUrl { reason } },
        ),
    }
}

/// The exchange is written to the store: it can be written down, the
/// response does not carry `no-store`, the freshness rules allow storing
/// it, which they do for three methods and a list of status codes only,
/// and some freshness is left to it.
pub open spec fn worth_writing(entry: EntryView) -> bool {
    &&& entry.wf()
    &&& !carries_no_store(entry.response)
    &&& is_storable(entry.request, entry.response)
    &&& is_cacheable_method(entry.request.method)
    &&& is_understood_status(entry.response.status_code)
    &&& ttl_of(entry, entry.cached_at) > 0
}

/// What is done with the origin's response: it is written to the store
/// where it is worth writing, and sent to the client in any case.
pub open spec fn keep_or_emit(request: RequestView, response: ResponseView, now: Timestamp) -> (
    StageView,
    ActionView,
) {
    let entry = EntryView { request, response, cached_at: now };
    if worth_writing(entry) {
        (
            StageView::Store { request, response },
            ActionView::WriteBlob { key: request_key(request), bytes: encoding(entry) },
        )
    } else {
        (StageView::Done, ActionView::Emit { response })
    }
}

/// The insertion of the index row for `request`.
pub open spec fn insert_row(request: RequestView) -> ActionView {
    ActionView::InsertRow { method: request.method, url: request.uri }
}

/// What is done with a request that has arrived: it is admitted where it
/// names the host that the proxy serves, and the blob under its key is
/// asked for; else it is turned away.
pub open spec fn arrive(config: ConfigView, host: Seq<char>, request: RequestView) -> (
    StageView,
    ActionView,
) {
    if host_name_of(host) == config.from_domain {
        (StageView::Lookup { request }, ActionView::ReadBlob { key: request_key(request) })
    } else {
        (
            StageView::Done,
            ActionView::Fail {
                error: ProxyErrorView::HostNotAllowed {
                    found: host_name_of(host),
                    expected: config.from_domain,
                },
            },
        )
    }
}

/// The next stage and the action to perform, for every stage and event.
pub open spec fn next(config: ConfigView, stage: StageView, event: EventView, now: Timestamp) -> (
    StageView,
    ActionView,
) {
    match stage {
        StageView::Admit => match event {
            EventView::Arrived { host, request } => arrive(config, host, request),
            _ => out_of_turn(),
        },
        StageView::Lookup { request } => match event {
            EventView::Blob { bytes } => match hit(bytes, request, now) {
                Some(response) => (StageView::Done, ActionView::Emit { response }),
                None => ask_origin(config, request),
            },
            _ => out_of_turn(),
        },
        StageView::Fetch { request } => match event {
            EventView::Origin { response: Some(response) } => keep_or_emit(request, response, now),
            EventView::Origin { response: None } => (
                StageView::Done,
                ActionView::Fail { error: ProxyErrorView::OriginUnreachable },
            ),
            _ => out_of_turn(),
        },
        StageView::Store { request, response } => match event {
            EventView::Stored { ok: true } => if config.needs_halt() {
                (
                    StageView::Halt { request, response },
                    ActionView::Halt { database_path: config.database_path.unwrap() },
                )
            } else {
                (StageView::Index { request, response, held: false }, insert_row(request))
            },
            _ => (StageView::Done, ActionView::Emit { response }),
        },
        StageView::Halt { request, response } => match event {
            EventView::Halted { ok: true } => (
                StageView::Index { request, response, held: true },
                insert_row(request),
            ),
            _ => (StageView::Done, ActionView::Emit { response }),
        },
        StageView::Index { request, response, held } => if held {
            (StageView::Release { response }, ActionView::Unhalt)
        } else {
            (StageView::Done, ActionView::Emit { response })
        },
        StageView::Release { response } => (StageView::Done, ActionView::Emit { response }),
        StageView::Done => out_of_turn(),
    }
}

/// The answer to an event that the machine was not waiting for.
fn refuse() -> (r: (Stage, Action))
    ensures
        (r.0@, r.1@) == out_of_turn(),
{
    (Stage::Done, Action::Fail { error: ProxyError::OutOfTurn })
}

/// Admits the request and asks for the blob under its key, or turns the
/// request away.
pub fn on_arrival(config: &Config, host: &str, request: CachedRequest) -> (r: (Stage, Action))
    ensures
        (r.0@, r.1@) == arrive(config@, host@, request@),
{
    match check_host(host, config.from_domain.as_str()) {
        Ok(_) => {
            let key = key_for(&request);
            (Stage::Lookup { request }, Action::ReadBlob { key })
        },
        Err(e) => (
            Stage::Done,
            Action::Fail {
                error: ProxyError::HostNotAllowed { found: e.found, expected: e.expected },
            },
        ),
    }
}

/// Looks for a fresh answer to `request` in what the store holds under
/// its key.
pub fn find_hit(bytes: Option<Vec<u8>>, request: &CachedRequest, now: &Timestamp) -> (r: Option<
    CachedResponse,
>)
    requires
        now.wf(),
    ensures
        match r {
            Some(response) => hit(bytes_view(bytes), request@, *now) == Some(
                response@,
            ),
            None => hit(bytes_view(bytes), request@, *now) is None,
        },
{
    match bytes {
        None => None,
        Some(record) => match decode(record.as_slice()) {
            Err(_) => None,
            Ok(entry) => match before_request(&entry, request, now) {
                Verdict::Fresh => Some(entry.response),
                _ => None,
            },
        },
    }
}

/// Addresses the request to the origin.
pub fn on_miss(config: &Config, request: CachedRequest) -> (r: (Stage, Action))
    ensures
        (r.0@, r.1@) == ask_origin(config@, request@),
{
    match origin_url(config.origin_domain.as_str(), request.uri.as_str()) {
        Ok(url) => {
            let method = request.method.clone();
            let headers = duplicate_headers(&request.headers);
            let body = request.body.clone();
            (Stage::Fetch { request }, Action::Fetch { method, url, headers, body })
        },
        Err(reason) => (Stage::Done, Action::Fail { error: ProxyError::NoOriginUrl { reason } }),
    }
}

/// Tells whether the entry is written to the store.
pub fn is_worth_writing(entry: &CacheEntry) -> (r: bool)
    ensures
        r == worth_writing(entry@),
{
    if !entry.is_valid() || forbids_storing(&entry.response) {
        return false;
    }
    let allowed = storable(&entry.request, &entry.response);
    let ttl = time_to_live(entry, &entry.cached_at);
    should_store(allowed, &ttl)
}

/// Decides what is done with the origin's response.
pub fn on_origin_response(request: CachedRequest, response: CachedResponse, now: &Timestamp) -> (r:
    (Stage, Action))
    requires
        now.wf(),
    ensures
        (r.0@, r.1@) == keep_or_emit(request@, response@, *now),
{
    let entry = CacheEntry { request, response, cached_at: *now };
    if is_worth_writing(&entry) {
        let key = key_for(&entry.request);
        let bytes = encode(&entry);
        (
            Stage::Store { request: entry.request, response: entry.response },
            Action::WriteBlob { key, bytes },
        )
    } else {
        (Stage::Done, Action::Emit { response: entry.response })
    }
}

/// The insertion of the index row for `request`.
fn row_for(request: &CachedRequest) -> (r: Action)
    ensures
        r@ == insert_row(request@),
{
    Action::InsertRow { method: request.method.clone(), url: request.uri.clone() }
}

/// Tells whether replication has to be halted around a write to the
/// index, and for which database.
pub fn halt_target(config: &Config) -> (r: Option<String>)
    ensures
        match r {
            Some(path) => config@.needs_halt() && config@.database_path == Some(path@),
            None => !config@.needs_halt(),
        },
{
    if !config.replicated {
        return None;
    }
    match &config.database_path {
        Some(path) => Some(path.clone()),
        None => None,
    }
}

/// Performs one step of the machine: given the stage that a request
/// stands at and what the program reports, the stage that it moves to and
/// the action that the program performs next.
pub fn step(config: &Config, stage: Stage, event: Event, now: &Timestamp) -> (r: (Stage, Action))
    requires
        now.wf(),
    ensures
        (r.0@, r.1@) == next(config@, stage@, event@, *now),
{
    match stage {
        Stage::Admit => match event {
            Event::Arrived { host, request } => on_arrival(config, host.as_str(), request),
            _ => refuse(),
        },
        Stage::Lookup { request } => match event {
            Event::Blob { bytes } => match find_hit(bytes, &request, now) {
                Some(response) => (Stage::Done, Action::Emit { response }),
                None => on_miss(config, request),
            },
            _ => refuse(),
        },
        Stage::Fetch { request } => match event {
            Event::Origin { response: Some(response) } => on_origin_response(
                request,
                response,
                now,
            ),
            Event::Origin { response: None } => (
                Stage::Done,
                Action::Fail { error: ProxyError::OriginUnreachable },
            ),
            _ => refuse(),
        },
        Stage::Store { request, response } => match event {
            Event::Stored { ok: true } => match halt_target(config) {
                Some(database_path) => (
                    Stage::Halt { request, response },
                    Action::Halt { database_path },
                ),
                None => {
                    let row = row_for(&request);
                    (Stage::Index { request, response, held: false }, row)
                },
            },
            _ => (Stage::Done, Action::Emit { response }),
        },
        Stage::Halt { request, response } => match event {
            Event::Halted { ok: true } => {
                let row = row_for(&request);
                (Stage::Index { request, response, held: true }, row)
            },
            _ => (Stage::Done, Action::Emit { response }),
        },
        Stage::Index { request, response, held } => if held {
            (Stage::Release { response }, Action::Unhalt)
        } else {
            (Stage::Done, Action::Emit { response })
        },
        Stage::Release { response } => (Stage::Done, Action::Emit { response }),
        Stage::Done => refuse(),
    }
}

// ------------------------------------------------------------------ laws

/// The lock that halts replication is held at this stage.
pub open spec fn holds_lock(stage: StageView) -> bool {
    stage matches StageView::Index { held: true, .. }
}

/// The action ends the request.
pub open spec fn is_final(action: ActionView) -> bool {
    action is Emit || action is Fail
}

/// A response that carries `Cache-Control: no-store` is never written to
/// the store, at whatever stage and instant it is reported.
pub proof fn lemma_no_store_is_never_written(
    config: ConfigView,
    stage: StageView,
    response: ResponseView,
    now: Timestamp,
)
    requires
        carries_no_store(response),
    ensures
        !(next(config, stage, EventView::Origin { response: Some(response) }, now).1 is WriteBlob),
{
}

/// Whatever is written to the store is the record of the exchange that
/// was just had with the origin, under the key of its request; the
/// exchange is storable, its method is `GET`, `HEAD` or `POST`, its status
/// code is an understood one, some freshness is left to it, and it does
/// not carry `no-store`.
pub proof fn lemma_what_is_written(
    config: ConfigView,
    stage: StageView,
    event: EventView,
    now: Timestamp,
)
    requires
        next(config, stage, event, now).1 is WriteBlob,
    ensures
        stage is Fetch,
        event matches EventView::Origin { response: Some(_) },
        ({
            let entry = EntryView {
                request: stage->Fetch_request,
                response: event->Origin_response.unwrap(),
                cached_at: now,
            };
            &&& next(config, stage, event, now).1 == ActionView::WriteBlob {
                key: request_key(entry.request),
                bytes: encoding(entry),
            }
            &&& next(config, stage, event, now).0 == StageView::Store {
                request: entry.request,
                response: entry.response,
            }
            &&& entry.wf()
            &&& is_storable(entry.request, entry.response)
            &&& is_cacheable_method(entry.request.method)
            &&& is_understood_status(entry.response.status_code)
            &&& ttl_of(entry, now) > 0
            &&& !carries_no_store(entry.response)
        }),
{
}

/// A fresh entry in the store answers the request by itself: the stored
/// response is sent as it is and nothing else is asked for, whatever the
/// index holds.
pub proof fn lemma_fresh_hit_is_served(
    config: ConfigView,
    request: RequestView,
    bytes: Seq<u8>,
    now: Timestamp,
)
    requires
        decoding(bytes) is Some,
        verdict_of(decoding(bytes).unwrap(), request, now) is Fresh,
    ensures
        next(config, StageView::Lookup { request }, EventView::Blob { bytes: Some(bytes) }, now)
            == (StageView::Done, ActionView::Emit { response: decoding(bytes).unwrap().response }),
{
}

/// Without a fresh entry the origin is asked, or the request fails: the
/// store never answers with what is stale, unreadable or absent.
pub proof fn lemma_miss_goes_to_origin(
    config: ConfigView,
    request: RequestView,
    bytes: Option<Seq<u8>>,
    now: Timestamp,
)
    requires
        hit(bytes, request, now) is None,
    ensures
        !(next(config, StageView::Lookup { request }, EventView::Blob { bytes }, now).1 is Emit),
{
}

/// A request for another host touches nothing: it fails at once, and the
/// error names the host that was found and the host that is served.
pub proof fn lemma_other_host_is_turned_away(
    config: ConfigView,
    host: Seq<char>,
    request: RequestView,
    now: Timestamp,
)
    requires
        host_name_of(host) != config.from_domain,
    ensures
        next(config, StageView::Admit, EventView::Arrived { host, request }, now) == (
            StageView::Done,
            ActionView::Fail {
                error: ProxyErrorView::HostNotAllowed {
                    found: host_name_of(host),
                    expected: config.from_domain,
                },
            },
        ),
{
}

/// Once the origin has answered, the request ends with that answer and
/// with nothing else, whatever becomes of the store, the lock and the
/// index.
pub proof fn lemma_origin_response_is_emitted(
    config: ConfigView,
    stage: StageView,
    event: EventView,
    now: Timestamp,
)
    requires
        stage is Store || stage is Halt || stage is Index || stage is Release,
    ensures
        ({
            let response = match stage {
                StageView::Store { response, .. } => response,
                StageView::Halt { response, .. } => response,
                StageView::Index { response, .. } => response,
                StageView::Release { response } => response,
                _ => arbitrary(),
            };
            let (after, action) = next(config, stage, event, now);
            &&& !(action is Fail)
            &&& is_final(action) ==> action == ActionView::Emit { response }
            &&& match after {
                StageView::Halt { response: kept, .. } => kept == response,
                StageView::Index { response: kept, .. } => kept == response,
                StageView::Release { response: kept } => kept == response,
                StageView::Done => is_final(action),
                _ => false,
            }
        }),
{
}

/// The discipline of the lock, step by step. The lock is taken only on
/// request and is held exactly after it was granted; while it is held,
/// the very next action releases it, whatever is reported; it is released
/// only when held; and no request ends while it is held.
pub proof fn lemma_halt_discipline(
    config: ConfigView,
    stage: StageView,
    event: EventView,
    now: Timestamp,
)
    ensures
        ({
            let (after, action) = next(config, stage, event, now);
            &&& action is Halt ==> after is Halt && config.needs_halt() && !holds_lock(stage)
            &&& holds_lock(after) <==> stage is Halt && event == (EventView::Halted { ok: true })
            &&& holds_lock(stage) ==> action is Unhalt && !holds_lock(after)
            &&& action is Unhalt ==> holds_lock(stage)
            &&& is_final(action) ==> !holds_lock(stage) && after is Done
        }),
{
}

/// The stage that a run of events leads to.
pub open spec fn stage_after(
    config: ConfigView,
    stage: StageView,
    events: Seq<(EventView, Timestamp)>,
) -> StageView
    decreases events.len(),
{
    if events.len() == 0 {
        stage
    } else {
        stage_after(config, next(config, stage, events[0].0, events[0].1).0, events.skip(1))
    }
}

/// How often the lock is granted in a run of events.
pub open spec fn halts(
    config: ConfigView,
    stage: StageView,
    events: Seq<(EventView, Timestamp)>,
) -> nat
    decreases events.len(),
{
    if events.len() == 0 {
        0
    } else {
        let after = next(config, stage, events[0].0, events[0].1).0;
        let granted: nat = if holds_lock(after) {
            1
        } else {
            0
        };
        granted + halts(config, after, events.skip(1))
    }
}

/// How often the release of the lock is asked for in a run of events.
pub open spec fn unhalts(
    config: ConfigView,
    stage: StageView,
    events: Seq<(EventView, Timestamp)>,
) -> nat
    decreases events.len(),
{
    if events.len() == 0 {
        0
    } else {
        let (after, action) = next(config, stage, events[0].0, events[0].1);
        let released: nat = if action is Unhalt {
            1
        } else {
            0
        };
        released + unhalts(config, after, events.skip(1))
    }
}

/// The lock is held at the start of the run.
pub open spec fn held_before(stage: StageView) -> nat {
    if holds_lock(stage) {
        1
    } else {
        0
    }
}

/// In every run of events, whatever they report and in whatever order,
/// each grant of the lock is followed by exactly one release: the grants,
/// with the lock that was held at the start, are the releases, with the
/// lock that is held at the end.
pub proof fn lemma_halts_are_paired(
    config: ConfigView,
    stage: StageView,
    events: Seq<(EventView, Timestamp)>,
)
    ensures
        held_before(stage) + halts(config, stage, events) == unhalts(config, stage, events)
            + held_before(stage_after(config, stage, events)),
    decreases events.len(),
{
    if events.len() > 0 {
        let after = next(config, stage, events[0].0, events[0].1).0;
        lemma_halt_discipline(config, stage, events[0].0, events[0].1);
        lemma_halts_are_paired(config, after, events.skip(1));
    }
}

/// A request that has run its course, from its arrival to its answer, has
/// had the lock released as often as it was granted.
pub proof fn lemma_finished_request_left_no_lock(
    config: ConfigView,
    events: Seq<(EventView, Timestamp)>,
)
    requires
        stage_after(config, StageView::Admit, events) is Done,
    ensures
        halts(config, StageView::Admit, events) == unhalts(config, StageView::Admit, events),
{
    lemma_halts_are_paired(config, StageView::Admit, events);
}

/// The blob comes before the index: a row is inserted only right after
/// the blob was written, with nothing but the grant of the lock between
/// the two, and the row names the request whose exchange was written.
pub proof fn lemma_blob_before_index(
    config: ConfigView,
    stage: StageView,
    event: EventView,
    now: Timestamp,
)
    ensures
        ({
            let (after, action) = next(config, stage, event, now);
            &&& after is Store ==> action is WriteBlob
            &&& after is Halt ==> stage is Store && event == (EventView::Stored { ok: true })
            &&& action is InsertRow ==> {
                ||| stage is Store && event == (EventView::Stored { ok: true })
                    && !config.needs_halt() && action == insert_row(stage->Store_request)
                ||| stage is Halt && event == (EventView::Halted { ok: true }) && action
                    == insert_row(stage->Halt_request)
            }
        }),
{
}

/// How far a request has come.
pub open spec fn progress(stage: StageView) -> nat {
    match stage {
        StageView::Admit => 0,
        StageView::Lookup { .. } => 1,
        StageView::Fetch { .. } => 2,
        StageView::Store { .. } => 3,
        StageView::Halt { .. } => 4,
        StageView::Index { .. } => 5,
        StageView::Release { .. } => 6,
        StageView::Done => 7,
    }
}

/// Every step takes the request further, until it is done; a request that
/// is done stays done.
pub proof fn lemma_every_step_advances(
    config: ConfigView,
    stage: StageView,
    event: EventView,
    now: Timestamp,
)
    ensures
        ({
            let (after, action) = next(config, stage, event, now);
            &&& progress(after) > progress(stage) || after is Done
            &&& after is Done <==> is_final(action)
            &&& stage is Done ==> (after, action) == out_of_turn()
        }),
{
}

/// A request is answered after seven events at most, whatever they are.
pub proof fn lemma_request_ends(
    config: ConfigView,
    stage: StageView,
    events: Seq<(EventView, Timestamp)>,
)
    ensures
        progress(stage_after(config, stage, events)) >= progress(stage),
        progress(stage) + events.len() >= 7 ==> stage_after(config, stage, events) is Done,
    decreases events.len(),
{
    if events.len() > 0 {
        let after = next(config, stage, events[0].0, events[0].1).0;
        lemma_every_step_advances(config, stage, events[0].0, events[0].1);
        lemma_request_ends(config, after, events.skip(1));
    }
}

} // verus!
