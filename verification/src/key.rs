//! The cache key: the method in upper case, an `@`, and the URI.

use crate::message::{CachedRequest, RequestView};
use crate::text::{to_upper_text, upper, upper_text};
use vstd::prelude::*;
use vstd::string::{StrSliceExecFns, StringExecFns};

verus! {

/// The key under which the exchange for `method` and `url` is stored.
pub open spec fn key_of(method: Seq<char>, url: Seq<char>) -> Seq<char> {
    upper_text(method) + seq!['@'] + url
}

/// The key of a request.
pub open spec fn request_key(request: RequestView) -> Seq<char> {
    key_of(request.method, request.uri)
}

/// Builds the key for `method` and `url`.
pub fn cache_key(method: &str, url: &str) -> (key: String)
    ensures
        key@ == key_of(method@, url@),
{
    let mut key = to_upper_text(method);
    key.push('@');
    key.append(url);
    key
}

/// Builds the key of a request.
pub fn key_for(request: &CachedRequest) -> (key: String)
    ensures
        key@ == request_key(request@),
{
    cache_key(request.method.as_str(), request.uri.as_str())
}

/// The URI of a request as the proxy sees it: a target that starts with a
/// slash is put behind `http://` and the host that the request named; any
/// other target is an absolute URI already and is kept.
pub open spec fn request_uri_of(host: Seq<char>, target: Seq<char>) -> Seq<char> {
    if target.len() > 0 && target[0] == '/' {
        "http://"@ + host + target
    } else {
        target
    }
}

/// Builds the URI of a request from the host it named and its target.
pub fn request_uri(host: &str, target: &str) -> (uri: String)
    ensures
        uri@ == request_uri_of(host@, target@),
{
    if !target.is_empty() && target.get_char(0) == '/' {
        let mut uri = String::from_str("http://");
        uri.append(host);
        uri.append(target);
        uri
    } else {
        String::from_str(target)
    }
}

/// The key is a function of the method and the URI alone: two requests
/// that agree on both have the same key, whatever else they hold and
/// whenever it is asked.
pub proof fn lemma_key_is_deterministic(a: RequestView, b: RequestView)
    requires
        a.method == b.method,
        a.uri == b.uri,
    ensures
        request_key(a) == request_key(b),
{
}

/// The case of the method's letters does not change the key.
pub proof fn lemma_key_ignores_method_case(method: Seq<char>, url: Seq<char>)
    ensures
        key_of(upper_text(method), url) == key_of(method, url),
{
    assert(upper_text(upper_text(method)) =~= upper_text(method));
}

/// Where no `@` stands in either method, equal keys come from equal URIs
/// and from methods that differ in case at most.
pub proof fn lemma_key_is_injective(m1: Seq<char>, u1: Seq<char>, m2: Seq<char>, u2: Seq<char>)
    requires
        !m1.contains('@'),
        !m2.contains('@'),
        key_of(m1, u1) == key_of(m2, u2),
    ensures
        upper_text(m1) == upper_text(m2),
        u1 == u2,
{
    let k1 = key_of(m1, u1);
    let k2 = key_of(m2, u2);
    let n1 = m1.len() as int;
    let n2 = m2.len() as int;
    assert(k1[n1] == '@');
    assert(k2[n2] == '@');
    if n1 < n2 {
        assert(k2[n1] == upper(m2[n1]));
        assert(m2.contains(m2[n1]));
    } else if n2 < n1 {
        assert(k1[n2] == upper(m1[n2]));
        assert(m1.contains(m1[n2]));
    }
    assert(n1 == n2);
    assert forall|i: int| 0 <= i < n1 implies upper_text(m1)[i] == upper_text(m2)[i] by {
        assert(k1[i] == upper_text(m1)[i]);
        assert(k2[i] == upper_text(m2)[i]);
    }
    assert(upper_text(m1) =~= upper_text(m2));
    assert(k1.len() == k2.len());
    assert forall|i: int| 0 <= i < u1.len() implies u1[i] == u2[i] by {
        assert(k1[n1 + 1 + i] == u1[i]);
        assert(k2[n2 + 1 + i] == u2[i]);
    }
    assert(u1 =~= u2);
}

} // verus!
