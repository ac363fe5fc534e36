//! Admission: the proxy serves one host name and no other.

use crate::text::{from_chars, to_chars};
use vstd::prelude::*;
use vstd::string::StringExecFns;

verus! {

/// Status code of the answer to a request for a host that is not served.
pub const STATUS_MISDIRECTED: u16 = 421;

/// A request named a host that this proxy does not serve.
#[derive(Clone, Debug, PartialEq, Eq)]
pub struct HostNotAllowed {
    /// The host name that the request carried.
    pub found: String,
    /// The host name that the proxy serves.
    pub expected: String,
}

/// Position of the first colon in `host`, or its length where it has none.
pub open spec fn first_colon(host: Seq<char>) -> int
    decreases host.len(),
{
    if host.len() == 0 || host[0] == ':' {
        0
    } else {
        1 + first_colon(host.skip(1))
    }
}

/// The host name of a `Host` value: what stands before its first colon.
pub open spec fn host_name_of(host: Seq<char>) -> Seq<char> {
    host.take(first_colon(host))
}

/// The text of the answer to a request that was turned away.
pub open spec fn refusal_text(found: Seq<char>, expected: Seq<char>) -> Seq<char> {
    "We only proxy requests to the specified domain. Found: "@ + found + " Expected: "@ + expected
}

/// The first colon is where no colon stands before and one stands at, or
/// the text ends.
pub proof fn lemma_first_colon(host: Seq<char>, k: int)
    requires
        0 <= k <= host.len(),
        forall|i: int| 0 <= i < k ==> host[i] != ':',
        k == host.len() || host[k] == ':',
    ensures
        first_colon(host) == k,
    decreases k,
{
    if k > 0 {
        let rest = host.skip(1);
        assert forall|i: int| 0 <= i < k - 1 implies rest[i] != ':' by {
            assert(rest[i] == host[i + 1]);
        }
        lemma_first_colon(rest, k - 1);
    }
}

/// The host name has no colon, and the `Host` value goes on with a colon
/// or ends there.
pub proof fn lemma_host_name_has_no_colon(host: Seq<char>)
    ensures
        0 <= first_colon(host) <= host.len(),
        !host_name_of(host).contains(':'),
        first_colon(host) == host.len() || host[first_colon(host)] == ':',
    decreases host.len(),
{
    if !(host.len() == 0 || host[0] == ':') {
        let rest = host.skip(1);
        lemma_host_name_has_no_colon(rest);
        let name = host_name_of(host);
        assert forall|i: int| 0 <= i < name.len() implies name[i] != ':' by {
            if i > 0 {
                assert(name[i] == host_name_of(rest)[i - 1]);
                assert(host_name_of(rest).contains(name[i]));
            }
        }
    }
}

/// The host name of a `Host` value.
pub fn host_name(host: &str) -> (name: String)
    ensures
        name@ == host_name_of(host@),
{
    let chars = to_chars(host);
    let mut k: usize = 0;
    while k < chars.len() && chars[k] != ':'
        invariant
            k <= chars.len(),
            forall|i: int| 0 <= i < k ==> chars@[i] != ':',
        decreases chars.len() - k,
    {
        k += 1;
    }
    proof {
        lemma_first_colon(chars@, k as int);
    }
    from_chars(&chars, 0, k)
}

/// Admits a request for the host that the proxy serves and turns any
/// other away, with the name that was found and the name that is served.
pub fn check_host(host: &str, from_domain: &str) -> (r: Result<(), HostNotAllowed>)
    ensures
        match r {
            Ok(_) => host_name_of(host@) == from_domain@,
            Err(e) => {
                &&& host_name_of(host@) != from_domain@
                &&& e.found@ == host_name_of(host@)
                &&& e.expected@ == from_domain@
            },
        },
{
    let found = host_name(host);
    let expected = String::from_str(from_domain);
    if found == expected {
        Ok(())
    } else {
        Err(HostNotAllowed { found, expected })
    }
}

impl HostNotAllowed {
    /// The text that is sent back: it names the host that was asked for
    /// and the host that is served.
    pub fn message(&self) -> (text: String)
        ensures
            text@ == refusal_text(self.found@, self.expected@),
    {
        let mut text = String::from_str("We only proxy requests to the specified domain. Found: ");
        text.append(self.found.as_str());
        text.append(" Expected: ");
        text.append(self.expected.as_str());
        text
    }

    /// The status code that is sent back.
    pub fn status(&self) -> (code: u16)
        ensures
            code == STATUS_MISDIRECTED,
    {
        STATUS_MISDIRECTED
    }
}

} // verus!
