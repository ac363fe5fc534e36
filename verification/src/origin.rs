//! The rewrite of a request towards the origin: the scheme becomes
//! `https`, the authority becomes the origin's, and the path and query are
//! kept.

use vstd::prelude::*;
use vstd::string::StringExecFns;

verus! {

/// The error with which `http` refuses a text as a URI, carried and never
/// looked into.
#[verifier::external_type_specification]
#[verifier::external_body]
pub struct ExInvalidUri(http::uri::InvalidUri);

/// The error of the builders of `http`, carried and never looked into.
#[verifier::external_type_specification]
#[verifier::external_body]
pub struct ExHttpError(http::Error);

/// The request to the origin could not be addressed.
#[derive(Clone, Copy, Debug, PartialEq, Eq, Structural)]
pub enum OriginError {
    /// The URI of the request is not a URI.
    InvalidUri,
    /// No URI can be made of the origin's name and the request's target.
    InvalidOrigin,
}

/// What `http` reads as the path and query of `uri`: `None` where it does
/// not take `uri` for a URI, `Some(None)` where the URI has neither.
pub uninterp spec fn path_and_query_of(uri: Seq<char>) -> Option<Option<Seq<char>>>;

/// The text of the URI that `http` builds from a scheme, an authority and
/// a path with query; `None` where it builds none.
pub uninterp spec fn built_uri_of(
    scheme: Seq<char>,
    authority: Seq<char>,
    target: Seq<char>,
) -> Option<Seq<char>>;

/// The view of a text that may be absent.
pub open spec fn text_view(t: Option<String>) -> Option<Seq<char>> {
    match t {
        Some(s) => Some(s@),
        None => None,
    }
}

/// Parses `uri` with `http::Uri`'s `FromStr` and hands out its
/// `path_and_query()` as text. The contract names the outcome and says no
/// more of it than that it depends on the text of `uri` alone.
#[verifier::external_body]
fn outside_path_and_query(uri: &str) -> (r: Result<Option<String>, http::uri::InvalidUri>)
    ensures
        match r {
            Ok(target) => path_and_query_of(uri@) == Some(text_view(target)),
            Err(_) => path_and_query_of(uri@) is None,
        },
{
    let parsed: http::Uri = uri.parse()?;
    match parsed.path_and_query() {
        Some(target) => Ok(Some(target.as_str().to_owned())),
        None => Ok(None),
    }
}

/// Builds a URI with `http::uri::Builder` from the three parts and hands
/// out its text. The contract names the outcome and says no more of it
/// than that it depends on the three texts alone.
#[verifier::external_body]
fn outside_build_uri(scheme: &str, authority: &str, target: &str) -> (r: Result<
    String,
    http::Error,
>)
    ensures
        match r {
            Ok(text) => built_uri_of(scheme@, authority@, target@) == Some(text@),
            Err(_) => built_uri_of(scheme@, authority@, target@) is None,
        },
{
    let uri = http::Uri::builder().scheme(scheme).authority(authority).path_and_query(
        target,
    ).build()?;
    Ok(uri.to_string())
}

/// The target that is asked of the origin for a request whose URI has the
/// path and query `found`: that path and query, or `/` where there is none.
pub open spec fn target_or_root(found: Option<Seq<char>>) -> Seq<char> {
    match found {
        Some(target) => target,
        None => seq!['/'],
    }
}

/// The target that is asked of the origin, given what the URI holds.
pub fn choose_target(found: Option<String>) -> (target: String)
    ensures
        target@ == target_or_root(text_view(found)),
{
    match found {
        Some(target) => target,
        None => {
            proof {
                reveal_strlit("/");
                assert("/"@ =~= seq!['/']);
            }
            String::from_str("/")
        },
    }
}

/// The URL at the origin for a request with the URI `uri`.
pub open spec fn origin_url_of(origin_domain: Seq<char>, uri: Seq<char>) -> Result<
    Seq<char>,
    OriginError,
> {
    match path_and_query_of(uri) {
        None => Err(OriginError::InvalidUri),
        Some(found) => match built_uri_of("https"@, origin_domain, target_or_root(found)) {
            None => Err(OriginError::InvalidOrigin),
            Some(url) => Ok(url),
        },
    }
}

/// The URL at the origin for a request whose target is `target`.
pub fn origin_url_for_target(origin_domain: &str, target: &str) -> (r: Result<String, OriginError>)
    ensures
        match r {
            Ok(url) => built_uri_of("https"@, origin_domain@, target@) == Some(url@),
            Err(e) => e == OriginError::InvalidOrigin && built_uri_of(
                "https"@,
                origin_domain@,
                target@,
            ) is None,
        },
{
    match outside_build_uri("https", origin_domain, target) {
        Ok(url) => Ok(url),
        Err(_) => Err(OriginError::InvalidOrigin),
    }
}

/// Rewrites the URI of a request towards the origin.
pub fn origin_url(origin_domain: &str, uri: &str) -> (r: Result<String, OriginError>)
    ensures
        match r {
            Ok(url) => origin_url_of(origin_domain@, uri@) == Ok::<Seq<char>, OriginError>(url@),
            Err(e) => origin_url_of(origin_domain@, uri@) == Err::<Seq<char>, OriginError>(e),
        },
{
    match outside_path_and_query(uri) {
        Err(_) => Err(OriginError::InvalidUri),
        Ok(found) => {
            let target = choose_target(found);
            origin_url_for_target(origin_domain, target.as_str())
        },
    }
}

} // verus!
