//! The request invoker: where a call goes, and what counts as an answer.
//!
//! The transport itself is not part of this library. A caller hands in a
//! function that performs one GET and reports what came back; this module
//! composes the URL, makes that one call and sorts the outcome into a
//! response body or a transport failure.

use crate::error::TransportFailure;
use crate::text::{decimal, push_decimal};
use vstd::prelude::*;

verus! {

/// The base URL of the Steam Web API.
pub const BASE: &'static str = "https://api.steampowered.com";

/// Which remote operation a call addresses.
#[derive(Debug, Clone, PartialEq, Eq)]
pub struct Endpoint {
    pub interface: String,
    pub name: String,
    pub version: u32,
}

/// What the transport got back from the service.
#[derive(Debug, Clone, PartialEq, Eq)]
pub struct Response {
    pub status: u16,
    pub body: Vec<u8>,
}

/// The URL of a call: `{base}/{interface}/{name}/v{version}/?{query}`.
pub open spec fn url_text(base: Seq<char>, endpoint: Endpoint, query: Seq<char>) -> Seq<char> {
    base + seq!['/'] + endpoint.interface@ + seq!['/'] + endpoint.name@ + seq!['/', 'v']
        + decimal(endpoint.version as nat) + seq!['/', '?'] + query
}

/// Whether the status reports success.
pub open spec fn is_success(status: u16) -> bool {
    200 <= status <= 299
}

/// What a call yields, given what the transport reports: the body of a
/// response with a success status; the status as a failure for any other
/// response; the transport's own failure unchanged.
pub open spec fn body_of(outcome: Result<Response, TransportFailure>) -> Result<
    Seq<u8>,
    TransportFailure,
> {
    match outcome {
        Ok(response) => if is_success(response.status) {
            Ok(response.body@)
        } else {
            Err(TransportFailure::Status(response.status))
        },
        Err(failure) => Err(failure),
    }
}

/// A response body or failure, with the body as a sequence of bytes.
pub open spec fn body_view(r: Result<Vec<u8>, TransportFailure>) -> Result<
    Seq<u8>,
    TransportFailure,
> {
    match r {
        Ok(body) => Ok(body@),
        Err(failure) => Err(failure),
    }
}

/// Composes the URL of a call.
pub fn request_url(base: &str, endpoint: &Endpoint, query: &str) -> (url: String)
    ensures
        url@ == url_text(base@, *endpoint, query@),
{
    let mut url = String::new();
    url.append(base);
    url.push('/');
    url.append(endpoint.interface.as_str());
    url.push('/');
    url.append(endpoint.name.as_str());
    url.push('/');
    url.push('v');
    push_decimal(&mut url, endpoint.version as u64);
    url.push('/');
    url.push('?');
    url.append(query);
    assert(url@ =~= url_text(base@, *endpoint, query@));
    url
}

/// Sorts what the transport reports into a body or a failure.
pub fn accept(outcome: Result<Response, TransportFailure>) -> (r: Result<
    Vec<u8>,
    TransportFailure,
>)
    ensures
        body_view(r) == body_of(outcome),
{
    match outcome {
        Ok(response) => {
            if 200 <= response.status && response.status <= 299 {
                Ok(response.body)
            } else {
                Err(TransportFailure::Status(response.status))
            }
        },
        Err(failure) => Err(failure),
    }
}

/// Performs one GET of `url` through `transport` and sorts the outcome.
/// The transport is called exactly once; nothing is retried.
pub fn invoke<F: Fn(&str) -> Result<Response, TransportFailure>>(url: &str, transport: &F) -> (r:
    Result<Vec<u8>, TransportFailure>)
    requires
        call_requires(*transport, (url,)),
    ensures
        exists|outcome: Result<Response, TransportFailure>|
            call_ensures(*transport, (url,), outcome) && body_view(r) == #[trigger] body_of(
                outcome,
            ),
{
    let outcome = transport(url);
    let r = accept(outcome);
    assert(body_view(r) == body_of(outcome));
    r
}

} // verus!
