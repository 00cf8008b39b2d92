//! The client handle: the API key and the base URL, fixed at construction
//! and only read afterwards.

use crate::request::BASE;
use vstd::prelude::*;

verus! {

/// A client of the Steam Web API.
pub struct Steam {
    api_key: String,
    base_url: String,
}

impl Steam {
    /// The API key that every call sends.
    pub closed spec fn key(&self) -> Seq<char> {
        self.api_key@
    }

    /// The URL under which the service is reached.
    pub closed spec fn base(&self) -> Seq<char> {
        self.base_url@
    }

    /// A client of the public service.
    pub fn new(api_key: &str) -> (r: Steam)
        ensures
            r.key() == api_key@,
            r.base() == BASE@,
    {
        Steam { api_key: api_key.to_owned(), base_url: BASE.to_owned() }
    }

    /// A client of a service reached under another URL.
    pub fn with_base_url(api_key: &str, base_url: &str) -> (r: Steam)
        ensures
            r.key() == api_key@,
            r.base() == base_url@,
    {
        Steam { api_key: api_key.to_owned(), base_url: base_url.to_owned() }
    }

    /// The API key that every call sends.
    pub fn api_key(&self) -> (r: &str)
        ensures
            r@ == self.key(),
    {
        self.api_key.as_str()
    }

    /// The URL under which the service is reached.
    pub fn base_url(&self) -> (r: &str)
        ensures
            r@ == self.base(),
    {
        self.base_url.as_str()
    }
}

} // verus!
