//! The addresses a session reaches the API under.

use vstd::prelude::*;
use vstd::string::StringExecFns;

verus! {

/// Path of the network descriptions, below the base address.
pub const METADATA_PATH: &'static str = "/networkMetadata";

/// Path of the event stream, below the base address.
pub const STREAM_PATH: &'static str = "/sse";

/// A client of the API: it knows the base address and derives from it the
/// address of the network descriptions and that of the event stream.
pub struct Client {
    url: String,
}

impl Client {
    /// The base address.
    pub closed spec fn base(&self) -> String {
        self.url
    }

    /// A client for the API at `url`.
    pub fn new<T: Into<String>>(url: T) -> (client: Client)
        ensures
            call_ensures(T::into, (url,), client.base()),
    {
        Client { url: url.into() }
    }

    /// The base address.
    pub fn url(&self) -> (url: &String)
        ensures
            *url == self.base(),
    {
        &self.url
    }

    /// Address of the network descriptions.
    pub fn metadata_endpoint(&self) -> (endpoint: String)
        ensures
            endpoint@ == self.base()@ + METADATA_PATH@,
    {
        self.url.clone().concat(METADATA_PATH)
    }

    /// Address of the event stream.
    pub fn stream_endpoint(&self) -> (endpoint: String)
        ensures
            endpoint@ == self.base()@ + STREAM_PATH@,
    {
        self.url.clone().concat(STREAM_PATH)
    }
}

} // verus!
