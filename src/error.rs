//! Errors of registration and provider construction.

use vstd::prelude::*;
use vstd::string::*;

verus! {

/// Why registering a handler or instantiating a template failed.
#[derive(Clone, Debug, PartialEq, Eq)]
pub enum Error {
    /// No configuration entry has the handler's name.
    NotFound(String),
    /// The key-value store of a network could not be opened.
    DB(String),
    /// The named network is not configured.
    NetworkNotFound(String),
    /// The configured contract address is not an address.
    InvalidAddress(String),
    /// The directory of a network's cache could not be located.
    CacheFileNotFound(String),
    /// The network's RPC endpoint is not a URL.
    InvalidRpcUrl(String),
    /// The handler's step is zero.
    InvalidStep(String),
}

/// `prefix` followed by `detail`.
pub(crate) fn labelled(prefix: &str, detail: &String) -> (r: String)
    ensures
        r@ == prefix@ + detail@,
{
    let head = prefix.to_owned();
    head.concat(detail.as_str())
}

impl Error {
    /// A one-line description of the error.
    pub fn message(&self) -> (r: String)
        ensures
            match self {
                Error::NotFound(n) => r@ == "Handler not found: "@ + n@,
                Error::DB(e) => r@ == "Error while loading cache: "@ + e@,
                Error::NetworkNotFound(n) => r@ == "Network not found: "@ + n@,
                Error::InvalidAddress(a) => r@ == "Invalid address: "@ + a@,
                Error::CacheFileNotFound(e) => r@ == "Cache file not found: "@ + e@,
                Error::InvalidRpcUrl(u) => r@ == "Invalid RPC url: "@ + u@,
                Error::InvalidStep(n) => r@ == "Invalid step of handler: "@ + n@,
            },
    {
        match self {
            Error::NotFound(n) => labelled("Handler not found: ", n),
            Error::DB(e) => labelled("Error while loading cache: ", e),
            Error::NetworkNotFound(n) => labelled("Network not found: ", n),
            Error::InvalidAddress(a) => labelled("Invalid address: ", a),
            Error::CacheFileNotFound(e) => labelled("Cache file not found: ", e),
            Error::InvalidRpcUrl(u) => labelled("Invalid RPC url: ", u),
            Error::InvalidStep(n) => labelled("Invalid step of handler: ", n),
        }
    }
}

} // verus!
