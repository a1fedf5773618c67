//! The status server's settings.

use vstd::prelude::*;

verus! {

/// A status server listening on a local port.
#[derive(Clone, Copy, Debug, PartialEq, Eq)]
pub struct Server {
    pub port: u16,
}

impl Server {
    /// A server for `port`.
    pub fn new(port: u16) -> (r: Self)
        ensures
            r.port == port,
    {
        Server { port }
    }
}

} // verus!
