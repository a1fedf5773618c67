//! Template messages: requests, sent by running handlers, to start an event
//! worker for a handler at a new address and start block.

use vstd::prelude::*;

use crate::address::Address;

verus! {

/// A request to start the handler named `handler` on `address` from
/// `start_block`.
#[derive(Clone, Debug)]
pub struct Template {
    pub start_block: u64,
    pub address: Address,
    pub handler: String,
}

} // verus!
