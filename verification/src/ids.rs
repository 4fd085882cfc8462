//! The request-id sequence: one strictly increasing counter, owned by the
//! process and handed to every transport, so ids of concurrently in-flight
//! requests never collide.

use vstd::prelude::*;

verus! {

/// An injectable generator of JSON-RPC request ids.
pub struct RequestIdGenerator {
    next_id: u64,
}

impl RequestIdGenerator {
    /// The id the next request will get.
    pub closed spec fn current(&self) -> u64 {
        self.next_id
    }

    /// A fresh generator; ids start at 1.
    pub fn new() -> (r: RequestIdGenerator)
        ensures
            r.current() == 1,
    {
        RequestIdGenerator { next_id: 1 }
    }

    /// The id the next request will get, for callers that must test the
    /// sequence before drawing on it.
    pub fn current_id(&self) -> (n: u64)
        ensures
            n == self.current(),
    {
        self.next_id
    }

    /// Allocates the next id: each call returns a value strictly larger
    /// than every id handed out before.
    pub fn next_request_id(&mut self) -> (id: u64)
        requires
            old(self).current() < u64::MAX,
        ensures
            id == old(self).current(),
            final(self).current() == id + 1,
    {
        let id = self.next_id;
        self.next_id = self.next_id + 1;
        id
    }
}

} // verus!
