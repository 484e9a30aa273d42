//! The blocklist as served by the session endpoint: raw hash lines wrapped
//! in a lookup container.

use vstd::prelude::*;

use crate::hashing::lower_of;
use crate::server_block::{blocked_exact_by, spec_blocked};
use crate::text::{spec_split, split_on};

verus! {

/// Container for all blocked server address hashes.
pub struct BlockedServers(Vec<String>);

impl View for BlockedServers {
    type V = Seq<Seq<char>>;

    closed spec fn view(&self) -> Seq<Seq<char>> {
        self.0.deep_view()
    }
}

impl BlockedServers {
    /// Builds the container from the raw blocklist text, one hash per line.
    pub fn new(raw: &str) -> (r: BlockedServers)
        ensures
            r@ == spec_split(raw@, '\n'),
    {
        BlockedServers(split_on(raw, '\n'))
    }

    /// Convert the struct into a raw vector of SHA1 hashes
    pub fn into_inner(self) -> (r: Vec<String>)
        ensures
            r.deep_view() == self@,
    {
        self.0
    }

    /// Check if supplied Url or IPv4 address is in the block-list
    pub fn blocked(&self, server: &str) -> (r: bool)
        ensures
            r == spec_blocked(self@, lower_of(server@)),
    {
        let lowered = crate::hashing::to_lowercase_str(server);
        blocked_exact_by(&self.0, lowered.as_str())
    }
}

} // verus!
