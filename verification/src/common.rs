//! Identifiers shared across the crate.

use vstd::prelude::*;

verus! {

/// The identifier of a client.
#[derive(Debug, Clone, Copy, PartialEq, Eq, Structural, Hash, PartialOrd, Ord, Default)]
pub struct ClientId(pub u32);

impl ClientId {
    /// The client with number `id`.
    pub fn new(id: u32) -> (c: ClientId)
        ensures
            c.0 == id,
    {
        ClientId(id)
    }

    /// The client's number.
    pub fn get(&self) -> (id: u32)
        ensures
            id == self.0,
    {
        self.0
    }
}

impl From<u32> for ClientId {
    fn from(id: u32) -> (c: ClientId) {
        ClientId(id)
    }
}

impl vstd::std_specs::convert::FromSpecImpl<u32> for ClientId {
    open spec fn obeys_from_spec() -> bool {
        true
    }

    open spec fn from_spec(id: u32) -> ClientId {
        ClientId(id)
    }
}

impl From<ClientId> for u32 {
    fn from(client_id: ClientId) -> (id: u32) {
        client_id.0
    }
}

impl vstd::std_specs::convert::FromSpecImpl<ClientId> for u32 {
    open spec fn obeys_from_spec() -> bool {
        true
    }

    open spec fn from_spec(client_id: ClientId) -> u32 {
        client_id.0
    }
}

} // verus!
