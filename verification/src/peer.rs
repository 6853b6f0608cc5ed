//! The identity snapshot of one connected endpoint.

use vstd::prelude::*;

use crate::bytes::{bytes_dup, opt_bytes_dup};

verus! {

/// One connected endpoint's identity snapshot.
///
/// `id` is the unique, stable identifier the bus assigns to the connection for
/// its lifetime; it is the sole key under which a peer is tracked. `alias` is
/// an optional human-assigned short name registered atop the connection, and
/// `address` an optional transport-level address; both are display-only.
#[derive(Debug, PartialEq, Eq)]
pub struct Peer {
    pub id: Vec<u8>,
    pub alias: Option<Vec<u8>>,
    pub address: Option<Vec<u8>>,
}

/// Mathematical value of a [`Peer`].
pub ghost struct PeerView {
    pub id: Seq<u8>,
    pub alias: Option<Seq<u8>>,
    pub address: Option<Seq<u8>>,
}

/// View of an optional byte string.
pub open spec fn opt_view(o: Option<Vec<u8>>) -> Option<Seq<u8>> {
    match o {
        Some(v) => Some(v@),
        None => None,
    }
}

impl View for Peer {
    type V = PeerView;

    open spec fn view(&self) -> PeerView {
        PeerView { id: self.id@, alias: opt_view(self.alias), address: opt_view(self.address) }
    }
}

impl Peer {
    /// A peer carrying only an identifier.
    pub fn from_id(id: Vec<u8>) -> (r: Peer)
        ensures
            r@.id == id@,
            r@.alias is None,
            r@.address is None,
    {
        Peer { id, alias: None, address: None }
    }

    /// An independent copy with the same value.
    pub fn duplicate(&self) -> (r: Peer)
        ensures
            r@ == self@,
    {
        Peer {
            id: bytes_dup(&self.id),
            alias: opt_bytes_dup(&self.alias),
            address: opt_bytes_dup(&self.address),
        }
    }
}

} // verus!
