//! A test peer whose address is a plain number.
use vstd::prelude::*;

verus! {

/// A local address: a number standing for a peer's endpoint.
#[derive(Debug, Clone, Copy, PartialEq, Eq, Structural)]
pub struct LocalAdd(pub usize);

/// Node using a number as address (for use with transport tests).
#[derive(Debug, PartialEq, Eq)]
pub struct PeerTest {
    pub nodeid: String,
    pub address: LocalAdd,
}

impl Clone for PeerTest {
    /// A copy with the same node id and address.
    fn clone(&self) -> (res: Self)
        ensures
            res.nodeid@ == self.nodeid@,
            res.address == self.address,
    {
        PeerTest { nodeid: self.nodeid.clone(), address: self.address }
    }
}

/// A clone of a test peer has its node id and address.
pub proof fn lemma_peer_clone(p: PeerTest, q: PeerTest)
    requires
        cloned(p, q),
    ensures
        q.nodeid@ == p.nodeid@,
        q.address == p.address,
{
}

impl PeerTest {
    /// The peer's key: its node id.
    pub fn get_key(&self) -> (res: String)
        ensures
            res@ == self.nodeid@,
    {
        self.nodeid.clone()
    }

    /// The peer's address.
    pub fn to_address(&self) -> (res: LocalAdd)
        ensures
            res == self.address,
    {
        self.address
    }

    /// Whether two peers are the same element: same node id and same
    /// address.
    pub fn kelem_eq_keb(&self, other: &Self) -> (res: bool)
        ensures
            res == (self.nodeid@ == other.nodeid@ && self.address == other.address),
    {
        self.nodeid == other.nodeid && self.address == other.address
    }
}

} // verus!
