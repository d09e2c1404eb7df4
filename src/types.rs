use vstd::prelude::*;

verus! {

/// Identity of a remote or local peer. The integer carries the total order
/// that simultaneous-dial tie-breaking compares.
#[derive(Clone, Copy, Debug, PartialEq, Eq, Structural, Hash, PartialOrd, Ord)]
pub struct PeerId(pub u64);

/// Which side initiated a session.
#[derive(Clone, Copy, Debug, PartialEq, Eq, Structural, Hash)]
pub enum ConnectionOrigin {
    Inbound,
    Outbound,
}

/// Why a peer left the registry.
#[derive(Clone, Copy, Debug, PartialEq, Eq, Structural, Hash)]
pub enum DisconnectReason {
    /// Replaced by a newer session, or removed on request.
    Requested,
    /// The transport lost the session.
    LostConnection,
}

/// A change of the set of admitted peers, as broadcast to subscribers.
#[derive(Clone, Copy, Debug, PartialEq, Eq, Structural, Hash)]
pub enum PeerEvent {
    NewPeer(PeerId),
    LostPeer(PeerId, DisconnectReason),
}

/// Why a requested connection did not come up.
#[derive(Clone, Copy, Debug, PartialEq, Eq, Structural, Hash)]
pub enum ConnectError {
    /// The endpoint refused or failed to start the dial.
    DialError,
    /// The handshake in flight failed.
    HandshakeError,
}

/// One transport session with a peer.
///
/// `stable_id` names this session instance, while `peer_id` is reused
/// across reconnects.
#[derive(Clone, Copy, Debug, PartialEq, Eq, Structural)]
pub struct Connection {
    pub peer_id: PeerId,
    pub origin: ConnectionOrigin,
    pub stable_id: usize,
    pub closed: bool,
}

/// The session `c` after it has been closed.
pub open spec fn closed_session(c: Connection) -> Connection {
    Connection { closed: true, ..c }
}

impl Connection {
    pub fn new(peer_id: PeerId, origin: ConnectionOrigin, stable_id: usize) -> (r: Connection)
        ensures
            r.peer_id == peer_id,
            r.origin == origin,
            r.stable_id == stable_id,
            !r.closed,
    {
        Connection { peer_id, origin, stable_id, closed: false }
    }

    pub fn peer_id(&self) -> (r: PeerId)
        ensures
            r == self.peer_id,
    {
        self.peer_id
    }

    pub fn origin(&self) -> (r: ConnectionOrigin)
        ensures
            r == self.origin,
    {
        self.origin
    }

    pub fn stable_id(&self) -> (r: usize)
        ensures
            r == self.stable_id,
    {
        self.stable_id
    }

    pub fn is_closed(&self) -> (r: bool)
        ensures
            r == self.closed,
    {
        self.closed
    }

    /// Tears the session down; closing a closed session changes nothing.
    pub fn close(&mut self)
        ensures
            *final(self) == closed_session(*old(self)),
    {
        self.closed = true;
    }
}

/// Closing is idempotent: a second close leaves the session as the first did.
pub proof fn close_is_idempotent(c: Connection)
    ensures
        closed_session(closed_session(c)) == closed_session(c),
        closed_session(c).peer_id == c.peer_id,
        closed_session(c).stable_id == c.stable_id,
        closed_session(c).origin == c.origin,
{
}

/// A freshly completed handshake, not yet admitted or discarded.
#[derive(Clone, Copy, Debug, PartialEq, Eq, Structural)]
pub struct NewConnection {
    pub connection: Connection,
}

} // verus!
