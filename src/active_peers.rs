use vstd::prelude::*;
use vstd::rwlock::{RwLock, RwLockPredicate};
use std::sync::Arc;
use crate::registry::ActivePeersInner;
use crate::tie_break::should_replace;
use crate::types::{Connection, ConnectionOrigin, DisconnectReason, NewConnection, PeerEvent, PeerId};

verus! {

/// What every holder of the registry lock may rely on: the registry is
/// well formed.
pub struct RegistryInvariant;

impl RwLockPredicate<ActivePeersInner> for RegistryInvariant {
    open spec fn inv(self, v: ActivePeersInner) -> bool {
        v.wf()
    }
}

/// A shared handle to the registry: many readers or one writer at a time.
/// Clones share one registry.
pub struct ActivePeers(Arc<RwLock<ActivePeersInner, RegistryInvariant>>);

impl Clone for ActivePeers {
    fn clone(&self) -> (r: Self) {
        ActivePeers(Arc::clone(&self.0))
    }
}

impl ActivePeers {
    pub fn new(channel_size: usize) -> (r: Self)
        requires
            0 < channel_size <= usize::MAX / 2,
    {
        let inner = ActivePeersInner::new(channel_size);
        ActivePeers(Arc::new(RwLock::new(inner, Ghost(RegistryInvariant))))
    }

    /// A snapshot of the admitted peers taken under the same lock as the
    /// receiver of every later event, so no event predates the snapshot.
    pub fn subscribe(&self) -> (r: (tokio::sync::broadcast::Receiver<PeerEvent>, Vec<PeerId>))
        ensures
            r.1@.no_duplicates(),
    {
        let handle = self.0.acquire_read();
        let r = handle.borrow().subscribe();
        handle.release_read();
        r
    }

    pub fn peers(&self) -> (r: Vec<PeerId>)
        ensures
            r@.no_duplicates(),
    {
        let handle = self.0.acquire_read();
        let r = handle.borrow().peers();
        handle.release_read();
        r
    }

    pub fn get(&self, peer_id: &PeerId) -> (r: Option<Connection>)
        ensures
            r matches Some(c) ==> c.peer_id == *peer_id,
    {
        let handle = self.0.acquire_read();
        let inner = handle.borrow();
        proof {
            inner.lemma_keys();
        }
        let r = inner.get(peer_id);
        handle.release_read();
        r
    }

    pub fn remove(&self, peer_id: &PeerId, reason: DisconnectReason) {
        let (mut inner, handle) = self.0.acquire_write();
        inner.remove(peer_id, reason);
        handle.release_write(inner);
    }

    pub fn remove_with_stable_id(&self, peer_id: PeerId, stable_id: usize, reason: DisconnectReason) {
        let (mut inner, handle) = self.0.acquire_write();
        inner.remove_with_stable_id(peer_id, stable_id, reason);
        handle.release_write(inner);
    }

    /// Offers a session for admission under the write lock; see
    /// `ActivePeersInner::add`. A session with ourselves is never admitted; a
    /// session that would win the tie-break against any held session always is.
    #[must_use]
    pub fn add(&self, own_peer_id: &PeerId, new_connection: NewConnection) -> (r: Option<
        NewConnection,
    >)
        ensures
            r matches Some(nc) ==> nc == new_connection,
            new_connection.connection.peer_id == *own_peer_id ==> r is None,
            (new_connection.connection.peer_id != *own_peer_id && forall|o: ConnectionOrigin|
                should_replace(*own_peer_id, new_connection.connection.peer_id, o,
                new_connection.connection.origin)) ==> r == Some(new_connection),
    {
        let (mut inner, handle) = self.0.acquire_write();
        let r = inner.add(own_peer_id, new_connection);
        handle.release_write(inner);
        r
    }
}

} // verus!
