use vstd::prelude::*;
use crate::types::{Connection, PeerEvent, PeerId};

verus! {

/// The peer-to-session mapping that a table keyed by the peer ids' integers
/// stands for.
pub open spec fn peer_map(m: Map<u64, Connection>) -> Map<PeerId, Connection> {
    Map::new(|p: PeerId| m.contains_key(p.0), |p: PeerId| m[p.0])
}

/// Every session of the table is filed under its own peer's integer.
pub open spec fn keyed_by_peer(m: Map<u64, Connection>) -> bool {
    forall|k: u64| #[trigger] m.contains_key(k) ==> m[k].peer_id.0 == k
}

/// The peers that a history of events leaves admitted: each `NewPeer` adds
/// its peer, each `LostPeer` takes it out again.
pub open spec fn replay(events: Seq<PeerEvent>) -> Set<PeerId>
    decreases events.len(),
{
    if events.len() == 0 {
        Set::empty()
    } else {
        match events.last() {
            PeerEvent::NewPeer(p) => replay(events.drop_last()).insert(p),
            PeerEvent::LostPeer(p, _) => replay(events.drop_last()).remove(p),
        }
    }
}

pub proof fn lemma_replay_push(events: Seq<PeerEvent>, e: PeerEvent)
    ensures
        replay(events.push(e)) == match e {
            PeerEvent::NewPeer(p) => replay(events).insert(p),
            PeerEvent::LostPeer(p, _) => replay(events).remove(p),
        },
{
    assert(events.push(e).drop_last() =~= events);
}

} // verus!
