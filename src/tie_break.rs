use vstd::prelude::*;
use crate::types::{ConnectionOrigin, PeerId};

verus! {

/// Whether a new session with `remote` replaces the one already held.
///
/// Two sessions of the same origin: the newer wins. Across origins the
/// session dialed by the greater peer id survives.
pub open spec fn should_replace(
    own: PeerId,
    remote: PeerId,
    existing: ConnectionOrigin,
    new: ConnectionOrigin,
) -> bool {
    match (existing, new) {
        (ConnectionOrigin::Inbound, ConnectionOrigin::Inbound) => true,
        (ConnectionOrigin::Outbound, ConnectionOrigin::Outbound) => true,
        (ConnectionOrigin::Inbound, ConnectionOrigin::Outbound) => remote.0 < own.0,
        (ConnectionOrigin::Outbound, ConnectionOrigin::Inbound) => own.0 < remote.0,
    }
}

/// Decides a simultaneous-dial race: `true` drops the existing session,
/// `false` drops the new one.
pub fn simultaneous_dial_tie_breaking(
    own_peer_id: &PeerId,
    remote_peer_id: &PeerId,
    existing_origin: ConnectionOrigin,
    new_origin: ConnectionOrigin,
) -> (r: bool)
    ensures
        r == should_replace(*own_peer_id, *remote_peer_id, existing_origin, new_origin),
{
    match (existing_origin, new_origin) {
        (ConnectionOrigin::Inbound, ConnectionOrigin::Inbound) => true,
        (ConnectionOrigin::Outbound, ConnectionOrigin::Outbound) => true,
        (ConnectionOrigin::Inbound, ConnectionOrigin::Outbound) => remote_peer_id.0 < own_peer_id.0,
        (ConnectionOrigin::Outbound, ConnectionOrigin::Inbound) => own_peer_id.0 < remote_peer_id.0,
    }
}

/// In the cross cases the rule is the same seen from either end: swapping the
/// two peer ids together with the two origins keeps the decision, and for
/// distinct peers the two arrival orders give opposite decisions, so the
/// decision flips exactly with the comparison of the ids.
pub proof fn tie_break_cross_cases(
    own: PeerId,
    remote: PeerId,
    existing: ConnectionOrigin,
    new: ConnectionOrigin,
)
    requires
        existing != new,
    ensures
        should_replace(own, remote, existing, new) == should_replace(remote, own, new, existing),
        own != remote ==> should_replace(own, remote, existing, new) != should_replace(
            own,
            remote,
            new,
            existing,
        ),
        should_replace(own, remote, existing, new) == (if existing == ConnectionOrigin::Inbound {
            remote.0 < own.0
        } else {
            own.0 < remote.0
        }),
{
}

} // verus!
