use vstd::prelude::*;
use crate::registry::{admit_closes, admit_table, removal_closes, removal_events};
use crate::types::{closed_session, Connection, ConnectionOrigin, DisconnectReason, PeerId};

verus! {

/// The peer that dialed session `c`, as seen by the local peer `own`.
pub open spec fn dialer(own: PeerId, c: Connection) -> PeerId {
    if c.origin == ConnectionOrigin::Outbound {
        own
    } else {
        c.peer_id
    }
}

/// The greater of two peer ids.
pub open spec fn greater(a: PeerId, b: PeerId) -> PeerId {
    if a.0 < b.0 {
        b
    } else {
        a
    }
}

/// Two distinct peers that dial each other at once converge: whichever of
/// the outbound and inbound session arrives first at `own`, the session left
/// held for `remote` is the same, and it is the one dialed by the greater of
/// the two ids. Applied at both ends, both keep the same session. Exactly one
/// session is closed on the way, in either order: the losing one.
pub proof fn simultaneous_dial_converges(
    m: Map<PeerId, Connection>,
    own: PeerId,
    remote: PeerId,
    outbound: Connection,
    inbound: Connection,
)
    requires
        own != remote,
        !m.contains_key(remote),
        outbound.peer_id == remote,
        outbound.origin == ConnectionOrigin::Outbound,
        inbound.peer_id == remote,
        inbound.origin == ConnectionOrigin::Inbound,
    ensures
        ({
            let out_first = admit_table(admit_table(m, own, outbound), own, inbound);
            let in_first = admit_table(admit_table(m, own, inbound), own, outbound);
            &&& out_first.contains_key(remote)
            &&& in_first.contains_key(remote)
            &&& out_first[remote] == in_first[remote]
            &&& dialer(own, out_first[remote]) == greater(own, remote)
            &&& admit_closes(m, own, outbound) + admit_closes(
                admit_table(m, own, outbound),
                own,
                inbound,
            ) == seq![closed_session(if out_first[remote] == outbound { inbound } else { outbound })]
            &&& admit_closes(m, own, inbound) + admit_closes(
                admit_table(m, own, inbound),
                own,
                outbound,
            ) == seq![closed_session(if in_first[remote] == outbound { inbound } else { outbound })]
        }),
{
    let out_first = admit_table(admit_table(m, own, outbound), own, inbound);
    let in_first = admit_table(admit_table(m, own, inbound), own, outbound);
    assert(admit_closes(m, own, outbound) + admit_closes(admit_table(m, own, outbound), own, inbound)
        =~= seq![closed_session(if out_first[remote] == outbound { inbound } else { outbound })]);
    assert(admit_closes(m, own, inbound) + admit_closes(admit_table(m, own, inbound), own, outbound)
        =~= seq![closed_session(if in_first[remote] == outbound { inbound } else { outbound })]);
}

/// Removing a peer twice emits at most one event and closes at most one
/// session: the second removal finds nothing left to remove.
pub proof fn removal_is_idempotent(
    m: Map<PeerId, Connection>,
    p: PeerId,
    first: DisconnectReason,
    second: DisconnectReason,
)
    ensures
        m.remove(p).remove(p) == m.remove(p),
        removal_events(m.remove(p), p, second).len() == 0,
        (removal_events(m, p, first) + removal_events(m.remove(p), p, second)).len() <= 1,
        removal_closes(m.remove(p), p).len() == 0,
        (removal_closes(m, p) + removal_closes(m.remove(p), p)).len() <= 1,
{
    assert(m.remove(p).remove(p) =~= m.remove(p));
}

} // verus!
