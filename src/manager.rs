use vstd::prelude::*;
use crate::active_peers::ActivePeers;
use crate::registry::{admit_closes, admit_events, admit_table, admits, ActivePeersInner};
use crate::tie_break::should_replace;
use crate::types::ConnectionOrigin;
use crate::types::{ConnectError, NewConnection, PeerId};

verus! {

/// What a handshake task hands back to the event loop: how the handshake
/// ended, and whether a caller of `Connect` waits for a reply.
#[derive(Clone, Copy, Debug, PartialEq, Eq)]
pub struct ConnectingOutput {
    pub connecting_result: Result<NewConnection, ConnectError>,
    pub wants_reply: bool,
}

/// What the event loop does once a handshake has ended: serve the admitted
/// session with a request handler, and answer the waiting caller.
#[derive(Clone, Copy, Debug, PartialEq, Eq)]
pub struct Completion {
    pub handler: Option<NewConnection>,
    pub reply: Option<Result<PeerId, ConnectError>>,
}

/// The answer owed to a waiting caller: the peer once a handshake succeeded,
/// whether or not this session survived admission (the peer is connected
/// either way), or the failure.
pub open spec fn reply_for(output: ConnectingOutput) -> Option<Result<PeerId, ConnectError>> {
    if !output.wants_reply {
        None
    } else {
        match output.connecting_result {
            Ok(nc) => Some(Ok(nc.connection.peer_id)),
            Err(e) => Some(Err(e)),
        }
    }
}

fn reply(output: &ConnectingOutput) -> (r: Option<Result<PeerId, ConnectError>>)
    ensures
        r == reply_for(*output),
{
    if !output.wants_reply {
        None
    } else {
        match output.connecting_result {
            Ok(nc) => Some(Ok(nc.connection.peer_id)),
            Err(e) => Some(Err(e)),
        }
    }
}

/// Settles a finished handshake against a registry held exclusively: a
/// successful one is offered for admission, a failed one leaves the registry
/// as it was.
pub fn settle_connecting_result(
    registry: &mut ActivePeersInner,
    own_peer_id: &PeerId,
    output: ConnectingOutput,
) -> (r: Completion)
    requires
        old(registry).wf(),
    ensures
        final(registry).wf(),
        r.reply == reply_for(output),
        match output.connecting_result {
            Ok(nc) => {
                &&& r.handler == (if admits(old(registry)@, *own_peer_id, nc.connection) {
                    Some(nc)
                } else {
                    None
                })
                &&& final(registry)@ == admit_table(old(registry)@, *own_peer_id, nc.connection)
                &&& final(registry).events() == old(registry).events() + admit_events(
                    old(registry)@,
                    *own_peer_id,
                    nc.connection,
                )
                &&& final(registry).closed() == old(registry).closed() + admit_closes(
                    old(registry)@,
                    *own_peer_id,
                    nc.connection,
                )
            },
            Err(_) => {
                &&& r.handler is None
                &&& final(registry)@ == old(registry)@
                &&& final(registry).events() == old(registry).events()
                &&& final(registry).closed() == old(registry).closed()
            },
        },
{
    let answer = reply(&output);
    match output.connecting_result {
        Ok(nc) => {
            let handler = registry.add(own_peer_id, nc);
            Completion { handler, reply: answer }
        },
        Err(_) => Completion { handler: None, reply: answer },
    }
}

/// Settles a finished handshake against the shared registry. The reply is
/// decided by the handshake alone; a session is handed to a request handler
/// only if it was admitted, and a session with ourselves never is.
pub fn handle_connecting_result(
    active_peers: &ActivePeers,
    own_peer_id: &PeerId,
    output: ConnectingOutput,
) -> (r: Completion)
    ensures
        r.reply == reply_for(output),
        match output.connecting_result {
            Ok(nc) => {
                &&& r.handler matches Some(h) ==> h == nc
                &&& nc.connection.peer_id == *own_peer_id ==> r.handler is None
                &&& (nc.connection.peer_id != *own_peer_id && forall|o: ConnectionOrigin|
                    should_replace(*own_peer_id, nc.connection.peer_id, o, nc.connection.origin))
                    ==> r.handler == Some(nc)
            },
            Err(_) => r.handler is None,
        },
{
    let answer = reply(&output);
    match output.connecting_result {
        Ok(nc) => {
            let handler = active_peers.add(own_peer_id, nc);
            Completion { handler, reply: answer }
        },
        Err(_) => Completion { handler: None, reply: answer },
    }
}

/// The output of a dial that the endpoint refused before any handshake
/// began: a failure owed to the caller who asked for it.
pub fn dial_failed(error: ConnectError) -> (r: ConnectingOutput)
    ensures
        r.connecting_result == Err::<NewConnection, ConnectError>(error),
        r.wants_reply,
{
    ConnectingOutput { connecting_result: Err(error), wants_reply: true }
}

} // verus!
