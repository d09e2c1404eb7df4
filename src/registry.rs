use vstd::prelude::*;
use std::collections::HashMap;
use crate::table::{keyed_by_peer, lemma_replay_push, peer_map, replay};
use crate::tie_break::{should_replace, simultaneous_dial_tie_breaking};
use crate::types::{closed_session, Connection, DisconnectReason, NewConnection, PeerEvent, PeerId};

verus! {

#[verifier::external_type_specification]
#[verifier::external_body]
#[verifier::reject_recursive_types(T)]
pub struct ExBroadcastSender<T>(tokio::sync::broadcast::Sender<T>);

#[verifier::external_type_specification]
#[verifier::external_body]
#[verifier::reject_recursive_types(T)]
pub struct ExBroadcastReceiver<T>(tokio::sync::broadcast::Receiver<T>);

/// Relies on tokio::sync::broadcast::channel, which panics on a capacity of
/// zero or above `usize::MAX / 2`; the receiving half is dropped at once.
#[verifier::external_body]
fn event_channel(capacity: usize) -> (r: tokio::sync::broadcast::Sender<PeerEvent>)
    requires
        0 < capacity <= usize::MAX / 2,
{
    tokio::sync::broadcast::channel(capacity).0
}

/// Relies on tokio::sync::broadcast::Sender::subscribe: a receiver of every
/// event sent after this call.
#[verifier::external_body]
fn event_receiver(
    sender: &tokio::sync::broadcast::Sender<PeerEvent>,
) -> (r: tokio::sync::broadcast::Receiver<PeerEvent>) {
    sender.subscribe()
}

/// Relies on tokio::sync::broadcast::Sender::send; an event that no receiver
/// listens for is dropped, so the outcome is ignored.
#[verifier::external_body]
fn broadcast(sender: &tokio::sync::broadcast::Sender<PeerEvent>, event: PeerEvent) {
    let _ = sender.send(event);
}

/// Whether `c` is admitted into a registry holding `m`, `own` being the local
/// peer: never a session with ourselves; otherwise a fresh peer, or one whose
/// current session loses the tie-break against `c`.
pub open spec fn admits(m: Map<PeerId, Connection>, own: PeerId, c: Connection) -> bool {
    c.peer_id != own && (!m.contains_key(c.peer_id) || should_replace(
        own,
        c.peer_id,
        m[c.peer_id].origin,
        c.origin,
    ))
}

/// The registry contents after offering `c` for admission.
pub open spec fn admit_table(
    m: Map<PeerId, Connection>,
    own: PeerId,
    c: Connection,
) -> Map<PeerId, Connection> {
    if admits(m, own, c) {
        m.insert(c.peer_id, c)
    } else {
        m
    }
}

/// The events that offering `c` for admission emits.
pub open spec fn admit_events(
    m: Map<PeerId, Connection>,
    own: PeerId,
    c: Connection,
) -> Seq<PeerEvent> {
    if !admits(m, own, c) {
        seq![]
    } else if m.contains_key(c.peer_id) {
        seq![
            PeerEvent::LostPeer(c.peer_id, DisconnectReason::Requested),
            PeerEvent::NewPeer(c.peer_id),
        ]
    } else {
        seq![PeerEvent::NewPeer(c.peer_id)]
    }
}

/// The sessions that offering `c` for admission closes: the displaced one
/// on a replacement, `c` itself on a rejection, none on a fresh admission.
pub open spec fn admit_closes(
    m: Map<PeerId, Connection>,
    own: PeerId,
    c: Connection,
) -> Seq<Connection> {
    if !admits(m, own, c) {
        seq![closed_session(c)]
    } else if m.contains_key(c.peer_id) {
        seq![closed_session(m[c.peer_id])]
    } else {
        seq![]
    }
}

/// The events that removing peer `p` emits.
pub open spec fn removal_events(
    m: Map<PeerId, Connection>,
    p: PeerId,
    reason: DisconnectReason,
) -> Seq<PeerEvent> {
    if m.contains_key(p) {
        seq![PeerEvent::LostPeer(p, reason)]
    } else {
        seq![]
    }
}

/// The sessions that removing peer `p` closes: the one held for `p`, if any.
pub open spec fn removal_closes(m: Map<PeerId, Connection>, p: PeerId) -> Seq<Connection> {
    if m.contains_key(p) {
        seq![closed_session(m[p])]
    } else {
        seq![]
    }
}

/// Whether the session held for `p` is the instance `stable_id`.
pub open spec fn holds_instance(m: Map<PeerId, Connection>, p: PeerId, stable_id: usize) -> bool {
    m.contains_key(p) && m[p].stable_id == stable_id
}

/// The registry proper: at most one session per peer, the history of events
/// broadcast to subscribers, and the history of sessions it closed.
pub struct ActivePeersInner {
    connections: HashMap<u64, Connection>,
    peer_event_sender: tokio::sync::broadcast::Sender<PeerEvent>,
    events: Ghost<Seq<PeerEvent>>,
    retired: Ghost<Seq<Connection>>,
}

impl View for ActivePeersInner {
    type V = Map<PeerId, Connection>;

    closed spec fn view(&self) -> Map<PeerId, Connection> {
        peer_map(self.connections@)
    }
}

impl ActivePeersInner {
    /// Every event broadcast since the registry was made, oldest first.
    pub closed spec fn events(&self) -> Seq<PeerEvent> {
        self.events@
    }

    /// Every session the registry has closed, as left by `close`, oldest first.
    pub closed spec fn closed(&self) -> Seq<Connection> {
        self.retired@
    }

    pub closed spec fn wf(&self) -> bool {
        &&& keyed_by_peer(self.connections@)
        &&& replay(self.events@) == peer_map(self.connections@).dom()
    }

    pub fn new(channel_size: usize) -> (r: Self)
        requires
            0 < channel_size <= usize::MAX / 2,
        ensures
            r.wf(),
            r@ == Map::<PeerId, Connection>::empty(),
            r.events() == Seq::<PeerEvent>::empty(),
            r.closed() == Seq::<Connection>::empty(),
    {
        let r = ActivePeersInner {
            connections: HashMap::new(),
            peer_event_sender: event_channel(channel_size),
            events: Ghost(Seq::empty()),
            retired: Ghost(Seq::empty()),
        };
        proof {
            assert(replay(r.events@) =~= peer_map(r.connections@).dom());
            assert(r@ =~= Map::<PeerId, Connection>::empty());
        }
        r
    }

    /// The registry holds each admitted peer under its own id.
    pub proof fn lemma_keys(&self)
        requires
            self.wf(),
        ensures
            forall|p: PeerId| #[trigger] self@.contains_key(p) ==> self@[p].peer_id == p,
    {
    }

    /// At every quiescent point the peers that the broadcast history leaves
    /// admitted (each `NewPeer` adding, each `LostPeer` taking out) are
    /// exactly the registry's keys.
    pub proof fn lemma_events_track_peers(&self)
        requires
            self.wf(),
        ensures
            replay(self.events()) == self@.dom(),
    {
    }

    fn emit(&mut self, event: PeerEvent)
        ensures
            final(self).connections@ == old(self).connections@,
            final(self).retired@ == old(self).retired@,
            final(self).events@ == old(self).events@.push(event),
    {
        broadcast(&self.peer_event_sender, event);
        self.events = Ghost(self.events@.push(event));
    }

    /// Closes a session that leaves, or never enters, the registry.
    fn retire(&mut self, connection: Connection)
        ensures
            final(self).connections@ == old(self).connections@,
            final(self).events@ == old(self).events@,
            final(self).retired@ == old(self).retired@.push(closed_session(connection)),
    {
        let mut connection = connection;
        connection.close();
        self.retired = Ghost(self.retired@.push(connection));
    }

    /// A snapshot of the admitted peers and a receiver of every later event.
    pub fn subscribe(&self) -> (r: (tokio::sync::broadcast::Receiver<PeerEvent>, Vec<PeerId>))
        requires
            self.wf(),
        ensures
            r.1@.no_duplicates(),
            r.1@.to_set() == self@.dom(),
    {
        let peers = self.peers();
        let receiver = event_receiver(&self.peer_event_sender);
        (receiver, peers)
    }

    /// The admitted peers, each once, in no promised order.
    pub fn peers(&self) -> (r: Vec<PeerId>)
        requires
            self.wf(),
        ensures
            r@.no_duplicates(),
            r@.to_set() == self@.dom(),
    {
        broadcast use vstd::std_specs::hash::group_hash_axioms;

        let mut r: Vec<PeerId> = Vec::new();
        for key in it: self.connections.keys()
            invariant
                r@.len() == it.index(),
                r@.no_duplicates(),
                forall|i: int| 0 <= i < it.index() ==> r@[i] == PeerId(*it.seq()[i]),
                forall|i: int| 0 <= i < r@.len() ==> self.connections@.contains_key(#[trigger] r@[i].0),
                it.seq().unref().to_set() == self.connections@.dom(),
                it.seq().no_duplicates(),
                forall|k: u64| #[trigger] self.connections@.contains_key(k) ==> (r@.contains(PeerId(k))
                    || exists|j: int| it.index() <= j < it.seq().len() && *it.seq()[j] == k),
        {
            proof {
                let i = it.index();
                let keys = it.seq().unref();
                assert(keys[i] == *it.seq()[i]);
                assert(keys.to_set().contains(*key));
                assert forall|a: int| 0 <= a < r@.len() implies r@[a] != PeerId(*key) by {
                    assert(it.seq()[a] != it.seq()[i]);
                }
            }
            let ghost before = r@;
            r.push(PeerId(*key));
            proof {
                let i = it.index();
                assert forall|k: u64| #[trigger] self.connections@.contains_key(k) implies (r@.contains(PeerId(k))
                    || exists|j: int| i + 1 <= j < it.seq().len() && *it.seq()[j] == k) by {
                    if before.contains(PeerId(k)) {
                        let a = choose|a: int| 0 <= a < before.len() && before[a] == PeerId(k);
                        assert(r@[a] == PeerId(k));
                    } else {
                        let j = choose|j: int| i <= j < it.seq().len() && *it.seq()[j] == k;
                        if j == i {
                            assert(r@[i] == PeerId(k));
                        }
                    }
                }
            }
        }
        proof {
            assert forall|p: PeerId| r@.to_set().contains(p) <==> self@.dom().contains(p) by {
                if self@.dom().contains(p) {
                    assert(self.connections@.contains_key(p.0));
                    assert(r@.contains(PeerId(p.0)));
                }
                if r@.to_set().contains(p) {
                    let k = choose|k: int| 0 <= k < r@.len() && r@[k] == p;
                    assert(self.connections@.contains_key(r@[k].0));
                }
            }
            assert(r@.to_set() =~= self@.dom());
        }
        r
    }

    /// The session held for `peer_id`, if any.
    pub fn get(&self, peer_id: &PeerId) -> (r: Option<Connection>)
        requires
            self.wf(),
        ensures
            r == (if self@.contains_key(*peer_id) {
                Some(self@[*peer_id])
            } else {
                None
            }),
    {
        broadcast use vstd::std_specs::hash::group_hash_axioms;

        match self.connections.get(&peer_id.0) {
            Some(c) => Some(*c),
            None => None,
        }
    }

    /// Removes the session held for `peer_id`, whichever it is, and closes it.
    pub fn remove(&mut self, peer_id: &PeerId, reason: DisconnectReason)
        requires
            old(self).wf(),
        ensures
            final(self).wf(),
            final(self)@ == old(self)@.remove(*peer_id),
            final(self).events() == old(self).events() + removal_events(old(self)@, *peer_id, reason),
            final(self).closed() == old(self).closed() + removal_closes(old(self)@, *peer_id),
    {
        broadcast use vstd::std_specs::hash::group_hash_axioms;

        match self.connections.remove(&peer_id.0) {
            Some(connection) => {
                self.retire(connection);
                let event = PeerEvent::LostPeer(*peer_id, reason);
                self.emit(event);
                proof {
                    lemma_replay_push(old(self).events@, event);
                    assert(self@ =~= old(self)@.remove(*peer_id));
                    assert(replay(self.events@) =~= peer_map(self.connections@).dom());
                }
            },
            None => {
                proof {
                    assert(self.connections@ =~= old(self).connections@);
                }
            },
        }
        proof {
            assert(self@ =~= old(self)@.remove(*peer_id));
            assert(self.events() =~= old(self).events() + removal_events(
                old(self)@,
                *peer_id,
                reason,
            ));
            assert(self.closed() =~= old(self).closed() + removal_closes(old(self)@, *peer_id));
        }
    }

    /// Removes and closes the session held for `peer_id` only if it is the
    /// instance `stable_id`; a successor session is left alone.
    pub fn remove_with_stable_id(
        &mut self,
        peer_id: PeerId,
        stable_id: usize,
        reason: DisconnectReason,
    )
        requires
            old(self).wf(),
        ensures
            final(self).wf(),
            holds_instance(old(self)@, peer_id, stable_id) ==> {
                &&& final(self)@ == old(self)@.remove(peer_id)
                &&& final(self).events() == old(self).events().push(PeerEvent::LostPeer(peer_id, reason))
                &&& final(self).closed() == old(self).closed().push(closed_session(old(self)@[peer_id]))
            },
            !holds_instance(old(self)@, peer_id, stable_id) ==> {
                &&& final(self)@ == old(self)@
                &&& final(self).events() == old(self).events()
                &&& final(self).closed() == old(self).closed()
            },
    {
        broadcast use vstd::std_specs::hash::group_hash_axioms;

        let matches = match self.connections.get(&peer_id.0) {
            Some(c) => c.stable_id == stable_id,
            None => false,
        };
        if matches {
            self.remove(&peer_id, reason);
        }
    }

    /// Offers a freshly handshaken session for admission. Returns it back when
    /// the caller should serve it; otherwise it has been closed and dropped. A
    /// session it displaces is closed.
    #[must_use]
    pub fn add(&mut self, own_peer_id: &PeerId, new_connection: NewConnection) -> (r: Option<
        NewConnection,
    >)
        requires
            old(self).wf(),
        ensures
            final(self).wf(),
            r == (if admits(old(self)@, *own_peer_id, new_connection.connection) {
                Some(new_connection)
            } else {
                None
            }),
            final(self)@ == admit_table(old(self)@, *own_peer_id, new_connection.connection),
            final(self).events() == old(self).events() + admit_events(
                old(self)@,
                *own_peer_id,
                new_connection.connection,
            ),
            final(self).closed() == old(self).closed() + admit_closes(
                old(self)@,
                *own_peer_id,
                new_connection.connection,
            ),
    {
        broadcast use vstd::std_specs::hash::group_hash_axioms;

        let c = new_connection.connection;
        let peer_id = c.peer_id;
        if peer_id.0 == own_peer_id.0 {
            self.retire(c);
            proof {
                assert(self.events() =~= old(self).events() + admit_events(
                    old(self)@,
                    *own_peer_id,
                    c,
                ));
                assert(self.closed() =~= old(self).closed() + admit_closes(
                    old(self)@,
                    *own_peer_id,
                    c,
                ));
            }
            return None;
        }
        let held = match self.connections.get(&peer_id.0) {
            Some(existing) => Some(*existing),
            None => None,
        };
        match held {
            Some(existing) => {
                if simultaneous_dial_tie_breaking(own_peer_id, &peer_id, existing.origin, c.origin) {
                    let _ = self.connections.insert(peer_id.0, c);
                    self.retire(existing);
                    let lost = PeerEvent::LostPeer(peer_id, DisconnectReason::Requested);
                    let ghost mid = self.events@;
                    self.emit(lost);
                    proof {
                        lemma_replay_push(mid, lost);
                    }
                } else {
                    self.retire(c);
                    proof {
                        assert(self.events() =~= old(self).events() + admit_events(
                            old(self)@,
                            *own_peer_id,
                            c,
                        ));
                        assert(self.closed() =~= old(self).closed() + admit_closes(
                            old(self)@,
                            *own_peer_id,
                            c,
                        ));
                    }
                    return None;
                }
            },
            None => {
                let _ = self.connections.insert(peer_id.0, c);
            },
        }
        let fresh = PeerEvent::NewPeer(peer_id);
        let ghost mid = self.events@;
        self.emit(fresh);
        proof {
            lemma_replay_push(mid, fresh);
            assert(self@ =~= old(self)@.insert(peer_id, c));
            assert(replay(self.events@) =~= peer_map(self.connections@).dom());
            assert(self.events() =~= old(self).events() + admit_events(
                old(self)@,
                *own_peer_id,
                c,
            ));
            assert(self.closed() =~= old(self).closed() + admit_closes(
                old(self)@,
                *own_peer_id,
                c,
            ));
        }
        Some(new_connection)
    }
}

} // verus!
