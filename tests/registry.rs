use peer_links::{
    simultaneous_dial_tie_breaking, ActivePeers, ActivePeersInner, Connection, ConnectionOrigin,
    DisconnectReason, NewConnection, PeerEvent, PeerId,
};
use peer_links::ConnectionOrigin::{Inbound, Outbound};
use tokio::sync::broadcast::error::TryRecvError;
use tokio::sync::broadcast::Receiver;

fn session(peer: u64, origin: ConnectionOrigin, stable_id: usize) -> NewConnection {
    NewConnection {
        connection: Connection::new(PeerId(peer), origin, stable_id),
    }
}

fn drain(rx: &mut Receiver<PeerEvent>) -> Vec<PeerEvent> {
    let mut out = Vec::new();
    loop {
        match rx.try_recv() {
            Ok(e) => out.push(e),
            Err(TryRecvError::Empty) => return out,
            Err(e) => panic!("unexpected receive error: {e:?}"),
        }
    }
}

fn sorted(mut v: Vec<PeerId>) -> Vec<PeerId> {
    v.sort();
    v
}

#[test]
fn tie_break_rule_table() {
    let own = PeerId(5);
    let low = PeerId(2);
    let high = PeerId(9);
    assert!(simultaneous_dial_tie_breaking(&own, &low, Inbound, Inbound));
    assert!(simultaneous_dial_tie_breaking(&own, &high, Outbound, Outbound));
    assert!(simultaneous_dial_tie_breaking(&own, &low, Inbound, Outbound));
    assert!(!simultaneous_dial_tie_breaking(&own, &high, Inbound, Outbound));
    assert!(!simultaneous_dial_tie_breaking(&own, &low, Outbound, Inbound));
    assert!(simultaneous_dial_tie_breaking(&own, &high, Outbound, Inbound));
}

#[test]
fn tie_break_cross_cases_swap() {
    for (a, b) in [(1u64, 7u64), (7, 1), (3, 3)] {
        for (e, n) in [(Inbound, Outbound), (Outbound, Inbound)] {
            let here = simultaneous_dial_tie_breaking(&PeerId(a), &PeerId(b), e, n);
            let there = simultaneous_dial_tie_breaking(&PeerId(b), &PeerId(a), n, e);
            assert_eq!(here, there);
            let flipped = simultaneous_dial_tie_breaking(&PeerId(a), &PeerId(b), n, e);
            assert_eq!(here != flipped, a != b);
        }
    }
}

#[test]
fn close_is_idempotent_on_a_session() {
    let mut c = Connection::new(PeerId(4), ConnectionOrigin::Inbound, 8);
    assert!(!c.is_closed());
    c.close();
    let once = c;
    c.close();
    assert_eq!(c, once);
    assert!(c.is_closed());
    assert_eq!(c.peer_id(), PeerId(4));
    assert_eq!(c.stable_id(), 8);
    assert_eq!(c.origin(), ConnectionOrigin::Inbound);
}

#[test]
fn fresh_admission_emits_new_peer() {
    let mut reg = ActivePeersInner::new(16);
    let (mut rx, initial) = reg.subscribe();
    assert!(initial.is_empty());
    let nc = session(2, ConnectionOrigin::Outbound, 1);
    assert_eq!(reg.add(&PeerId(1), nc), Some(nc));
    assert_eq!(reg.get(&PeerId(2)), Some(nc.connection));
    assert_eq!(reg.peers(), vec![PeerId(2)]);
    assert_eq!(drain(&mut rx), vec![PeerEvent::NewPeer(PeerId(2))]);
}

#[test]
fn self_dial_is_rejected() {
    let mut reg = ActivePeersInner::new(16);
    let (mut rx, _) = reg.subscribe();
    assert_eq!(reg.add(&PeerId(1), session(1, ConnectionOrigin::Outbound, 1)), None);
    assert!(reg.peers().is_empty());
    assert_eq!(reg.get(&PeerId(1)), None);
    assert!(drain(&mut rx).is_empty());
}

#[test]
fn simultaneous_dial_local_wins_either_order() {
    for outbound_first in [true, false] {
        let mut reg = ActivePeersInner::new(16);
        let (mut rx, _) = reg.subscribe();
        let own = PeerId(5);
        let out = session(2, ConnectionOrigin::Outbound, 3);
        let inb = session(2, ConnectionOrigin::Inbound, 4);
        let (first, second) = if outbound_first { (out, inb) } else { (inb, out) };
        assert_eq!(reg.add(&own, first), Some(first));
        let r = reg.add(&own, second);
        assert_eq!(reg.get(&PeerId(2)).map(|c| c.stable_id), Some(3));
        let events = drain(&mut rx);
        if outbound_first {
            assert_eq!(r, None);
            assert_eq!(events, vec![PeerEvent::NewPeer(PeerId(2))]);
        } else {
            assert_eq!(r, Some(out));
            assert_eq!(
                events,
                vec![
                    PeerEvent::NewPeer(PeerId(2)),
                    PeerEvent::LostPeer(PeerId(2), DisconnectReason::Requested),
                    PeerEvent::NewPeer(PeerId(2)),
                ]
            );
        }
    }
}

#[test]
fn simultaneous_dial_remote_wins_either_order() {
    for outbound_first in [true, false] {
        let mut reg = ActivePeersInner::new(16);
        let own = PeerId(2);
        let out = session(5, ConnectionOrigin::Outbound, 3);
        let inb = session(5, ConnectionOrigin::Inbound, 4);
        let (first, second) = if outbound_first { (out, inb) } else { (inb, out) };
        let _ = reg.add(&own, first);
        let _ = reg.add(&own, second);
        let survivor = reg.get(&PeerId(5)).unwrap();
        assert_eq!(survivor.origin, ConnectionOrigin::Inbound);
        assert_eq!(survivor.stable_id, 4);
    }
}

#[test]
fn both_ends_keep_the_same_session() {
    for (a, b) in [(3u64, 8u64), (8, 3)] {
        let mut at_a = ActivePeersInner::new(4);
        let mut at_b = ActivePeersInner::new(4);
        // the session dialed by `a` carries stable id 1, the one dialed by `b` stable id 2
        let _ = at_a.add(&PeerId(a), session(b, ConnectionOrigin::Outbound, 1));
        let _ = at_b.add(&PeerId(b), session(a, ConnectionOrigin::Outbound, 2));
        let _ = at_a.add(&PeerId(a), session(b, ConnectionOrigin::Inbound, 2));
        let _ = at_b.add(&PeerId(b), session(a, ConnectionOrigin::Inbound, 1));
        let kept_a = at_a.get(&PeerId(b)).unwrap();
        let kept_b = at_b.get(&PeerId(a)).unwrap();
        let dialer_a = if kept_a.origin == ConnectionOrigin::Outbound { a } else { b };
        let dialer_b = if kept_b.origin == ConnectionOrigin::Outbound { b } else { a };
        assert_eq!(dialer_a, a.max(b));
        assert_eq!(dialer_b, a.max(b));
        assert_eq!(kept_a.stable_id, kept_b.stable_id);
    }
}

#[test]
fn stale_removal_is_a_no_op() {
    let mut reg = ActivePeersInner::new(16);
    let (mut rx, _) = reg.subscribe();
    let own = PeerId(1);
    assert!(reg.add(&own, session(7, ConnectionOrigin::Inbound, 10)).is_some());
    assert!(reg.add(&own, session(7, ConnectionOrigin::Inbound, 11)).is_some());
    reg.remove_with_stable_id(PeerId(7), 10, DisconnectReason::LostConnection);
    assert_eq!(reg.get(&PeerId(7)).map(|c| c.stable_id), Some(11));
    assert_eq!(
        drain(&mut rx),
        vec![
            PeerEvent::NewPeer(PeerId(7)),
            PeerEvent::LostPeer(PeerId(7), DisconnectReason::Requested),
            PeerEvent::NewPeer(PeerId(7)),
        ]
    );
}

#[test]
fn matching_stable_id_removes() {
    let mut reg = ActivePeersInner::new(16);
    let (mut rx, _) = reg.subscribe();
    let _ = reg.add(&PeerId(1), session(7, ConnectionOrigin::Inbound, 10));
    reg.remove_with_stable_id(PeerId(7), 10, DisconnectReason::LostConnection);
    assert_eq!(reg.get(&PeerId(7)), None);
    assert_eq!(
        drain(&mut rx),
        vec![
            PeerEvent::NewPeer(PeerId(7)),
            PeerEvent::LostPeer(PeerId(7), DisconnectReason::LostConnection),
        ]
    );
}

#[test]
fn removing_twice_emits_once() {
    let mut reg = ActivePeersInner::new(16);
    let _ = reg.add(&PeerId(1), session(3, ConnectionOrigin::Outbound, 1));
    let (mut rx, _) = reg.subscribe();
    reg.remove(&PeerId(3), DisconnectReason::Requested);
    reg.remove(&PeerId(3), DisconnectReason::Requested);
    assert!(reg.peers().is_empty());
    assert_eq!(
        drain(&mut rx),
        vec![PeerEvent::LostPeer(PeerId(3), DisconnectReason::Requested)]
    );
}

#[test]
fn events_track_the_key_set() {
    let mut reg = ActivePeersInner::new(64);
    let (mut rx, _) = reg.subscribe();
    let own = PeerId(50);
    let _ = reg.add(&own, session(1, ConnectionOrigin::Inbound, 1));
    let _ = reg.add(&own, session(2, ConnectionOrigin::Outbound, 2));
    let _ = reg.add(&own, session(1, ConnectionOrigin::Inbound, 3));
    reg.remove(&PeerId(2), DisconnectReason::LostConnection);
    let _ = reg.add(&own, session(4, ConnectionOrigin::Inbound, 4));
    reg.remove(&PeerId(9), DisconnectReason::Requested);
    let _ = reg.add(&own, session(2, ConnectionOrigin::Inbound, 5));
    let mut present: Vec<PeerId> = Vec::new();
    for e in drain(&mut rx) {
        match e {
            PeerEvent::NewPeer(p) => {
                if !present.contains(&p) {
                    present.push(p);
                }
            }
            PeerEvent::LostPeer(p, _) => present.retain(|q| *q != p),
        }
    }
    assert_eq!(sorted(present), sorted(reg.peers()));
    assert_eq!(sorted(reg.peers()), vec![PeerId(1), PeerId(2), PeerId(4)]);
}

#[test]
fn subscribe_snapshot_has_no_stray_prefix() {
    let peers = ActivePeers::new(16);
    let own = PeerId(100);
    let _ = peers.add(&own, session(1, ConnectionOrigin::Inbound, 1));
    let _ = peers.add(&own, session(2, ConnectionOrigin::Outbound, 2));
    let (mut rx, initial) = peers.subscribe();
    assert_eq!(sorted(initial), vec![PeerId(1), PeerId(2)]);
    assert!(drain(&mut rx).is_empty());
    peers.remove(&PeerId(1), DisconnectReason::Requested);
    assert_eq!(
        drain(&mut rx),
        vec![PeerEvent::LostPeer(PeerId(1), DisconnectReason::Requested)]
    );
}

#[test]
fn shared_handle_clones_see_one_registry() {
    let peers = ActivePeers::new(8);
    let other = peers.clone();
    let nc = session(6, ConnectionOrigin::Inbound, 9);
    assert_eq!(peers.add(&PeerId(1), nc), Some(nc));
    assert_eq!(other.get(&PeerId(6)), Some(nc.connection));
    assert_eq!(other.peers(), vec![PeerId(6)]);
    other.remove_with_stable_id(PeerId(6), 8, DisconnectReason::LostConnection);
    assert_eq!(peers.peers(), vec![PeerId(6)]);
    other.remove_with_stable_id(PeerId(6), 9, DisconnectReason::LostConnection);
    assert!(peers.peers().is_empty());
    assert_eq!(peers.add(&PeerId(1), session(1, ConnectionOrigin::Inbound, 3)), None);
}
