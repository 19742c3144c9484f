use replica_map::peer::{Envelope, Peer, PeerMsg, RegisterMsg};
use replica_map::predicates::same_entries;
use replica_map::replica::{Replica, Variant};
use replica_map::version::Version;

fn v(counter: u32, replica: usize) -> Version {
    Version { counter, replica }
}

fn put_sync(context: Vec<Version>, version: Version, key: char, value: char) -> RegisterMsg {
    RegisterMsg::Internal(PeerMsg::PutSync { context, version, key, value })
}

fn delete_sync(context: Vec<Version>) -> RegisterMsg {
    RegisterMsg::Internal(PeerMsg::DeleteSync { context })
}

#[test]
fn put_is_acknowledged_and_broadcast() {
    let peer = Peer { peers: vec![1, 2], variant: Variant::Fixed };
    let mut r = Replica::new(Variant::Fixed, 0);
    let out = peer.on_msg(&mut r, 5, RegisterMsg::Put(42, 'k', 'A'));
    assert_eq!(out.len(), 3);
    assert_eq!(out[0], Envelope { dst: 5, msg: RegisterMsg::PutOk(42) });
    assert_eq!(out[1], Envelope { dst: 1, msg: put_sync(vec![], v(1, 0), 'k', 'A') });
    assert_eq!(out[2], Envelope { dst: 2, msg: put_sync(vec![], v(1, 0), 'k', 'A') });
    let out2 = peer.on_msg(&mut r, 5, RegisterMsg::Put(43, 'k', 'B'));
    assert_eq!(out2[1], Envelope { dst: 1, msg: put_sync(vec![v(1, 0)], v(2, 0), 'k', 'B') });
}

#[test]
fn get_of_absent_key_is_silent() {
    let peer = Peer { peers: vec![1], variant: Variant::Fixed };
    let mut r = Replica::new(Variant::Fixed, 0);
    let out = peer.on_msg(&mut r, 5, RegisterMsg::Get(7, 'k'));
    assert!(out.is_empty());
    peer.on_msg(&mut r, 5, RegisterMsg::Put(8, 'k', 'A'));
    let out2 = peer.on_msg(&mut r, 5, RegisterMsg::Get(9, 'k'));
    assert_eq!(out2, vec![Envelope { dst: 5, msg: RegisterMsg::GetOk(9, 'A') }]);
}

#[test]
fn delete_always_acknowledges_but_broadcasts_only_when_present() {
    let peer = Peer { peers: vec![1], variant: Variant::Fixed };
    let mut r = Replica::new(Variant::Fixed, 0);
    let out = peer.on_msg(&mut r, 5, RegisterMsg::Delete(7, 'k'));
    assert_eq!(out, vec![Envelope { dst: 5, msg: RegisterMsg::DeleteOk(7) }]);
    peer.on_msg(&mut r, 5, RegisterMsg::Put(8, 'k', 'A'));
    let out2 = peer.on_msg(&mut r, 5, RegisterMsg::Delete(9, 'k'));
    assert_eq!(out2.len(), 2);
    assert_eq!(out2[0], Envelope { dst: 5, msg: RegisterMsg::DeleteOk(9) });
    assert_eq!(out2[1], Envelope { dst: 1, msg: delete_sync(vec![v(1, 0)]) });
}

#[test]
fn acknowledgements_are_ignored_by_servers() {
    let peer = Peer { peers: vec![1], variant: Variant::Fixed };
    let mut r = Replica::new(Variant::Fixed, 0);
    assert!(peer.on_msg(&mut r, 5, RegisterMsg::PutOk(1)).is_empty());
    assert!(peer.on_msg(&mut r, 5, RegisterMsg::GetOk(1, 'x')).is_empty());
    assert!(peer.on_msg(&mut r, 5, RegisterMsg::DeleteOk(1)).is_empty());
    assert!(peer.on_timeout(&mut r).is_empty());
    assert_eq!(r.get('x'), None);
}

#[test]
fn concurrent_puts_converge_to_the_greater_version() {
    // Two replicas in a full mesh; a client writes 'A' at replica 0 while
    // another writes 'B' at replica 1, before either sync arrives. After
    // both syncs are delivered, both replicas agree and read the value of
    // the greater version.
    let peer0 = Peer { peers: vec![1], variant: Variant::Fixed };
    let peer1 = Peer { peers: vec![0], variant: Variant::Fixed };
    let mut r0 = Replica::new(Variant::Fixed, 0);
    let mut r1 = Replica::new(Variant::Fixed, 1);
    let out0 = peer0.on_msg(&mut r0, 2, RegisterMsg::Put(10, 'k', 'A'));
    let out1 = peer1.on_msg(&mut r1, 3, RegisterMsg::Put(11, 'k', 'B'));
    peer1.on_msg(&mut r1, 0, out0[1].msg.clone());
    peer0.on_msg(&mut r0, 1, out1[1].msg.clone());
    assert!(same_entries(&r0.values(), &r1.values()));
    assert_eq!(r0.get('k'), Some('B'));
    assert_eq!(r1.get('k'), Some('B'));
}

#[test]
fn delete_racing_in_flight_put_diverges_unsafely_converges_safely() {
    // Replica 1 puts 'A' and immediately deletes it while replica 0's put
    // sync for an earlier unrelated write of 'X' is still in flight. Under
    // the last-writer-wins rule the replicas end up divergent; under the
    // causal rule they converge.
    for variant in [Variant::Broken, Variant::Fixed] {
        let peer1 = Peer { peers: vec![0], variant };
        let peer0 = Peer { peers: vec![1], variant };
        let mut r1 = Replica::new(variant, 1);
        let mut r0 = Replica::new(variant, 0);
        let out_x = peer0.on_msg(&mut r0, 9, RegisterMsg::Put(1, 'k', 'X'));
        let out_a = peer1.on_msg(&mut r1, 9, RegisterMsg::Put(2, 'k', 'A'));
        let out_d = peer1.on_msg(&mut r1, 9, RegisterMsg::Delete(3, 'k'));
        // Replica 1 receives the in-flight put of 'X' only now.
        peer1.on_msg(&mut r1, 0, out_x[1].msg.clone());
        // Replica 0 receives replica 1's put and delete, in sender order.
        peer0.on_msg(&mut r0, 1, out_a[1].msg.clone());
        peer0.on_msg(&mut r0, 1, out_d[1].msg.clone());
        let converged = same_entries(&r0.values(), &r1.values());
        match variant {
            Variant::Broken => {
                assert!(!converged);
                assert_eq!(r1.get('k'), Some('X'));
                assert_eq!(r0.get('k'), None);
            },
            Variant::Fixed => {
                assert!(converged);
                assert_eq!(r0.get('k'), Some('X'));
                assert_eq!(r1.get('k'), Some('X'));
            },
        }
    }
}
