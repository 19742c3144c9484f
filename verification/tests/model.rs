use replica_map::actor::{ActorKind, ActorState};
use replica_map::client::{ClientKind, ClientState};
use replica_map::config::{full_mesh, ModelCfg, CLIENT_KEY, OPS_PER_CLIENT};
use replica_map::peer::RegisterMsg;
use replica_map::predicates::{all_same_entries, one_entry_per_key, quiescent_in_sync, same_entries};
use replica_map::peer::PeerMsg;
use replica_map::replica::Variant;
use replica_map::version::{Entry, Version};

fn e(counter: u32, replica: usize, key: char, value: char) -> Entry {
    Entry { version: Version { counter, replica }, key, value }
}

#[test]
fn full_mesh_lists_every_other_replica() {
    assert_eq!(full_mesh(0, 1), Vec::<usize>::new());
    assert_eq!(full_mesh(0, 3), vec![1, 2]);
    assert_eq!(full_mesh(1, 4), vec![0, 2, 3]);
    assert_eq!(full_mesh(3, 4), vec![0, 1, 2]);
}

#[test]
fn model_lists_servers_then_put_clients_then_delete_clients() {
    let cfg = ModelCfg {
        put_clients: 1,
        delete_clients: 1,
        servers: 2,
        intermediate_gets: false,
        variant: Variant::Fixed,
    };
    let actors = cfg.actors();
    assert_eq!(actors.len(), 4);
    match &actors[0] {
        ActorKind::Server(p) => {
            assert_eq!(p.peers, vec![1]);
            assert_eq!(p.variant, Variant::Fixed);
        },
        _ => panic!("expected a server"),
    }
    match &actors[1] {
        ActorKind::Server(p) => assert_eq!(p.peers, vec![0]),
        _ => panic!("expected a server"),
    }
    match &actors[2] {
        ActorKind::Client(c) => {
            assert_eq!(c.kind, ClientKind::Put);
            assert_eq!(c.count, OPS_PER_CLIENT);
            assert_eq!(c.server_count, 2);
            assert_eq!(c.key, CLIENT_KEY);
        },
        _ => panic!("expected a client"),
    }
    match &actors[3] {
        ActorKind::Client(c) => assert_eq!(c.kind, ClientKind::Delete),
        _ => panic!("expected a client"),
    }
}

#[test]
fn actor_dispatch_routes_start_and_messages() {
    let cfg = ModelCfg {
        put_clients: 1,
        delete_clients: 0,
        servers: 2,
        intermediate_gets: false,
        variant: Variant::Fixed,
    };
    let actors = cfg.actors();
    let (mut s0, out0) = actors[0].on_start(0);
    assert!(out0.is_empty());
    let (mut c, outc) = actors[2].on_start(2);
    assert_eq!(outc.len(), 1);
    assert_eq!(outc[0].dst, 0);
    // Route the client's put to server 0 and the reply back.
    let reply = actors[0].on_msg(&mut s0, 0, 2, outc[0].msg.clone());
    assert_eq!(reply[0].msg, RegisterMsg::PutOk(2));
    let next = actors[2].on_msg(&mut c, 2, 0, reply[0].msg.clone());
    assert_eq!(next.len(), 1);
    match &c {
        ActorState::Client(s) => assert_eq!(*s, ClientState { awaiting: Some(4), op_count: 2 }),
        _ => panic!("expected a client state"),
    }
    // Timeouts change nothing.
    let t = actors[0].on_timeout(&mut s0);
    assert!(t.is_empty());
    // A message addressed to a mismatched state is ignored.
    let mismatched = actors[0].on_msg(&mut c, 0, 2, RegisterMsg::PutOk(1));
    assert!(mismatched.is_empty());
}

#[test]
fn snapshot_equality_ignores_order() {
    let a = vec![e(1, 0, 'a', 'A'), e(2, 1, 'b', 'B')];
    let b = vec![e(2, 1, 'b', 'B'), e(1, 0, 'a', 'A')];
    let c = vec![e(2, 1, 'b', 'B')];
    assert!(same_entries(&a, &b));
    assert!(!same_entries(&a, &c));
    assert!(!same_entries(&c, &a));
    assert!(all_same_entries(&vec![a.clone(), b.clone(), a.clone()]));
    assert!(!all_same_entries(&vec![a.clone(), c.clone()]));
    assert!(all_same_entries(&Vec::new()));
}

#[test]
fn one_entry_per_key_detects_duplicates() {
    assert!(one_entry_per_key(&vec![e(1, 0, 'a', 'A'), e(2, 1, 'b', 'B')]));
    assert!(!one_entry_per_key(&vec![e(1, 0, 'a', 'A'), e(2, 1, 'a', 'B')]));
    assert!(one_entry_per_key(&Vec::new()));
}

#[test]
fn quiescence_predicate_holds_while_syncs_are_in_flight() {
    let diverged = vec![vec![e(1, 0, 'a', 'A')], vec![]];
    let in_flight = vec![
        RegisterMsg::PutOk(1),
        RegisterMsg::Internal(PeerMsg::DeleteSync { context: vec![Version { counter: 1, replica: 0 }] }),
    ];
    assert!(quiescent_in_sync(&in_flight, &diverged));
    let quiet = vec![RegisterMsg::PutOk(1), RegisterMsg::Get(2, 'a')];
    assert!(!quiescent_in_sync(&quiet, &diverged));
    let agreed = vec![vec![e(1, 0, 'a', 'A')], vec![e(1, 0, 'a', 'A')]];
    assert!(quiescent_in_sync(&quiet, &agreed));
}
