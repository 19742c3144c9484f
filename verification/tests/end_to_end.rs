use std::collections::VecDeque;

use replica_map::actor::{ActorKind, ActorState};
use replica_map::config::ModelCfg;
use replica_map::predicates::{all_same_entries, one_entry_per_key};
use replica_map::replica::Variant;
use replica_map::version::Entry;

/// Drives a whole model to quiescence under first-in-first-out delivery and
/// returns the server snapshots and client states.
fn run_to_quiescence(cfg: ModelCfg) -> (Vec<Vec<Entry>>, Vec<ActorState>) {
    let kinds = cfg.actors();
    let mut states: Vec<ActorState> = Vec::new();
    let mut queue: VecDeque<(usize, usize, replica_map::peer::RegisterMsg)> = VecDeque::new();
    for (i, kind) in kinds.iter().enumerate() {
        let (state, out) = kind.on_start(i);
        states.push(state);
        for envelope in out {
            queue.push_back((i, envelope.dst, envelope.msg));
        }
    }
    let mut steps = 0;
    while let Some((src, dst, msg)) = queue.pop_front() {
        steps += 1;
        assert!(steps < 10_000, "the model failed to quiesce");
        let out = kinds[dst].on_msg(&mut states[dst], dst, src, msg);
        for envelope in out {
            queue.push_back((dst, envelope.dst, envelope.msg));
        }
    }
    let snaps = states
        .iter()
        .filter_map(|s| match s {
            ActorState::Server(replica) => Some(replica.values()),
            ActorState::Client(_) => None,
        })
        .collect();
    (snaps, states)
}

#[test]
fn safe_model_quiesces_in_sync() {
    let (snaps, states) = run_to_quiescence(ModelCfg {
        put_clients: 2,
        delete_clients: 2,
        servers: 2,
        intermediate_gets: false,
        variant: Variant::Fixed,
    });
    assert_eq!(snaps.len(), 2);
    assert!(all_same_entries(&snaps));
    for snap in &snaps {
        assert!(one_entry_per_key(snap));
    }
    for state in &states {
        if let ActorState::Client(c) = state {
            assert_eq!(c.awaiting, None);
            assert_eq!(c.op_count, 3);
        }
    }
}

#[test]
fn unsafe_model_quiesces_in_sync_under_fifo_delivery() {
    // Under strictly first-in-first-out delivery even the last-writer-wins
    // discipline converges; its defect needs the reorderings the
    // interleaving explorer produces.
    let (snaps, _) = run_to_quiescence(ModelCfg {
        put_clients: 1,
        delete_clients: 1,
        servers: 2,
        intermediate_gets: false,
        variant: Variant::Broken,
    });
    assert!(all_same_entries(&snaps));
}
