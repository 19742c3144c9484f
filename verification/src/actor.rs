//! The combined actor: a node of the model is either a client or a server,
//! and this dispatcher routes start, message and timeout events to the
//! matching component. Events addressed to a mismatched state, and all
//! timeouts, are ignored.

use vstd::prelude::*;

use crate::client::{
    client_start_post, client_start_req, client_step_post, client_step_req, ClientCfg, ClientState,
};
use crate::peer::{peer_step_post, peer_step_req, Envelope, Peer, RegisterMsg};
use crate::replica::{Replica, Variant};
use crate::store::StoreView;
use crate::version::Entry;

verus! {

/// The configuration of one actor of the model.
#[derive(Clone, Debug, PartialEq, Eq)]
pub enum ActorKind {
    Client(ClientCfg),
    Server(Peer),
}

/// The state of one actor of the model.
#[derive(Clone, Debug, Hash, PartialEq, Eq)]
pub enum ActorState {
    Client(ClientState),
    Server(Replica),
}

impl ActorKind {
    /// Start the actor under its model-assigned identity: a server begins
    /// with an empty store, a client issues its first request.
    pub fn on_start(&self, id: usize) -> (r: (ActorState, Vec<Envelope>))
        requires
            *self matches ActorKind::Client(cfg) ==> client_start_req(cfg, id),
        ensures
            match *self {
                ActorKind::Client(cfg) => r.0 matches ActorState::Client(s) && client_start_post(
                    cfg,
                    id,
                    s,
                    r.1@,
                ),
                ActorKind::Server(p) => r.0 matches ActorState::Server(rep) && {
                    &&& rep.is_fixed() == (p.variant == Variant::Fixed)
                    &&& rep.store() == (StoreView {
                        actor_id: id,
                        max_op: 0,
                        entries: Seq::<Entry>::empty(),
                    })
                    &&& r.1@ == Seq::<Envelope>::empty()
                },
            },
    {
        match self {
            ActorKind::Client(cfg) => {
                let (s, out) = cfg.on_start(id);
                (ActorState::Client(s), out)
            },
            ActorKind::Server(p) => {
                let out: Vec<Envelope> = Vec::new();
                proof {
                    assert(out@ =~= Seq::<Envelope>::empty());
                }
                (ActorState::Server(Replica::new(p.variant, id)), out)
            },
        }
    }

    /// React to one inbound message from `src`.
    pub fn on_msg(&self, state: &mut ActorState, id: usize, src: usize, msg: RegisterMsg) -> (out:
        Vec<Envelope>)
        requires
            match (*self, *old(state)) {
                (ActorKind::Client(cfg), ActorState::Client(s)) => client_step_req(cfg, s, id),
                (ActorKind::Server(_), ActorState::Server(rep)) => peer_step_req(rep, msg),
                _ => true,
            },
        ensures
            match (*self, *old(state)) {
                (ActorKind::Client(cfg), ActorState::Client(s)) => *final(state) matches
                    ActorState::Client(s2) && client_step_post(cfg, s, id, msg, s2, out@),
                (ActorKind::Server(p), ActorState::Server(rep)) => *final(state) matches
                    ActorState::Server(rep2) && peer_step_post(p, rep, src, msg, rep2, out@),
                _ => *final(state) == *old(state) && out@ == Seq::<Envelope>::empty(),
            },
    {
        match (self, &mut *state) {
            (ActorKind::Client(cfg), ActorState::Client(s)) => cfg.on_msg(s, id, &msg),
            (ActorKind::Server(p), ActorState::Server(rep)) => p.on_msg(rep, src, msg),
            _ => {
                let out: Vec<Envelope> = Vec::new();
                proof {
                    assert(out@ =~= Seq::<Envelope>::empty());
                }
                out
            },
        }
    }

    /// Timeout transitions are no-ops for every actor kind.
    pub fn on_timeout(&self, state: &mut ActorState) -> (out: Vec<Envelope>)
        ensures
            *final(state) == *old(state),
            out@ == Seq::<Envelope>::empty(),
    {
        let out: Vec<Envelope> = Vec::new();
        proof {
            assert(out@ =~= Seq::<Envelope>::empty());
        }
        out
    }
}

} // verus!
