//! The client request sequencer.
//!
//! A client issues a bounded sequence of mutations (all puts or all
//! deletes), keeps exactly one request outstanding at a time, and advances
//! only on the reply that matches the outstanding request id. After its
//! configured mutation count it optionally issues one trailing get, then
//! goes idle. The destination replica varies with the client's own
//! operation count, so a single client's sequence exercises several
//! replicas.

use vstd::prelude::*;

use crate::peer::{Envelope, RegisterMsg, RequestId};

verus! {

/// Which mutation a client issues.
#[derive(Clone, Copy, Debug, Hash, PartialEq, Eq, Structural)]
pub enum ClientKind {
    Put,
    Delete,
}

/// A client's configuration.
#[derive(Clone, Copy, Debug, Hash, PartialEq, Eq, Structural)]
pub struct ClientCfg {
    pub kind: ClientKind,
    /// How many mutations to issue.
    pub count: usize,
    /// Whether to issue one trailing get after the mutations.
    pub intermediate_gets: bool,
    /// How many replicas requests may be addressed to.
    pub server_count: usize,
    /// The key this client operates on.
    pub key: char,
}

/// A client's state: the outstanding request id, if any, and how many
/// operations it has issued.
#[derive(Clone, Copy, Debug, Hash, PartialEq, Eq)]
pub struct ClientState {
    pub awaiting: Option<RequestId>,
    pub op_count: usize,
}

/// The replica a client addresses at a given step: its own index advanced
/// by its operation count, wrapped around the cluster.
pub open spec fn step_target(index: int, op_count: int, server_count: int) -> int {
    (index + op_count) % server_count
}

/// The request id a client issues at a given step.
pub open spec fn rid_at(op_count: usize, index: usize) -> RequestId {
    (((op_count + 1) * index) as usize)
}

/// The value a client's first put writes.
pub open spec fn first_put_value(index: int, server_count: int) -> char {
    ((('A' as int) + index % server_count) as char)
}

/// The value a client's later puts write.
pub open spec fn later_put_value(index: int, server_count: int) -> char {
    ((('Z' as int) - index % server_count) as char)
}

/// The mutation request a client of the given kind issues.
pub open spec fn mutation_msg(
    kind: ClientKind,
    rid: RequestId,
    key: char,
    value: char,
) -> RegisterMsg {
    match kind {
        ClientKind::Put => RegisterMsg::Put(rid, key, value),
        ClientKind::Delete => RegisterMsg::Delete(rid, key),
    }
}

/// Whether `m` is the acknowledgement that matches an outstanding mutation
/// of the given kind under request id `a`.
pub open spec fn matching_ok(kind: ClientKind, a: RequestId, m: RegisterMsg) -> bool {
    match kind {
        ClientKind::Put => m == RegisterMsg::PutOk(a),
        ClientKind::Delete => m == RegisterMsg::DeleteOk(a),
    }
}

/// What a client may be started with: a small cluster addressed by its
/// index, placed after the servers.
pub open spec fn client_start_req(cfg: ClientCfg, index: usize) -> bool {
    &&& 1 <= cfg.server_count <= 90
    &&& index >= cfg.server_count
}

/// What starting a client yields: its first mutation when any are
/// configured, under request id `index`, else the idle state.
pub open spec fn client_start_post(
    cfg: ClientCfg,
    index: usize,
    s: ClientState,
    out: Seq<Envelope>,
) -> bool {
    if cfg.count > 0 {
        &&& s == (ClientState { awaiting: Some(index), op_count: 1 })
        &&& out.len() == 1
        &&& (out[0].dst as int) == step_target(index as int, 0, cfg.server_count as int)
        &&& out[0].msg == mutation_msg(
            cfg.kind,
            index,
            cfg.key,
            first_put_value(index as int, cfg.server_count as int),
        )
    } else {
        &&& s == (ClientState { awaiting: None, op_count: 0 })
        &&& out == Seq::<Envelope>::empty()
    }
}

/// The machine limits under which a client can take a step: counters and
/// the request-id product must fit the word size.
pub open spec fn client_step_req(cfg: ClientCfg, pre: ClientState, index: usize) -> bool {
    &&& 1 <= cfg.server_count <= 90
    &&& pre.op_count < usize::MAX
    &&& (pre.op_count + 1) * index <= usize::MAX
    &&& index + pre.op_count <= usize::MAX
}

/// What one client step yields: advance only on the matching
/// acknowledgement, issuing the next mutation, the trailing get, or
/// nothing; finish on the matching get reply; ignore everything else.
pub open spec fn client_step_post(
    cfg: ClientCfg,
    pre: ClientState,
    index: usize,
    msg: RegisterMsg,
    post: ClientState,
    out: Seq<Envelope>,
) -> bool {
    match pre.awaiting {
        None => post == pre && out == Seq::<Envelope>::empty(),
        Some(a) => if matching_ok(cfg.kind, a, msg) {
            if pre.op_count < cfg.count {
                &&& post == (ClientState {
                    awaiting: Some(rid_at(pre.op_count, index)),
                    op_count: (pre.op_count + 1) as usize,
                })
                &&& out.len() == 1
                &&& (out[0].dst as int) == step_target(
                    index as int,
                    pre.op_count as int,
                    cfg.server_count as int,
                )
                &&& out[0].msg == mutation_msg(
                    cfg.kind,
                    rid_at(pre.op_count, index),
                    cfg.key,
                    later_put_value(index as int, cfg.server_count as int),
                )
            } else if cfg.intermediate_gets {
                &&& post == (ClientState {
                    awaiting: Some(rid_at(pre.op_count, index)),
                    op_count: (pre.op_count + 1) as usize,
                })
                &&& out.len() == 1
                &&& (out[0].dst as int) == step_target(
                    index as int,
                    pre.op_count as int,
                    cfg.server_count as int,
                )
                &&& out[0].msg == RegisterMsg::Get(rid_at(pre.op_count, index), cfg.key)
            } else {
                &&& post == (ClientState { awaiting: None, op_count: (pre.op_count + 1) as usize })
                &&& out == Seq::<Envelope>::empty()
            }
        } else if msg matches RegisterMsg::GetOk(r, _) && r == a {
            &&& post == (ClientState { awaiting: None, op_count: (pre.op_count + 1) as usize })
            &&& out == Seq::<Envelope>::empty()
        } else {
            post == pre && out == Seq::<Envelope>::empty()
        },
    }
}

impl ClientCfg {
    /// Start the client: issue the first mutation when any are configured.
    /// Clients are placed after the servers, so their index is at least the
    /// server count.
    pub fn on_start(&self, index: usize) -> (r: (ClientState, Vec<Envelope>))
        requires
            client_start_req(*self, index),
        ensures
            client_start_post(*self, index, r.0, r.1@),
    {
        let mut out: Vec<Envelope> = Vec::new();
        if self.count > 0 {
            let value = (65u8 + (index % self.server_count) as u8) as char;
            let msg = match self.kind {
                ClientKind::Put => RegisterMsg::Put(index, self.key, value),
                ClientKind::Delete => RegisterMsg::Delete(index, self.key),
            };
            out.push(Envelope { dst: index % self.server_count, msg });
            (ClientState { awaiting: Some(index), op_count: 1 }, out)
        } else {
            proof {
                assert(out@ =~= Seq::<Envelope>::empty());
            }
            (ClientState { awaiting: None, op_count: 0 }, out)
        }
    }

    /// React to one inbound reply: advance only on the acknowledgement that
    /// matches the outstanding request, issue the next operation if any
    /// remain, and ignore everything else.
    pub fn on_msg(&self, state: &mut ClientState, index: usize, msg: &RegisterMsg) -> (out: Vec<
        Envelope,
    >)
        requires
            client_step_req(*self, *old(state), index),
        ensures
            client_step_post(*self, *old(state), index, *msg, *final(state), out@),
    {
        let mut out: Vec<Envelope> = Vec::new();
        let awaiting = state.awaiting;
        match awaiting {
            None => {
                proof {
                    assert(out@ =~= Seq::<Envelope>::empty());
                }
                out
            },
            Some(a) => {
                let acknowledged = match (self.kind, msg) {
                    (ClientKind::Put, RegisterMsg::PutOk(r)) => *r == a,
                    (ClientKind::Delete, RegisterMsg::DeleteOk(r)) => *r == a,
                    _ => false,
                };
                if acknowledged {
                    if state.op_count < self.count {
                        let rid = (state.op_count + 1) * index;
                        let dst = (index + state.op_count) % self.server_count;
                        let value = (90u8 - (index % self.server_count) as u8) as char;
                        let m = match self.kind {
                            ClientKind::Put => RegisterMsg::Put(rid, self.key, value),
                            ClientKind::Delete => RegisterMsg::Delete(rid, self.key),
                        };
                        out.push(Envelope { dst, msg: m });
                        *state = ClientState { awaiting: Some(rid), op_count: state.op_count + 1 };
                    } else if self.intermediate_gets {
                        let rid = (state.op_count + 1) * index;
                        let dst = (index + state.op_count) % self.server_count;
                        out.push(Envelope { dst, msg: RegisterMsg::Get(rid, self.key) });
                        *state = ClientState { awaiting: Some(rid), op_count: state.op_count + 1 };
                    } else {
                        *state = ClientState { awaiting: None, op_count: state.op_count + 1 };
                        proof {
                            assert(out@ =~= Seq::<Envelope>::empty());
                        }
                    }
                    out
                } else {
                    let finished = match msg {
                        RegisterMsg::GetOk(r, _) => *r == a,
                        _ => false,
                    };
                    if finished {
                        *state = ClientState { awaiting: None, op_count: state.op_count + 1 };
                    }
                    proof {
                        assert(out@ =~= Seq::<Envelope>::empty());
                    }
                    out
                }
            },
        }
    }
}

} // verus!
