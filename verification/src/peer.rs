//! The peer protocol: the message surface and the stateless reactor that
//! routes client requests and peer sync messages to a replica's store.
//!
//! On a client Put the replica applies the write locally, acknowledges the
//! sender, and broadcasts a put sync message to every configured peer. On a
//! Get it answers only when the key is present. On a Delete it always
//! acknowledges but broadcasts a delete sync message only when the key
//! existed. Sync messages from peers are applied to the store and never
//! answered or relayed: propagation relies on the configured full mesh.

use vstd::prelude::*;

use crate::replica::{
    replica_delete_context, replica_delete_store, replica_get, replica_receive_delete,
    replica_receive_set, replica_set_context, replica_set_store, Replica,
};
use crate::fixed::fresh_version;
use crate::store::clone_versions;
use crate::version::Version;

verus! {

/// A client-side correlation id for one outstanding request.
pub type RequestId = usize;

/// The scalar key and value type of the replicated key space.
pub type Value = char;

/// A sync message broadcast from one replica to its peers.
#[derive(Clone, Debug, Hash, PartialEq, Eq, PartialOrd, Ord)]
pub enum PeerMsg {
    /// Conveys a put together with the causal context it supersedes.
    PutSync { context: Vec<Version>, version: Version, key: char, value: Value },
    /// Conveys a delete as the causal context it supersedes.
    DeleteSync { context: Vec<Version> },
}

/// The transport-agnostic message surface of the system.
#[derive(Clone, Debug, Hash, PartialEq, Eq, PartialOrd, Ord)]
pub enum RegisterMsg {
    /// A replica-to-replica message of the internal protocol.
    Internal(PeerMsg),
    /// A client asks that a value be written.
    Put(RequestId, char, Value),
    /// A client asks that a value be retrieved.
    Get(RequestId, char),
    /// A client asks that a value be deleted.
    Delete(RequestId, char),
    /// Acknowledges a successful `Put`.
    PutOk(RequestId),
    /// Answers a `Get` for a present key.
    GetOk(RequestId, Value),
    /// Acknowledges a `Delete`.
    DeleteOk(RequestId),
}

/// An outbound message together with its destination.
#[derive(Clone, Debug, Hash, PartialEq, Eq)]
pub struct Envelope {
    pub dst: usize,
    pub msg: RegisterMsg,
}

/// Whether `m` is the put sync message carrying exactly this context,
/// version, key and value.
pub open spec fn is_put_sync(
    m: RegisterMsg,
    context: Seq<Version>,
    version: Version,
    key: char,
    value: Value,
) -> bool {
    m matches RegisterMsg::Internal(
        PeerMsg::PutSync { context: c, version: t, key: k, value: v },
    ) && c@ == context && t == version && k == key && v == value
}

/// Whether `m` is the delete sync message carrying exactly this context.
pub open spec fn is_delete_sync(m: RegisterMsg, context: Seq<Version>) -> bool {
    m matches RegisterMsg::Internal(PeerMsg::DeleteSync { context: c }) && c@ == context
}

/// The machine limits under which a replica can take a step: a put must
/// have room to issue a fresh counter, and under the unsafe discipline a
/// delete sync message must name at least one version.
pub open spec fn peer_step_req(pre: Replica, msg: RegisterMsg) -> bool {
    &&& (msg matches RegisterMsg::Put(..) ==> pre.store().max_op < u32::MAX)
    &&& (msg matches RegisterMsg::Internal(PeerMsg::DeleteSync { context }) ==> (!pre.is_fixed()
        ==> context@.len() >= 1))
}

/// What one server step yields for each inbound message: the store
/// transition, the unicast reply, and the broadcast to the peers.
pub open spec fn peer_step_post(
    p: Peer,
    pre: Replica,
    src: usize,
    msg: RegisterMsg,
    post: Replica,
    out: Seq<Envelope>,
) -> bool {
    &&& post.is_fixed() == pre.is_fixed()
    &&& match msg {
        RegisterMsg::Put(rid, key, value) => {
            &&& post.store() == replica_set_store(pre.is_fixed(), pre.store(), key, value)
            &&& out.len() == 1 + p.peers@.len()
            &&& out[0] == (Envelope { dst: src, msg: RegisterMsg::PutOk(rid) })
            &&& forall|j: int|
                0 <= j < p.peers@.len() ==> {
                    &&& (#[trigger] out[1 + j]).dst == p.peers@[j]
                    &&& is_put_sync(
                        out[1 + j].msg,
                        replica_set_context(pre.is_fixed(), pre.store(), key),
                        fresh_version(pre.store()),
                        key,
                        value,
                    )
                }
        },
        RegisterMsg::Get(rid, key) => {
            &&& post == pre
            &&& match replica_get(pre.is_fixed(), pre.store(), key) {
                Some(v) => out == seq![(Envelope { dst: src, msg: RegisterMsg::GetOk(rid, v) })],
                None => out == Seq::<Envelope>::empty(),
            }
        },
        RegisterMsg::Delete(rid, key) => {
            &&& post.store() == replica_delete_store(pre.is_fixed(), pre.store(), key)
            &&& out.len() >= 1 && out[0] == (Envelope { dst: src, msg: RegisterMsg::DeleteOk(rid) })
            &&& match replica_delete_context(pre.is_fixed(), pre.store(), key) {
                None => out.len() == 1,
                Some(c) => {
                    &&& out.len() == 1 + p.peers@.len()
                    &&& forall|j: int|
                        0 <= j < p.peers@.len() ==> {
                            &&& (#[trigger] out[1 + j]).dst == p.peers@[j]
                            &&& is_delete_sync(out[1 + j].msg, c)
                        }
                },
            }
        },
        RegisterMsg::Internal(pm) => {
            &&& out == Seq::<Envelope>::empty()
            &&& match pm {
                PeerMsg::PutSync { context, version, key, value } => post.store()
                    == replica_receive_set(
                    pre.is_fixed(),
                    pre.store(),
                    context@,
                    version,
                    key,
                    value,
                ),
                PeerMsg::DeleteSync { context } => post.store() == replica_receive_delete(
                    pre.is_fixed(),
                    pre.store(),
                    context@,
                ),
            }
        },
        RegisterMsg::PutOk(_) => post == pre && out == Seq::<Envelope>::empty(),
        RegisterMsg::GetOk(_, _) => post == pre && out == Seq::<Envelope>::empty(),
        RegisterMsg::DeleteOk(_) => post == pre && out == Seq::<Envelope>::empty(),
    }
}

/// A replica's protocol configuration: the identities of its peers.
#[derive(Clone, Debug, Hash, PartialEq, Eq)]
pub struct Peer {
    pub peers: Vec<usize>,
    pub variant: crate::replica::Variant,
}

/// Appends one put sync envelope per peer.
fn push_put_syncs(
    out: &mut Vec<Envelope>,
    peers: &Vec<usize>,
    context: &Vec<Version>,
    version: Version,
    key: char,
    value: Value,
)
    ensures
        final(out)@.len() == old(out)@.len() + peers@.len(),
        forall|j: int| 0 <= j < old(out)@.len() ==> final(out)@[j] == old(out)@[j],
        forall|j: int|
            0 <= j < peers@.len() ==> {
                &&& (#[trigger] final(out)@[old(out)@.len() + j]).dst == peers@[j]
                &&& is_put_sync(
                    final(out)@[old(out)@.len() + j].msg,
                    context@,
                    version,
                    key,
                    value,
                )
            },
{
    let mut i: usize = 0;
    while i < peers.len()
        invariant
            0 <= i <= peers@.len(),
            out@.len() == old(out)@.len() + i,
            forall|j: int| 0 <= j < old(out)@.len() ==> out@[j] == old(out)@[j],
            forall|j: int|
                0 <= j < i ==> {
                    &&& (#[trigger] out@[old(out)@.len() + j]).dst == peers@[j]
                    &&& is_put_sync(out@[old(out)@.len() + j].msg, context@, version, key, value)
                },
        decreases peers@.len() - i,
    {
        let ctx = clone_versions(context);
        out.push(
            Envelope {
                dst: peers[i],
                msg: RegisterMsg::Internal(PeerMsg::PutSync { context: ctx, version, key, value }),
            },
        );
        i = i + 1;
    }
}

/// Appends one delete sync envelope per peer.
fn push_delete_syncs(out: &mut Vec<Envelope>, peers: &Vec<usize>, context: &Vec<Version>)
    ensures
        final(out)@.len() == old(out)@.len() + peers@.len(),
        forall|j: int| 0 <= j < old(out)@.len() ==> final(out)@[j] == old(out)@[j],
        forall|j: int|
            0 <= j < peers@.len() ==> {
                &&& (#[trigger] final(out)@[old(out)@.len() + j]).dst == peers@[j]
                &&& is_delete_sync(final(out)@[old(out)@.len() + j].msg, context@)
            },
{
    let mut i: usize = 0;
    while i < peers.len()
        invariant
            0 <= i <= peers@.len(),
            out@.len() == old(out)@.len() + i,
            forall|j: int| 0 <= j < old(out)@.len() ==> out@[j] == old(out)@[j],
            forall|j: int|
                0 <= j < i ==> {
                    &&& (#[trigger] out@[old(out)@.len() + j]).dst == peers@[j]
                    &&& is_delete_sync(out@[old(out)@.len() + j].msg, context@)
                },
        decreases peers@.len() - i,
    {
        let ctx = clone_versions(context);
        out.push(
            Envelope {
                dst: peers[i],
                msg: RegisterMsg::Internal(PeerMsg::DeleteSync { context: ctx }),
            },
        );
        i = i + 1;
    }
}

impl Peer {
    /// React to one inbound message: update the store and return the
    /// messages to send, the unicast reply (if any) first, then the
    /// broadcast to the peers in their configured order.
    pub fn on_msg(&self, state: &mut Replica, src: usize, msg: RegisterMsg) -> (out: Vec<Envelope>)
        requires
            peer_step_req(*old(state), msg),
        ensures
            peer_step_post(*self, *old(state), src, msg, *final(state), out@),
    {
        let mut out: Vec<Envelope> = Vec::new();
        match msg {
            RegisterMsg::Put(rid, key, value) => {
                let (context, version) = state.set(key, value);
                out.push(Envelope { dst: src, msg: RegisterMsg::PutOk(rid) });
                push_put_syncs(&mut out, &self.peers, &context, version, key, value);
            },
            RegisterMsg::Get(rid, key) => {
                match state.get(key) {
                    Some(v) => {
                        out.push(Envelope { dst: src, msg: RegisterMsg::GetOk(rid, v) });
                        proof {
                            assert(out@ =~= seq![
                                (Envelope { dst: src, msg: RegisterMsg::GetOk(rid, v) }),
                            ]);
                        }
                    },
                    None => {
                        proof {
                            assert(out@ =~= Seq::<Envelope>::empty());
                        }
                    },
                }
            },
            RegisterMsg::Delete(rid, key) => {
                let context = state.delete(key);
                out.push(Envelope { dst: src, msg: RegisterMsg::DeleteOk(rid) });
                match context {
                    Some(c) => {
                        push_delete_syncs(&mut out, &self.peers, &c);
                    },
                    None => (),
                }
            },
            RegisterMsg::Internal(PeerMsg::PutSync { context, version, key, value }) => {
                state.receive_set(&context, version, key, value);
                proof {
                    assert(out@ =~= Seq::<Envelope>::empty());
                }
            },
            RegisterMsg::Internal(PeerMsg::DeleteSync { context }) => {
                state.receive_delete(&context);
                proof {
                    assert(out@ =~= Seq::<Envelope>::empty());
                }
            },
            RegisterMsg::PutOk(_) => {
                proof {
                    assert(out@ =~= Seq::<Envelope>::empty());
                }
            },
            RegisterMsg::GetOk(_, _) => {
                proof {
                    assert(out@ =~= Seq::<Envelope>::empty());
                }
            },
            RegisterMsg::DeleteOk(_) => {
                proof {
                    assert(out@ =~= Seq::<Envelope>::empty());
                }
            },
        }
        out
    }

    /// Timeout transitions are no-ops for every actor kind in this protocol.
    pub fn on_timeout(&self, state: &mut Replica) -> (out: Vec<Envelope>)
        ensures
            *final(state) == *old(state),
            out@ == Seq::<Envelope>::empty(),
    {
        let out: Vec<Envelope> = Vec::new();
        proof {
            assert(out@ =~= Seq::<Envelope>::empty());
        }
        out
    }
}

} // verus!
