//! Model configuration: which actors make up a run, wired as a full mesh
//! of servers followed by the put clients and the delete clients.

use vstd::prelude::*;

use crate::actor::ActorKind;
use crate::client::{ClientCfg, ClientKind};
use crate::peer::Peer;
use crate::replica::Variant;

verus! {

/// How many mutations each client issues.
pub const OPS_PER_CLIENT: usize = 2;

/// The single key the clients of the model operate on.
pub const CLIENT_KEY: char = 'b';

/// `peers` lists every replica of a cluster of `n` except `i` itself, in
/// ascending order.
pub open spec fn is_full_mesh(peers: Seq<usize>, i: int, n: int) -> bool {
    &&& peers.len() == n - 1
    &&& forall|j: int| 0 <= j < i ==> (#[trigger] peers[j]) as int == j
    &&& forall|j: int| i <= j < n - 1 ==> (#[trigger] peers[j]) as int == j + 1
}

/// The peers of replica `i` in a full mesh of `n` replicas: every other
/// replica, in ascending order.
pub fn full_mesh(i: usize, n: usize) -> (out: Vec<usize>)
    requires
        i < n,
    ensures
        is_full_mesh(out@, i as int, n as int),
{
    let mut out: Vec<usize> = Vec::new();
    let mut j: usize = 0;
    while j < n
        invariant
            0 <= j <= n,
            i < n,
            out@.len() == if j <= i {
                j as int
            } else {
                j - 1
            },
            forall|k: int| 0 <= k < i && k < out@.len() ==> (#[trigger] out@[k]) as int == k,
            forall|k: int| i <= k < out@.len() ==> (#[trigger] out@[k]) as int == k + 1,
        decreases n - j,
    {
        if j != i {
            out.push(j);
        }
        j = j + 1;
    }
    out
}

/// The shape of one run: how many clients of each kind drive how many
/// servers, which merge discipline the servers use, and whether clients
/// issue a trailing get.
#[derive(Clone, Copy, Debug, PartialEq, Eq, Structural)]
pub struct ModelCfg {
    pub put_clients: usize,
    pub delete_clients: usize,
    pub servers: usize,
    pub intermediate_gets: bool,
    pub variant: Variant,
}

/// The client configuration this model hands to every client of a kind.
pub open spec fn cfg_client(m: ModelCfg, kind: ClientKind) -> ClientCfg {
    ClientCfg {
        kind,
        count: OPS_PER_CLIENT,
        intermediate_gets: m.intermediate_gets,
        server_count: m.servers,
        key: CLIENT_KEY,
    }
}

impl ModelCfg {
    /// The actors of this model: the servers first (each wired to all the
    /// others), then the put clients, then the delete clients.
    pub fn actors(&self) -> (out: Vec<ActorKind>)
        requires
            1 <= self.servers,
            self.servers + self.put_clients + self.delete_clients <= usize::MAX,
        ensures
            out@.len() == self.servers + self.put_clients + self.delete_clients,
            forall|i: int|
                0 <= i < self.servers ==> ((#[trigger] out@[i]) matches ActorKind::Server(p)
                    && p.variant == self.variant && is_full_mesh(p.peers@, i, self.servers as int)),
            forall|i: int|
                self.servers <= i < self.servers + self.put_clients ==> ((#[trigger] out@[i])
                    matches ActorKind::Client(c) && c == cfg_client(*self, ClientKind::Put)),
            forall|i: int|
                self.servers + self.put_clients <= i < out@.len() ==> ((#[trigger] out@[i]) matches
                    ActorKind::Client(c) && c == cfg_client(*self, ClientKind::Delete)),
    {
        let mut out: Vec<ActorKind> = Vec::new();
        let mut i: usize = 0;
        while i < self.servers
            invariant
                0 <= i <= self.servers,
                out@.len() == i,
                forall|k: int|
                    0 <= k < i ==> ((#[trigger] out@[k]) matches ActorKind::Server(p) && p.variant
                        == self.variant && is_full_mesh(p.peers@, k, self.servers as int)),
            decreases self.servers - i,
        {
            let peers = full_mesh(i, self.servers);
            out.push(ActorKind::Server(Peer { peers, variant: self.variant }));
            i = i + 1;
        }
        let put_cfg = ClientCfg {
            kind: ClientKind::Put,
            count: OPS_PER_CLIENT,
            intermediate_gets: self.intermediate_gets,
            server_count: self.servers,
            key: CLIENT_KEY,
        };
        let mut j: usize = 0;
        while j < self.put_clients
            invariant
                0 <= j <= self.put_clients,
                put_cfg == cfg_client(*self, ClientKind::Put),
                out@.len() == self.servers + j,
                forall|k: int|
                    0 <= k < self.servers ==> ((#[trigger] out@[k]) matches ActorKind::Server(p)
                        && p.variant == self.variant && is_full_mesh(
                        p.peers@,
                        k,
                        self.servers as int,
                    )),
                forall|k: int|
                    self.servers <= k < out@.len() ==> ((#[trigger] out@[k]) matches
                        ActorKind::Client(c) && c == cfg_client(*self, ClientKind::Put)),
            decreases self.put_clients - j,
        {
            out.push(ActorKind::Client(put_cfg));
            proof {
                assert(out@.last() == ActorKind::Client(put_cfg));
            }
            j = j + 1;
        }
        let delete_cfg = ClientCfg {
            kind: ClientKind::Delete,
            count: OPS_PER_CLIENT,
            intermediate_gets: self.intermediate_gets,
            server_count: self.servers,
            key: CLIENT_KEY,
        };
        let mut k: usize = 0;
        while k < self.delete_clients
            invariant
                0 <= k <= self.delete_clients,
                delete_cfg == cfg_client(*self, ClientKind::Delete),
                out@.len() == self.servers + self.put_clients + k,
                forall|q: int|
                    0 <= q < self.servers ==> ((#[trigger] out@[q]) matches ActorKind::Server(p)
                        && p.variant == self.variant && is_full_mesh(
                        p.peers@,
                        q,
                        self.servers as int,
                    )),
                forall|q: int|
                    self.servers <= q < self.servers + self.put_clients ==> ((#[trigger] out@[q])
                        matches ActorKind::Client(c) && c == cfg_client(*self, ClientKind::Put)),
                forall|q: int|
                    self.servers + self.put_clients <= q < out@.len() ==> ((#[trigger] out@[q])
                        matches ActorKind::Client(c) && c == cfg_client(*self, ClientKind::Delete)),
            decreases self.delete_clients - k,
        {
            out.push(ActorKind::Client(delete_cfg));
            proof {
                assert(out@.last() == ActorKind::Client(delete_cfg));
            }
            k = k + 1;
        }
        out
    }
}

} // verus!
