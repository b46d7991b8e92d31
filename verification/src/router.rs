//! The router: the verified core of the send path. For one request it
//! chooses a replica from the ring's replica set with local-datacenter
//! preference, derives the shard that owns the token on that replica,
//! and assigns a free stream id from the connection's slot table. The
//! I/O that carries the framed request belongs to the `Keyspace`
//! implementation outside the library.

use vstd::prelude::*;
use crate::error::DriverError;
use crate::reporter::StreamIds;
use crate::ring::{spec_replica_set, spec_ring_idx, Ring};
use crate::token::spec_shard_of;

verus! {

/// One routing decision: the chosen replica node, the shard the token
/// derives on it, and the stream id the request will occupy.
#[derive(Copy, Clone, Debug, PartialEq, Eq, Structural)]
pub struct Route {
    pub node: usize,
    pub shard: u64,
    pub stream: u16,
}

/// Route one request: look the token up in the ring, prefer a replica
/// in datacenter `dc`, derive its shard, and assign a free stream id.
/// `NoHost` comes exactly when the replica set is empty; `Overloaded`
/// comes exactly when every stream slot is occupied, leaving the table
/// unchanged.
pub fn route_request(ring: &Ring, t: i64, dc: &String, streams: &mut StreamIds) -> (r:
    Result<Route, DriverError>)
    requires
        ring.wf(),
        old(streams).wf(),
    ensures
        final(streams).wf(),
        final(streams).slots@.len() == old(streams).slots@.len(),
        final(streams).closed == old(streams).closed,
        ({
            let reps = spec_replica_set(ring.spec_owners(), spec_ring_idx(
                ring.spec_tokens(), t), ring.rf as int);
            match r {
                Ok(route) => {
                    &&& reps.contains(route.node)
                    &&& route.node < ring.nodes@.len()
                    &&& ((exists|i: int|
                        0 <= i < reps.len() && ring.nodes@[reps[i] as int].data_center@
                            == dc@) ==> ring.nodes@[route.node as int].data_center@ == dc@)
                    &&& route.shard == spec_shard_of(t, ring.nodes@[route.node
                        as int].shard_count, ring.nodes@[route.node as int].msb)
                    &&& route.shard < ring.nodes@[route.node as int].shard_count
                    &&& (route.stream as int) < old(streams).slots@.len()
                    &&& old(streams).slots@[route.stream as int] is Free
                    &&& final(streams).slots@[route.stream as int] is AwaitingHeader
                    &&& final(streams).free@ == old(streams).free@.drop_last()
                    &&& forall|k: int|
                        0 <= k < old(streams).slots@.len() && k != route.stream as int
                            ==> final(streams).slots@[k] == old(streams).slots@[k]
                },
                Err(e) => {
                    &&& final(streams).slots@ == old(streams).slots@
                    &&& final(streams).free@ == old(streams).free@
                    &&& (e == DriverError::NoHost <==> reps.len() == 0)
                    &&& (e == DriverError::Overloaded <==> (reps.len() > 0 && old(
                        streams).free@.len() == 0))
                    &&& (e == DriverError::NoHost || e == DriverError::Overloaded)
                },
            }
        }),
{
    let picked = match ring.local_replica(t, dc) {
        Some(p) => p,
        None => {
            return Err(DriverError::NoHost);
        },
    };
    let (node, shard) = picked;
    match streams.allocate() {
        Some(stream) => Ok(Route { node, shard, stream }),
        None => {
            proof {
                let reps = spec_replica_set(ring.spec_owners(), spec_ring_idx(
                    ring.spec_tokens(), t), ring.rf as int);
                assert(reps.contains(node));
                assert(reps.len() > 0);
            }
            Err(DriverError::Overloaded)
        },
    }
}

} // verus!
