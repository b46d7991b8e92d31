//! The token ring: an immutable sorted array of tokens, each carrying the
//! replica set that owns it, with binary-search lookup that wraps at the
//! end, and per-node shard derivation.

use vstd::prelude::*;
use crate::error::DriverError;
use crate::token::{shard_of, spec_shard_of};

verus! {

broadcast use vstd::seq_lib::group_seq_properties, vstd::set_lib::group_set_properties,
    vstd::set::group_set_axioms;

/// What the driver knows of one database node: an opaque address handle,
/// its datacenter, the tokens its shards own, the shard count and the
/// number of most-significant token bits the node ignores for sharding.
#[derive(Debug, Clone)]
pub struct NodeInfo {
    pub address: u64,
    pub data_center: String,
    pub tokens: Vec<i64>,
    pub shard_count: u16,
    pub msb: u8,
}

impl NodeInfo {
    /// A node is well formed when it owns at least one token, has at least
    /// one shard and ignores fewer than 64 bits.
    pub open spec fn wf(self) -> bool {
        &&& self.tokens@.len() > 0
        &&& self.shard_count > 0
        &&& self.msb < 64
    }
}

/// Token positions are sorted ascending.
pub open spec fn spec_sorted(toks: Seq<i64>) -> bool {
    forall|i: int, j: int| 0 <= i < j < toks.len() ==> toks[i] <= toks[j]
}

/// The smallest index whose token is at least `t`, or the length when
/// every token is smaller.
pub open spec fn spec_first_ge(toks: Seq<i64>, t: i64) -> int
    decreases toks.len(),
{
    if toks.len() == 0 {
        0
    } else if toks[0] >= t {
        0
    } else {
        1 + spec_first_ge(toks.drop_first(), t)
    }
}

/// The ring position that owns token `t`: the smallest position with a
/// token at least `t`, wrapping to position zero past the end.
pub open spec fn spec_ring_idx(toks: Seq<i64>, t: i64) -> int {
    if spec_first_ge(toks, t) == toks.len() {
        0
    } else {
        spec_first_ge(toks, t)
    }
}

/// Walk `rest` in order, collecting owners not yet in `acc`, until `rf`
/// distinct owners are gathered or the walk ends.
pub open spec fn spec_collect(rest: Seq<usize>, acc: Seq<usize>, rf: int) -> Seq<usize>
    decreases rest.len(),
{
    if acc.len() >= rf || rest.len() == 0 {
        acc
    } else if acc.contains(rest.first()) {
        spec_collect(rest.drop_first(), acc, rf)
    } else {
        spec_collect(rest.drop_first(), acc.push(rest.first()), rf)
    }
}

/// The ring order of owners as seen from position `start`: the owners at
/// `start` and after, then the owners before `start`.
pub open spec fn spec_rotation(owners: Seq<usize>, start: int) -> Seq<usize> {
    owners.subrange(start, owners.len() as int) + owners.subrange(0, start)
}

/// The replica set of the token at position `start`: the first `rf`
/// distinct owners from `start` onward in ring order.
pub open spec fn spec_replica_set(owners: Seq<usize>, start: int, rf: int) -> Seq<usize> {
    spec_collect(spec_rotation(owners, start), Seq::empty(), rf)
}

/// The walk gathers exactly `min(rf, d)` owners, where `d` counts the
/// distinct owners in `rest` that are not already in `acc`, and it never
/// gathers an owner twice.
pub proof fn lemma_collect_len(rest: Seq<usize>, acc: Seq<usize>, rf: int)
    requires
        acc.no_duplicates(),
        acc.len() <= rf,
    ensures
        ({
            let fresh = rest.to_set().difference(acc.to_set());
            let r = spec_collect(rest, acc, rf);
            &&& r.len() == vstd::math::min(rf, acc.len() as int + fresh.len() as int)
            &&& r.no_duplicates()
            &&& r.to_set() == acc.to_set().union(rest.to_set().intersect(r.to_set()))
            &&& forall|x: usize| r.contains(x) ==> acc.contains(x) || rest.contains(x)
        }),
    decreases rest.len(),
{
    let fresh = rest.to_set().difference(acc.to_set());
    let r = spec_collect(rest, acc, rf);
    vstd::seq_lib::seq_to_set_is_finite(rest);
    vstd::seq_lib::seq_to_set_is_finite(acc);
    if acc.len() >= rf || rest.len() == 0 {
        if rest.len() == 0 {
            assert(rest.to_set() =~= Set::<usize>::empty());
            assert(fresh =~= Set::<usize>::empty());
        }
        assert(r.to_set() =~= acc.to_set().union(rest.to_set().intersect(r.to_set())));
    } else {
        let f = rest.first();
        let rest2 = rest.drop_first();
        assert(rest.to_set() =~= rest2.to_set().insert(f)) by {
            assert forall|x: usize| rest.contains(x) implies rest2.to_set().insert(f).contains(
                x,
            ) by {
                let j = choose|j: int| 0 <= j < rest.len() && rest[j] == x;
                if j > 0 {
                    assert(rest2[j - 1] == x);
                }
            }
            assert forall|x: usize| rest2.to_set().insert(f).contains(x) implies rest.contains(
                x,
            ) by {
                if rest2.contains(x) {
                    let j = choose|j: int| 0 <= j < rest2.len() && rest2[j] == x;
                    assert(rest[j + 1] == x);
                } else {
                    assert(rest[0] == x);
                }
            }
        }
        vstd::seq_lib::seq_to_set_is_finite(rest2);
        if acc.contains(f) {
            lemma_collect_len(rest2, acc, rf);
            let fresh2 = rest2.to_set().difference(acc.to_set());
            assert(fresh =~= fresh2);
            assert(r.to_set() =~= acc.to_set().union(rest.to_set().intersect(r.to_set())));
        } else {
            let acc2 = acc.push(f);
            assert(acc2.no_duplicates());
            assert(acc2.to_set() =~= acc.to_set().insert(f));
            lemma_collect_len(rest2, acc2, rf);
            let fresh2 = rest2.to_set().difference(acc2.to_set());
            assert(fresh =~= fresh2.insert(f));
            assert(fresh2.finite());
            assert(!fresh2.contains(f));
            assert(fresh.len() == fresh2.len() + 1);
            assert(r.to_set() =~= acc.to_set().union(rest.to_set().intersect(r.to_set())));
        }
    }
}

/// One position of the ring: a token and the replica set that owns it.
#[derive(Debug, Clone)]
pub struct RingEntry {
    pub token: i64,
    pub owner: usize,
    pub replicas: Vec<usize>,
}

/// The immutable token ring: nodes, sorted token positions, and the
/// replica set per position, built for a replication factor.
#[derive(Debug, Clone)]
pub struct Ring {
    pub nodes: Vec<NodeInfo>,
    pub entries: Vec<RingEntry>,
    pub rf: usize,
}

impl Ring {
    /// The sorted token sequence of the ring.
    pub open spec fn spec_tokens(self) -> Seq<i64> {
        self.entries@.map_values(|e: RingEntry| e.token)
    }

    /// The owner node index per ring position.
    pub open spec fn spec_owners(self) -> Seq<usize> {
        self.entries@.map_values(|e: RingEntry| e.owner)
    }

    /// A ring is well formed when it has at least one position, tokens are
    /// sorted, every owner is a valid well-formed node, and every replica
    /// set is exactly the first `rf` distinct owners in ring order from
    /// its position.
    pub open spec fn wf(self) -> bool {
        &&& self.entries@.len() > 0
        &&& spec_sorted(self.spec_tokens())
        &&& forall|i: int|
            0 <= i < self.nodes@.len() ==> (#[trigger] self.nodes@[i]).wf()
        &&& forall|i: int|
            0 <= i < self.entries@.len() ==> (#[trigger] self.entries@[i]).owner
                < self.nodes@.len()
        &&& forall|i: int|
            0 <= i < self.entries@.len() ==> (#[trigger] self.entries@[i]).replicas@
                == spec_replica_set(self.spec_owners(), i, self.rf as int)
    }

    /// The number of ring positions.
    pub fn len(&self) -> (r: usize)
        ensures
            r == self.entries@.len(),
    {
        self.entries.len()
    }

    /// Find the ring position owning token `t`: the smallest position whose
    /// token is at least `t`, wrapping around to the first position.
    pub fn position(&self, t: i64) -> (r: usize)
        requires
            self.wf(),
        ensures
            r == spec_ring_idx(self.spec_tokens(), t),
            r < self.entries@.len(),
    {
        let toks = Ghost(self.spec_tokens());
        let n = self.entries.len();
        let mut lo: usize = 0;
        let mut hi: usize = n;
        while lo < hi
            invariant
                lo <= hi <= n,
                n == toks@.len(),
                toks@ == self.spec_tokens(),
                self.wf(),
                forall|j: int| 0 <= j < lo ==> toks@[j] < t,
                forall|j: int| hi <= j < n ==> toks@[j] >= t,
            decreases hi - lo,
        {
            let mid = lo + (hi - lo) / 2;
            assert(toks@[mid as int] == self.entries@[mid as int].token);
            if self.entries[mid].token < t {
                lo = mid + 1;
            } else {
                hi = mid;
            }
        }
        proof {
            lemma_first_ge_characterization(toks@, t, lo as int);
        }
        if lo == n {
            0
        } else {
            lo
        }
    }

    /// Look up the replica set for a token: the replicas of the position
    /// that owns it.
    pub fn lookup(&self, t: i64) -> (r: Vec<usize>)
        requires
            self.wf(),
        ensures
            r@ == spec_replica_set(self.spec_owners(), spec_ring_idx(self.spec_tokens(), t),
                self.rf as int),
    {
        let idx = self.position(t);
        vstd::slice::slice_to_vec(self.entries[idx].replicas.as_slice())
    }

    /// Among the replicas for `t`, choose the first node in datacenter
    /// `dc`, or fall back to the first replica; derive the shard of `t` on
    /// the chosen node. Returns `None` only when the replica set is empty,
    /// which happens exactly when the replication factor is zero.
    pub fn local_replica(&self, t: i64, dc: &String) -> (r: Option<(usize, u64)>)
        requires
            self.wf(),
        ensures
            match r {
                Some((node, shard)) => {
                    let reps = spec_replica_set(self.spec_owners(), spec_ring_idx(
                        self.spec_tokens(), t), self.rf as int);
                    &&& reps.contains(node)
                    &&& node < self.nodes@.len()
                    &&& shard == spec_shard_of(t, self.nodes@[node as int].shard_count,
                        self.nodes@[node as int].msb)
                    &&& shard < self.nodes@[node as int].shard_count
                    &&& ((exists|i: int|
                        0 <= i < reps.len() && self.nodes@[reps[i] as int].data_center@ == dc@)
                        ==> self.nodes@[node as int].data_center@ == dc@)
                },
                None => spec_replica_set(self.spec_owners(), spec_ring_idx(self.spec_tokens(),
                    t), self.rf as int).len() == 0,
            },
    {
        let idx = self.position(t);
        let reps = &self.entries[idx].replicas;
        let ghost repseq = reps@;
        proof {
            lemma_replica_set_members(self.spec_owners(), idx as int, self.rf as int);
            assert(self.entries@[idx as int].replicas@ == spec_replica_set(self.spec_owners(),
                idx as int, self.rf as int));
            assert forall|i: int| 0 <= i < repseq.len() implies (#[trigger] repseq[i])
                < self.nodes@.len() by {
                let owners = self.spec_owners();
                assert(repseq.contains(repseq[i]));
                assert(spec_replica_set(owners, idx as int, self.rf as int).contains(
                    repseq[i]));
                assert(owners.contains(repseq[i]));
                let j = choose|j: int| 0 <= j < owners.len() && owners[j] == repseq[i];
                assert(self.entries@[j].owner == repseq[i]);
            }
        }
        if reps.len() == 0 {
            return None;
        }
        let mut chosen: usize = reps[0];
        let mut found: bool = false;
        let mut i: usize = 0;
        while i < reps.len()
            invariant
                self.wf(),
                repseq == reps@,
                repseq == spec_replica_set(self.spec_owners(), idx as int, self.rf as int),
                i <= repseq.len(),
                repseq.len() > 0,
                forall|j: int| 0 <= j < repseq.len() ==> (#[trigger] repseq[j])
                    < self.nodes@.len(),
                repseq.contains(chosen),
                found ==> self.nodes@[chosen as int].data_center@ == dc@,
                !found ==> chosen == repseq[0],
                !found ==> forall|j: int|
                    0 <= j < i ==> self.nodes@[(#[trigger] repseq[j]) as int].data_center@
                        != dc@,
            decreases repseq.len() - i,
        {
            if !found {
                let cand = reps[i];
                if self.nodes[cand].data_center == *dc {
                    chosen = cand;
                    found = true;
                }
            }
            i = i + 1;
        }
        let node = &self.nodes[chosen];
        let shard = shard_of(t, node.shard_count, node.msb);
        proof {
            assert(spec_ring_idx(self.spec_tokens(), t) == idx as int);
        }
        Some((chosen, shard))
    }
}

/// Every member of a replica set is one of the owners.
pub proof fn lemma_replica_set_members(owners: Seq<usize>, start: int, rf: int)
    requires
        0 <= start <= owners.len(),
    ensures
        forall|x: usize|
            spec_replica_set(owners, start, rf).contains(x) ==> owners.contains(x),
{
    let rot = spec_rotation(owners, start);
    lemma_collect_len(rot, Seq::empty(), vstd::math::max(rf, 0));
    if rf == vstd::math::max(rf, 0) {
        assert forall|x: usize| spec_replica_set(owners, start, rf).contains(x)
            implies owners.contains(x) by {
            assert(rot.contains(x));
            let j = choose|j: int| 0 <= j < rot.len() && rot[j] == x;
            if j < owners.len() - start {
                assert(owners[start + j] == x);
            } else {
                assert(owners[j - (owners.len() - start)] == x);
            }
        }
    } else {
        assert(rf < 0);
        assert(spec_collect(rot, Seq::empty(), rf) =~= Seq::<usize>::empty());
    }
}

/// For every ring and token: the replica set that `lookup` returns has
/// exactly `min(rf, d)` members, where `d` counts the distinct nodes
/// owning ring positions; its members are distinct owners, taken in ring
/// order from the position that owns the token.
pub proof fn lemma_ring_lookup_properties(ring: Ring, t: i64)
    requires
        ring.wf(),
    ensures
        ({
            let idx = spec_ring_idx(ring.spec_tokens(), t);
            let reps = spec_replica_set(ring.spec_owners(), idx, ring.rf as int);
            &&& reps.len() == vstd::math::min(ring.rf as int,
                ring.spec_owners().to_set().len() as int)
            &&& reps.no_duplicates()
            &&& forall|x: usize| reps.contains(x) ==> ring.spec_owners().contains(x)
        }),
{
    let toks = ring.spec_tokens();
    let idx = spec_ring_idx(toks, t);
    lemma_first_ge_bounds(toks, t);
    lemma_replica_set_size(ring.spec_owners(), idx, ring.rf as int);
}

/// The first-at-least position never passes the end of the tokens.
proof fn lemma_first_ge_bounds(toks: Seq<i64>, t: i64)
    ensures
        0 <= spec_first_ge(toks, t) <= toks.len(),
    decreases toks.len(),
{
    if toks.len() > 0 && toks[0] < t {
        lemma_first_ge_bounds(toks.drop_first(), t);
    }
}

/// The characterization of the binary search result: `idx` is the first
/// position with a token at least `t`.
proof fn lemma_first_ge_characterization(toks: Seq<i64>, t: i64, idx: int)
    requires
        0 <= idx <= toks.len(),
        forall|j: int| 0 <= j < idx ==> toks[j] < t,
        forall|j: int| idx <= j < toks.len() ==> toks[j] >= t,
    ensures
        spec_first_ge(toks, t) == idx,
    decreases toks.len(),
{
    if toks.len() == 0 {
    } else if toks[0] >= t {
        assert(idx == 0);
    } else {
        let rest = toks.drop_first();
        assert forall|j: int| 0 <= j < idx - 1 implies rest[j] < t by {
            assert(toks[j + 1] == rest[j]);
        }
        assert forall|j: int| idx - 1 <= j < rest.len() implies rest[j] >= t by {
            assert(toks[j + 1] == rest[j]);
        }
        lemma_first_ge_characterization(rest, t, idx - 1);
    }
}

/// For every ring built from a node set: the replica set at each position
/// has exactly `min(rf, d)` members, where `d` is the number of distinct
/// nodes owning tokens, its members are distinct, and each member is one
/// of the owner nodes, taken in ring order from the position.
pub proof fn lemma_replica_set_size(owners: Seq<usize>, start: int, rf: int)
    requires
        0 <= start <= owners.len(),
        rf >= 0,
    ensures
        spec_replica_set(owners, start, rf).len() == vstd::math::min(rf,
            owners.to_set().len() as int),
        spec_replica_set(owners, start, rf).no_duplicates(),
        forall|x: usize|
            spec_replica_set(owners, start, rf).contains(x) ==> owners.contains(x),
{
    let rot = spec_rotation(owners, start);
    assert(rot.to_set() =~= owners.to_set()) by {
        assert forall|x: usize| rot.contains(x) implies owners.contains(x) by {
            let j = choose|j: int| 0 <= j < rot.len() && rot[j] == x;
            if j < owners.len() - start {
                assert(owners[start + j] == x);
            } else {
                assert(owners[j - (owners.len() - start)] == x);
            }
        }
        assert forall|x: usize| owners.contains(x) implies rot.contains(x) by {
            let j = choose|j: int| 0 <= j < owners.len() && owners[j] == x;
            if j >= start {
                assert(rot[j - start] == x);
            } else {
                assert(rot[owners.len() - start + j] == x);
            }
        }
    }
    lemma_collect_len(rot, Seq::empty(), rf);
    assert(rot.to_set().difference(Set::empty()) =~= owners.to_set());
    lemma_replica_set_members(owners, start, rf);
}

/// The (token, owner) pairs of a parallel token and owner table.
pub open spec fn spec_zip_pairs(toks: Seq<i64>, owners: Seq<usize>) -> Seq<(i64, usize)> {
    Seq::new(toks.len(), |k: int| (toks[k], owners[k]))
}

/// The (token, owner) pairs of one node's tokens.
pub open spec fn spec_owner_pairs(tokens: Seq<i64>, owner: usize) -> Seq<(i64, usize)> {
    Seq::new(tokens.len(), |k: int| (tokens[k], owner))
}

/// The (token, owner) pairs that a node set contributes: every token of
/// every node, owned by that node's index.
pub open spec fn spec_node_pairs(nodes: Seq<NodeInfo>) -> Seq<(i64, usize)>
    decreases nodes.len(),
{
    if nodes.len() == 0 {
        Seq::empty()
    } else {
        spec_node_pairs(nodes.drop_last()) + spec_owner_pairs(nodes.last().tokens@,
            (nodes.len() - 1) as usize)
    }
}

/// The (token, owner) pairs of a ring's positions.
pub open spec fn spec_ring_pairs(ring: Ring) -> Seq<(i64, usize)> {
    ring.entries@.map_values(|e: RingEntry| (e.token, e.owner))
}

/// Gather every (token, owner) pair that the nodes contribute, in node
/// order.
#[verifier::rlimit(100)]
#[verifier::spinoff_prover]
fn gather_pairs(nodes: &Vec<NodeInfo>) -> (r: (Vec<i64>, Vec<usize>))
    requires
        forall|i: int| 0 <= i < nodes@.len() ==> (#[trigger] nodes@[i]).wf(),
    ensures
        r.0@.len() == r.1@.len(),
        forall|k: int| 0 <= k < r.1@.len() ==> (#[trigger] r.1@[k]) < nodes@.len(),
        spec_zip_pairs(r.0@, r.1@) == spec_node_pairs(nodes@),
        nodes@.len() > 0 ==> r.0@.len() > 0,
{
    let mut toks: Vec<i64> = Vec::new();
    let mut owners: Vec<usize> = Vec::new();
    let mut i: usize = 0;
    while i < nodes.len()
        invariant
            i <= nodes@.len(),
            forall|k: int| 0 <= k < nodes@.len() ==> (#[trigger] nodes@[k]).wf(),
            toks@.len() == owners@.len(),
            forall|k: int| 0 <= k < owners@.len() ==> (#[trigger] owners@[k]) < nodes@.len(),
            spec_zip_pairs(toks@, owners@) == spec_node_pairs(nodes@.take(i as int)),
            i > 0 ==> toks@.len() > 0,
        decreases nodes@.len() - i,
    {
        let node_tokens = &nodes[i].tokens;
        let mut j: usize = 0;
        while j < node_tokens.len()
            invariant
                j <= node_tokens@.len(),
                i < nodes@.len(),
                toks@.len() == owners@.len(),
                forall|k: int| 0 <= k < owners@.len() ==> (#[trigger] owners@[k])
                    < nodes@.len(),
                node_tokens@ == nodes@[i as int].tokens@,
                spec_zip_pairs(toks@, owners@) == spec_node_pairs(nodes@.take(i as int))
                    + spec_owner_pairs(node_tokens@.take(j as int), i),
                j > 0 ==> toks@.len() > 0,
                toks@.len() >= j,
            decreases node_tokens@.len() - j,
        {
            broadcast use vstd::seq::Seq::push_distributes_over_add;

            let ghost pre_tk = toks@;
            let ghost pre_ow = owners@;
            toks.push(node_tokens[j]);
            owners.push(i);
            j = j + 1;
            proof {
                let pair = (node_tokens@[j as int - 1], i as usize);
                assert(spec_zip_pairs(toks@, owners@) =~= spec_zip_pairs(pre_tk,
                    pre_ow).push(pair));
                assert(spec_owner_pairs(node_tokens@.take(j as int), i) =~= spec_owner_pairs(
                    node_tokens@.take(j as int - 1), i).push(pair));
                assert(spec_zip_pairs(toks@, owners@) == spec_node_pairs(nodes@.take(
                    i as int)) + spec_owner_pairs(node_tokens@.take(j as int), i));
            }
        }
        proof {
            assert(nodes@[i as int].wf());
            assert(node_tokens@.len() > 0);
        }
        i = i + 1;
        proof {
            let taken = nodes@.take(i as int);
            assert(taken.drop_last() =~= nodes@.take(i as int - 1));
            assert(taken.last() == nodes@[i as int - 1]);
            assert(node_tokens@.take(node_tokens@.len() as int) =~= node_tokens@);
            assert(spec_node_pairs(taken) == spec_node_pairs(taken.drop_last())
                + spec_owner_pairs(taken.last().tokens@, (taken.len() - 1) as usize));
            assert(spec_owner_pairs(taken.last().tokens@, (taken.len() - 1) as usize)
                =~= spec_owner_pairs(node_tokens@.take(node_tokens@.len() as int), (i - 1) as usize));
            assert(spec_zip_pairs(toks@, owners@) =~= spec_node_pairs(taken));
        }
    }
    proof {
        assert(nodes@.take(nodes@.len() as int) =~= nodes@);
    }
    (toks, owners)
}

/// Sort (token, owner) pairs ascending by token, keeping exactly the
/// same pairs.
fn sort_token_pairs(toks: &Vec<i64>, owners: &Vec<usize>, bound: usize) -> (r: (
    Vec<i64>,
    Vec<usize>,
))
    requires
        toks@.len() == owners@.len(),
        forall|k: int| 0 <= k < owners@.len() ==> (#[trigger] owners@[k]) < bound,
    ensures
        r.0@.len() == toks@.len(),
        r.1@.len() == toks@.len(),
        spec_sorted(r.0@),
        forall|k: int| 0 <= k < r.1@.len() ==> (#[trigger] r.1@[k]) < bound,
        spec_zip_pairs(r.0@, r.1@).to_multiset() == spec_zip_pairs(toks@,
            owners@).to_multiset(),
{
    broadcast use vstd::seq_lib::group_to_multiset_ensures;

    let ghost gathered = spec_zip_pairs(toks@, owners@);
    let mut stoks: Vec<i64> = Vec::new();
    let mut sowners: Vec<usize> = Vec::new();
    let mut i: usize = 0;
    while i < toks.len()
        invariant
            i <= toks@.len(),
            toks@.len() == owners@.len(),
            stoks@.len() == sowners@.len(),
            stoks@.len() == i,
            spec_sorted(stoks@),
            gathered == spec_zip_pairs(toks@, owners@),
            spec_zip_pairs(stoks@, sowners@).to_multiset() == gathered.take(
                i as int).to_multiset(),
            forall|k: int| 0 <= k < owners@.len() ==> (#[trigger] owners@[k]) < bound,
            forall|k: int| 0 <= k < sowners@.len() ==> (#[trigger] sowners@[k]) < bound,
        decreases toks@.len() - i,
    {
        let t = toks[i];
        let o = owners[i];
        let mut pos: usize = 0;
        while pos < stoks.len() && stoks[pos] < t
            invariant
                pos <= stoks@.len(),
                forall|k: int| 0 <= k < pos ==> stoks@[k] < t,
            decreases stoks@.len() - pos,
        {
            pos = pos + 1;
        }
        let ghost pre_t = stoks@;
        let ghost pre_o = sowners@;
        stoks.insert(pos, t);
        sowners.insert(pos, o);
        i = i + 1;
        proof {
            let p = pos as int;
            assert forall|a: int, b: int| 0 <= a < b < stoks@.len() implies stoks@[a]
                <= stoks@[b] by {
                if a < p {
                    assert(stoks@[a] == pre_t[a]);
                } else if a == p {
                    assert(stoks@[a] == t);
                } else {
                    assert(stoks@[a] == pre_t[a - 1]);
                }
                if b < p {
                    assert(stoks@[b] == pre_t[b]);
                } else if b == p {
                    assert(stoks@[b] == t);
                } else {
                    assert(stoks@[b] == pre_t[b - 1]);
                }
            }
            assert(spec_zip_pairs(stoks@, sowners@) =~= spec_zip_pairs(pre_t, pre_o).insert(
                p, (t, o)));
            assert(gathered.take(i as int) =~= gathered.take(i as int - 1).push((t, o)));
            assert(gathered[i as int - 1] == (t, o));
            assert(spec_zip_pairs(stoks@, sowners@).to_multiset() == gathered.take(
                i as int).to_multiset());
        }
    }
    proof {
        assert(gathered.take(gathered.len() as int) =~= gathered);
    }
    (stoks, sowners)
}

/// Build a ring from a node set under `SimpleStrategy` with replication
/// factor `rf`: collect every (token, node) pair, sort by token, and give
/// each position the next `rf` distinct nodes in ring order. The ring
/// holds exactly the pairs the nodes contribute, reordered. Fails exactly
/// when no node brings a token.
pub fn build_ring(nodes: Vec<NodeInfo>, rf: usize) -> (r: Result<Ring, DriverError>)
    requires
        forall|i: int| 0 <= i < nodes@.len() ==> (#[trigger] nodes@[i]).wf(),
    ensures
        match r {
            Ok(ring) => ring.wf() && ring.rf == rf && ring.nodes@ == nodes@
                && ring.entries@.len() > 0 && spec_ring_pairs(ring).to_multiset()
                == spec_node_pairs(nodes@).to_multiset(),
            Err(e) => e == DriverError::NoHost && nodes@.len() == 0,
        },
{
    let (toks, owners) = gather_pairs(&nodes);
    if toks.len() == 0 {
        return Err(DriverError::NoHost);
    }
    let (stoks, sowners) = sort_token_pairs(&toks, &owners, nodes.len());
    // Attach replica sets.
    let n = stoks.len();
    let mut entries: Vec<RingEntry> = Vec::new();
    let mut i: usize = 0;
    while i < n
        invariant
            i <= n,
            n == stoks@.len(),
            stoks@.len() == sowners@.len(),
            spec_sorted(stoks@),
            forall|k: int| 0 <= k < sowners@.len() ==> (#[trigger] sowners@[k])
                < nodes@.len(),
            entries@.len() == i,
            forall|k: int| 0 <= k < i ==> (#[trigger] entries@[k]).token == stoks@[k],
            forall|k: int| 0 <= k < i ==> (#[trigger] entries@[k]).owner == sowners@[k],
            forall|k: int| 0 <= k < i ==> (#[trigger] entries@[k]).replicas@
                == spec_replica_set(sowners@, k, rf as int),
        decreases n - i,
    {
        let reps = collect_replicas(&sowners, i, rf);
        entries.push(RingEntry { token: stoks[i], owner: sowners[i], replicas: reps });
        i = i + 1;
    }
    let ring = Ring { nodes, entries, rf };
    proof {
        assert(ring.spec_tokens() =~= stoks@);
        assert(ring.spec_owners() =~= sowners@);
        assert forall|k: int| 0 <= k < ring.entries@.len() implies (#[trigger] ring.entries@[
            k]).replicas@ == spec_replica_set(ring.spec_owners(), k, ring.rf as int) by {
            assert(entries@[k].replicas@ == spec_replica_set(sowners@, k, rf as int));
        }
        assert(spec_ring_pairs(ring) =~= spec_zip_pairs(stoks@, sowners@));
    }
    Ok(ring)
}

/// Collect the first `rf` distinct owners in ring order from `start`.
fn collect_replicas(owners: &Vec<usize>, start: usize, rf: usize) -> (r: Vec<usize>)
    requires
        start < owners@.len(),
    ensures
        r@ == spec_replica_set(owners@, start as int, rf as int),
{
    let ghost rot = spec_rotation(owners@, start as int);
    let n = owners.len();
    let mut acc: Vec<usize> = Vec::new();
    let mut k: usize = 0;
    while k < n && acc.len() < rf
        invariant
            k <= n,
            n == owners@.len(),
            start < n,
            rot == spec_rotation(owners@, start as int),
            spec_collect(rot.skip(k as int), acc@, rf as int) == spec_collect(rot, Seq::empty(),
                rf as int),
            acc@.len() <= rf,
        decreases n - k,
    {
        let idx = if k < n - start {
            start + k
        } else {
            k - (n - start)
        };
        let o = owners[idx];
        proof {
            let rest = rot.skip(k as int);
            assert(rest.len() == n - k);
            assert(rest.first() == rot[k as int]);
            if (start + k) < n {
                assert(rot[k as int] == owners@[start + k]);
            } else {
                assert(rot[k as int] == owners@[start + k - n]);
            }
            assert(rest.first() == o);
            assert(rest.drop_first() =~= rot.skip(k as int + 1));
        }
        let mut present = false;
        let mut j: usize = 0;
        while j < acc.len()
            invariant
                j <= acc@.len(),
                present == exists|m: int| 0 <= m < j && acc@[m] == o,
            decreases acc@.len() - j,
        {
            if acc[j] == o {
                present = true;
            }
            j = j + 1;
        }
        proof {
            assert(present == acc@.contains(o));
        }
        if !present {
            acc.push(o);
        }
        k = k + 1;
    }
    proof {
        if k == n {
            assert(rot.skip(n as int).len() == 0);
        }
        assert(spec_collect(rot.skip(k as int), acc@, rf as int) == acc@);
    }
    acc
}

/// Whether an owner index lies in datacenter `dc` of the node table.
pub open spec fn spec_dc_pred(nodes: Seq<NodeInfo>, dc: Seq<char>) -> spec_fn(usize) -> bool {
    |o: usize| o < nodes.len() && nodes[o as int].data_center@ == dc
}

/// The replica set that `NetworkTopologyStrategy` gives one datacenter:
/// the first `rf` distinct owners in ring order from `start` that lie in
/// that datacenter.
pub open spec fn spec_dc_replica_set(
    owners: Seq<usize>,
    nodes: Seq<NodeInfo>,
    start: int,
    dc: Seq<char>,
    rf: int,
) -> Seq<usize> {
    spec_collect(spec_rotation(owners, start).filter(spec_dc_pred(nodes, dc)), Seq::empty(),
        rf)
}

/// Collect the first `rf` distinct owners in ring order from `start`
/// that lie in datacenter `dc`.
pub fn collect_dc_replicas(
    owners: &Vec<usize>,
    nodes: &Vec<NodeInfo>,
    start: usize,
    dc: &String,
    rf: usize,
) -> (r: Vec<usize>)
    requires
        start < owners@.len(),
        forall|i: int| 0 <= i < owners@.len() ==> (#[trigger] owners@[i]) < nodes@.len(),
    ensures
        r@ == spec_dc_replica_set(owners@, nodes@, start as int, dc@, rf as int),
{
    broadcast use vstd::seq_lib::group_filter_ensures;

    let ghost rot = spec_rotation(owners@, start as int);
    let ghost pred = spec_dc_pred(nodes@, dc@);
    let n = owners.len();
    let mut acc: Vec<usize> = Vec::new();
    let mut k: usize = 0;
    while k < n && acc.len() < rf
        invariant
            k <= n,
            n == owners@.len(),
            start < n,
            forall|i: int| 0 <= i < owners@.len() ==> (#[trigger] owners@[i]) < nodes@.len(),
            rot == spec_rotation(owners@, start as int),
            pred == spec_dc_pred(nodes@, dc@),
            spec_collect(rot.skip(k as int).filter(pred), acc@, rf as int) == spec_collect(
                rot.filter(pred), Seq::empty(), rf as int),
            acc@.len() <= rf,
        decreases n - k,
    {
        let idx = if k < n - start {
            start + k
        } else {
            k - (n - start)
        };
        let o = owners[idx];
        proof {
            let rest = rot.skip(k as int);
            assert(rest.first() == rot[k as int]);
            if k < n - start {
                assert(rot[k as int] == owners@[start + k]);
            } else {
                assert(rot[k as int] == owners@[k - (n - start)]);
            }
            assert(rest.first() == o);
            assert(rest =~= seq![o] + rot.skip(k as int + 1));
        }
        let in_dc = nodes[o].data_center == *dc;
        proof {
            assert(pred(o) == in_dc);
            vstd::seq::Seq::filter_distributes_over_add(seq![o], rot.skip(k as int + 1),
                pred);
            assert(seq![o].drop_last() =~= Seq::<usize>::empty());
            reveal_with_fuel(vstd::seq::Seq::filter, 2);
            if in_dc {
                assert(seq![o].filter(pred) =~= seq![o]);
            } else {
                assert(seq![o].filter(pred) =~= Seq::<usize>::empty());
            }
        }
        if in_dc {
            let mut present = false;
            let mut j: usize = 0;
            while j < acc.len()
                invariant
                    j <= acc@.len(),
                    present == exists|m: int| 0 <= m < j && acc@[m] == o,
                decreases acc@.len() - j,
            {
                if acc[j] == o {
                    present = true;
                }
                j = j + 1;
            }
            proof {
                assert(present == acc@.contains(o));
                let filtered = rot.skip(k as int).filter(pred);
                assert(filtered =~= seq![o] + rot.skip(k as int + 1).filter(pred));
                assert(filtered.first() == o);
                assert(filtered.drop_first() =~= rot.skip(k as int + 1).filter(pred));
            }
            if !present {
                acc.push(o);
            }
        } else {
            proof {
                assert(rot.skip(k as int).filter(pred) =~= rot.skip(k as int + 1).filter(
                    pred));
            }
        }
        k = k + 1;
    }
    proof {
        if k == n {
            assert(rot.skip(n as int) =~= Seq::<usize>::empty());
            reveal_with_fuel(vstd::seq::Seq::filter, 1);
            assert(rot.skip(n as int).filter(pred) =~= Seq::<usize>::empty());
        }
        assert(spec_collect(rot.skip(k as int).filter(pred), acc@, rf as int) == acc@);
    }
    acc
}

impl Ring {
    /// The replica set that `NetworkTopologyStrategy` gives datacenter
    /// `dc` for a token: the first `rf` distinct owners in that
    /// datacenter, in ring order from the owning position.
    pub fn lookup_dc(&self, t: i64, dc: &String, rf: usize) -> (r: Vec<usize>)
        requires
            self.wf(),
        ensures
            r@ == spec_dc_replica_set(self.spec_owners(), self.nodes@, spec_ring_idx(
                self.spec_tokens(), t), dc@, rf as int),
    {
        let idx = self.position(t);
        let ghost owners = self.spec_owners();
        let mut owner_vec: Vec<usize> = Vec::new();
        let mut i: usize = 0;
        while i < self.entries.len()
            invariant
                i <= self.entries@.len(),
                self.wf(),
                owner_vec@ =~= owners.take(i as int),
                owners == self.spec_owners(),
            decreases self.entries@.len() - i,
        {
            owner_vec.push(self.entries[i].owner);
            i = i + 1;
            proof {
                assert(owner_vec@ =~= owners.take(i as int));
            }
        }
        proof {
            assert(owners.take(owners.len() as int) =~= owners);
            assert(owner_vec@ =~= owners);
        }
        collect_dc_replicas(&owner_vec, &self.nodes, idx, dc, rf)
    }
}

/// The per-datacenter replica set has exactly `min(rf, d)` members,
/// where `d` counts the distinct owners of that datacenter, its members
/// are distinct, and each lies in the datacenter.
pub proof fn lemma_dc_replica_set_size(
    owners: Seq<usize>,
    nodes: Seq<NodeInfo>,
    start: int,
    dc: Seq<char>,
    rf: int,
)
    requires
        0 <= start <= owners.len(),
        rf >= 0,
    ensures
        ({
            let reps = spec_dc_replica_set(owners, nodes, start, dc, rf);
            let dc_owners = spec_rotation(owners, start).filter(spec_dc_pred(nodes, dc));
            &&& reps.len() == vstd::math::min(rf, dc_owners.to_set().len() as int)
            &&& reps.no_duplicates()
            &&& forall|x: usize|
                reps.contains(x) ==> x < nodes.len() && nodes[x as int].data_center@ == dc
        }),
{
    broadcast use vstd::seq_lib::group_filter_ensures;

    let rot = spec_rotation(owners, start);
    let pred = spec_dc_pred(nodes, dc);
    let dc_owners = rot.filter(pred);
    lemma_collect_len(dc_owners, Seq::empty(), rf);
    assert(dc_owners.to_set().difference(Set::empty()) =~= dc_owners.to_set());
    let reps = spec_dc_replica_set(owners, nodes, start, dc, rf);
    assert forall|x: usize| reps.contains(x) implies x < nodes.len() && nodes[
        x as int].data_center@ == dc by {
        assert(dc_owners.contains(x));
        let j = choose|j: int| 0 <= j < dc_owners.len() && dc_owners[j] == x;
        assert(pred(dc_owners[j]));
    }
}

/// The set of the first `n` owner indices.
pub open spec fn spec_index_range(n: nat) -> Set<usize> {
    Set::new(|o: usize| (o as int) < n)
}

/// The index range set is finite and has exactly `n` members.
proof fn lemma_index_range_len(n: nat)
    requires
        n <= usize::MAX,
    ensures
        spec_index_range(n).finite(),
        spec_index_range(n).len() == n,
    decreases n,
{
    if n == 0 {
        assert(spec_index_range(0) =~= Set::<usize>::empty());
    } else {
        lemma_index_range_len((n - 1) as nat);
        assert(spec_index_range(n) =~= spec_index_range((n - 1) as nat).insert((n
            - 1) as usize));
        assert(!spec_index_range((n - 1) as nat).contains((n - 1) as usize));
    }
}

/// Every node contributes its first token as a (token, owner) pair.
proof fn lemma_node_pairs_contain(nodes: Seq<NodeInfo>, i: int)
    requires
        0 <= i < nodes.len(),
        nodes[i].tokens@.len() > 0,
    ensures
        spec_node_pairs(nodes).contains((nodes[i].tokens@[0], i as usize)),
    decreases nodes.len(),
{
    let pair = (nodes[i].tokens@[0], i as usize);
    if i == nodes.len() - 1 {
        let seg = spec_owner_pairs(nodes.last().tokens@, (nodes.len() - 1) as usize);
        assert(seg[0] == pair);
        assert(spec_node_pairs(nodes)[spec_node_pairs(nodes.drop_last()).len() as int]
            == pair);
    } else {
        lemma_node_pairs_contain(nodes.drop_last(), i);
        let j = choose|j: int|
            0 <= j < spec_node_pairs(nodes.drop_last()).len() && spec_node_pairs(
            nodes.drop_last())[j] == pair;
        assert(spec_node_pairs(nodes)[j] == pair);
    }
}

/// A ring that holds exactly the pairs of a well-formed node set has one
/// distinct owner per node: the distinct owner count equals `|N|`.
pub proof fn lemma_ring_owner_count(ring: Ring)
    requires
        ring.wf(),
        spec_ring_pairs(ring).to_multiset() == spec_node_pairs(ring.nodes@).to_multiset(),
    ensures
        ring.spec_owners().to_set().len() == ring.nodes@.len(),
{
    broadcast use vstd::seq_lib::group_to_multiset_ensures;

    let owners = ring.spec_owners();
    let nodes = ring.nodes@;
    let n = ring.nodes.len();
    vstd::seq_lib::seq_to_set_is_finite(owners);
    assert(owners.to_set() =~= spec_index_range(nodes.len())) by {
        assert forall|o: usize| owners.to_set().contains(o) implies (o as int)
            < nodes.len() by {
            let k = choose|k: int| 0 <= k < owners.len() && owners[k] == o;
            assert(ring.entries@[k].owner == o);
        }
        assert forall|o: usize| (o as int) < nodes.len() implies owners.to_set().contains(
            o) by {
            let i = o as int;
            assert(nodes[i].wf());
            lemma_node_pairs_contain(nodes, i);
            let pair = (nodes[i].tokens@[0], o);
            assert(spec_node_pairs(nodes).to_multiset().contains(pair));
            assert(spec_ring_pairs(ring).to_multiset().contains(pair));
            assert(spec_ring_pairs(ring).contains(pair));
            let k = choose|k: int|
                0 <= k < spec_ring_pairs(ring).len() && spec_ring_pairs(ring)[k] == pair;
            assert(owners[k] == o);
        }
    }
    assert(n == nodes.len());
    lemma_index_range_len(nodes.len() as nat);
}

/// For a ring built from a well-formed node set: the replica set that
/// `lookup` returns for any token has exactly `min(rf, |N|)` members,
/// `|N|` being the number of nodes.
pub proof fn lemma_built_ring_lookup_size(ring: Ring, t: i64)
    requires
        ring.wf(),
        spec_ring_pairs(ring).to_multiset() == spec_node_pairs(ring.nodes@).to_multiset(),
    ensures
        spec_replica_set(ring.spec_owners(), spec_ring_idx(ring.spec_tokens(), t),
            ring.rf as int).len() == vstd::math::min(ring.rf as int, ring.nodes@.len()
            as int),
{
    lemma_ring_owner_count(ring);
    lemma_ring_lookup_properties(ring, t);
}

} // verus!
