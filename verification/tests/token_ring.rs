//! The token encoder against known Murmur3 vectors, composite keys, the
//! shard derivation, and ring lookups.

use scylla_rs::error::DriverError;
use scylla_rs::reporter::StreamIds;
use scylla_rs::ring::{build_ring, NodeInfo};
use scylla_rs::router::route_request;
use scylla_rs::token::{murmur3_x64_128, shard_of, token_of, TokenEncodeChain};

#[test]
fn murmur3_known_vectors() {
    assert_eq!(murmur3_x64_128(b""), (0, 0));
    assert_eq!(murmur3_x64_128(b"hello"), (0xcbd8a7b341bd9b02, 0x5b1e906a48ae1d19));
}

#[test]
fn token_known_vectors() {
    assert_eq!(token_of(b"x"), 7860725293736722151);
    assert_eq!(token_of(b"Key 7"), 6399345283276356828);
    assert_eq!(token_of(b"a"), -8839064797231613815);
    assert_eq!(token_of(b"abc"), -5434086359492102041);
    // One full sixteen-byte block.
    assert_eq!(token_of(b"0123456789abcdef"), 5467490433528156583);
    // Blocks plus a tail.
    assert_eq!(token_of(b"abcdefghijklmnopqrstuvwxyz0123456789"), -983632591049499078);
}

#[test]
fn composite_key_token() {
    // Components "ab" (text) and 1 (int): the composite buffer is
    // [0, 2, 'a', 'b', 0, 0, 4, 0, 0, 0, 1, 0].
    let mut chain = TokenEncodeChain::new();
    chain.append(b"ab");
    chain.append(&[0, 0, 0, 1]);
    assert_eq!(chain.len(), 2);
    let token = chain.finish();
    assert_eq!(token, token_of(&[0, 2, 97, 98, 0, 0, 4, 0, 0, 0, 1, 0]));
    assert_eq!(token, 3370181350991685228);
}

#[test]
fn single_component_token_is_plain_hash() {
    let mut chain = TokenEncodeChain::new();
    chain.append(b"Key 7");
    assert_eq!(chain.finish(), token_of(b"Key 7"));
}

#[test]
fn shard_derivation() {
    // Shard indices stay below the shard count, and equal inputs give
    // equal shards.
    for &t in &[i64::MIN, -1, 0, 1, i64::MAX, 7860725293736722151] {
        for &(count, msb) in &[(1u16, 0u8), (4, 12), (7, 12), (16, 0), (12, 8)] {
            let s1 = shard_of(t, count, msb);
            let s2 = shard_of(t, count, msb);
            assert_eq!(s1, s2);
            assert!(s1 < count as u64);
        }
    }
    // With one shard the answer is always shard zero.
    assert_eq!(shard_of(12345, 1, 0), 0);
}

fn node(address: u64, dc: &str, tokens: Vec<i64>) -> NodeInfo {
    NodeInfo {
        address,
        data_center: dc.to_string(),
        tokens,
        shard_count: 4,
        msb: 12,
    }
}

#[test]
fn ring_lookup_replicas() {
    let nodes = vec![
        node(1, "dc1", vec![-100, 300]),
        node(2, "dc1", vec![0, 500]),
        node(3, "dc2", vec![200, 700]),
    ];
    let ring = build_ring(nodes, 2).unwrap();
    assert_eq!(ring.len(), 6);
    // Sorted tokens: -100(n0), 0(n1), 200(n2), 300(n0), 500(n1), 700(n2).
    // A token of -50 lands on position 1 (token 0, node 1), and the next
    // distinct owner in ring order is node 2.
    assert_eq!(ring.lookup(-50), vec![1, 2]);
    // A token equal to a stored token lands on it.
    assert_eq!(ring.lookup(200), vec![2, 0]);
    // A token past the last position wraps to the first.
    assert_eq!(ring.lookup(701), vec![0, 1]);
    assert_eq!(ring.lookup(i64::MAX), vec![0, 1]);
    // The replica count is min(rf, number of distinct nodes).
    let ring_wide = build_ring(
        vec![node(1, "dc1", vec![-100, 300]), node(2, "dc1", vec![0, 500]), node(
            3,
            "dc2",
            vec![200, 700],
        )],
        10,
    )
    .unwrap();
    assert_eq!(ring_wide.lookup(-50).len(), 3);
}

#[test]
fn ring_local_replica_prefers_datacenter() {
    let nodes = vec![
        node(1, "dc1", vec![-100, 300]),
        node(2, "dc1", vec![0, 500]),
        node(3, "dc2", vec![200, 700]),
    ];
    let ring = build_ring(nodes, 3).unwrap();
    // Replicas of token 150: positions from 200 onward: nodes 2, 0, 1.
    let (chosen, shard) = ring.local_replica(150, &"dc2".to_string()).unwrap();
    assert_eq!(chosen, 2);
    assert!(shard < 4);
    let (chosen_dc1, _) = ring.local_replica(150, &"dc1".to_string()).unwrap();
    assert_eq!(chosen_dc1, 0);
    // A datacenter with no replica falls back to the first replica.
    let (fallback, _) = ring.local_replica(150, &"dc9".to_string()).unwrap();
    assert_eq!(fallback, 2);
}

#[test]
fn ring_datacenter_replicas() {
    let nodes = vec![
        node(1, "dc1", vec![-100, 300]),
        node(2, "dc1", vec![0, 500]),
        node(3, "dc2", vec![200, 700]),
    ];
    let ring = build_ring(nodes, 2).unwrap();
    // From the position owning token 150, the owners in ring order are
    // nodes 2, 0, 1, 2, 0, 1; datacenter dc1 holds nodes 0 and 1.
    assert_eq!(ring.lookup_dc(150, &"dc1".to_string(), 2), vec![0, 1]);
    assert_eq!(ring.lookup_dc(150, &"dc2".to_string(), 2), vec![2]);
    // The per-datacenter factor caps the set.
    assert_eq!(ring.lookup_dc(150, &"dc1".to_string(), 1), vec![0]);
    assert_eq!(ring.lookup_dc(150, &"dc9".to_string(), 3), Vec::<usize>::new());
}

#[test]
fn router_picks_replica_shard_and_stream() {
    let nodes = vec![
        node(1, "dc1", vec![-100, 300]),
        node(2, "dc1", vec![0, 500]),
        node(3, "dc2", vec![200, 700]),
    ];
    let ring = build_ring(nodes, 2).unwrap();
    let mut streams = StreamIds::new(2);
    // Token 150 lands on the position owned by node 2 (dc2).
    let route = route_request(&ring, 150, &"dc2".to_string(), &mut streams).unwrap();
    assert_eq!(route.node, 2);
    assert!(route.shard < 4);
    assert_eq!(route.stream, 1);
    // The datacenter preference picks node 0 for dc1.
    let route2 = route_request(&ring, 150, &"dc1".to_string(), &mut streams).unwrap();
    assert_eq!(route2.node, 0);
    // With every slot occupied the router signals backpressure at once.
    assert_eq!(
        route_request(&ring, 150, &"dc1".to_string(), &mut streams),
        Err(DriverError::Overloaded)
    );
    // After a response frees the slot, routing works again.
    streams.release(route.stream).unwrap();
    assert!(route_request(&ring, 150, &"dc1".to_string(), &mut streams).is_ok());
}

#[test]
fn ring_of_no_nodes_is_refused() {
    assert!(build_ring(vec![], 2).is_err());
}
