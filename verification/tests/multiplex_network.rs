//! End-to-end tests of gossip over shared group mailboxes, and unit tests
//! of the node-to-group assignment and peer selection.

use std::sync::atomic::{AtomicUsize, Ordering};
use std::sync::mpsc::RecvTimeoutError;
use std::sync::Arc;
use std::time::{Duration, Instant};

use pheromessage::data::{GossipSet, GossipSetMessage};
use pheromessage::multiplex::{
    select_peer_indices, uniform_local_gossip_set, NodeGroupInfo,
};
use pheromessage::Gossip;
use rand::prelude::SliceRandom;
use rayon::prelude::{IntoParallelIterator, ParallelIterator};
use rayon::ThreadPoolBuilder;

/// End-to-end test of a local gossip network of node groups.
#[test]
fn multiplex_local_network() {
    let num_nodes: usize = 12;
    let num_groups: usize = 5;
    let peers_per_node: usize = 11;
    // Full fanout over fully-known peers: every update reaches every other
    // node directly, so the run is deterministic.
    let fanout: usize = 11;
    // Create a thread pool with a thread per node group (regardless of
    // number of cores; this is for testing and the threads will sleep at
    // various points).
    let pool = ThreadPoolBuilder::new()
        .num_threads(num_nodes)
        .build()
        .unwrap();
    let all_sets: Vec<GossipSet> = pool.install(|| {
        // Create the gossip network.
        let set = uniform_local_gossip_set(num_nodes, num_groups, peers_per_node, fanout);
        // Create an arbitrary set of operations to add the numbers 0..100,
        // but remove the numbers 20..40.
        let mut operations: Vec<GossipSetMessage> = (0..100u64)
            .map(GossipSetMessage::add)
            .chain((20..40u64).map(GossipSetMessage::remove))
            .collect();
        // Since the gossip network is resilient to whatever order of
        // operations, shuffle the operations for fun.
        operations.shuffle(&mut rand::thread_rng());
        // Assign each group a subset of operations.
        let ops_per_group = operations.len() / num_groups;
        let num_finished = Arc::new(AtomicUsize::new(0));
        let mut group_with_work = Vec::with_capacity(set.len());
        for group in set.into_iter() {
            let work: Vec<GossipSetMessage> = operations.drain(..ops_per_group).collect();
            group_with_work.push((group, work, num_finished.clone()));
        }
        // Map every node group with its assigned work to a thread.
        let all_sets: Vec<Vec<GossipSet>> = group_with_work
            .into_par_iter()
            .map(|n| {
                let mut group = n.0;
                let mut work = n.1;
                let num_finished = n.2;
                let mut node_index: usize = 0;
                // First go through the work one by one, rotating the
                // originating node within the group.
                while let Some(to_send) = work.pop() {
                    group.gossips[node_index].update(&to_send).unwrap();
                    node_index = (node_index + 1) % group.gossips.len();
                    // After sending it, busy-wait a random time before
                    // sending the next op.
                    let mut random_wait =
                        Duration::from_millis(rand::Rng::gen_range(&mut rand::thread_rng(), 10..100));
                    let end_wait = Instant::now() + random_wait;
                    // Process the messages while waiting.
                    while let Ok(envelope) = group.receiver.recv_timeout(random_wait) {
                        group.gossips[envelope.node_index]
                            .receive(&envelope.message)
                            .unwrap();
                        let now = Instant::now();
                        if now >= end_wait {
                            break;
                        } else {
                            random_wait = end_wait - now;
                        }
                    }
                }
                // All done with my work; mark that.
                num_finished.fetch_add(1, Ordering::Relaxed);
                // Keep processing messages until everyone is done, polling
                // the flag every millisecond.
                let poll_time = Duration::from_millis(1);
                loop {
                    match group.receiver.recv_timeout(poll_time) {
                        // Shutdown races are tolerated: a finished group may
                        // have closed its mailbox already, and forwarding to
                        // it is best-effort.
                        Ok(envelope) => {
                            let _ = group.gossips[envelope.node_index].receive(&envelope.message);
                        }
                        Err(RecvTimeoutError::Disconnected) => break,
                        Err(RecvTimeoutError::Timeout) => {
                            if num_finished.load(Ordering::Relaxed) >= num_groups {
                                break;
                            }
                        }
                    }
                }
                group.gossips.into_iter().map(|g| g.data).collect()
            })
            .collect();
        all_sets.into_iter().flatten().collect()
    });
    assert_eq!(num_nodes, all_sets.len());
    for set in all_sets {
        for i in 0..100u64 {
            if i < 20 || i >= 40 {
                assert!(set.is_present(&i));
            } else {
                assert!(!set.is_present(&i));
            }
        }
    }
}

/// The node-to-group assignment round-trips: the (group, position) pair of
/// every global index recovers the index, so the assignment is a bijection.
#[test]
fn for_node_roundtrip() {
    for num_groups in 1..8usize {
        for g in 0..100usize {
            let info = NodeGroupInfo::for_node(num_groups, g);
            assert!(info.group_index < num_groups);
            assert_eq!(g, info.node_index * num_groups + info.group_index);
        }
    }
}

/// Nodes are dealt to groups round-robin, so group sizes differ by at most
/// one and sum to the number of nodes.
#[test]
fn group_sizes_are_balanced() {
    let groups = uniform_local_gossip_set::<GossipSetMessage>(12, 5, 11, 6);
    assert_eq!(5, groups.len());
    let sizes: Vec<usize> = groups.iter().map(|g| g.gossips.len()).collect();
    assert_eq!(vec![3, 3, 2, 2, 2], sizes);
    for group in &groups {
        for engine in &group.gossips {
            assert_eq!(11, engine.peers.len());
            assert_eq!(6, engine.fanout);
        }
    }
}

/// For every node, the selected peer list has exactly the requested number
/// of distinct global indices, none equal to the node's own index.
#[test]
fn peer_selection_excludes_self() {
    let num_nodes: usize = 50;
    let peers_per_node: usize = 5;
    for node in 0..num_nodes {
        let peers = select_peer_indices(num_nodes, node, peers_per_node);
        assert_eq!(peers_per_node, peers.len());
        for (i, peer) in peers.iter().enumerate() {
            assert!(*peer < num_nodes);
            assert_ne!(node, *peer);
            for other in peers.iter().skip(i + 1) {
                assert_ne!(*peer, *other);
            }
        }
    }
}
