//! End-to-end tests of gossip over local channels.

use std::sync::atomic::{AtomicUsize, Ordering};
use std::sync::mpsc::RecvTimeoutError;
use std::sync::Arc;
use std::time::{Duration, Instant};

use pheromessage::channel::{preferential_local_gossip_set, uniform_local_gossip_set, Channels};
use pheromessage::data::{GossipSet, GossipSetMessage};
use pheromessage::{gossip, Gossip};
use rand::prelude::SliceRandom;
use rayon::prelude::{IntoParallelIterator, ParallelIterator};
use rayon::ThreadPoolBuilder;

/// End-to-end test of a local gossip network.
#[test]
fn channel_local_network() {
    let num_nodes: usize = 12;
    // Full fanout: every update reaches every peer directly, so the run is
    // deterministic. A smaller fanout converges with high probability only.
    let fanout: usize = 11;
    // Create a thread pool with a thread per node (regardless of number of
    // cores; this is for testing and the threads will sleep at various
    // points).
    let pool = ThreadPoolBuilder::new()
        .num_threads(num_nodes)
        .build()
        .unwrap();
    let all_sets = pool.install(|| {
        // Create the gossip network.
        let set = uniform_local_gossip_set(num_nodes, fanout);
        // Create an arbitrary set of operations to add the numbers 0..100,
        // but remove the numbers 20..40.
        let mut operations: Vec<GossipSetMessage> = (0..100u64)
            .map(GossipSetMessage::add)
            .chain((20..40u64).map(GossipSetMessage::remove))
            .collect();
        // Since the gossip network is resilient to whatever order of
        // operations, shuffle the operations for fun.
        operations.shuffle(&mut rand::thread_rng());
        // Assign each node a subset of operations.
        let ops_per_node = operations.len() / num_nodes;
        let num_finished = Arc::new(AtomicUsize::new(0));
        let mut set_with_work = Vec::with_capacity(set.len());
        for node in set.into_iter() {
            let work: Vec<GossipSetMessage> = operations.drain(..ops_per_node).collect();
            set_with_work.push((node, work, num_finished.clone()));
        }
        // Map every node with its assigned work to a thread.
        let all_sets: Vec<GossipSet> = set_with_work
            .into_par_iter()
            .map(|n| {
                let mut node = n.0;
                let mut work = n.1;
                let num_finished = n.2;
                // First go through the work one by one.
                while let Some(to_send) = work.pop() {
                    node.gossip.update(&to_send).unwrap();
                    // After sending it, busy-wait a random time before
                    // sending the next op.
                    let mut random_wait =
                        Duration::from_millis(rand::Rng::gen_range(&mut rand::thread_rng(), 10..100));
                    let end_wait = Instant::now() + random_wait;
                    // Process the messages while waiting.
                    while let Ok(message) = node.receiver.recv_timeout(random_wait) {
                        node.gossip.receive(&message).unwrap();
                        let now = Instant::now();
                        if now >= end_wait {
                            break;
                        } else {
                            random_wait = end_wait - now;
                        }
                    }
                }
                // All done with my work; mark that.
                num_finished.fetch_add(1, Ordering::Relaxed);
                // Keep processing messages until everyone is done, polling
                // the flag every millisecond.
                let poll_time = Duration::from_millis(1);
                loop {
                    match node.receiver.recv_timeout(poll_time) {
                        // Shutdown races are tolerated: a finished peer may
                        // have closed its mailbox already, and forwarding to
                        // it is best-effort.
                        Ok(message) => {
                            let _ = node.gossip.receive(&message);
                        }
                        Err(RecvTimeoutError::Disconnected) => break,
                        Err(RecvTimeoutError::Timeout) => {
                            if num_finished.load(Ordering::Relaxed) >= num_nodes {
                                break;
                            }
                        }
                    }
                }
                node.gossip.data
            })
            .collect();
        all_sets
    });
    assert_eq!(num_nodes, all_sets.len());
    for set in all_sets {
        for i in 0..100u64 {
            if i < 20 || i >= 40 {
                assert!(set.is_present(&i));
            } else {
                assert!(!set.is_present(&i));
            }
        }
    }
}

/// The preferential construction partitions every node's peers by role and
/// excludes the node itself.
#[test]
fn preferential_network_construction() {
    let nodes = preferential_local_gossip_set::<GossipSetMessage>(5, 2, 3);
    assert_eq!(5, nodes.len());
    for (i, node) in nodes.iter().enumerate() {
        let primary = i < 2;
        assert_eq!(primary, node.gossip.primary);
        let expected_primaries = if primary { 1 } else { 2 };
        let expected_secondaries = if primary { 3 } else { 2 };
        assert_eq!(expected_primaries, node.gossip.primaries.len());
        assert_eq!(expected_secondaries, node.gossip.secondaries.len());
    }
}

/// A single hop over a real channel: an update at one node lands in the
/// other node's mailbox and updates its replica when received.
#[test]
fn single_hop_over_channel() {
    let mut nodes = uniform_local_gossip_set::<GossipSetMessage>(2, 1);
    let message = GossipSetMessage::add(42);
    nodes[0].gossip.update(&message).unwrap();
    let arrived = nodes[1]
        .receiver
        .recv_timeout(Duration::from_secs(5))
        .unwrap();
    assert_eq!(message, arrived);
    nodes[1].gossip.receive(&arrived).unwrap();
    assert!(nodes[1].gossip.data.is_present(&42));
}

/// Delivery to a closed mailbox reports the send error and hands the
/// message back.
#[test]
fn delivery_to_closed_mailbox_fails() {
    let (sender, receiver) = std::sync::mpsc::channel::<u64>();
    drop(receiver);
    let mut channels = Channels;
    let error = gossip(&mut channels, &5u64, &vec![sender], 1).unwrap_err();
    assert_eq!(5, error.0);
}
