//! Tests of the gossip engines: fanout, deduplication, and the
//! preferential routing table.

use std::collections::HashMap;

use pheromessage::data::{GossipSet, GossipSetMessage};
use pheromessage::goose::Outbox;
use pheromessage::{
    choose_fanout, forward_targets, gossip, Delivery, ForwardTarget, Gossip, PreferentialGossip,
    SeenCount, UniformGossip,
};

/// A "network" that just keeps track of which endpoints (keys) received
/// which messages (values).
struct Network(HashMap<usize, Vec<usize>>);

impl Delivery<usize, usize> for Network {
    type Error = ();

    fn deliver(&mut self, message: &usize, endpoints: &Vec<&usize>) -> Result<(), ()> {
        for endpoint in endpoints {
            self.0.entry(**endpoint).or_default().push(*message);
        }
        Ok(())
    }
}

/// When gossipping to the entire network, all of them should receive it.
#[test]
fn gossip_to_all() {
    let mut network = Network(HashMap::new());
    gossip(&mut network, &10, &vec![1, 2, 3], 3).unwrap();
    assert_eq!(Some(&vec![10]), network.0.get(&1));
    assert_eq!(Some(&vec![10]), network.0.get(&2));
    assert_eq!(Some(&vec![10]), network.0.get(&3));
}

/// When gossipping to a subset of the network, just that subset should
/// receive it.
#[test]
fn gossip_to_some() {
    let mut network = Network(HashMap::new());
    gossip(&mut network, &10, &vec![1, 2, 3, 4, 5], 3).unwrap();
    assert_eq!(3, network.0.len());
}

/// Gossiping to an empty target list sends nothing and succeeds.
#[test]
fn gossip_to_none() {
    let mut network = Network(HashMap::new());
    gossip(&mut network, &10, &vec![], 3).unwrap();
    assert_eq!(0, network.0.len());
}

/// The fanout selection takes exactly the minimum of the fanout and the
/// number of targets, each a distinct target.
#[test]
fn fanout_selection_bounds() {
    let targets: Vec<u64> = vec![10, 20, 30, 40, 50];
    let chosen = choose_fanout(&targets, 3);
    assert_eq!(3, chosen.len());
    for peer in &chosen {
        assert!(targets.contains(peer));
    }
    assert_eq!(5, choose_fanout(&targets, 9).len());
    assert_eq!(0, choose_fanout(&targets, 0).len());
    let empty: Vec<u64> = vec![];
    assert_eq!(0, choose_fanout(&empty, 4).len());
}

/// The seen count saturates: once, twice, and everything beyond is "more
/// than twice".
#[test]
fn seen_count_saturates() {
    let mut count = SeenCount::Once;
    count.increment();
    assert_eq!(SeenCount::Twice, count);
    count.increment();
    assert_eq!(SeenCount::MoreThanTwice, count);
    count.increment();
    assert_eq!(SeenCount::MoreThanTwice, count);
}

/// The preferential routing table, checked pair by pair.
#[test]
fn preferential_routing_table() {
    assert_eq!(
        Some(ForwardTarget::Primaries),
        forward_targets(true, SeenCount::Once)
    );
    assert_eq!(
        Some(ForwardTarget::Secondaries),
        forward_targets(true, SeenCount::Twice)
    );
    assert_eq!(None, forward_targets(true, SeenCount::MoreThanTwice));
    assert_eq!(
        Some(ForwardTarget::Secondaries),
        forward_targets(false, SeenCount::Once)
    );
    assert_eq!(None, forward_targets(false, SeenCount::Twice));
    assert_eq!(None, forward_targets(false, SeenCount::MoreThanTwice));
}

/// Delivering the same identifier to a uniform engine three times leaves
/// the replica as after one delivery, and only the first sighting triggers
/// a fanout.
#[test]
fn redelivery_is_idempotent() {
    let peers: Vec<usize> = vec![1, 2, 3];
    let mut engine: UniformGossip<usize, GossipSet, Outbox<GossipSetMessage>> =
        UniformGossip::create(peers, 2, GossipSet::new(), Outbox::new());
    let message = GossipSetMessage::add(7);
    engine.receive(&message).unwrap();
    assert!(engine.data.is_present(&7));
    let sends_after_first = engine.delivery.log.len();
    assert_eq!(2, sends_after_first);
    engine.receive(&message).unwrap();
    engine.receive(&message).unwrap();
    assert!(engine.data.is_present(&7));
    assert_eq!(sends_after_first, engine.delivery.log.len());
    // A remove under the same identifier is also dropped: the replica
    // still shows the element.
    let mut replay = GossipSetMessage::remove(7);
    replay.id = message.id;
    engine.receive(&replay).unwrap();
    assert!(engine.data.is_present(&7));
}

/// A uniform engine's local update always forwards, even for an identifier
/// it has already seen.
#[test]
fn local_update_always_forwards() {
    let peers: Vec<usize> = vec![1];
    let mut engine: UniformGossip<usize, GossipSet, Outbox<GossipSetMessage>> =
        UniformGossip::create(peers, 1, GossipSet::new(), Outbox::new());
    let message = GossipSetMessage::add(4);
    engine.update(&message).unwrap();
    engine.update(&message).unwrap();
    assert_eq!(2, engine.delivery.log.len());
}

/// Two primaries and one secondary with fanout one: an update at the first
/// primary reaches the second primary, which seeds the first back; seeing
/// the rumor twice, the first primary bleeds it to the secondary. Three
/// sends in all, and every replica converges.
#[test]
fn preferential_seen_count_path() {
    type Engine = PreferentialGossip<usize, GossipSet, Outbox<GossipSetMessage>>;
    // Peer endpoints are engine indices: 0 and 1 are primaries, 2 is the
    // secondary.
    let mut first_primary: Engine =
        PreferentialGossip::create(vec![1], vec![2], true, 1, GossipSet::new(), Outbox::new());
    let mut second_primary: Engine =
        PreferentialGossip::create(vec![0], vec![2], true, 1, GossipSet::new(), Outbox::new());
    let mut secondary: Engine =
        PreferentialGossip::create(vec![0, 1], vec![], false, 1, GossipSet::new(), Outbox::new());

    let message = GossipSetMessage::add(11);
    // Local origin at the first primary: data updated at once, rumor sent
    // to the other primary.
    first_primary.update(&message).unwrap();
    assert!(first_primary.data.is_present(&11));
    assert_eq!(vec![(1, message)], first_primary.delivery.log);
    // The second primary sees it for the first time: updates and seeds the
    // primaries, which can only pick the first one.
    second_primary.receive(&message).unwrap();
    assert!(second_primary.data.is_present(&11));
    assert_eq!(vec![(0, message)], second_primary.delivery.log);
    // The first primary now sees it for the second time: no re-update, but
    // the rumor bleeds to the secondary.
    first_primary.receive(&message).unwrap();
    assert_eq!(vec![(1, message), (2, message)], first_primary.delivery.log);
    // The secondary sees it once: updates, and has no secondary peers to
    // seed.
    secondary.receive(&message).unwrap();
    assert!(secondary.data.is_present(&11));
    assert_eq!(0, secondary.delivery.log.len());
    // Total sends across the run: three.
    let total = first_primary.delivery.log.len()
        + second_primary.delivery.log.len()
        + secondary.delivery.log.len();
    assert_eq!(3, total);
}

/// A primary drops a rumor it has seen more than twice; a secondary drops
/// one it has seen twice.
#[test]
fn repeated_sightings_are_dropped() {
    type Engine = PreferentialGossip<usize, GossipSet, Outbox<GossipSetMessage>>;
    let mut primary: Engine =
        PreferentialGossip::create(vec![1], vec![2], true, 1, GossipSet::new(), Outbox::new());
    let message = GossipSetMessage::add(3);
    primary.receive(&message).unwrap();
    primary.receive(&message).unwrap();
    assert_eq!(2, primary.delivery.log.len());
    primary.receive(&message).unwrap();
    primary.receive(&message).unwrap();
    assert_eq!(2, primary.delivery.log.len());

    let mut secondary: Engine =
        PreferentialGossip::create(vec![0], vec![1], false, 1, GossipSet::new(), Outbox::new());
    secondary.receive(&message).unwrap();
    assert_eq!(1, secondary.delivery.log.len());
    secondary.receive(&message).unwrap();
    secondary.receive(&message).unwrap();
    assert_eq!(1, secondary.delivery.log.len());
}
