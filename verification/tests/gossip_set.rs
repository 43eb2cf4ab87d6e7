//! Tests of the gossip set replica: membership by counting.

use pheromessage::data::{GossipSet, GossipSetMessage};
use pheromessage::SharedData;

#[test]
pub fn simple_set() {
    let mut set = GossipSet::default();
    set.update(&GossipSetMessage::add(5));
    assert!(set.is_present(&5));
    assert!(!set.is_present(&6));
    set.update(&GossipSetMessage::add(6));
    assert!(set.is_present(&5));
    assert!(set.is_present(&6));
    set.update(&GossipSetMessage::remove(6));
    assert!(set.is_present(&5));
    assert!(!set.is_present(&6));
    set.update(&GossipSetMessage::remove(6));
    assert!(set.is_present(&5));
    assert!(!set.is_present(&6));
}

/// Membership is decided by the counts alone: however adds and removes of
/// an element interleave, it is present exactly when the adds outnumber the
/// removes.
#[test]
fn membership_follows_counts() {
    let mut set = GossipSet::new();
    // One remove, two adds, in an order that dips below zero first.
    set.remove_item(9);
    assert!(!set.is_present(&9));
    set.add_item(9);
    assert!(!set.is_present(&9));
    set.add_item(9);
    assert!(set.is_present(&9));
    // A fourth action balancing the counts again removes it.
    set.remove_item(9);
    assert!(!set.is_present(&9));
}

/// An element never touched is absent, and touching one element leaves
/// another alone.
#[test]
fn untouched_elements_are_absent() {
    let mut set = GossipSet::new();
    assert!(!set.is_present(&0));
    set.add_item(1);
    assert!(!set.is_present(&0));
    assert!(set.is_present(&1));
}

/// Fresh messages carry fresh identifiers; two adds of the same value are
/// distinct rumors.
#[test]
fn messages_get_distinct_identifiers() {
    let a = GossipSetMessage::add(5);
    let b = GossipSetMessage::add(5);
    assert_ne!(a.id, b.id);
}
