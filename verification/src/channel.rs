//! Gossip over local `mpsc` channels: one mailbox per node, with every
//! other node's sender as the peer list.

use vstd::prelude::*;

verus! {

use std::sync::mpsc::Receiver;
use std::sync::mpsc::SendError;
use std::sync::mpsc::Sender;
use crate::data::GossipSet;
use crate::Delivery;
use crate::Message;
use crate::PreferentialGossip;
use crate::SharedData;
use crate::UniformGossip;

/// The sending half of a standard channel, as an opaque endpoint token.
#[verifier::external_type_specification]
#[verifier::external_body]
#[verifier::reject_recursive_types(T)]
pub struct ExSender<T>(Sender<T>);

/// The receiving half of a standard channel.
#[verifier::external_type_specification]
#[verifier::external_body]
#[verifier::reject_recursive_types(T)]
pub struct ExReceiver<T>(Receiver<T>);

/// The error a send returns when the receiving half is gone; it carries the
/// unsent message.
#[verifier::external_type_specification]
#[verifier::external_body]
#[verifier::reject_recursive_types(T)]
pub struct ExSendError<T>(SendError<T>);

/// Relies on `std::sync::mpsc::channel`: a fresh sender/receiver pair whose
/// messages arrive in the order they were sent.
#[verifier::external_body]
pub(crate) fn new_channel<M>() -> (Sender<M>, Receiver<M>) {
    std::sync::mpsc::channel()
}

/// Relies on `Sender::clone`: another handle sending into the same
/// mailbox. Senders are opaque, so nothing is promised of the clone.
pub assume_specification<T>[ <Sender<T> as Clone>::clone ](sender: &Sender<T>) -> Sender<T>;

/// Relies on `Sender::send`: pushes the message into the mailbox, failing
/// exactly when the receiving half has been dropped. Whether it fails
/// depends on the receiver's state, so nothing is promised of the result.
#[verifier::external_body]
pub(crate) fn send_on<M>(sender: &Sender<M>, message: M) -> Result<(), SendError<M>> {
    sender.send(message)
}

/// An implementation of `Delivery` that delivers to `mpsc` senders as
/// endpoints, cloning the message once per endpoint.
pub struct Channels;

impl<M: Clone> Delivery<M, Sender<M>> for Channels {
    type Error = SendError<M>;

    /// Whether a send fails depends on the receivers, which are outside
    /// the library; only an empty batch is owed success.
    open spec fn spec_deliver(
        pre: Channels,
        post: Channels,
        message: M,
        batch: Seq<Sender<M>>,
        r: Result<(), SendError<M>>,
    ) -> bool {
        batch.len() == 0 ==> r is Ok
    }

    /// Send a clone of the message to every endpoint in order, stopping at
    /// the first closed mailbox. Delivering to no endpoints succeeds.
    fn deliver(&mut self, message: &M, endpoints: &Vec<&Sender<M>>) -> (r: Result<
        (),
        SendError<M>,
    >)
        ensures
            endpoints@.len() == 0 ==> r is Ok,
    {
        let mut i: usize = 0;
        while i < endpoints.len()
            invariant
                i <= endpoints@.len(),
            decreases endpoints@.len() - i,
        {
            match send_on(endpoints[i], message.clone()) {
                Ok(_) => {},
                Err(e) => {
                    return Err(e);
                },
            }
            i += 1;
        }
        Ok(())
    }
}

/// A gossip "node" that lives on a local mailbox: the engine, the receiving
/// half it drains, and a sender for pushing messages to it from outside.
#[verifier::reject_recursive_types(M)]
pub struct LocalGossipNode<G, M> {
    /// The gossip engine for the node.
    pub gossip: G,
    /// The receiver for messages intended for this node.
    pub receiver: Receiver<M>,
    /// A sender of messages to this node.
    pub sender: Sender<M>,
}

/// A local gossip node maintaining a gossip set with the uniform discipline.
pub type LocalUniformGossipSetNode<M> = LocalGossipNode<
    UniformGossip<Sender<M>, GossipSet, Channels>,
    M,
>;

/// A local gossip node maintaining a gossip set with the preferential
/// discipline.
pub type LocalPreferentialGossipSetNode<M> = LocalGossipNode<
    PreferentialGossip<Sender<M>, GossipSet, Channels>,
    M,
>;

/// Creates a set of local gossip nodes that maintain a gossip set. Each
/// node can be driven in its own thread and will gossip with the others.
/// Every node starts with an empty replica, an empty seen-set, the given
/// fanout, and every other node's sender as its peers.
pub fn uniform_local_gossip_set<M>(num_nodes: usize, fanout: usize) -> (nodes: Vec<
    LocalUniformGossipSetNode<M>,
>) where M: Clone + Message, GossipSet: SharedData<M>
    ensures
        nodes@.len() == num_nodes,
        forall|i: int|
            #![trigger nodes@[i]]
            0 <= i < nodes@.len() ==> {
                &&& nodes@[i].gossip.fanout == fanout
                &&& nodes@[i].gossip.peers@.len() == num_nodes - 1
                &&& nodes@[i].gossip.seen() == Set::<u128>::empty()
                &&& nodes@[i].gossip.data@ == Map::<u64, (nat, nat)>::empty()
            },
{
    // Create the senders and receivers for the nodes.
    let mut senders: Vec<Sender<M>> = Vec::new();
    let mut receivers: Vec<Receiver<M>> = Vec::new();
    let mut n: usize = 0;
    while n < num_nodes
        invariant
            n <= num_nodes,
            senders@.len() == n,
            receivers@.len() == n,
        decreases num_nodes - n,
    {
        let (sender, receiver) = new_channel();
        senders.push(sender);
        receivers.push(receiver);
        n += 1;
    }
    // Create the engine for each node, with every other node's sender as
    // its peer list.
    let mut gossips: Vec<UniformGossip<Sender<M>, GossipSet, Channels>> = Vec::new();
    let mut i: usize = 0;
    while i < num_nodes
        invariant
            i <= num_nodes,
            senders@.len() == num_nodes,
            gossips@.len() == i,
            forall|k: int|
                #![trigger gossips@[k]]
                0 <= k < gossips@.len() ==> {
                    &&& gossips@[k].fanout == fanout
                    &&& gossips@[k].peers@.len() == num_nodes - 1
                    &&& gossips@[k].seen() == Set::<u128>::empty()
                    &&& gossips@[k].data@ == Map::<u64, (nat, nat)>::empty()
                },
        decreases num_nodes - i,
    {
        let mut peers: Vec<Sender<M>> = Vec::new();
        let mut j: usize = 0;
        while j < num_nodes
            invariant
                j <= num_nodes,
                i < num_nodes,
                senders@.len() == num_nodes,
                peers@.len() == (if i < j {
                    j - 1
                } else {
                    j as int
                }),
            decreases num_nodes - j,
        {
            // Add every sender except the node's own.
            if i != j {
                peers.push(senders[j].clone());
            }
            j += 1;
        }
        gossips.push(UniformGossip::create(peers, fanout, GossipSet::new(), Channels));
        i += 1;
    }
    // Attach the senders and receivers to form the network.
    let mut nodes: Vec<LocalUniformGossipSetNode<M>> = Vec::new();
    let mut m: usize = 0;
    while m < num_nodes
        invariant
            m <= num_nodes,
            senders@.len() == num_nodes,
            receivers@.len() == num_nodes - m,
            gossips@.len() == num_nodes - m,
            nodes@.len() == m,
            forall|k: int|
                #![trigger gossips@[k]]
                0 <= k < gossips@.len() ==> {
                    &&& gossips@[k].fanout == fanout
                    &&& gossips@[k].peers@.len() == num_nodes - 1
                    &&& gossips@[k].seen() == Set::<u128>::empty()
                    &&& gossips@[k].data@ == Map::<u64, (nat, nat)>::empty()
                },
            forall|k: int|
                #![trigger nodes@[k]]
                0 <= k < nodes@.len() ==> {
                    &&& nodes@[k].gossip.fanout == fanout
                    &&& nodes@[k].gossip.peers@.len() == num_nodes - 1
                    &&& nodes@[k].gossip.seen() == Set::<u128>::empty()
                    &&& nodes@[k].gossip.data@ == Map::<u64, (nat, nat)>::empty()
                },
        decreases num_nodes - m,
    {
        let gossip = gossips.remove(0);
        let receiver = receivers.remove(0);
        let sender = senders[m].clone();
        nodes.push(LocalGossipNode { gossip, receiver, sender });
        m += 1;
    }
    nodes
}

/// Creates a set of local gossip nodes that maintain a gossip set with the
/// preferential discipline. The first `num_primaries` nodes returned are
/// the primaries that preferentially get first word of any update; the rest
/// are secondaries. Each node's peer lists partition all other nodes by
/// their role.
pub fn preferential_local_gossip_set<M>(
    num_nodes: usize,
    num_primaries: usize,
    fanout: usize,
) -> (nodes: Vec<LocalPreferentialGossipSetNode<M>>) where
    M: Clone + Message,
    GossipSet: SharedData<M>,

    requires
        num_primaries <= num_nodes,
    ensures
        nodes@.len() == num_nodes,
        forall|i: int|
            #![trigger nodes@[i]]
            0 <= i < nodes@.len() ==> {
                &&& nodes@[i].gossip.primary == (i < num_primaries)
                &&& nodes@[i].gossip.primaries@.len() == (if i < num_primaries {
                    num_primaries - 1
                } else {
                    num_primaries as int
                })
                &&& nodes@[i].gossip.secondaries@.len() == (if i < num_primaries {
                    num_nodes - num_primaries
                } else {
                    num_nodes - num_primaries - 1
                })
                &&& nodes@[i].gossip.fanout == fanout
                &&& nodes@[i].gossip.log() == Map::<u128, crate::SeenCount>::empty()
                &&& nodes@[i].gossip.data@ == Map::<u64, (nat, nat)>::empty()
            },
{
    // Create the senders and receivers for the nodes.
    let mut senders: Vec<Sender<M>> = Vec::new();
    let mut receivers: Vec<Receiver<M>> = Vec::new();
    let mut n: usize = 0;
    while n < num_nodes
        invariant
            n <= num_nodes,
            senders@.len() == n,
            receivers@.len() == n,
        decreases num_nodes - n,
    {
        let (sender, receiver) = new_channel();
        senders.push(sender);
        receivers.push(receiver);
        n += 1;
    }
    // Create the engine for each node, partitioning every other node's
    // sender into primaries and secondaries by its index.
    let mut gossips: Vec<PreferentialGossip<Sender<M>, GossipSet, Channels>> = Vec::new();
    let mut i: usize = 0;
    while i < num_nodes
        invariant
            i <= num_nodes,
            num_primaries <= num_nodes,
            senders@.len() == num_nodes,
            gossips@.len() == i,
            forall|k: int|
                #![trigger gossips@[k]]
                0 <= k < gossips@.len() ==> {
                    &&& gossips@[k].primary == (k < num_primaries)
                    &&& gossips@[k].primaries@.len() == (if k < num_primaries {
                        num_primaries - 1
                    } else {
                        num_primaries as int
                    })
                    &&& gossips@[k].secondaries@.len() == (if k < num_primaries {
                        num_nodes - num_primaries
                    } else {
                        num_nodes - num_primaries - 1
                    })
                    &&& gossips@[k].fanout == fanout
                    &&& gossips@[k].log() == Map::<u128, crate::SeenCount>::empty()
                    &&& gossips@[k].data@ == Map::<u64, (nat, nat)>::empty()
                },
        decreases num_nodes - i,
    {
        let primary = i < num_primaries;
        let mut primaries: Vec<Sender<M>> = Vec::new();
        let mut secondaries: Vec<Sender<M>> = Vec::new();
        let mut j: usize = 0;
        while j < num_nodes
            invariant
                j <= num_nodes,
                i < num_nodes,
                num_primaries <= num_nodes,
                senders@.len() == num_nodes,
                primaries@.len() == (if j <= num_primaries {
                    j as int
                } else {
                    num_primaries as int
                }) - (if i < j && i < num_primaries {
                    1int
                } else {
                    0int
                }),
                secondaries@.len() == (if j <= num_primaries {
                    0int
                } else {
                    j - num_primaries
                }) - (if i < j && i >= num_primaries {
                    1int
                } else {
                    0int
                }),
            decreases num_nodes - j,
        {
            // Add every sender except the node's own, split by role.
            if i != j {
                let peer = senders[j].clone();
                if j < num_primaries {
                    primaries.push(peer);
                } else {
                    secondaries.push(peer);
                }
            }
            j += 1;
        }
        gossips.push(
            PreferentialGossip::create(
                primaries,
                secondaries,
                primary,
                fanout,
                GossipSet::new(),
                Channels,
            ),
        );
        i += 1;
    }
    // Attach the senders and receivers to form the network.
    let mut nodes: Vec<LocalPreferentialGossipSetNode<M>> = Vec::new();
    let mut m: usize = 0;
    while m < num_nodes
        invariant
            m <= num_nodes,
            num_primaries <= num_nodes,
            senders@.len() == num_nodes,
            receivers@.len() == num_nodes - m,
            gossips@.len() == num_nodes - m,
            nodes@.len() == m,
            forall|k: int|
                #![trigger gossips@[k]]
                0 <= k < gossips@.len() ==> {
                    &&& gossips@[k].primary == (k + m < num_primaries)
                    &&& gossips@[k].primaries@.len() == (if k + m < num_primaries {
                        num_primaries - 1
                    } else {
                        num_primaries as int
                    })
                    &&& gossips@[k].secondaries@.len() == (if k + m < num_primaries {
                        num_nodes - num_primaries
                    } else {
                        num_nodes - num_primaries - 1
                    })
                    &&& gossips@[k].fanout == fanout
                    &&& gossips@[k].log() == Map::<u128, crate::SeenCount>::empty()
                    &&& gossips@[k].data@ == Map::<u64, (nat, nat)>::empty()
                },
            forall|k: int|
                #![trigger nodes@[k]]
                0 <= k < nodes@.len() ==> {
                    &&& nodes@[k].gossip.primary == (k < num_primaries)
                    &&& nodes@[k].gossip.primaries@.len() == (if k < num_primaries {
                        num_primaries - 1
                    } else {
                        num_primaries as int
                    })
                    &&& nodes@[k].gossip.secondaries@.len() == (if k < num_primaries {
                        num_nodes - num_primaries
                    } else {
                        num_nodes - num_primaries - 1
                    })
                    &&& nodes@[k].gossip.fanout == fanout
                    &&& nodes@[k].gossip.log() == Map::<u128, crate::SeenCount>::empty()
                    &&& nodes@[k].gossip.data@ == Map::<u64, (nat, nat)>::empty()
                },
        decreases num_nodes - m,
    {
        let gossip = gossips.remove(0);
        let receiver = receivers.remove(0);
        let sender = senders[m].clone();
        nodes.push(LocalGossipNode { gossip, receiver, sender });
        m += 1;
    }
    nodes
}

} // verus!
