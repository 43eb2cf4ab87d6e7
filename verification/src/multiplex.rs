//! Gossip over local `mpsc` channels where a group of nodes shares one
//! mailbox. This scales local simulations to many nodes per worker: the
//! number of mailboxes is the number of groups, and an envelope carries the
//! index of the intended node within its group.

use vstd::prelude::*;

verus! {

use std::sync::mpsc::Receiver;
use std::sync::mpsc::SendError;
use std::sync::mpsc::Sender;
use crate::channel::new_channel;
use crate::channel::send_on;
use crate::data::GossipSet;
use crate::Delivery;
use crate::Message;
use crate::PreferentialGossip;
use crate::SeenCount;
use crate::SharedData;
use crate::UniformGossip;
use vstd::arithmetic::div_mod::lemma_fundamental_div_mod;
use vstd::arithmetic::div_mod::lemma_fundamental_div_mod_converse;
use vstd::arithmetic::mul::lemma_mul_is_commutative;

/// Multiplication commutes; a small bridge so that div/mod facts line up
/// with products written in either order.
proof fn lemma_mul_commutes(a: int, b: int)
    ensures
        a * b == b * a,
{
    lemma_mul_is_commutative(a, b);
}

/// An implementation of `Delivery` that wraps each message in an envelope
/// addressed to a node within a group and sends it on the group's mailbox.
pub struct Multiplex;

/// An envelope for a message intended for one node within a node group.
#[derive(Clone)]
pub struct Envelope<M> {
    /// The message.
    pub message: M,
    /// The index of the intended node within its group.
    pub node_index: usize,
}

/// An endpoint for a peer within a gossip network composed of node groups:
/// the group's sender plus the peer's index within the group.
#[derive(Clone)]
#[verifier::reject_recursive_types(M)]
pub struct MultiplexEndpoint<M> {
    /// The sender for envelopes to the peer's group.
    sender: Sender<Envelope<M>>,
    /// The index of the peer within its group.
    node_index: usize,
}

impl<M: Clone> Delivery<M, MultiplexEndpoint<M>> for Multiplex {
    type Error = SendError<Envelope<M>>;

    /// Whether a send fails depends on the group mailboxes' receivers,
    /// which are outside the library; only an empty batch is owed success.
    open spec fn spec_deliver(
        pre: Multiplex,
        post: Multiplex,
        message: M,
        batch: Seq<MultiplexEndpoint<M>>,
        r: Result<(), SendError<Envelope<M>>>,
    ) -> bool {
        batch.len() == 0 ==> r is Ok
    }

    /// Wrap a clone of the message in an envelope addressed to each
    /// endpoint's intra-group index and send it on that endpoint's group
    /// mailbox, stopping at the first closed one. Delivering to no
    /// endpoints succeeds.
    fn deliver(&mut self, message: &M, endpoints: &Vec<&MultiplexEndpoint<M>>) -> (r: Result<
        (),
        SendError<Envelope<M>>,
    >)
        ensures
            endpoints@.len() == 0 ==> r is Ok,
    {
        let mut i: usize = 0;
        while i < endpoints.len()
            invariant
                i <= endpoints@.len(),
            decreases endpoints@.len() - i,
        {
            let envelope = Envelope { message: message.clone(), node_index: endpoints[i].node_index };
            match send_on(&endpoints[i].sender, envelope) {
                Ok(_) => {},
                Err(e) => {
                    return Err(e);
                },
            }
            i += 1;
        }
        Ok(())
    }
}

/// Information about which group a node belongs to and its index within the
/// group. Nodes are dealt to groups round-robin: global index `g` lives in
/// group `g % num_groups` at position `g / num_groups`.
#[derive(Debug, Clone, Copy, PartialEq, Eq, Hash, Structural)]
pub struct NodeGroupInfo {
    /// The index of the group the node belongs in.
    pub group_index: usize,
    /// The index of the node within the group.
    pub node_index: usize,
}

impl NodeGroupInfo {
    /// Gets the group info for a node given the total number of groups and
    /// the node's global index. The pair round-trips to the global index:
    /// `node_index * num_groups + group_index` recovers it.
    pub fn for_node(num_groups: usize, global_node_index: usize) -> (info: NodeGroupInfo)
        requires
            num_groups >= 1,
        ensures
            info.group_index == global_node_index as int % num_groups as int,
            info.node_index == global_node_index as int / num_groups as int,
            info.group_index < num_groups,
            global_node_index == info.node_index * num_groups + info.group_index,
    {
        let group_index = global_node_index % num_groups;
        let node_index = global_node_index / num_groups;
        proof {
            lemma_fundamental_div_mod(global_node_index as int, num_groups as int);
            lemma_mul_commutes(node_index as int, num_groups as int);
        }
        NodeGroupInfo { group_index, node_index }
    }
}

/// The node-to-group assignment is a bijection: distinct global indices get
/// distinct (group, position) pairs, and every pair recovers its global
/// index as `node_index * num_groups + group_index`.
pub proof fn lemma_for_node_bijective(num_groups: usize, g1: usize, g2: usize)
    requires
        num_groups >= 1,
    ensures
        g1 as int == (g1 as int / num_groups as int) * num_groups + g1 as int % num_groups as int,
        (g1 as int % num_groups as int == g2 as int % num_groups as int && g1 as int
            / num_groups as int == g2 as int / num_groups as int) ==> g1 == g2,
{
    lemma_fundamental_div_mod(g1 as int, num_groups as int);
    lemma_fundamental_div_mod(g2 as int, num_groups as int);
    lemma_mul_commutes(g1 as int / num_groups as int, num_groups as int);
    lemma_mul_commutes(g2 as int / num_groups as int, num_groups as int);
}

/// Choose the set of peers one node knows about: `peers_per_node` distinct
/// global indices drawn uniformly from all nodes other than the node
/// itself. No node is ever its own peer.
pub fn select_peer_indices(num_nodes: usize, self_index: usize, peers_per_node: usize) -> (peers:
    Vec<usize>)
    requires
        num_nodes >= 1,
        self_index < num_nodes,
        peers_per_node <= num_nodes - 1,
    ensures
        peers@.len() == peers_per_node,
        forall|i: int|
            0 <= i < peers@.len() ==> #[trigger] peers@[i] < num_nodes && peers@[i] != self_index,
        forall|i: int, j: int| 0 <= i < j < peers@.len() ==> peers@[i] != peers@[j],
{
    // Sample from one fewer than the number of nodes, then shift every
    // index at or above this node's own up by one, so that the node itself
    // is excluded while all others stay equally likely.
    let raw = crate::sample_distinct_indices(num_nodes - 1, peers_per_node);
    let mut peers: Vec<usize> = Vec::new();
    let mut t: usize = 0;
    while t < raw.len()
        invariant
            t <= raw@.len(),
            raw@.len() == peers_per_node,
            num_nodes >= 1,
            self_index < num_nodes,
            forall|i: int| 0 <= i < raw@.len() ==> #[trigger] raw@[i] < num_nodes - 1,
            forall|i: int, j: int| 0 <= i < j < raw@.len() ==> raw@[i] != raw@[j],
            peers@.len() == t,
            forall|i: int|
                0 <= i < t ==> #[trigger] peers@[i] == (if raw@[i] < self_index {
                    raw@[i] as int
                } else {
                    raw@[i] + 1
                }),
            forall|i: int|
                0 <= i < t ==> #[trigger] peers@[i] < num_nodes && peers@[i] != self_index,
        decreases raw@.len() - t,
    {
        let j = raw[t];
        let adjusted = if j < self_index {
            j
        } else {
            j + 1
        };
        peers.push(adjusted);
        t += 1;
    }
    peers
}

/// A gossip "node group": the engines of every node in the group, the
/// shared mailbox they are fed from, and a sender into that mailbox.
#[verifier::reject_recursive_types(M)]
pub struct LocalGossipNodeGroup<G, M> {
    /// The gossip engines for the nodes in this group.
    pub gossips: Vec<G>,
    /// The receiver for envelopes intended for this node group.
    pub receiver: Receiver<Envelope<M>>,
    /// The sender of envelopes to this node group.
    pub sender: Sender<Envelope<M>>,
}

/// A node group whose nodes run uniform gossip over a gossip set.
pub type LocalUniformGossipSetNodeGroup<M> = LocalGossipNodeGroup<
    UniformGossip<MultiplexEndpoint<M>, GossipSet, Multiplex>,
    M,
>;

/// A node group whose nodes run preferential gossip over a gossip set.
pub type LocalPreferentialGossipSetNodeGroup<M> = LocalGossipNodeGroup<
    PreferentialGossip<MultiplexEndpoint<M>, GossipSet, Multiplex>,
    M,
>;

/// How many nodes a group holds when nodes are dealt round-robin: every
/// group gets the quotient, and the first `num_nodes % num_groups` groups
/// one more.
pub open spec fn spec_group_size(num_nodes: int, num_groups: int, group: int) -> int {
    num_nodes / num_groups + (if group < num_nodes % num_groups {
        1int
    } else {
        0int
    })
}

/// One node has been dealt: the group sizes for `i + 1` nodes differ from
/// those for `i` nodes exactly by one more engine in group `i % num_groups`.
proof fn lemma_group_size_step(i: int, num_groups: int)
    requires
        0 <= i,
        1 <= num_groups,
    ensures
        forall|g: int|
            0 <= g < num_groups ==> #[trigger] spec_group_size(i + 1, num_groups, g)
                == spec_group_size(i, num_groups, g) + (if g == i % num_groups {
                1int
            } else {
                0int
            }),
        spec_group_size(i, num_groups, i % num_groups) == i / num_groups,
{
    let q = i / num_groups;
    let r = i % num_groups;
    lemma_fundamental_div_mod(i, num_groups);
    lemma_mul_commutes(q, num_groups);
    if r + 1 < num_groups {
        lemma_fundamental_div_mod_converse(i + 1, num_groups, q, r + 1);
    } else {
        assert((q + 1) * num_groups == q * num_groups + num_groups) by (nonlinear_arith);
        lemma_fundamental_div_mod_converse(i + 1, num_groups, q + 1, 0);
    }
}

/// Creates a set of local gossip node groups whose nodes maintain a gossip
/// set with the uniform discipline. Nodes are dealt to the groups
/// round-robin; each node knows `peers_per_node` other nodes drawn at
/// random, and gossips to a random subset of size `fanout` of those.
pub fn uniform_local_gossip_set<M>(
    num_nodes: usize,
    num_groups: usize,
    peers_per_node: usize,
    fanout: usize,
) -> (groups: Vec<LocalUniformGossipSetNodeGroup<M>>) where
    M: Clone + Message,
    GossipSet: SharedData<M>,

    requires
        num_nodes >= 1,
        num_groups >= 1,
        peers_per_node <= num_nodes - 1,
    ensures
        groups@.len() == num_groups,
        forall|g: int|
            0 <= g < groups@.len() ==> #[trigger] groups@[g].gossips@.len() == spec_group_size(
                num_nodes as int,
                num_groups as int,
                g,
            ),
        forall|g: int, n: int|
            #![trigger groups@[g].gossips@[n]]
            0 <= g < groups@.len() && 0 <= n < groups@[g].gossips@.len() ==> {
                &&& groups@[g].gossips@[n].fanout == fanout
                &&& groups@[g].gossips@[n].peers@.len() == peers_per_node
                &&& groups@[g].gossips@[n].seen() == Set::<u128>::empty()
                &&& groups@[g].gossips@[n].data@ == Map::<u64, (nat, nat)>::empty()
            },
{
    // Create the senders and receivers for the node groups.
    let mut senders: Vec<Sender<Envelope<M>>> = Vec::new();
    let mut receivers: Vec<Receiver<Envelope<M>>> = Vec::new();
    let mut n: usize = 0;
    while n < num_groups
        invariant
            n <= num_groups,
            senders@.len() == n,
            receivers@.len() == n,
        decreases num_groups - n,
    {
        let (sender, receiver) = new_channel();
        senders.push(sender);
        receivers.push(receiver);
        n += 1;
    }
    // Create one engine vector per group.
    let mut gossips: Vec<Vec<UniformGossip<MultiplexEndpoint<M>, GossipSet, Multiplex>>> =
        Vec::new();
    let mut g: usize = 0;
    while g < num_groups
        invariant
            g <= num_groups,
            gossips@.len() == g,
            forall|k: int| 0 <= k < g ==> #[trigger] gossips@[k]@.len() == 0,
        decreases num_groups - g,
    {
        gossips.push(Vec::new());
        g += 1;
    }
    // Deal each node to its group, with its random set of peers.
    let mut i: usize = 0;
    while i < num_nodes
        invariant
            i <= num_nodes,
            num_nodes >= 1,
            num_groups >= 1,
            peers_per_node <= num_nodes - 1,
            senders@.len() == num_groups,
            gossips@.len() == num_groups,
            forall|k: int|
                0 <= k < num_groups ==> #[trigger] gossips@[k]@.len() == spec_group_size(
                    i as int,
                    num_groups as int,
                    k,
                ),
            forall|k: int, m: int|
                #![trigger gossips@[k]@[m]]
                0 <= k < num_groups && 0 <= m < gossips@[k]@.len() ==> {
                    &&& gossips@[k]@[m].fanout == fanout
                    &&& gossips@[k]@[m].peers@.len() == peers_per_node
                    &&& gossips@[k]@[m].seen() == Set::<u128>::empty()
                    &&& gossips@[k]@[m].data@ == Map::<u64, (nat, nat)>::empty()
                },
        decreases num_nodes - i,
    {
        // Draw the node's peers and turn each global index into an endpoint.
        let peer_indices = select_peer_indices(num_nodes, i, peers_per_node);
        let mut peers: Vec<MultiplexEndpoint<M>> = Vec::new();
        let mut t: usize = 0;
        while t < peer_indices.len()
            invariant
                t <= peer_indices@.len(),
                num_groups >= 1,
                senders@.len() == num_groups,
                forall|x: int|
                    0 <= x < peer_indices@.len() ==> #[trigger] peer_indices@[x] < num_nodes,
                peers@.len() == t,
            decreases peer_indices@.len() - t,
        {
            let info = NodeGroupInfo::for_node(num_groups, peer_indices[t]);
            peers.push(
                MultiplexEndpoint {
                    sender: senders[info.group_index].clone(),
                    node_index: info.node_index,
                },
            );
            t += 1;
        }
        // Deal the node's engine to its group.
        let info = NodeGroupInfo::for_node(num_groups, i);
        proof {
            lemma_group_size_step(i as int, num_groups as int);
        }
        let group = &mut gossips[info.group_index];
        group.push(UniformGossip::create(peers, fanout, GossipSet::new(), Multiplex));
        i += 1;
    }
    // Attach the senders and receivers to form the network.
    let ghost dealt = gossips@;
    let mut groups: Vec<LocalUniformGossipSetNodeGroup<M>> = Vec::new();
    let mut m: usize = 0;
    while m < num_groups
        invariant
            m <= num_groups,
            senders@.len() == num_groups,
            receivers@.len() == num_groups - m,
            gossips@.len() == num_groups - m,
            gossips@ == dealt.subrange(m as int, num_groups as int),
            dealt.len() == num_groups,
            groups@.len() == m,
            forall|k: int| 0 <= k < m ==> #[trigger] groups@[k].gossips@ == dealt[k]@,
        decreases num_groups - m,
    {
        let gossips_of_group = gossips.remove(0);
        let receiver = receivers.remove(0);
        let sender = senders[m].clone();
        proof {
            assert(gossips@ =~= dealt.subrange(m + 1, num_groups as int));
        }
        groups.push(LocalGossipNodeGroup { gossips: gossips_of_group, receiver, sender });
        m += 1;
    }
    groups
}

/// Creates a set of local gossip node groups whose nodes maintain a gossip
/// set with the preferential discipline. Nodes are dealt to the groups
/// round-robin; the nodes with global index below `num_primaries` are the
/// primaries. Each node knows `peers_per_node` other nodes drawn at random,
/// partitioned into primary and secondary peers by their global index, and
/// gossips to a random subset of size `fanout` of the list the routing
/// table picks.
pub fn preferential_local_gossip_set<M>(
    num_nodes: usize,
    num_groups: usize,
    peers_per_node: usize,
    num_primaries: usize,
    fanout: usize,
) -> (groups: Vec<LocalPreferentialGossipSetNodeGroup<M>>) where
    M: Clone + Message,
    GossipSet: SharedData<M>,

    requires
        num_nodes >= 1,
        num_groups >= 1,
        peers_per_node <= num_nodes - 1,
    ensures
        groups@.len() == num_groups,
        forall|g: int|
            0 <= g < groups@.len() ==> #[trigger] groups@[g].gossips@.len() == spec_group_size(
                num_nodes as int,
                num_groups as int,
                g,
            ),
        forall|g: int, n: int|
            #![trigger groups@[g].gossips@[n]]
            0 <= g < groups@.len() && 0 <= n < groups@[g].gossips@.len() ==> {
                &&& groups@[g].gossips@[n].primary == (n * num_groups + g < num_primaries)
                &&& groups@[g].gossips@[n].primaries@.len()
                    + groups@[g].gossips@[n].secondaries@.len() == peers_per_node
                &&& groups@[g].gossips@[n].fanout == fanout
                &&& groups@[g].gossips@[n].log() == Map::<u128, SeenCount>::empty()
                &&& groups@[g].gossips@[n].data@ == Map::<u64, (nat, nat)>::empty()
            },
{
    // Create the senders and receivers for the node groups.
    let mut senders: Vec<Sender<Envelope<M>>> = Vec::new();
    let mut receivers: Vec<Receiver<Envelope<M>>> = Vec::new();
    let mut n: usize = 0;
    while n < num_groups
        invariant
            n <= num_groups,
            senders@.len() == n,
            receivers@.len() == n,
        decreases num_groups - n,
    {
        let (sender, receiver) = new_channel();
        senders.push(sender);
        receivers.push(receiver);
        n += 1;
    }
    // Create one engine vector per group.
    let mut gossips: Vec<Vec<PreferentialGossip<MultiplexEndpoint<M>, GossipSet, Multiplex>>> =
        Vec::new();
    let mut g: usize = 0;
    while g < num_groups
        invariant
            g <= num_groups,
            gossips@.len() == g,
            forall|k: int| 0 <= k < g ==> #[trigger] gossips@[k]@.len() == 0,
        decreases num_groups - g,
    {
        gossips.push(Vec::new());
        g += 1;
    }
    // Deal each node to its group, with its random peers split by role.
    let mut i: usize = 0;
    while i < num_nodes
        invariant
            i <= num_nodes,
            num_nodes >= 1,
            num_groups >= 1,
            peers_per_node <= num_nodes - 1,
            senders@.len() == num_groups,
            gossips@.len() == num_groups,
            forall|k: int|
                0 <= k < num_groups ==> #[trigger] gossips@[k]@.len() == spec_group_size(
                    i as int,
                    num_groups as int,
                    k,
                ),
            forall|k: int, m: int|
                #![trigger gossips@[k]@[m]]
                0 <= k < num_groups && 0 <= m < gossips@[k]@.len() ==> {
                    &&& gossips@[k]@[m].primary == (m * num_groups + k < num_primaries)
                    &&& gossips@[k]@[m].primaries@.len() + gossips@[k]@[m].secondaries@.len()
                        == peers_per_node
                    &&& gossips@[k]@[m].fanout == fanout
                    &&& gossips@[k]@[m].log() == Map::<u128, SeenCount>::empty()
                    &&& gossips@[k]@[m].data@ == Map::<u64, (nat, nat)>::empty()
                },
        decreases num_nodes - i,
    {
        // Draw the node's peers; turn each global index into an endpoint
        // and split the endpoints by the peer's role.
        let primary = i < num_primaries;
        let peer_indices = select_peer_indices(num_nodes, i, peers_per_node);
        let mut primaries: Vec<MultiplexEndpoint<M>> = Vec::new();
        let mut secondaries: Vec<MultiplexEndpoint<M>> = Vec::new();
        let mut t: usize = 0;
        while t < peer_indices.len()
            invariant
                t <= peer_indices@.len(),
                num_groups >= 1,
                senders@.len() == num_groups,
                forall|x: int|
                    0 <= x < peer_indices@.len() ==> #[trigger] peer_indices@[x] < num_nodes,
                primaries@.len() + secondaries@.len() == t,
            decreases peer_indices@.len() - t,
        {
            let j = peer_indices[t];
            let info = NodeGroupInfo::for_node(num_groups, j);
            let endpoint = MultiplexEndpoint {
                sender: senders[info.group_index].clone(),
                node_index: info.node_index,
            };
            if j < num_primaries {
                primaries.push(endpoint);
            } else {
                secondaries.push(endpoint);
            }
            t += 1;
        }
        // Deal the node's engine to its group.
        let info = NodeGroupInfo::for_node(num_groups, i);
        proof {
            lemma_group_size_step(i as int, num_groups as int);
        }
        let group = &mut gossips[info.group_index];
        group.push(
            PreferentialGossip::create(
                primaries,
                secondaries,
                primary,
                fanout,
                GossipSet::new(),
                Multiplex,
            ),
        );
        i += 1;
    }
    // Attach the senders and receivers to form the network.
    let ghost dealt = gossips@;
    let mut groups: Vec<LocalPreferentialGossipSetNodeGroup<M>> = Vec::new();
    let mut m: usize = 0;
    while m < num_groups
        invariant
            m <= num_groups,
            senders@.len() == num_groups,
            receivers@.len() == num_groups - m,
            gossips@.len() == num_groups - m,
            gossips@ == dealt.subrange(m as int, num_groups as int),
            dealt.len() == num_groups,
            groups@.len() == m,
            forall|k: int| 0 <= k < m ==> #[trigger] groups@[k].gossips@ == dealt[k]@,
        decreases num_groups - m,
    {
        let gossips_of_group = gossips.remove(0);
        let receiver = receivers.remove(0);
        let sender = senders[m].clone();
        proof {
            assert(gossips@ =~= dealt.subrange(m + 1, num_groups as int));
        }
        groups.push(LocalGossipNodeGroup { gossips: gossips_of_group, receiver, sender });
        m += 1;
    }
    groups
}

} // verus!
