//! Gossip engines for disseminating updates across cooperating nodes.
//!
//! Each node owns a replica of a shared data structure and a gossip engine.
//! A local change enters the network through `update`; incoming rumors are
//! handed to `receive`, which deduplicates them by message identifier and
//! forwards fresh ones to a random subset of peers. Two disciplines are
//! offered: uniform gossip, where all peers are equal, and preferential
//! gossip, where a designated subset of primary nodes hears of updates first.

use vstd::prelude::*;

pub mod channel;
pub mod data;
pub mod goose;
pub mod multiplex;
pub mod net;
pub mod postmessage;

verus! {

use vstd::math::min;

/// The endpoint values behind a batch of endpoint references, in order.
pub open spec fn endpoint_values<P>(endpoints: Seq<&P>) -> Seq<P> {
    endpoints.map_values(|p: &P| *p)
}

/// Delivery mechanism for pushing messages (`M`) to a batch of endpoints (`P`).
///
/// Delivery is fire-and-forget: `Ok` means the transport accepted the
/// message for every endpoint, not that any receiver processed it. Whether
/// a send can fail is the transport's affair, so each implementation says
/// what one call does through `spec_deliver`, its effect description; the
/// default promises nothing.
pub trait Delivery<M, P>: Sized {
    type Error;

    /// What one `deliver` call may do: relates the capability's state
    /// before and after the call to the message, the batch of endpoints
    /// handed over, and the result.
    open spec fn spec_deliver(
        pre: Self,
        post: Self,
        message: M,
        batch: Seq<P>,
        r: Result<(), Self::Error>,
    ) -> bool {
        true
    }

    /// Deliver the message to every endpoint in the batch, in order,
    /// stopping at the first transport failure.
    fn deliver(&mut self, message: &M, endpoints: &Vec<&P>) -> (r: Result<(), Self::Error>)
        ensures
            Self::spec_deliver(*old(self), *final(self), *message, endpoint_values(endpoints@), r),
    ;
}

/// A message that reports a unique identifier used for deduplication.
pub trait Message {
    /// The identifier as a mathematical value.
    spec fn spec_id(self) -> u128;

    /// The unique identifier of the message.
    fn id(&self) -> (r: u128)
        ensures
            r == self.spec_id(),
    ;
}

/// A shared data structure that can be maintained through gossip.
///
/// The view of the replica after an update is a function of the old view
/// and the message alone, so that re-applying messages in any order drives
/// every replica of equal view to equal views again.
pub trait SharedData<M>: View {
    /// What `update` does to the replica's view.
    spec fn spec_update(v: Self::V, message: M) -> Self::V;

    /// Update the data using the data in the given message.
    fn update(&mut self, message: &M)
        ensures
            final(self)@ == Self::spec_update(old(self)@, *message),
    ;
}

/// A gossip mechanism for maintaining shared data and updating it by
/// gossiping with peers. The contracts live on the implementations, where
/// the engine's state is visible.
pub trait Gossip<M, S> {
    type Error;

    /// Indicate that the given message has been received from a peer.
    fn receive(&mut self, message: &M) -> Result<(), Self::Error>;

    /// Update the data by the given message and gossip it.
    fn update(&mut self, message: &M) -> Result<(), Self::Error>;

    /// The underlying data being gossiped about.
    fn data(&self) -> &S;
}

/// How often a node has seen a given message: once, twice, or more.
/// Primary nodes in the preferential discipline route differently on
/// the second sighting.
#[derive(Debug, PartialEq, Eq, Hash, Clone, Copy, Structural)]
pub enum SeenCount {
    Once,
    Twice,
    MoreThanTwice,
}

impl SeenCount {
    /// The saturating successor: `Once -> Twice -> MoreThanTwice -> MoreThanTwice`.
    pub open spec fn spec_increment(self) -> SeenCount {
        match self {
            SeenCount::Once => SeenCount::Twice,
            SeenCount::Twice => SeenCount::MoreThanTwice,
            SeenCount::MoreThanTwice => SeenCount::MoreThanTwice,
        }
    }

    /// Advance the count by one sighting, saturating at `MoreThanTwice`.
    pub fn increment(&mut self)
        ensures
            *final(self) == old(self).spec_increment(),
    {
        match self {
            SeenCount::Once => *self = SeenCount::Twice,
            SeenCount::Twice => *self = SeenCount::MoreThanTwice,
            SeenCount::MoreThanTwice => (),
        }
    }
}

/// The dedup-and-update step shared by `receive` implementations: a fresh
/// identifier is recorded and the replica's view updated; a repeated
/// identifier changes nothing.
pub open spec fn dedup_step<V>(
    seen: Set<u128>,
    data: V,
    id: u128,
    upd: spec_fn(V) -> V,
) -> (Set<u128>, V) {
    if seen.contains(id) {
        (seen, data)
    } else {
        (seen.insert(id), upd(data))
    }
}

/// Dedup idempotence: once an identifier has been processed, processing it
/// again leaves the seen-set and the replica's view unchanged, however many
/// more times it arrives.
pub proof fn lemma_dedup_idempotent<V>(seen: Set<u128>, data: V, id: u128, upd: spec_fn(V) -> V)
    ensures
        ({
            let (seen1, data1) = dedup_step(seen, data, id, upd);
            dedup_step(seen1, data1, id, upd) == (seen1, data1)
        }),
{
    let (seen1, data1) = dedup_step(seen, data, id, upd);
    assert(seen1.contains(id));
    assert(dedup_step(seen1, data1, id, upd) == (seen1, data1));
}

/// Relies on `rand::seq::index::sample`: exactly `amount` distinct indices
/// drawn uniformly from `0..length`, in unspecified order. The callee
/// panics only when `amount > length`, which the precondition rules out.
#[verifier::external_body]
pub(crate) fn sample_distinct_indices(length: usize, amount: usize) -> (r: Vec<usize>)
    requires
        amount <= length,
    ensures
        r@.len() == amount,
        forall|i: int| 0 <= i < r@.len() ==> r@[i] < length,
        forall|i: int, j: int| 0 <= i < j < r@.len() ==> r@[i] != r@[j],
{
    let mut rng = rand::thread_rng();
    rand::seq::index::sample(&mut rng, length, amount).into_vec()
}

/// The batch was drawn from the targets by a sequence of pairwise-distinct
/// indices: sampling without replacement, so no target is picked twice even
/// when two targets happen to be equal values.
pub open spec fn batch_from_distinct_indices<P>(batch: Seq<P>, idx: Seq<int>, targets: Seq<P>) -> bool {
    &&& idx.len() == batch.len()
    &&& forall|k: int|
        0 <= k < idx.len() ==> 0 <= #[trigger] idx[k] < targets.len() && batch[k] == targets[idx[k]]
    &&& forall|k1: int, k2: int| 0 <= k1 < k2 < idx.len() ==> idx[k1] != idx[k2]
}

/// What one fan-out event hands to the delivery capability: exactly
/// `min(fanout, |targets|)` of the targets, each picked at a distinct
/// position, so at most `fanout` sends and every target reached when there
/// are no more than `fanout` of them.
pub open spec fn is_fanout_batch<P>(batch: Seq<P>, targets: Seq<P>, fanout: int) -> bool {
    &&& batch.len() == min(fanout, targets.len() as int)
    &&& exists|idx: Seq<int>| batch_from_distinct_indices(batch, idx, targets)
}

/// Select the batch of endpoints for one fan-out event: a random subset of
/// `targets` of size `fanout`, or all of `targets` when there are no more
/// than `fanout` of them. Every selected endpoint is one of the targets,
/// each picked at a distinct position.
pub fn choose_fanout<'a, P>(targets: &'a Vec<P>, fanout: usize) -> (chosen: Vec<&'a P>)
    ensures
        chosen@.len() == min(fanout as int, targets@.len() as int),
        forall|i: int| #![trigger chosen@[i]] 0 <= i < chosen@.len() ==> targets@.contains(*chosen@[i]),
        is_fanout_batch(endpoint_values(chosen@), targets@, fanout as int),
{
    let k = if fanout < targets.len() {
        fanout
    } else {
        targets.len()
    };
    let indices = sample_distinct_indices(targets.len(), k);
    let mut chosen: Vec<&P> = Vec::new();
    let mut t: usize = 0;
    while t < indices.len()
        invariant
            t <= indices@.len(),
            indices@.len() == k,
            k == min(fanout as int, targets@.len() as int),
            forall|i: int| 0 <= i < indices@.len() ==> indices@[i] < targets@.len(),
            forall|i: int, j: int| 0 <= i < j < indices@.len() ==> indices@[i] != indices@[j],
            chosen@.len() == t,
            forall|i: int|
                #![trigger chosen@[i]]
                0 <= i < chosen@.len() ==> targets@.contains(*chosen@[i]) && chosen@[i]
                    == &targets@[indices@[i] as int],
        decreases indices@.len() - t,
    {
        let idx = indices[t];
        chosen.push(&targets[idx]);
        assert(targets@.contains(*chosen@[t as int])) by {
            assert(*chosen@[t as int] == targets@[idx as int]);
        }
        t += 1;
    }
    proof {
        let batch = endpoint_values(chosen@);
        let picked = indices@.map_values(|u: usize| u as int);
        assert(batch_from_distinct_indices(batch, picked, targets@));
    }
    chosen
}

/// Gossip the given `message` to a random subset of size `fanout` of
/// `targets`: the delivery capability is handed one fan-out batch (at most
/// `fanout` endpoints, distinct picks from `targets`) and steps by its own
/// effect description; whether delivery succeeds is the capability's
/// affair.
pub fn gossip<P, D, M>(
    delivery: &mut D,
    message: &M,
    targets: &Vec<P>,
    fanout: usize,
) -> (r: Result<(), D::Error>) where D: Delivery<M, P>
    ensures
        exists|batch: Seq<P>|
            #[trigger] is_fanout_batch(batch, targets@, fanout as int) && D::spec_deliver(
                *old(delivery),
                *final(delivery),
                *message,
                batch,
                r,
            ),
{
    let chosen = choose_fanout(targets, fanout);
    let r = delivery.deliver(message, &chosen);
    proof {
        let batch = endpoint_values(chosen@);
        assert(is_fanout_batch(batch, targets@, fanout as int) && D::spec_deliver(
            *old(delivery),
            *final(delivery),
            *message,
            batch,
            r,
        ));
    }
    r
}

/// A gossip mechanism that treats all peers equally in updating them.
pub struct UniformGossip<P, S, D> {
    /// The set of peers.
    pub peers: Vec<P>,
    /// Set of all message identifiers seen so far.
    pub seen_messages: vstd::hash_set::HashSetWithView<u128>,
    /// The delivery mechanism to send gossip messages.
    pub delivery: D,
    /// The data being gossiped about.
    pub data: S,
    /// How many peers to reach out to when gossiping.
    pub fanout: usize,
}

impl<P, S, D> UniformGossip<P, S, D> {
    /// The set of message identifiers this engine has already processed.
    pub open spec fn seen(self) -> Set<u128> {
        self.seen_messages@
    }

    /// Create a new uniform gossip mechanism that will gossip to the given
    /// set of `peers`, using the given `delivery` mechanism and maintaining
    /// the given `data`. Each message is forwarded to a random subset of
    /// peers of size `fanout`.
    pub fn create(peers: Vec<P>, fanout: usize, data: S, delivery: D) -> (g: UniformGossip<
        P,
        S,
        D,
    >)
        ensures
            g.peers == peers,
            g.fanout == fanout,
            g.data == data,
            g.delivery == delivery,
            g.seen() == Set::<u128>::empty(),
    {
        broadcast use vstd::std_specs::hash::group_hash_axioms;

        UniformGossip {
            peers,
            seen_messages: vstd::hash_set::HashSetWithView::new(),
            delivery,
            data,
            fanout,
        }
    }
}

impl<P, S, D, M> Gossip<M, S> for UniformGossip<P, S, D> where
    M: Message,
    D: Delivery<M, P>,
    S: SharedData<M>,
 {
    type Error = D::Error;

    /// Process an incoming rumor. A fresh identifier is recorded, applied
    /// to the replica and forwarded to at most `fanout` peers; a repeated
    /// one is dropped silently, leaving the whole engine untouched.
    fn receive(&mut self, message: &M) -> (r: Result<(), D::Error>)
        ensures
            (final(self).seen(), final(self).data@) == dedup_step(
                old(self).seen(),
                old(self).data@,
                message.spec_id(),
                (|v: S::V| S::spec_update(v, *message)),
            ),
            final(self).peers == old(self).peers,
            final(self).fanout == old(self).fanout,
            old(self).seen().contains(message.spec_id()) ==> *final(self) == *old(self) && r
                is Ok,
            !old(self).seen().contains(message.spec_id()) ==> (exists|batch: Seq<P>|
                #[trigger] is_fanout_batch(batch, old(self).peers@, old(self).fanout as int)
                    && D::spec_deliver(
                    old(self).delivery,
                    final(self).delivery,
                    *message,
                    batch,
                    r,
                )),
    {
        let id = message.id();
        // Only pass the message on the first time it arrives; otherwise it
        // is a repeat, so throw it away without touching anything.
        if self.seen_messages.contains(&id) {
            Ok(())
        } else {
            // First sighting: mark it as seen, update the data and pass
            // the rumor on.
            self.seen_messages.insert(id);
            self.data.update(message);
            gossip(&mut self.delivery, message, &self.peers, self.fanout)
        }
    }

    /// Originate a message locally: apply it to the replica, record its
    /// identifier as seen, and gossip it to at most `fanout` peers.
    fn update(&mut self, message: &M) -> (r: Result<(), D::Error>)
        ensures
            final(self).seen() == old(self).seen().insert(message.spec_id()),
            final(self).data@ == S::spec_update(old(self).data@, *message),
            final(self).peers == old(self).peers,
            final(self).fanout == old(self).fanout,
            exists|batch: Seq<P>|
                #[trigger] is_fanout_batch(batch, old(self).peers@, old(self).fanout as int)
                    && D::spec_deliver(
                    old(self).delivery,
                    final(self).delivery,
                    *message,
                    batch,
                    r,
                ),
    {
        // Update my data.
        self.data.update(message);
        // Mark it as seen.
        self.seen_messages.insert(message.id());
        // Pass it on to my peers.
        gossip(&mut self.delivery, message, &self.peers, self.fanout)
    }

    /// Read-only view of the replica.
    fn data(&self) -> (d: &S)
        ensures
            d == &self.data,
    {
        &self.data
    }
}

/// Which peer list a preferential node forwards a rumor to.
#[derive(Debug, PartialEq, Eq, Clone, Copy, Structural)]
pub enum ForwardTarget {
    /// Forward to the primary peers.
    Primaries,
    /// Forward to the secondary peers.
    Secondaries,
}

/// The preferential routing table, as a function of the node's own role and
/// of how often it has now seen the message. A primary seeds the other
/// primaries on first sight and bleeds the rumor to the secondaries on the
/// second; a secondary seeds the other secondaries on first sight; every
/// later sighting is dropped.
pub open spec fn forward_choice(primary: bool, count: SeenCount) -> Option<ForwardTarget> {
    if primary {
        match count {
            SeenCount::Once => Some(ForwardTarget::Primaries),
            SeenCount::Twice => Some(ForwardTarget::Secondaries),
            SeenCount::MoreThanTwice => None,
        }
    } else {
        if count == SeenCount::Once {
            Some(ForwardTarget::Secondaries)
        } else {
            None
        }
    }
}

/// Decide where to forward a rumor, per the preferential routing table.
pub fn forward_targets(primary: bool, count: SeenCount) -> (t: Option<ForwardTarget>)
    ensures
        t == forward_choice(primary, count),
{
    if primary {
        match count {
            SeenCount::Once => Some(ForwardTarget::Primaries),
            SeenCount::Twice => Some(ForwardTarget::Secondaries),
            SeenCount::MoreThanTwice => None,
        }
    } else if count == SeenCount::Once {
        Some(ForwardTarget::Secondaries)
    } else {
        None
    }
}

/// The preferential routing table checked pair by pair: one claim for each
/// combination of role and seen count.
pub proof fn lemma_forward_table()
    ensures
        forward_choice(true, SeenCount::Once) == Some(ForwardTarget::Primaries),
        forward_choice(true, SeenCount::Twice) == Some(ForwardTarget::Secondaries),
        forward_choice(true, SeenCount::MoreThanTwice) == None::<ForwardTarget>,
        forward_choice(false, SeenCount::Once) == Some(ForwardTarget::Secondaries),
        forward_choice(false, SeenCount::Twice) == None::<ForwardTarget>,
        forward_choice(false, SeenCount::MoreThanTwice) == None::<ForwardTarget>,
{
}

/// The seen count an engine's log assigns to a message identifier after one
/// more sighting: `Once` for an unknown identifier, the saturating
/// successor otherwise.
pub open spec fn next_count(log: Map<u128, SeenCount>, id: u128) -> SeenCount {
    if log.dom().contains(id) {
        log[id].spec_increment()
    } else {
        SeenCount::Once
    }
}

/// Replica updates are not repeated: once an identifier is in the log, a
/// further sighting never yields `Once` again, so a preferential engine
/// mutates its replica at most once per message identifier, however often
/// the message is redelivered.
pub proof fn lemma_replica_updated_once(log: Map<u128, SeenCount>, id: u128)
    ensures
        next_count(log.insert(id, next_count(log, id)), id) != SeenCount::Once,
{
}

/// A gossip mechanism that treats a subset of peers as primaries that
/// should get updates faster than the rest.
pub struct PreferentialGossip<P, S, D> {
    /// The endpoints for all the primary peers.
    pub primaries: Vec<P>,
    /// The endpoints for all the rest of the peers (not primary).
    pub secondaries: Vec<P>,
    /// Count of how often each message has been seen, by identifier.
    pub message_log: vstd::hash_map::HashMapWithView<u128, SeenCount>,
    /// Whether this node itself is primary or secondary.
    pub primary: bool,
    /// The delivery mechanism to send gossip messages.
    pub delivery: D,
    /// The data being gossiped about.
    pub data: S,
    /// How many peers to reach out to when gossiping.
    pub fanout: usize,
}

impl<P, S, D> PreferentialGossip<P, S, D> {
    /// The seen counts recorded so far, by message identifier.
    pub open spec fn log(self) -> Map<u128, SeenCount> {
        self.message_log@
    }

    /// Create a new preferential gossip mechanism for a node whose role is
    /// given by `primary`, with the node's peers split into `primaries` and
    /// `secondaries`. Each forwarding event reaches a random subset of the
    /// chosen peer list of size `fanout`.
    pub fn create(
        primaries: Vec<P>,
        secondaries: Vec<P>,
        primary: bool,
        fanout: usize,
        data: S,
        delivery: D,
    ) -> (g: PreferentialGossip<P, S, D>)
        ensures
            g.primaries == primaries,
            g.secondaries == secondaries,
            g.primary == primary,
            g.fanout == fanout,
            g.data == data,
            g.delivery == delivery,
            g.log() == Map::<u128, SeenCount>::empty(),
    {
        broadcast use vstd::std_specs::hash::group_hash_axioms;

        PreferentialGossip {
            primaries,
            secondaries,
            message_log: vstd::hash_map::HashMapWithView::new(),
            primary,
            delivery,
            data,
            fanout,
        }
    }

    /// Record one more sighting of the given identifier and return the
    /// post-increment count.
    fn increment_seen(&mut self, message_id: u128) -> (c: SeenCount)
        ensures
            c == next_count(old(self).log(), message_id),
            final(self).log() == old(self).log().insert(message_id, c),
            final(self).primaries == old(self).primaries,
            final(self).secondaries == old(self).secondaries,
            final(self).primary == old(self).primary,
            final(self).delivery == old(self).delivery,
            final(self).data == old(self).data,
            final(self).fanout == old(self).fanout,
    {
        let count = match self.message_log.get(&message_id) {
            Some(c) => {
                let mut c = *c;
                c.increment();
                c
            },
            None => SeenCount::Once,
        };
        self.message_log.insert(message_id, count);
        count
    }
}

impl<P, S, D, M> Gossip<M, S> for PreferentialGossip<P, S, D> where
    M: Message,
    D: Delivery<M, P>,
    S: SharedData<M>,
 {
    type Error = D::Error;

    /// Process an incoming rumor. The sighting is recorded in the message
    /// log; the replica is updated only on first sight; the rumor is then
    /// forwarded to the peer list that the routing table picks for this
    /// node's role and the new count, or dropped when it picks none.
    fn receive(&mut self, message: &M) -> (r: Result<(), D::Error>)
        ensures
            final(self).log() == old(self).log().insert(
                message.spec_id(),
                next_count(old(self).log(), message.spec_id()),
            ),
            final(self).data@ == (if next_count(old(self).log(), message.spec_id())
                == SeenCount::Once {
                S::spec_update(old(self).data@, *message)
            } else {
                old(self).data@
            }),
            final(self).primaries == old(self).primaries,
            final(self).secondaries == old(self).secondaries,
            final(self).primary == old(self).primary,
            final(self).fanout == old(self).fanout,
            ({
                let count = next_count(old(self).log(), message.spec_id());
                match forward_choice(old(self).primary, count) {
                    Some(ForwardTarget::Primaries) => exists|batch: Seq<P>|
                        #[trigger] is_fanout_batch(
                            batch,
                            old(self).primaries@,
                            old(self).fanout as int,
                        ) && D::spec_deliver(
                            old(self).delivery,
                            final(self).delivery,
                            *message,
                            batch,
                            r,
                        ),
                    Some(ForwardTarget::Secondaries) => exists|batch: Seq<P>|
                        #[trigger] is_fanout_batch(
                            batch,
                            old(self).secondaries@,
                            old(self).fanout as int,
                        ) && D::spec_deliver(
                            old(self).delivery,
                            final(self).delivery,
                            *message,
                            batch,
                            r,
                        ),
                    None => final(self).delivery == old(self).delivery && r is Ok,
                }
            }),
    {
        // Update the count of how often this message has been seen.
        let count_seen = self.increment_seen(message.id());
        if count_seen == SeenCount::Once {
            // First sighting: update the data.
            self.data.update(message);
        }
        // Forward to whichever peer list the routing table picks for this
        // role and count, if any.
        match forward_targets(self.primary, count_seen) {
            Some(ForwardTarget::Primaries) => gossip(
                &mut self.delivery,
                message,
                &self.primaries,
                self.fanout,
            ),
            Some(ForwardTarget::Secondaries) => gossip(
                &mut self.delivery,
                message,
                &self.secondaries,
                self.fanout,
            ),
            None => Ok(()),
        }
    }

    /// Originate a message locally: apply it to the replica, record the
    /// sighting, and forward to the primary peers. The originator seeds the
    /// primaries first whatever its own role.
    fn update(&mut self, message: &M) -> (r: Result<(), D::Error>)
        ensures
            final(self).data@ == S::spec_update(old(self).data@, *message),
            final(self).log() == old(self).log().insert(
                message.spec_id(),
                next_count(old(self).log(), message.spec_id()),
            ),
            final(self).primaries == old(self).primaries,
            final(self).secondaries == old(self).secondaries,
            final(self).primary == old(self).primary,
            final(self).fanout == old(self).fanout,
            exists|batch: Seq<P>|
                #[trigger] is_fanout_batch(batch, old(self).primaries@, old(self).fanout as int)
                    && D::spec_deliver(
                    old(self).delivery,
                    final(self).delivery,
                    *message,
                    batch,
                    r,
                ),
    {
        self.data.update(message);
        self.increment_seen(message.id());
        gossip(&mut self.delivery, message, &self.primaries, self.fanout)
    }

    /// Read-only view of the replica.
    fn data(&self) -> (d: &S)
        ensures
            d == &self.data,
    {
        &self.data
    }
}

} // verus!
