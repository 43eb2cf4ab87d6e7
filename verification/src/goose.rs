//! A single-threaded cooperative gossip network, simulating a cult of goose
//! watchers trying to agree on the color of a magic goose by adding and
//! removing primary colors in a shared gossip set.
//!
//! Every watcher owns an engine whose peers are plain watcher indices and
//! whose delivery buffers outbound sends in an outbox; a `tick` lets each
//! watcher process one message from its mailbox and routes everything the
//! engines sent. This is the deterministic, cooperative deployment of the
//! engines: no threads, no channels.

use vstd::prelude::*;

verus! {

use crate::data::spec_add_item;
use crate::data::spec_apply_action;
use crate::data::spec_is_present;
use crate::data::spec_remove_item;
use crate::data::GossipSet;
use crate::data::GossipSetAction;
use crate::data::GossipSetMessage;
use crate::dedup_step;
use crate::endpoint_values;
use crate::is_fanout_batch;
use crate::Delivery;
use crate::Gossip;
use crate::UniformGossip;

/// A primary color that can be added to or removed from the shared set for
/// the guess of the true color of the magic goose.
#[derive(Debug, Clone, Copy, PartialEq, Eq, Hash, Structural)]
pub enum PrimaryColor {
    Red,
    Blue,
    Green,
}

/// The element a color is stored as in the gossip set.
pub open spec fn spec_color_key(color: PrimaryColor) -> u64 {
    match color {
        PrimaryColor::Red => 0,
        PrimaryColor::Blue => 1,
        PrimaryColor::Green => 2,
    }
}

/// The element a color is stored as in the gossip set.
pub fn color_key(color: PrimaryColor) -> (k: u64)
    ensures
        k == spec_color_key(color),
{
    match color {
        PrimaryColor::Red => 0,
        PrimaryColor::Blue => 1,
        PrimaryColor::Green => 2,
    }
}

/// The color a set of primary colors mixes to, as an RGB word: one byte per
/// primary color present.
pub open spec fn spec_color_for(v: Map<u64, (nat, nat)>) -> u32 {
    (if spec_is_present(v, spec_color_key(PrimaryColor::Red)) {
        0xFF0000u32
    } else {
        0u32
    }) | (if spec_is_present(v, spec_color_key(PrimaryColor::Green)) {
        0x00FF00u32
    } else {
        0u32
    }) | (if spec_is_present(v, spec_color_key(PrimaryColor::Blue)) {
        0x0000FFu32
    } else {
        0u32
    })
}

/// Convert a set of primary colors into the RGB word it mixes to.
pub fn color_for_set(color_set: &GossipSet) -> (color: u32)
    ensures
        color == spec_color_for(color_set@),
{
    let red: u32 = if color_set.is_present(&color_key(PrimaryColor::Red)) {
        0xFF0000
    } else {
        0
    };
    let green: u32 = if color_set.is_present(&color_key(PrimaryColor::Green)) {
        0x00FF00
    } else {
        0
    };
    let blue: u32 = if color_set.is_present(&color_key(PrimaryColor::Blue)) {
        0x0000FF
    } else {
        0
    };
    red | green | blue
}

/// The outbox entries one deliver call appends: the message, addressed to
/// each endpoint of the batch in order.
pub open spec fn outbox_entries<M>(batch: Seq<usize>, message: M) -> Seq<(usize, M)> {
    batch.map_values(|dest: usize| (dest, message))
}

/// The second sequence is the first extended by some (possibly empty)
/// suffix of later arrivals.
pub open spec fn seq_extends(pre: Seq<GossipSetMessage>, post: Seq<GossipSetMessage>) -> bool {
    exists|extra: Seq<GossipSetMessage>| post == #[trigger] (pre + extra)
}

/// Appending a suffix extends a sequence.
proof fn lemma_seq_extends_intro(
    pre: Seq<GossipSetMessage>,
    post: Seq<GossipSetMessage>,
    extra: Seq<GossipSetMessage>,
)
    requires
        post =~= pre + extra,
    ensures
        seq_extends(pre, post),
{
    assert(post == pre + extra);
}

/// Extension composes: extending an extension extends the original.
proof fn lemma_seq_extends_trans(
    first: Seq<GossipSetMessage>,
    second: Seq<GossipSetMessage>,
    third: Seq<GossipSetMessage>,
)
    requires
        seq_extends(first, second),
        seq_extends(second, third),
    ensures
        seq_extends(first, third),
{
    let left = choose|extra: Seq<GossipSetMessage>| second == #[trigger] (first + extra);
    let right = choose|extra: Seq<GossipSetMessage>| third == #[trigger] (second + extra);
    lemma_seq_extends_intro(first, third, left + right);
}

/// What one processed message does to a watcher's engine: the dedup step of
/// `receive`, applying the message's action on first sight of its
/// identifier and nothing on a repeat.
pub open spec fn spec_engine_step(
    seen: Set<u128>,
    data: Map<u64, (nat, nat)>,
    m: GossipSetMessage,
) -> (Set<u128>, Map<u64, (nat, nat)>) {
    dedup_step(seen, data, m.id, |v: Map<u64, (nat, nat)>| spec_apply_action(v, m.action))
}

/// The mailboxes after a sequence of buffered sends has been routed: each
/// entry appends its message to the mailbox of the watcher it is addressed
/// to, in order; an entry addressed outside the range is dropped.
pub open spec fn spec_route(
    mailboxes: Seq<Seq<GossipSetMessage>>,
    entries: Seq<(usize, GossipSetMessage)>,
) -> Seq<Seq<GossipSetMessage>>
    decreases entries.len(),
{
    if entries.len() == 0 {
        mailboxes
    } else {
        let routed = spec_route(mailboxes, entries.drop_last());
        let entry = entries.last();
        if entry.0 < routed.len() {
            routed.update(entry.0 as int, routed[entry.0 as int].push(entry.1))
        } else {
            routed
        }
    }
}

/// Routing only appends: it keeps the number of mailboxes, and every
/// mailbox afterwards is the old mailbox extended by some suffix.
pub proof fn lemma_route_extends(
    mailboxes: Seq<Seq<GossipSetMessage>>,
    entries: Seq<(usize, GossipSetMessage)>,
)
    ensures
        spec_route(mailboxes, entries).len() == mailboxes.len(),
        forall|j: int|
            0 <= j < mailboxes.len() ==> #[trigger] seq_extends(
                mailboxes[j],
                spec_route(mailboxes, entries)[j],
            ),
    decreases entries.len(),
{
    if entries.len() == 0 {
        assert forall|j: int| 0 <= j < mailboxes.len() implies #[trigger] seq_extends(
            mailboxes[j],
            spec_route(mailboxes, entries)[j],
        ) by {
            lemma_seq_extends_intro(
                mailboxes[j],
                spec_route(mailboxes, entries)[j],
                Seq::<GossipSetMessage>::empty(),
            );
        }
    } else {
        lemma_route_extends(mailboxes, entries.drop_last());
        let routed = spec_route(mailboxes, entries.drop_last());
        let entry = entries.last();
        assert forall|j: int| 0 <= j < mailboxes.len() implies #[trigger] seq_extends(
            mailboxes[j],
            spec_route(mailboxes, entries)[j],
        ) by {
            assert(seq_extends(mailboxes[j], routed[j]));
            let prior = choose|extra: Seq<GossipSetMessage>|
                routed[j] == #[trigger] (mailboxes[j] + extra);
            if entry.0 < routed.len() && j == entry.0 {
                assert((mailboxes[j] + prior).push(entry.1) =~= mailboxes[j] + prior.push(
                    entry.1,
                ));
                lemma_seq_extends_intro(
                    mailboxes[j],
                    spec_route(mailboxes, entries)[j],
                    prior.push(entry.1),
                );
            } else {
                lemma_seq_extends_intro(mailboxes[j], spec_route(mailboxes, entries)[j], prior);
            }
        }
    }
}

/// Routing one message to pairwise-distinct watcher mailboxes appends it to
/// exactly those mailboxes, once each, and leaves every other mailbox
/// unchanged.
pub proof fn lemma_route_distinct(
    mailboxes: Seq<Seq<GossipSetMessage>>,
    batch: Seq<usize>,
    message: GossipSetMessage,
)
    requires
        mailboxes.len() <= usize::MAX,
        forall|k: int| 0 <= k < batch.len() ==> #[trigger] batch[k] < mailboxes.len(),
        forall|k1: int, k2: int| 0 <= k1 < k2 < batch.len() ==> batch[k1] != batch[k2],
    ensures
        spec_route(mailboxes, outbox_entries(batch, message)).len() == mailboxes.len(),
        forall|j: int|
            0 <= j < mailboxes.len() ==> #[trigger] spec_route(
                mailboxes,
                outbox_entries(batch, message),
            )[j] == (if batch.contains(j as usize) {
                mailboxes[j].push(message)
            } else {
                mailboxes[j]
            }),
    decreases batch.len(),
{
    let entries = outbox_entries(batch, message);
    if batch.len() == 0 {
        assert(entries.len() == 0);
        assert forall|j: int| 0 <= j < mailboxes.len() implies #[trigger] spec_route(
            mailboxes,
            entries,
        )[j] == (if batch.contains(j as usize) {
            mailboxes[j].push(message)
        } else {
            mailboxes[j]
        }) by {
            assert(!batch.contains(j as usize));
        }
    } else {
        let head = batch.drop_last();
        let dest = batch.last();
        lemma_route_distinct(mailboxes, head, message);
        assert(entries.drop_last() =~= outbox_entries(head, message));
        assert(entries.last() == (dest, message));
        assert(!head.contains(dest)) by {
            if head.contains(dest) {
                let k = choose|k: int| 0 <= k < head.len() && head[k] == dest;
                assert(batch[k] == batch[batch.len() - 1]);
            }
        }
        assert forall|j: int| 0 <= j < mailboxes.len() implies #[trigger] spec_route(
            mailboxes,
            entries,
        )[j] == (if batch.contains(j as usize) {
            mailboxes[j].push(message)
        } else {
            mailboxes[j]
        }) by {
            if j == dest {
                assert(batch.contains(dest));
            } else {
                if batch.contains(j as usize) {
                    let k = choose|k: int| 0 <= k < batch.len() && batch[k] == j as usize;
                    assert(k < batch.len() - 1) by {
                        if k == batch.len() - 1 {
                            assert(batch[k] == dest);
                            assert(j as usize == dest);
                            assert(j == dest as int);
                        }
                    }
                    assert(head[k] == j as usize);
                    assert(head.contains(j as usize));
                } else {
                    assert(!head.contains(j as usize)) by {
                        if head.contains(j as usize) {
                            let k = choose|k: int| 0 <= k < head.len() && head[k] == j as usize;
                            assert(batch[k] == j as usize);
                        }
                    }
                }
            }
        }
    }
}

/// Routing at least one entry addressed inside the range leaves that
/// entry's mailbox non-empty.
proof fn lemma_route_delivers_first(
    mailboxes: Seq<Seq<GossipSetMessage>>,
    entries: Seq<(usize, GossipSetMessage)>,
)
    requires
        entries.len() > 0,
        (entries[0].0 as int) < mailboxes.len(),
    ensures
        spec_route(mailboxes, entries).len() == mailboxes.len(),
        spec_route(mailboxes, entries)[entries[0].0 as int].len() > 0,
    decreases entries.len(),
{
    lemma_route_extends(mailboxes, entries);
    if entries.len() == 1 {
        assert(entries.drop_last().len() == 0);
    } else {
        lemma_route_delivers_first(mailboxes, entries.drop_last());
        assert(entries.drop_last()[0] == entries[0]);
        lemma_route_extends(mailboxes, entries.drop_last());
    }
}

/// The peer list of one watcher in a fully-connected cult: every watcher
/// index except the watcher's own, in order.
pub open spec fn other_indices(num_watchers: int, watcher: int) -> Seq<usize> {
    Seq::new(
        (num_watchers - 1) as nat,
        |p: int|
            if p < watcher {
                p as usize
            } else {
                (p + 1) as usize
            },
    )
}

/// Self-exclusion of the fully-connected peer lists: the peers of a
/// watcher are pairwise distinct, all within the cult, and never the
/// watcher itself.
pub proof fn lemma_other_indices_distinct(num_watchers: int, watcher: int)
    requires
        0 <= watcher < num_watchers,
        num_watchers <= usize::MAX,
    ensures
        other_indices(num_watchers, watcher).len() == num_watchers - 1,
        forall|p: int|
            0 <= p < num_watchers - 1 ==> #[trigger] other_indices(num_watchers, watcher)[p]
                < num_watchers && other_indices(num_watchers, watcher)[p] != watcher,
        forall|p1: int, p2: int|
            0 <= p1 < p2 < num_watchers - 1 ==> other_indices(num_watchers, watcher)[p1]
                != other_indices(num_watchers, watcher)[p2],
{
}

/// A delivery capability that buffers outbound sends instead of performing
/// them: each accepted message is logged with the index of the watcher it
/// is addressed to. A driver routes the log into mailboxes afterwards.
pub struct Outbox<M> {
    /// The buffered sends, in order of acceptance.
    pub log: Vec<(usize, M)>,
}

impl<M> Outbox<M> {
    /// An empty outbox.
    pub fn new() -> (o: Outbox<M>)
        ensures
            o.log@ == Seq::<(usize, M)>::empty(),
    {
        Outbox { log: Vec::new() }
    }
}

impl<M: Copy> Delivery<M, usize> for Outbox<M> {
    type Error = ();

    /// Buffering never fails: the log grows by exactly the batch, one entry
    /// per endpoint carrying the message, in order.
    open spec fn spec_deliver(
        pre: Outbox<M>,
        post: Outbox<M>,
        message: M,
        batch: Seq<usize>,
        r: Result<(), ()>,
    ) -> bool {
        &&& r is Ok
        &&& post.log@ == pre.log@ + outbox_entries(batch, message)
    }

    /// Buffering never fails; the log grows by exactly one entry per
    /// endpoint, carrying the message and the endpoint's index.
    fn deliver(&mut self, message: &M, endpoints: &Vec<&usize>) -> (r: Result<(), ()>)
        ensures
            r is Ok,
            final(self).log@ == old(self).log@ + outbox_entries(
                endpoint_values(endpoints@),
                *message,
            ),
    {
        let mut i: usize = 0;
        while i < endpoints.len()
            invariant
                i <= endpoints@.len(),
                self.log@.len() == old(self).log@.len() + i,
                forall|k: int|
                    0 <= k < old(self).log@.len() ==> #[trigger] self.log@[k] == old(self).log@[k],
                forall|k: int|
                    0 <= k < i ==> #[trigger] self.log@[old(self).log@.len() + k] == (
                        *endpoints@[k],
                        *message,
                    ),
            decreases endpoints@.len() - i,
        {
            let dest = *endpoints[i];
            self.log.push((dest, *message));
            i += 1;
        }
        proof {
            let appended = old(self).log@ + outbox_entries(endpoint_values(endpoints@), *message);
            assert forall|idx: int| 0 <= idx < self.log@.len() implies self.log@[idx]
                == appended[idx] by {
                if idx >= old(self).log@.len() {
                    let k = idx - old(self).log@.len();
                    assert(self.log@[old(self).log@.len() + k] == (*endpoints@[k], *message));
                }
            }
            assert(self.log@ =~= appended);
        }
        Ok(())
    }
}

/// The engine a goose watcher runs: uniform gossip over the color set, with
/// watcher indices as peer tokens and an outbox as delivery.
pub type GooseGossip = UniformGossip<usize, GossipSet, Outbox<GossipSetMessage>>;

/// The entire cult of goose watchers: per watcher an engine, a mailbox of
/// messages waiting to be processed, and the current guess of the goose's
/// color, kept as a flat buffer for display.
pub struct GooseCult {
    /// The current color guess of each watcher, derivable from the engines
    /// but kept materialized for display.
    watcher_colors: Vec<u32>,
    /// The gossip engine of each watcher.
    engines: Vec<GooseGossip>,
    /// The pending messages of each watcher.
    mailboxes: Vec<Vec<GossipSetMessage>>,
}

impl GooseCult {
    /// Well-formedness: one engine, mailbox and color slot per watcher;
    /// every engine's peers are indices of other watchers, never the
    /// watcher's own; and between operations every outbox has been routed,
    /// so all are empty.
    pub closed spec fn wf(self) -> bool {
        &&& self.engines@.len() == self.watcher_colors@.len()
        &&& self.engines@.len() == self.mailboxes@.len()
        &&& forall|i: int, p: int|
            #![trigger self.engines@[i].peers@[p]]
            0 <= i < self.engines@.len() && 0 <= p < self.engines@[i].peers@.len()
                ==> self.engines@[i].peers@[p] < self.engines@.len() && self.engines@[i].peers@[p]
                != i
        &&& forall|i: int|
            0 <= i < self.engines@.len() ==> (#[trigger] self.engines@[i]).delivery.log@.len() == 0
    }

    /// The number of watchers in the cult.
    pub closed spec fn spec_num_watchers(self) -> int {
        self.engines@.len() as int
    }

    /// The color guesses, one per watcher.
    pub closed spec fn spec_colors(self) -> Seq<u32> {
        self.watcher_colors@
    }

    /// The replica view of the given watcher.
    pub closed spec fn spec_data(self, watcher: int) -> Map<u64, (nat, nat)> {
        self.engines@[watcher].data@
    }

    /// The message identifiers the given watcher has processed.
    pub closed spec fn spec_seen(self, watcher: int) -> Set<u128> {
        self.engines@[watcher].seen()
    }

    /// The peer list of the given watcher, as watcher indices.
    pub closed spec fn spec_peers(self, watcher: int) -> Seq<usize> {
        self.engines@[watcher].peers@
    }

    /// The fanout of the given watcher's engine.
    pub closed spec fn spec_fanout(self, watcher: int) -> usize {
        self.engines@[watcher].fanout
    }

    /// All the mailboxes, as message sequences.
    pub closed spec fn spec_mailboxes(self) -> Seq<Seq<GossipSetMessage>> {
        self.mailboxes@.map_values(|mailbox: Vec<GossipSetMessage>| mailbox@)
    }

    /// The given watcher's mailbox, front first.
    pub closed spec fn spec_mailbox(self, watcher: int) -> Seq<GossipSetMessage> {
        self.spec_mailboxes()[watcher]
    }

    /// Whether any watcher has a message waiting in its mailbox.
    pub closed spec fn spec_pending(self) -> bool {
        exists|i: int| 0 <= i < self.mailboxes@.len() && self.mailboxes@[i].len() > 0
    }

    /// The observable shape of a well-formed cult: one mailbox and one
    /// color slot per watcher, per-watcher mailboxes are the entries of the
    /// mailbox table, peers are indices of other watchers, and a non-empty
    /// mailbox means the cult has work pending.
    pub proof fn lemma_wf_shape(self)
        requires
            self.wf(),
        ensures
            self.spec_mailboxes().len() == self.spec_num_watchers(),
            self.spec_colors().len() == self.spec_num_watchers(),
            forall|w: int| #[trigger] self.spec_mailbox(w) == self.spec_mailboxes()[w],
            forall|w: int, p: int|
                #![trigger self.spec_peers(w)[p]]
                0 <= w < self.spec_num_watchers() && 0 <= p < self.spec_peers(w).len()
                    ==> self.spec_peers(w)[p] < self.spec_num_watchers() && self.spec_peers(w)[p]
                    != w,
            self.spec_pending() <==> exists|w: int|
                0 <= w < self.spec_num_watchers() && #[trigger] self.spec_mailbox(w).len() > 0,
    {
        assert(self.spec_pending() <==> exists|w: int|
            0 <= w < self.spec_num_watchers() && #[trigger] self.spec_mailbox(w).len() > 0) by {
            if self.spec_pending() {
                let w = choose|w: int|
                    0 <= w < self.mailboxes@.len() && self.mailboxes@[w].len() > 0;
                assert(self.spec_mailbox(w).len() > 0);
            }
            if exists|w: int|
                0 <= w < self.spec_num_watchers() && #[trigger] self.spec_mailbox(w).len() > 0 {
                let w = choose|w: int|
                    0 <= w < self.spec_num_watchers() && #[trigger] self.spec_mailbox(w).len()
                        > 0;
                assert(self.mailboxes@[w].len() > 0);
            }
        }
    }
}

/// What one tick does at one watcher. A watcher whose mailbox held a
/// message when the tick began pops exactly that front message: its engine
/// takes the dedup step on it, its color word is recomputed from its
/// replica, and its mailbox keeps the rest plus whatever other watchers
/// routed to it during the tick. A watcher whose mailbox was empty when the
/// tick began is untouched; messages routed to it during the tick wait in
/// its mailbox for the next one.
pub open spec fn spec_tick_step(pre: GooseCult, post: GooseCult, watcher: int) -> bool {
    if pre.spec_mailbox(watcher).len() > 0 {
        let m = pre.spec_mailbox(watcher)[0];
        &&& (post.spec_seen(watcher), post.spec_data(watcher)) == spec_engine_step(
            pre.spec_seen(watcher),
            pre.spec_data(watcher),
            m,
        )
        &&& post.spec_colors()[watcher] == spec_color_for(post.spec_data(watcher))
        &&& seq_extends(pre.spec_mailbox(watcher).skip(1), post.spec_mailbox(watcher))
    } else {
        &&& post.spec_seen(watcher) == pre.spec_seen(watcher)
        &&& post.spec_data(watcher) == pre.spec_data(watcher)
        &&& post.spec_colors()[watcher] == pre.spec_colors()[watcher]
        &&& seq_extends(pre.spec_mailbox(watcher), post.spec_mailbox(watcher))
    }
}

/// What originating one message at one watcher does: the message, bearing
/// the given action, is recorded as seen by the watcher and routed to a
/// fan-out batch of its peers, whose mailboxes each gain exactly that one
/// message (`lemma_route_distinct` spells the routing out per mailbox).
pub open spec fn spec_originate(
    pre: GooseCult,
    post: GooseCult,
    watcher: int,
    action: GossipSetAction,
) -> bool {
    exists|m: GossipSetMessage, batch: Seq<usize>|
        {
            &&& m.action == action
            &&& post.spec_seen(watcher) == pre.spec_seen(watcher).insert(m.id)
            &&& is_fanout_batch(batch, pre.spec_peers(watcher), pre.spec_fanout(watcher) as int)
            &&& post.spec_mailboxes() == #[trigger] spec_route(
                pre.spec_mailboxes(),
                outbox_entries(batch, m),
            )
        }
}

impl GooseCult {
    /// Create a new cult with the given number of watchers, each gossiping
    /// to a random subset of `fanout` of all the others. Every watcher
    /// starts with an empty replica, an empty mailbox, a black color guess,
    /// and every other watcher as its peers.
    #[verifier::rlimit(50)]
    fn new_uniform(num_watchers: usize, fanout: usize) -> (cult: GooseCult)
        ensures
            cult.wf(),
            cult.spec_num_watchers() == num_watchers,
            cult.spec_colors().len() == num_watchers,
            forall|k: int|
                #![trigger cult.spec_data(k)]
                0 <= k < num_watchers ==> {
                    &&& cult.spec_data(k) == Map::<u64, (nat, nat)>::empty()
                    &&& cult.spec_seen(k) == Set::<u128>::empty()
                    &&& cult.spec_colors()[k] == 0u32
                    &&& cult.spec_peers(k) == other_indices(num_watchers as int, k)
                    &&& cult.spec_fanout(k) == fanout
                    &&& cult.spec_mailbox(k) == Seq::<GossipSetMessage>::empty()
                },
    {
        let mut watcher_colors: Vec<u32> = Vec::new();
        let mut mailboxes: Vec<Vec<GossipSetMessage>> = Vec::new();
        let mut engines: Vec<GooseGossip> = Vec::new();
        let mut i: usize = 0;
        while i < num_watchers
            invariant
                i <= num_watchers,
                watcher_colors@.len() == i,
                mailboxes@.len() == i,
                engines@.len() == i,
                forall|k: int| 0 <= k < i ==> #[trigger] watcher_colors@[k] == 0u32,
                forall|k: int| 0 <= k < i ==> #[trigger] mailboxes@[k]@.len() == 0,
                forall|k: int|
                    #![trigger engines@[k]]
                    0 <= k < i ==> {
                        &&& engines@[k].data@ == Map::<u64, (nat, nat)>::empty()
                        &&& engines@[k].seen() == Set::<u128>::empty()
                        &&& engines@[k].peers@ == other_indices(num_watchers as int, k)
                        &&& engines@[k].fanout == fanout
                        &&& engines@[k].delivery.log@.len() == 0
                    },
            decreases num_watchers - i,
        {
            // The peers of watcher `i` are all the other watcher indices.
            let mut peers: Vec<usize> = Vec::new();
            let mut j: usize = 0;
            while j < num_watchers
                invariant
                    j <= num_watchers,
                    i < num_watchers,
                    peers@.len() == (if i < j {
                        j - 1
                    } else {
                        j as int
                    }),
                    forall|p: int|
                        0 <= p < peers@.len() ==> #[trigger] peers@[p] == (if p < i {
                            p as usize
                        } else {
                            (p + 1) as usize
                        }),
                decreases num_watchers - j,
            {
                if i != j {
                    peers.push(j);
                }
                j += 1;
            }
            proof {
                assert(peers@ =~= other_indices(num_watchers as int, i as int));
            }
            watcher_colors.push(0);
            mailboxes.push(Vec::new());
            let ghost peers_view = peers@;
            engines.push(UniformGossip::create(peers, fanout, GossipSet::new(), Outbox::new()));
            proof {
                assert(engines@[i as int].peers@ == peers_view);
            }
            i += 1;
        }
        let cult = GooseCult { watcher_colors, engines, mailboxes };
        proof {
            assert forall|i2: int, p: int|
                0 <= i2 < cult.engines@.len() && 0 <= p
                    < cult.engines@[i2].peers@.len() implies #[trigger] cult.engines@[i2].peers@[p]
                < cult.engines@.len() && cult.engines@[i2].peers@[p] != i2 by {
                assert(cult.engines@[i2].peers@ == other_indices(num_watchers as int, i2));
            }
        }
        cult
    }

    /// Route everything the given watcher's engine has sent: move each
    /// buffered send from its outbox into the addressed watcher's mailbox,
    /// in order, leaving the outbox empty. The router checks every
    /// destination against the cult's size; an engine only addresses its
    /// peers, which are all watchers.
    #[verifier::rlimit(50)]
    fn route_outbox(&mut self, watcher: usize)
        requires
            old(self).engines@.len() == old(self).watcher_colors@.len(),
            old(self).engines@.len() == old(self).mailboxes@.len(),
            watcher < old(self).engines@.len(),
            forall|i: int, p: int|
                #![trigger old(self).engines@[i].peers@[p]]
                0 <= i < old(self).engines@.len() && 0 <= p < old(self).engines@[i].peers@.len()
                    ==> old(self).engines@[i].peers@[p] < old(self).engines@.len() && old(self).engines@[i].peers@[p] != i,
            forall|k: int|
                0 <= k < old(self).engines@.len() && k != watcher ==> (#[trigger] old(self).engines@[k]).delivery.log@.len() == 0,
        ensures
            final(self).wf(),
            final(self).engines@.len() == old(self).engines@.len(),
            final(self).watcher_colors@ == old(self).watcher_colors@,
            forall|k: int|
                0 <= k < old(self).engines@.len() && k != watcher ==> #[trigger] final(self).engines@[k] == old(self).engines@[k],
            ({
                let routed = final(self).engines@[watcher as int];
                let unrouted = old(self).engines@[watcher as int];
                &&& routed.data@ == unrouted.data@
                &&& routed.peers == unrouted.peers
                &&& routed.seen() == unrouted.seen()
                &&& routed.fanout == unrouted.fanout
                &&& routed.delivery.log@.len() == 0
            }),
            final(self).spec_mailboxes() == spec_route(
                old(self).spec_mailboxes(),
                old(self).engines@[watcher as int].delivery.log@,
            ),
    {
        // Take the pending sends out of the engine's outbox.
        let engine = &mut self.engines[watcher];
        let mut taken: Outbox<GossipSetMessage> = Outbox::new();
        core::mem::swap(&mut engine.delivery, &mut taken);
        let mut pending = taken.log;
        // Push each message into the mailbox it is addressed to.
        let ghost n = old(self).engines@.len();
        let ghost all = old(self).engines@[watcher as int].delivery.log@;
        let mut t: usize = 0;
        while t < pending.len()
            invariant
                t <= pending@.len(),
                pending@ == all,
                watcher < n,
                self.engines@.len() == n,
                self.mailboxes@.len() == n,
                self.watcher_colors@ == old(self).watcher_colors@,
                forall|k: int|
                    0 <= k < n && k != watcher ==> #[trigger] self.engines@[k] == old(self).engines@[k],
                ({
                    let routed = self.engines@[watcher as int];
                    let unrouted = old(self).engines@[watcher as int];
                    &&& routed.data@ == unrouted.data@
                    &&& routed.peers == unrouted.peers
                    &&& routed.seen() == unrouted.seen()
                    &&& routed.fanout == unrouted.fanout
                    &&& routed.delivery.log@.len() == 0
                }),
                self.spec_mailboxes() == spec_route(
                    old(self).spec_mailboxes(),
                    all.take(t as int),
                ),
            decreases pending@.len() - t,
        {
            let ghost before = self.spec_mailboxes();
            let (dest, message) = pending[t];
            if dest < self.mailboxes.len() {
                self.mailboxes[dest].push(message);
            }
            proof {
                assert(all.take(t + 1).drop_last() =~= all.take(t as int));
                assert(all.take(t + 1).last() == all[t as int]);
                if (all[t as int].0 as int) < n {
                    assert(self.spec_mailboxes() =~= before.update(
                        all[t as int].0 as int,
                        before[all[t as int].0 as int].push(all[t as int].1),
                    ));
                } else {
                    assert(self.spec_mailboxes() =~= before);
                }
            }
            t += 1;
        }
        proof {
            assert(all.take(pending@.len() as int) =~= all);
            assert forall|i: int, p: int|
                0 <= i < self.engines@.len() && 0 <= p
                    < self.engines@[i].peers@.len() implies #[trigger] self.engines@[i].peers@[p]
                < self.engines@.len() && self.engines@[i].peers@[p] != i by {
                if i != watcher {
                    assert(self.engines@[i] == old(self).engines@[i]);
                } else {
                    assert(self.engines@[i].peers == old(self).engines@[i].peers);
                }
                assert(old(self).engines@[i].peers@[p] < n && old(self).engines@[i].peers@[p]
                    != i);
            }
        }
    }

    /// Tick forward in the simulation: each watcher whose mailbox held a
    /// message when the tick began processes exactly that front message,
    /// and everything sent in response is routed; a snapshot of the
    /// mailboxes decides who processes, so messages routed during the tick
    /// wait for the next one. Each watcher steps as `spec_tick_step` says;
    /// the tick returns false exactly when the network was idle (no watcher
    /// had a message waiting), and an idle tick changes nothing.
    #[verifier::rlimit(100)]
    pub fn tick(&mut self) -> (more: bool)
        requires
            old(self).wf(),
        ensures
            final(self).wf(),
            final(self).spec_num_watchers() == old(self).spec_num_watchers(),
            final(self).spec_colors().len() == old(self).spec_colors().len(),
            forall|i: int|
                0 <= i < old(self).spec_num_watchers() ==> #[trigger] spec_tick_step(
                    *old(self),
                    *final(self),
                    i,
                ),
            more == old(self).spec_pending(),
            !more ==> *final(self) == *old(self),
    {
        let mut some_messages_remaining = false;
        let num_watchers = self.engines.len();
        proof {
            assert forall|j: int| 0 <= j < num_watchers implies #[trigger] seq_extends(
                old(self).spec_mailbox(j),
                self.spec_mailbox(j),
            ) by {
                lemma_seq_extends_intro(
                    old(self).spec_mailbox(j),
                    self.spec_mailbox(j),
                    Seq::<GossipSetMessage>::empty(),
                );
            }
        }
        // Snapshot which mailboxes hold a message now: only those watchers
        // process this tick, so mail routed during the tick waits.
        let mut had_mail: Vec<bool> = Vec::new();
        let mut w: usize = 0;
        while w < num_watchers
            invariant
                w <= num_watchers,
                *self == *old(self),
                self.mailboxes@.len() == num_watchers,
                had_mail@.len() == w,
                forall|j: int|
                    0 <= j < w ==> #[trigger] had_mail@[j] == (old(self).spec_mailbox(j).len()
                        > 0),
            decreases num_watchers - w,
        {
            proof {
                assert(self.spec_mailbox(w as int) == self.mailboxes@[w as int]@);
            }
            had_mail.push(self.mailboxes[w].len() > 0);
            w += 1;
        }
        let mut i: usize = 0;
        while i < num_watchers
            invariant
                i <= num_watchers,
                had_mail@.len() == num_watchers,
                forall|j: int|
                    0 <= j < num_watchers ==> #[trigger] had_mail@[j] == (old(self).spec_mailbox(
                        j,
                    ).len() > 0),
                self.wf(),
                self.engines@.len() == num_watchers,
                self.watcher_colors@.len() == num_watchers,
                old(self).wf(),
                old(self).engines@.len() == num_watchers,
                old(self).watcher_colors@.len() == num_watchers,
                forall|j: int| 0 <= j < i ==> #[trigger] spec_tick_step(*old(self), *self, j),
                forall|j: int|
                    i <= j < num_watchers ==> #[trigger] self.engines@[j] == old(self).engines@[j],
                forall|j: int|
                    i <= j < num_watchers ==> #[trigger] self.watcher_colors@[j] == old(self).watcher_colors@[j],
                forall|j: int|
                    i <= j < num_watchers ==> #[trigger] seq_extends(
                        old(self).spec_mailbox(j),
                        self.spec_mailbox(j),
                    ),
                some_messages_remaining ==> old(self).spec_pending(),
                !some_messages_remaining ==> *self == *old(self),
                !some_messages_remaining ==> forall|j: int|
                    0 <= j < i ==> old(self).mailboxes@[j].len() == 0,
            decreases num_watchers - i,
        {
            let ghost at_entry = *self;
            let ghost old_box = old(self).spec_mailbox(i as int);
            proof {
                assert(seq_extends(old(self).spec_mailbox(i as int), at_entry.spec_mailbox(
                    i as int,
                )));
            }
            let ghost entry_extra = choose|extra: Seq<GossipSetMessage>|
                at_entry.spec_mailbox(i as int) == #[trigger] (old(self).spec_mailbox(i as int)
                    + extra);
            proof {
                assert(at_entry.spec_mailbox(i as int) == old(self).spec_mailbox(i as int)
                    + entry_extra);
            }
            if had_mail[i] {
                proof {
                    assert(old_box.len() > 0);
                    assert(at_entry.spec_mailbox(i as int).len() > 0);
                    assert(self.mailboxes@[i as int]@ == at_entry.spec_mailbox(i as int));
                }
                let message = self.mailboxes[i].remove(0);
                let ghost popped = *self;
                let engine = &mut self.engines[i];
                let _ = engine.receive(&message);
                let ghost received = *self;
                let ghost outbox_now = self.engines@[i as int].delivery.log@;
                self.route_outbox(i);
                let color = color_for_set(&self.engines[i].data);
                self.watcher_colors[i] = color;
                some_messages_remaining = true;
                proof {
                    let iw = i as int;
                    // The pop took the mailbox's front, which is still the
                    // tick-start front: routing only appends.
                    assert(at_entry.spec_mailbox(iw).len() > 0);
                    assert(message == at_entry.spec_mailbox(iw)[0]);
                    assert forall|j: int| 0 <= j < num_watchers implies popped.spec_mailbox(j)
                        == (if j == iw {
                        at_entry.spec_mailbox(iw).skip(1)
                    } else {
                        at_entry.spec_mailbox(j)
                    }) by {
                        if j == iw {
                            assert(popped.spec_mailbox(j) =~= at_entry.spec_mailbox(iw).skip(1));
                        }
                    }
                    // Receiving touched only the engine; routing appended
                    // its outbox to the addressed mailboxes.
                    assert(received.spec_mailboxes() =~= popped.spec_mailboxes());
                    assert(self.spec_mailboxes() == spec_route(
                        received.spec_mailboxes(),
                        outbox_now,
                    ));
                    lemma_route_extends(received.spec_mailboxes(), outbox_now);
                    assert forall|j: int| 0 <= j < num_watchers implies #[trigger] seq_extends(
                        popped.spec_mailbox(j),
                        self.spec_mailbox(j),
                    ) by {
                        assert(popped.spec_mailbox(j) == received.spec_mailboxes()[j]);
                        assert(seq_extends(received.spec_mailboxes()[j], self.spec_mailboxes()[j]));
                    }
                    // The engine stepped by the dedup rule on the popped
                    // message, starting from its untouched state.
                    assert(at_entry.engines@[iw] == old(self).engines@[iw]);
                    assert((self.spec_seen(iw), self.spec_data(iw)) == spec_engine_step(
                        old(self).spec_seen(iw),
                        old(self).spec_data(iw),
                        message,
                    )) by {
                        if old(self).spec_seen(iw).contains(message.id) {
                        } else {
                        }
                    }
                    assert(self.spec_colors()[iw] == spec_color_for(self.spec_data(iw)));
                    // This watcher's step: the dedup move on the tick-start
                    // front, with the rest of the mailbox kept.
                    assert(spec_tick_step(*old(self), *self, iw)) by {
                        assert(message == old_box[0]);
                        assert((old_box + entry_extra).skip(1) =~= old_box.skip(1) + entry_extra);
                        lemma_seq_extends_intro(
                            old_box.skip(1),
                            popped.spec_mailbox(iw),
                            entry_extra,
                        );
                        assert(seq_extends(popped.spec_mailbox(iw), self.spec_mailbox(iw)));
                        lemma_seq_extends_trans(
                            old_box.skip(1),
                            popped.spec_mailbox(iw),
                            self.spec_mailbox(iw),
                        );
                    }
                    // Earlier watchers' steps are undisturbed: their engines
                    // and colors are untouched and their mailboxes only
                    // gained messages.
                    assert forall|j: int| 0 <= j < iw implies #[trigger] spec_tick_step(
                        *old(self),
                        *self,
                        j,
                    ) by {
                        assert(self.engines@[j] == at_entry.engines@[j]);
                        assert(self.watcher_colors@[j] == at_entry.watcher_colors@[j]);
                        assert(popped.spec_mailbox(j) == at_entry.spec_mailbox(j));
                        assert(spec_tick_step(*old(self), at_entry, j));
                        assert(seq_extends(popped.spec_mailbox(j), self.spec_mailbox(j)));
                        if old(self).spec_mailbox(j).len() > 0 {
                            lemma_seq_extends_trans(
                                old(self).spec_mailbox(j).skip(1),
                                at_entry.spec_mailbox(j),
                                self.spec_mailbox(j),
                            );
                        } else {
                            lemma_seq_extends_trans(
                                old(self).spec_mailbox(j),
                                at_entry.spec_mailbox(j),
                                self.spec_mailbox(j),
                            );
                        }
                    }
                    // Later watchers stay untouched, with mailboxes only
                    // extended.
                    assert forall|j: int| iw < j < num_watchers implies #[trigger] seq_extends(
                        old(self).spec_mailbox(j),
                        self.spec_mailbox(j),
                    ) by {
                        assert(seq_extends(old(self).spec_mailbox(j), at_entry.spec_mailbox(j)));
                        assert(popped.spec_mailbox(j) == at_entry.spec_mailbox(j));
                        assert(seq_extends(popped.spec_mailbox(j), self.spec_mailbox(j)));
                        lemma_seq_extends_trans(
                            old(self).spec_mailbox(j),
                            at_entry.spec_mailbox(j),
                            self.spec_mailbox(j),
                        );
                    }
                }
            } else {
                proof {
                    let iw = i as int;
                    assert(old_box + entry_extra == at_entry.spec_mailbox(iw));
                    assert(old_box.len() == 0);
                    assert(spec_tick_step(*old(self), *self, iw));
                }
            }
            i += 1;
        }
        proof {
            if !some_messages_remaining {
                assert forall|j: int| 0 <= j < num_watchers implies #[trigger] spec_tick_step(
                    *old(self),
                    *self,
                    j,
                ) by {
                    assert(old(self).spec_mailbox(j).len() == 0);
                }
            }
        }
        some_messages_remaining
    }

    /// Add a color to the gossip starting at the given watcher: the watcher
    /// originates an add message, its replica and guess are refreshed, and
    /// the message is recorded as seen and routed to a fan-out batch of the
    /// watcher's peers.
    #[verifier::rlimit(50)]
    pub fn add_color(&mut self, inspired_watcher: usize, color: PrimaryColor)
        requires
            old(self).wf(),
            inspired_watcher < old(self).spec_num_watchers(),
        ensures
            final(self).wf(),
            final(self).spec_num_watchers() == old(self).spec_num_watchers(),
            final(self).spec_data(inspired_watcher as int) == spec_add_item(
                old(self).spec_data(inspired_watcher as int),
                spec_color_key(color),
            ),
            forall|k: int|
                0 <= k < old(self).spec_num_watchers() && k != inspired_watcher ==> final(self).spec_data(k) == old(self).spec_data(k) && final(self).spec_seen(k) == old(self).spec_seen(k),
            final(self).spec_colors() == old(self).spec_colors().update(
                inspired_watcher as int,
                spec_color_for(final(self).spec_data(inspired_watcher as int)),
            ),
            old(self).spec_fanout(inspired_watcher as int) > 0 && old(self).spec_peers(
                inspired_watcher as int,
            ).len() > 0 ==> final(self).spec_pending(),
            spec_originate(
                *old(self),
                *final(self),
                inspired_watcher as int,
                GossipSetAction::Add(spec_color_key(color)),
            ),
    {
        let message = GossipSetMessage::add(color_key(color));
        self.originate(inspired_watcher, message);
    }

    /// Remove a color from the gossip starting at the given watcher, the
    /// same way an add is originated and routed.
    #[verifier::rlimit(50)]
    pub fn remove_color(&mut self, inspired_watcher: usize, color: PrimaryColor)
        requires
            old(self).wf(),
            inspired_watcher < old(self).spec_num_watchers(),
        ensures
            final(self).wf(),
            final(self).spec_num_watchers() == old(self).spec_num_watchers(),
            final(self).spec_data(inspired_watcher as int) == spec_remove_item(
                old(self).spec_data(inspired_watcher as int),
                spec_color_key(color),
            ),
            forall|k: int|
                0 <= k < old(self).spec_num_watchers() && k != inspired_watcher ==> final(self).spec_data(k) == old(self).spec_data(k) && final(self).spec_seen(k) == old(self).spec_seen(k),
            final(self).spec_colors() == old(self).spec_colors().update(
                inspired_watcher as int,
                spec_color_for(final(self).spec_data(inspired_watcher as int)),
            ),
            old(self).spec_fanout(inspired_watcher as int) > 0 && old(self).spec_peers(
                inspired_watcher as int,
            ).len() > 0 ==> final(self).spec_pending(),
            spec_originate(
                *old(self),
                *final(self),
                inspired_watcher as int,
                GossipSetAction::Remove(spec_color_key(color)),
            ),
    {
        let message = GossipSetMessage::remove(color_key(color));
        self.originate(inspired_watcher, message);
    }

    /// Originate one message at the given watcher: apply it to the
    /// watcher's replica, record it as seen, route it to a fan-out batch of
    /// the watcher's peers, and refresh the watcher's color guess.
    #[verifier::rlimit(50)]
    fn originate(&mut self, inspired_watcher: usize, message: GossipSetMessage)
        requires
            old(self).wf(),
            inspired_watcher < old(self).spec_num_watchers(),
        ensures
            final(self).wf(),
            final(self).spec_num_watchers() == old(self).spec_num_watchers(),
            final(self).spec_data(inspired_watcher as int) == spec_apply_action(
                old(self).spec_data(inspired_watcher as int),
                message.action,
            ),
            forall|k: int|
                0 <= k < old(self).spec_num_watchers() && k != inspired_watcher ==> final(self).spec_data(k) == old(self).spec_data(k) && final(self).spec_seen(k) == old(self).spec_seen(k),
            final(self).spec_colors() == old(self).spec_colors().update(
                inspired_watcher as int,
                spec_color_for(final(self).spec_data(inspired_watcher as int)),
            ),
            old(self).spec_fanout(inspired_watcher as int) > 0 && old(self).spec_peers(
                inspired_watcher as int,
            ).len() > 0 ==> final(self).spec_pending(),
            spec_originate(*old(self), *final(self), inspired_watcher as int, message.action),
    {
        let iw = inspired_watcher;
        let engine = &mut self.engines[iw];
        let update_result = engine.update(&message);
        let ghost received = *self;
        let ghost outbox_now = self.engines@[iw as int].delivery.log@;
        self.route_outbox(iw);
        let color_word = color_for_set(&self.engines[iw].data);
        self.watcher_colors[iw] = color_word;
        proof {
            let iwi = iw as int;
            // The engine buffered exactly one fan-out batch of its peers,
            // which the routing moved into the addressed mailboxes.
            let batch = choose|batch: Seq<usize>|
                #[trigger] is_fanout_batch(
                    batch,
                    old(self).engines@[iwi].peers@,
                    old(self).engines@[iwi].fanout as int,
                ) && <Outbox<GossipSetMessage> as Delivery<
                    GossipSetMessage,
                    usize,
                >>::spec_deliver(
                    old(self).engines@[iwi].delivery,
                    received.engines@[iwi].delivery,
                    message,
                    batch,
                    update_result,
                );
            assert(outbox_now =~= outbox_entries(batch, message));
            assert(received.spec_mailboxes() =~= old(self).spec_mailboxes());
            assert(self.spec_mailboxes() == spec_route(
                old(self).spec_mailboxes(),
                outbox_entries(batch, message),
            ));
            assert(is_fanout_batch(batch, old(self).spec_peers(iwi), old(self).spec_fanout(iwi) as int));
            assert(self.spec_seen(iwi) == old(self).spec_seen(iwi).insert(message.id));
            assert(spec_originate(*old(self), *self, iwi, message.action));
            assert(self.spec_colors() =~= old(self).spec_colors().update(
                iwi,
                spec_color_for(self.spec_data(iwi)),
            ));
            if old(self).spec_fanout(iwi) > 0 && old(self).spec_peers(iwi).len() > 0 {
                let entries = outbox_entries(batch, message);
                assert(batch.len() >= 1);
                let picked = choose|idx: Seq<int>|
                    crate::batch_from_distinct_indices(batch, idx, old(self).spec_peers(iwi));
                assert(batch[0] == old(self).spec_peers(iwi)[picked[0]]);
                assert(old(self).engines@[iwi].peers@[picked[0]] < old(self).engines@.len());
                assert(entries[0] == (batch[0], message));
                assert(old(self).spec_mailboxes().len() == old(self).engines@.len());
                lemma_route_delivers_first(old(self).spec_mailboxes(), entries);
                let dest = batch[0] as int;
                assert(self.spec_mailboxes()[dest].len() > 0);
                assert(self.mailboxes@[dest]@.len() > 0);
                assert(self.spec_pending());
            }
        }
    }
}

/// A uniform cult of goose watchers, where all watchers are the same.
pub struct UniformCult {
    cult: GooseCult,
}

impl UniformCult {
    /// The underlying cult, for speaking of its step relations.
    pub closed spec fn spec_cult(self) -> GooseCult {
        self.cult
    }

    /// The uniform cult exposes exactly its underlying cult: every view of
    /// the wrapper equals the same view of `spec_cult`, so facts stated of
    /// the cult's step relations carry over to the wrapper.
    pub proof fn lemma_views_cult(self)
        ensures
            self.wf() == self.spec_cult().wf(),
            self.spec_num_watchers() == self.spec_cult().spec_num_watchers(),
            self.spec_colors() == self.spec_cult().spec_colors(),
            self.spec_pending() == self.spec_cult().spec_pending(),
            forall|w: int| #[trigger] self.spec_data(w) == self.spec_cult().spec_data(w),
            forall|w: int| #[trigger] self.spec_seen(w) == self.spec_cult().spec_seen(w),
            forall|w: int| #[trigger] self.spec_peers(w) == self.spec_cult().spec_peers(w),
            forall|w: int| #[trigger] self.spec_fanout(w) == self.spec_cult().spec_fanout(w),
            forall|w: int| #[trigger] self.spec_mailbox(w) == self.spec_cult().spec_mailbox(w),
    {
    }

    /// Well-formedness of the underlying cult.
    pub closed spec fn wf(self) -> bool {
        self.cult.wf()
    }

    /// The number of watchers.
    pub closed spec fn spec_num_watchers(self) -> int {
        self.cult.spec_num_watchers()
    }

    /// The color guesses, one per watcher.
    pub closed spec fn spec_colors(self) -> Seq<u32> {
        self.cult.spec_colors()
    }

    /// The replica view of the given watcher.
    pub closed spec fn spec_data(self, watcher: int) -> Map<u64, (nat, nat)> {
        self.cult.spec_data(watcher)
    }

    /// The message identifiers the given watcher has processed.
    pub closed spec fn spec_seen(self, watcher: int) -> Set<u128> {
        self.cult.spec_seen(watcher)
    }

    /// The peer list of the given watcher, as watcher indices.
    pub closed spec fn spec_peers(self, watcher: int) -> Seq<usize> {
        self.cult.spec_peers(watcher)
    }

    /// The fanout of the given watcher's engine.
    pub closed spec fn spec_fanout(self, watcher: int) -> usize {
        self.cult.spec_fanout(watcher)
    }

    /// The given watcher's mailbox, front first.
    pub closed spec fn spec_mailbox(self, watcher: int) -> Seq<GossipSetMessage> {
        self.cult.spec_mailbox(watcher)
    }

    /// Whether any watcher has a message waiting in its mailbox.
    pub closed spec fn spec_pending(self) -> bool {
        self.cult.spec_pending()
    }

    /// Create a new uniform cult of the given number of watchers and the
    /// `fanout` to use while gossiping (the number of watchers to talk to
    /// when spreading gossip). Every watcher starts with an empty replica,
    /// an empty mailbox, a black guess, and all the other watchers as
    /// peers.
    pub fn new(num_watchers: usize, fanout: usize) -> (c: UniformCult)
        ensures
            c.wf(),
            c.spec_num_watchers() == num_watchers,
            c.spec_colors().len() == num_watchers,
            forall|k: int|
                #![trigger c.spec_data(k)]
                0 <= k < num_watchers ==> {
                    &&& c.spec_data(k) == Map::<u64, (nat, nat)>::empty()
                    &&& c.spec_seen(k) == Set::<u128>::empty()
                    &&& c.spec_colors()[k] == 0u32
                    &&& c.spec_peers(k) == other_indices(num_watchers as int, k)
                    &&& c.spec_fanout(k) == fanout
                    &&& c.spec_mailbox(k) == Seq::<GossipSetMessage>::empty()
                },
    {
        UniformCult { cult: GooseCult::new_uniform(num_watchers, fanout) }
    }

    /// The current knowledge of the color of the goose, one RGB word per
    /// watcher.
    pub fn colors(&self) -> (colors: &Vec<u32>)
        ensures
            colors@ == self.spec_colors(),
    {
        &self.cult.watcher_colors
    }

    /// Tick forward in the simulation: process one message per watcher, as
    /// `spec_tick_step` says of the underlying cult. Returns false exactly
    /// when the network was idle (no messages were remaining); an idle tick
    /// changes nothing.
    pub fn tick(&mut self) -> (more: bool)
        requires
            old(self).wf(),
        ensures
            final(self).wf(),
            final(self).spec_num_watchers() == old(self).spec_num_watchers(),
            final(self).spec_colors().len() == old(self).spec_colors().len(),
            forall|i: int|
                0 <= i < old(self).spec_num_watchers() ==> #[trigger] spec_tick_step(
                    old(self).spec_cult(),
                    final(self).spec_cult(),
                    i,
                ),
            more == old(self).spec_pending(),
            !more ==> *final(self) == *old(self),
    {
        self.cult.tick()
    }

    /// Add a color to the gossip starting at the given watcher index: the
    /// watcher's replica and guess are refreshed, every other watcher is
    /// untouched, and an add message is recorded as seen and routed to a
    /// fan-out batch of the watcher's peers.
    pub fn add_color(&mut self, inspired_watcher: usize, color: PrimaryColor)
        requires
            old(self).wf(),
            inspired_watcher < old(self).spec_num_watchers(),
        ensures
            final(self).wf(),
            final(self).spec_num_watchers() == old(self).spec_num_watchers(),
            final(self).spec_data(inspired_watcher as int) == spec_add_item(
                old(self).spec_data(inspired_watcher as int),
                spec_color_key(color),
            ),
            forall|k: int|
                0 <= k < old(self).spec_num_watchers() && k != inspired_watcher ==> final(self).spec_data(k) == old(self).spec_data(k) && final(self).spec_seen(k) == old(self).spec_seen(k),
            final(self).spec_colors() == old(self).spec_colors().update(
                inspired_watcher as int,
                spec_color_for(final(self).spec_data(inspired_watcher as int)),
            ),
            old(self).spec_fanout(inspired_watcher as int) > 0 && old(self).spec_peers(
                inspired_watcher as int,
            ).len() > 0 ==> final(self).spec_pending(),
            spec_originate(
                old(self).spec_cult(),
                final(self).spec_cult(),
                inspired_watcher as int,
                GossipSetAction::Add(spec_color_key(color)),
            ),
    {
        self.cult.add_color(inspired_watcher, color);
    }

    /// Remove a color from the gossip starting at the given watcher index,
    /// the same way an add is originated and routed.
    pub fn remove_color(&mut self, inspired_watcher: usize, color: PrimaryColor)
        requires
            old(self).wf(),
            inspired_watcher < old(self).spec_num_watchers(),
        ensures
            final(self).wf(),
            final(self).spec_num_watchers() == old(self).spec_num_watchers(),
            final(self).spec_data(inspired_watcher as int) == spec_remove_item(
                old(self).spec_data(inspired_watcher as int),
                spec_color_key(color),
            ),
            forall|k: int|
                0 <= k < old(self).spec_num_watchers() && k != inspired_watcher ==> final(self).spec_data(k) == old(self).spec_data(k) && final(self).spec_seen(k) == old(self).spec_seen(k),
            final(self).spec_colors() == old(self).spec_colors().update(
                inspired_watcher as int,
                spec_color_for(final(self).spec_data(inspired_watcher as int)),
            ),
            old(self).spec_fanout(inspired_watcher as int) > 0 && old(self).spec_peers(
                inspired_watcher as int,
            ).len() > 0 ==> final(self).spec_pending(),
            spec_originate(
                old(self).spec_cult(),
                final(self).spec_cult(),
                inspired_watcher as int,
                GossipSetAction::Remove(spec_color_key(color)),
            ),
    {
        self.cult.remove_color(inspired_watcher, color);
    }
}

} // verus!
