//! Shared data sets that can be updated through gossip.
//!
//! The canonical replica is [`GossipSet`]: a counting map from elements to
//! how often each was added and removed. An element is a member exactly
//! when its additions outnumber its removals. Counting makes the update
//! rule commutative over distinct messages, so replicas that process the
//! same operations in any order converge to the same membership.

use vstd::prelude::*;

verus! {

use crate::{Message, SharedData};
use vstd::multiset::Multiset;

/// An action to add or remove an item in a gossiped set.
#[derive(Debug, PartialEq, Eq, Hash, Clone, Copy, Structural)]
pub enum GossipSetAction {
    Add(u64),
    Remove(u64),
}

/// Per-item counts of how many times a given item was added and removed.
#[derive(Debug, Clone, Copy)]
pub struct ItemActions {
    pub added_count: usize,
    pub removed_count: usize,
}

/// A set of unique items maintained through gossip.
pub struct GossipSet {
    items: vstd::hash_map::HashMapWithView<u64, ItemActions>,
}

/// A message that adds or removes an item in a gossiped set, wrapped with a
/// fresh identifier for deduplication.
#[derive(Debug, PartialEq, Eq, Hash, Clone, Copy)]
pub struct GossipSetMessage {
    /// The unique identifier carried for deduplication.
    pub id: u128,
    /// The action the message applies to the set.
    pub action: GossipSetAction,
}

impl Message for GossipSetMessage {
    open spec fn spec_id(self) -> u128 {
        self.id
    }

    fn id(&self) -> (r: u128)
        ensures
            r == self.spec_id(),
    {
        self.id
    }
}

/// Relies on `rand::random`: a fresh draw from the thread-local generator.
/// Nothing is assumed of the value; identifiers are effectively unique only
/// with high probability.
#[verifier::external_body]
fn new_id() -> u128 {
    rand::random()
}

impl GossipSetMessage {
    /// Create a new message to add the given value to a set.
    pub fn add(value: u64) -> (m: GossipSetMessage)
        ensures
            m.action == GossipSetAction::Add(value),
    {
        GossipSetMessage { id: new_id(), action: GossipSetAction::Add(value) }
    }

    /// Create a new message to remove the given value from a set.
    pub fn remove(value: u64) -> (m: GossipSetMessage)
        ensures
            m.action == GossipSetAction::Remove(value),
    {
        GossipSetMessage { id: new_id(), action: GossipSetAction::Remove(value) }
    }
}

/// One more than `n` when another increment fits in the machine word;
/// otherwise `n`. The counters of a [`GossipSet`] saturate at the machine
/// bound instead of overflowing, and never decrease.
pub open spec fn sat_inc(n: nat) -> nat {
    if n < usize::MAX {
        n + 1
    } else {
        n
    }
}

/// The counts a [`GossipSet`] holds for an element: a pair of how often it
/// was added and how often it was removed, both zero when untouched.
pub open spec fn counts_of(v: Map<u64, (nat, nat)>, item: u64) -> (nat, nat) {
    if v.dom().contains(item) {
        v[item]
    } else {
        (0nat, 0nat)
    }
}

/// What adding an item once does to a gossip set's view.
pub open spec fn spec_add_item(v: Map<u64, (nat, nat)>, item: u64) -> Map<u64, (nat, nat)> {
    v.insert(item, (sat_inc(counts_of(v, item).0), counts_of(v, item).1))
}

/// What removing an item once does to a gossip set's view.
pub open spec fn spec_remove_item(v: Map<u64, (nat, nat)>, item: u64) -> Map<u64, (nat, nat)> {
    v.insert(item, (counts_of(v, item).0, sat_inc(counts_of(v, item).1)))
}

/// The membership rule: an item is present exactly when it has been added
/// more often than removed.
pub open spec fn spec_is_present(v: Map<u64, (nat, nat)>, item: u64) -> bool {
    counts_of(v, item).0 > counts_of(v, item).1
}

impl View for GossipSet {
    type V = Map<u64, (nat, nat)>;

    /// The set as a map from each element ever touched to its counts.
    closed spec fn view(&self) -> Map<u64, (nat, nat)> {
        self.items@.map_values(|a: ItemActions| (a.added_count as nat, a.removed_count as nat))
    }
}

impl GossipSet {
    /// Create an empty set: no element was ever added or removed.
    pub fn new() -> (s: GossipSet)
        ensures
            s@ == Map::<u64, (nat, nat)>::empty(),
    {
        broadcast use vstd::std_specs::hash::group_hash_axioms;

        let s = GossipSet { items: vstd::hash_map::HashMapWithView::new() };
        proof {
            assert(s@ =~= Map::<u64, (nat, nat)>::empty());
        }
        s
    }

    /// Checks if the given item is present in the set.
    pub fn is_present(&self, item: &u64) -> (r: bool)
        ensures
            r == spec_is_present(self@, *item),
    {
        if let Some(v) = self.items.get(item) {
            v.added_count > v.removed_count
        } else {
            false
        }
    }

    /// Adds the given item to the set. Typically you wouldn't call this
    /// directly, but rather update the gossip with an add message to update
    /// the whole network.
    pub fn add_item(&mut self, item: u64)
        ensures
            final(self)@ == spec_add_item(old(self)@, item),
    {
        let current = match self.items.get(&item) {
            Some(c) => *c,
            None => ItemActions { added_count: 0, removed_count: 0 },
        };
        let bumped = ItemActions {
            added_count: if current.added_count < usize::MAX {
                current.added_count + 1
            } else {
                current.added_count
            },
            removed_count: current.removed_count,
        };
        self.items.insert(item, bumped);
        proof {
            assert(final(self)@ =~= spec_add_item(old(self)@, item));
        }
    }

    /// Removes the given item from the set. Typically you wouldn't call
    /// this directly, but rather update the gossip with a remove message to
    /// update the whole network.
    pub fn remove_item(&mut self, item: u64)
        ensures
            final(self)@ == spec_remove_item(old(self)@, item),
    {
        let current = match self.items.get(&item) {
            Some(c) => *c,
            None => ItemActions { added_count: 0, removed_count: 0 },
        };
        let bumped = ItemActions {
            added_count: current.added_count,
            removed_count: if current.removed_count < usize::MAX {
                current.removed_count + 1
            } else {
                current.removed_count
            },
        };
        self.items.insert(item, bumped);
        proof {
            assert(final(self)@ =~= spec_remove_item(old(self)@, item));
        }
    }
}

impl Default for GossipSet {
    /// An empty set, as `new` returns.
    fn default() -> (s: GossipSet)
        ensures
            s@ == Map::<u64, (nat, nat)>::empty(),
    {
        GossipSet::new()
    }
}

/// What one action does to a gossip set's view.
pub open spec fn spec_apply_action(v: Map<u64, (nat, nat)>, action: GossipSetAction) -> Map<
    u64,
    (nat, nat),
> {
    match action {
        GossipSetAction::Add(x) => spec_add_item(v, x),
        GossipSetAction::Remove(x) => spec_remove_item(v, x),
    }
}

impl SharedData<GossipSetMessage> for GossipSet {
    /// Updating by a message applies its action.
    open spec fn spec_update(v: Map<u64, (nat, nat)>, message: GossipSetMessage) -> Map<
        u64,
        (nat, nat),
    > {
        spec_apply_action(v, message.action)
    }

    fn update(&mut self, message: &GossipSetMessage)
        ensures
            final(self)@ == Self::spec_update(old(self)@, *message),
    {
        match &message.action {
            GossipSetAction::Add(v) => self.add_item(*v),
            GossipSetAction::Remove(v) => self.remove_item(*v),
        }
    }
}

/// The view of a gossip set after a whole sequence of actions, applied in
/// order to the given starting view.
pub open spec fn spec_apply_actions(v: Map<u64, (nat, nat)>, ops: Seq<GossipSetAction>) -> Map<
    u64,
    (nat, nat),
>
    decreases ops.len(),
{
    if ops.len() == 0 {
        v
    } else {
        spec_apply_action(spec_apply_actions(v, ops.drop_last()), ops.last())
    }
}

/// How many of the actions add the given item.
pub open spec fn count_adds(ops: Seq<GossipSetAction>, item: u64) -> nat
    decreases ops.len(),
{
    if ops.len() == 0 {
        0
    } else {
        count_adds(ops.drop_last(), item) + (if ops.last() == GossipSetAction::Add(item) {
            1nat
        } else {
            0nat
        })
    }
}

/// How many of the actions remove the given item.
pub open spec fn count_removes(ops: Seq<GossipSetAction>, item: u64) -> nat
    decreases ops.len(),
{
    if ops.len() == 0 {
        0
    } else {
        count_removes(ops.drop_last(), item) + (if ops.last() == GossipSetAction::Remove(item) {
            1nat
        } else {
            0nat
        })
    }
}

/// No item is added or removed more often than there are actions.
proof fn lemma_counts_bounded(ops: Seq<GossipSetAction>, item: u64)
    ensures
        count_adds(ops, item) <= ops.len(),
        count_removes(ops, item) <= ops.len(),
    decreases ops.len(),
{
    if ops.len() > 0 {
        lemma_counts_bounded(ops.drop_last(), item);
    }
}

/// A sequence of actions short enough that no counter saturates leaves each
/// item with exactly its add and remove counts, and an entry exactly for
/// the items it touched.
pub proof fn lemma_apply_counts(ops: Seq<GossipSetAction>, item: u64)
    requires
        ops.len() <= usize::MAX,
    ensures
        counts_of(spec_apply_actions(Map::empty(), ops), item) == (
            count_adds(ops, item),
            count_removes(ops, item),
        ),
        spec_apply_actions(Map::<u64, (nat, nat)>::empty(), ops).dom().contains(item) <==> (
        count_adds(ops, item) + count_removes(ops, item) > 0),
    decreases ops.len(),
{
    if ops.len() > 0 {
        lemma_apply_counts(ops.drop_last(), item);
        lemma_counts_bounded(ops.drop_last(), item);
    }
}

/// Set membership predicate: after any sequence of adds and removes of
/// items, an item is present exactly when it was added more often than it
/// was removed. The sequence must fit in the machine word, since beyond
/// that bound the counters saturate.
pub proof fn lemma_membership_counts(ops: Seq<GossipSetAction>, item: u64)
    requires
        ops.len() <= usize::MAX,
    ensures
        spec_is_present(spec_apply_actions(Map::empty(), ops), item) <==> count_adds(ops, item)
            > count_removes(ops, item),
{
    lemma_apply_counts(ops, item);
}

/// The add and remove counts of an item depend only on how often each
/// action occurs, not on the order of the actions.
proof fn lemma_counts_from_multiset(ops: Seq<GossipSetAction>, item: u64)
    ensures
        count_adds(ops, item) == ops.to_multiset().count(GossipSetAction::Add(item)),
        count_removes(ops, item) == ops.to_multiset().count(GossipSetAction::Remove(item)),
    decreases ops.len(),
{
    broadcast use vstd::seq_lib::group_to_multiset_ensures;

    if ops.len() == 0 {
        assert(ops.to_multiset() =~= Multiset::<GossipSetAction>::empty());
    } else {
        lemma_counts_from_multiset(ops.drop_last(), item);
        assert(ops =~= ops.drop_last().push(ops.last()));
        assert(ops.to_multiset() =~= ops.drop_last().to_multiset().insert(ops.last()));
    }
}

/// Convergence by commutative counting: two sequences made of the same
/// actions, in whatever order, drive an empty replica to the same view.
/// Every replica that has processed the same set of messages therefore
/// agrees on membership.
pub proof fn lemma_apply_order_independent(ops1: Seq<GossipSetAction>, ops2: Seq<GossipSetAction>)
    requires
        ops1.to_multiset() == ops2.to_multiset(),
        ops1.len() <= usize::MAX,
    ensures
        spec_apply_actions(Map::empty(), ops1) == spec_apply_actions(Map::empty(), ops2),
{
    ops1.to_multiset_ensures();
    ops2.to_multiset_ensures();
    assert(ops2.len() == ops1.len());
    let m1 = spec_apply_actions(Map::<u64, (nat, nat)>::empty(), ops1);
    let m2 = spec_apply_actions(Map::<u64, (nat, nat)>::empty(), ops2);
    assert forall|x: u64| #[trigger] m1.dom().contains(x) <==> m2.dom().contains(x) by {
        lemma_apply_counts(ops1, x);
        lemma_apply_counts(ops2, x);
        lemma_counts_from_multiset(ops1, x);
        lemma_counts_from_multiset(ops2, x);
    }
    assert forall|x: u64| m1.dom().contains(x) implies #[trigger] m1[x] == m2[x] by {
        lemma_apply_counts(ops1, x);
        lemma_apply_counts(ops2, x);
        lemma_counts_from_multiset(ops1, x);
        lemma_counts_from_multiset(ops2, x);
    }
    assert(m1.dom() =~= m2.dom());
    assert(m1 =~= m2);
}

/// Convergence under arbitrary interleaving: two replicas that have each
/// applied the same collection of add and remove actions, in whatever
/// orders the network delivered them, agree on the membership of every
/// element, and that membership is decided by the global counts alone.
pub proof fn lemma_convergent_membership(
    ops1: Seq<GossipSetAction>,
    ops2: Seq<GossipSetAction>,
    item: u64,
)
    requires
        ops1.to_multiset() == ops2.to_multiset(),
        ops1.len() <= usize::MAX,
    ensures
        spec_is_present(spec_apply_actions(Map::empty(), ops1), item) <==> spec_is_present(
            spec_apply_actions(Map::empty(), ops2),
            item,
        ),
        spec_is_present(spec_apply_actions(Map::empty(), ops1), item) <==> count_adds(ops1, item)
            > count_removes(ops1, item),
{
    lemma_apply_order_independent(ops1, ops2);
    lemma_membership_counts(ops1, item);
}

/// What a uniform engine's dedup-and-update loop does to its seen-set and
/// replica view over a whole sequence of incoming messages: each message is
/// one `dedup_step`, the step that `receive` is specified by.
pub open spec fn spec_receive_all(
    seen: Set<u128>,
    v: Map<u64, (nat, nat)>,
    msgs: Seq<GossipSetMessage>,
) -> (Set<u128>, Map<u64, (nat, nat)>)
    decreases msgs.len(),
{
    if msgs.len() == 0 {
        (seen, v)
    } else {
        let (seen1, v1) = spec_receive_all(seen, v, msgs.drop_last());
        crate::dedup_step(
            seen1,
            v1,
            msgs.last().id,
            (|w: Map<u64, (nat, nat)>| spec_apply_action(w, msgs.last().action)),
        )
    }
}

/// The identifiers borne by a sequence of messages.
pub open spec fn spec_ids(msgs: Seq<GossipSetMessage>) -> Set<u128>
    decreases msgs.len(),
{
    if msgs.len() == 0 {
        Set::empty()
    } else {
        spec_ids(msgs.drop_last()).insert(msgs.last().id)
    }
}

/// An engine that receives messages bearing pairwise-distinct, previously
/// unseen identifiers applies every one of their actions exactly once, in
/// arrival order, and records every identifier. Together with the order
/// independence of applying actions, engines that receive the same fresh
/// messages in different orders converge to the same view.
pub proof fn lemma_receive_all_applies_fresh(
    seen: Set<u128>,
    v: Map<u64, (nat, nat)>,
    msgs: Seq<GossipSetMessage>,
)
    requires
        forall|i: int| 0 <= i < msgs.len() ==> !seen.contains(#[trigger] msgs[i].id),
        forall|i: int, j: int| 0 <= i < j < msgs.len() ==> msgs[i].id != msgs[j].id,
    ensures
        spec_receive_all(seen, v, msgs).0 == seen.union(spec_ids(msgs)),
        spec_receive_all(seen, v, msgs).1 == spec_apply_actions(
            v,
            msgs.map_values(|m: GossipSetMessage| m.action),
        ),
    decreases msgs.len(),
{
    let actions = msgs.map_values(|m: GossipSetMessage| m.action);
    if msgs.len() == 0 {
        assert(seen.union(spec_ids(msgs)) =~= seen);
        assert(actions.len() == 0);
    } else {
        let head = msgs.drop_last();
        let last = msgs.last();
        lemma_receive_all_applies_fresh(seen, v, head);
        // The last identifier is fresh for the whole prefix trace.
        assert(!spec_ids(head).contains(last.id)) by {
            lemma_ids_are_members(head, last.id);
        }
        assert(!seen.union(spec_ids(head)).contains(last.id));
        assert(spec_receive_all(seen, v, msgs).0 =~= seen.union(spec_ids(msgs)));
        assert(actions.drop_last() =~= head.map_values(|m: GossipSetMessage| m.action));
        assert(actions.last() == last.action);
    }
}

/// An identifier is among a message sequence's identifiers exactly when one
/// of the messages bears it.
proof fn lemma_ids_are_members(msgs: Seq<GossipSetMessage>, id: u128)
    ensures
        spec_ids(msgs).contains(id) <==> exists|i: int| 0 <= i < msgs.len() && #[trigger] msgs[i].id == id,
    decreases msgs.len(),
{
    if msgs.len() > 0 {
        let head = msgs.drop_last();
        lemma_ids_are_members(head, id);
        if spec_ids(msgs).contains(id) {
            if msgs.last().id == id {
                assert(msgs[msgs.len() - 1].id == id);
            } else {
                let i = choose|i: int| 0 <= i < head.len() && #[trigger] head[i].id == id;
                assert(msgs[i].id == id);
            }
        }
        if exists|i: int| 0 <= i < msgs.len() && #[trigger] msgs[i].id == id {
            let i = choose|i: int| 0 <= i < msgs.len() && #[trigger] msgs[i].id == id;
            if i < msgs.len() - 1 {
                assert(head[i].id == id);
            }
        }
    }
}

} // verus!
