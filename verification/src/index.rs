//! The priority index: channel records grouped by priority class, with a table
//! from identifier to position.
//!
//! The groups are kept in ascending order of their class, so a channel of a
//! given class is found, or placed, by bisection. The table makes removal by
//! identifier cheap; after every change it is brought back in line with the
//! positions of the records that moved.

use crate::groups::{
    alone, discarded, has_channel, holds, inserted, joined, lemma_inserted_valid, lemma_located,
    lemma_refrozen_valid, lemma_removed_keeps_the_rest, lemma_removed_valid, lemma_slot, locate,
    origin, placed, purged, refrozen, removed, slot, valid, GroupView,
};
use crate::lookup::{lookup_get, lookup_insert, lookup_remove, Position};
use crate::priority::{
    before, lawful_order, lemma_before_transitive, same_class, standing, Priority, Standing,
};
use crate::record::{bounds_fit, check_bounds, DynReceiver, RecordView};
use crossbeam_channel::Sender;
use std::collections::HashMap;
use vstd::prelude::*;

verus! {

/// The table knows exactly the identifiers of the records.
spec fn keys_match<T, P>(groups: Seq<GroupView<T, P>>, table: Map<u32, Position>) -> bool {
    &&& forall|g: int, i: int|
        #![trigger groups[g].receivers[i]]
        placed(groups, g, i) ==> table.contains_key(groups[g].receivers[i]@.id)
    &&& forall|id: u32| #[trigger] table.contains_key(id) ==> has_channel(groups, id)
}

/// The table maps the identifier of the record at place `i` of group `g` to that
/// position.
spec fn settled<T, P>(
    groups: Seq<GroupView<T, P>>,
    table: Map<u32, Position>,
    g: int,
    i: int,
) -> bool {
    table[groups[g].receivers[i]@.id] == (g as usize, i as usize)
}

/// The table agrees with the groups: it maps the identifier of every record to
/// the record's position, and knows no other identifier.
spec fn agrees<T, P>(groups: Seq<GroupView<T, P>>, table: Map<u32, Position>) -> bool {
    &&& keys_match(groups, table)
    &&& forall|g: int, i: int| placed(groups, g, i) ==> #[trigger] settled(groups, table, g, i)
}

/// A table that agrees with a valid index holds `id` exactly when the index has
/// the channel, and then names the place where the channel stands.
proof fn lemma_table_locates<T, P: Ord>(
    groups: Seq<GroupView<T, P>>,
    table: Map<u32, Position>,
    id: u32,
)
    requires
        valid(groups),
        agrees(groups, table),
    ensures
        table.contains_key(id) == has_channel(groups, id),
        has_channel(groups, id) ==> {
            &&& holds(groups, locate(groups, id).0, locate(groups, id).1, id)
            &&& table[id] == (locate(groups, id).0 as usize, locate(groups, id).1 as usize)
        },
{
    if has_channel(groups, id) {
        lemma_located(groups, id);
        let (g, i) = locate(groups, id);
        assert(settled(groups, table, g, i));
    }
}

/// When a record joins the end of group `k`, the table with its position added
/// agrees with the new groups.
proof fn lemma_joined_agrees<T, P: Ord>(
    groups: Seq<GroupView<T, P>>,
    table: Map<u32, Position>,
    k: int,
    receiver: DynReceiver<T>,
)
    requires
        valid(groups),
        agrees(groups, table),
        0 <= k < groups.len(),
        !has_channel(groups, receiver@.id),
        groups[k].receivers.len() < usize::MAX,
    ensures
        agrees(
            groups.update(k, joined(groups[k], receiver)),
            table.insert(receiver@.id, (k as usize, groups[k].receivers.len() as usize)),
        ),
{
    let last = groups[k].receivers.len() as int;
    let after = groups.update(k, joined(groups[k], receiver));
    let grown = table.insert(receiver@.id, (k as usize, last as usize));
    assert forall|g: int, i: int|
        #![trigger after[g].receivers[i]]
        placed(after, g, i) implies grown.contains_key(after[g].receivers[i]@.id) && settled(
        after,
        grown,
        g,
        i,
    ) by {
        if !(g == k && i == last) {
            assert(settled(groups, table, g, i));
        }
    }
    assert forall|id: u32| #[trigger] grown.contains_key(id) implies has_channel(after, id) by {
        if id == receiver@.id {
            assert(holds(after, k, last, id));
        } else {
            lemma_located(groups, id);
            assert(holds(after, locate(groups, id).0, locate(groups, id).1, id));
        }
    }
}

/// When a record opens a new group at place `k`, the table with its position
/// added knows exactly the identifiers of the new groups, and has the groups up
/// to `k` right.
proof fn lemma_opened_keys<T, P: Ord>(
    groups: Seq<GroupView<T, P>>,
    table: Map<u32, Position>,
    k: int,
    priority: P,
    receiver: DynReceiver<T>,
)
    requires
        valid(groups),
        agrees(groups, table),
        0 <= k <= groups.len(),
        !has_channel(groups, receiver@.id),
    ensures
        keys_match(
            groups.insert(k, alone(priority, receiver)),
            table.insert(receiver@.id, (k as usize, 0usize)),
        ),
        forall|h: int, i: int|
            0 <= h <= k && placed(groups.insert(k, alone(priority, receiver)), h, i)
                ==> #[trigger] settled(
                groups.insert(k, alone(priority, receiver)),
                table.insert(receiver@.id, (k as usize, 0usize)),
                h,
                i,
            ),
{
    let after = groups.insert(k, alone(priority, receiver));
    let grown = table.insert(receiver@.id, (k as usize, 0usize));
    assert forall|id: u32| #[trigger] grown.contains_key(id) implies has_channel(after, id) by {
        if id == receiver@.id {
            assert(holds(after, k, 0, id));
        } else {
            lemma_located(groups, id);
            let (g, i) = locate(groups, id);
            assert(holds(after, if g < k { g } else { g + 1 }, i, id));
        }
    }
    assert forall|h: int, i: int| 0 <= h <= k && placed(after, h, i) implies #[trigger] settled(
        after,
        grown,
        h,
        i,
    ) by {
        if h < k {
            assert(settled(groups, table, h, i));
        }
    }
}

/// When a channel leaves, the table without its identifier knows exactly the
/// identifiers that remain, and still has every position right that the
/// removal did not move.
proof fn lemma_removed_keys<T, P: Ord>(
    groups: Seq<GroupView<T, P>>,
    table: Map<u32, Position>,
    id: u32,
)
    requires
        valid(groups),
        agrees(groups, table),
        has_channel(groups, id),
    ensures
        keys_match(removed(groups, id), table.remove(id)),
        forall|h: int, j: int|
            placed(removed(groups, id), h, j) && origin(groups, id, h, j) == (h, j)
                ==> #[trigger] settled(removed(groups, id), table.remove(id), h, j),
{
    lemma_located(groups, id);
    lemma_removed_keeps_the_rest(groups, id);
    let after = removed(groups, id);
    let shrunk = table.remove(id);
    assert forall|h: int, j: int|
        #![trigger after[h].receivers[j]]
        placed(after, h, j) implies shrunk.contains_key(after[h].receivers[j]@.id) by {
        let (g, i) = origin(groups, id, h, j);
        assert(holds(groups, g, i, groups[g].receivers[i]@.id));
    }
    assert forall|other: u32| #[trigger] shrunk.contains_key(other) implies has_channel(
        after,
        other,
    ) by {
        lemma_located(groups, other);
        let (g, i) = locate(groups, other);
        let (h, j) = choose|h: int, j: int|
            placed(after, h, j) && #[trigger] origin(groups, id, h, j) == (g, i);
        assert(holds(after, h, j, other));
    }
    assert forall|h: int, j: int|
        placed(after, h, j) && origin(groups, id, h, j) == (h, j) implies #[trigger] settled(
        after,
        shrunk,
        h,
        j,
    ) by {
        assert(settled(groups, table, h, j));
    }
}

/// Setting a freeze flag leaves the table in agreement with the groups.
proof fn lemma_refrozen_agrees<T, P: Ord>(
    groups: Seq<GroupView<T, P>>,
    table: Map<u32, Position>,
    id: u32,
    frozen: bool,
)
    requires
        valid(groups),
        agrees(groups, table),
        has_channel(groups, id),
    ensures
        agrees(refrozen(groups, id, frozen), table),
{
    lemma_refrozen_valid(groups, id, frozen);
    let after = refrozen(groups, id, frozen);
    assert forall|g: int, i: int|
        #![trigger after[g].receivers[i]]
        placed(after, g, i) implies table.contains_key(after[g].receivers[i]@.id) && settled(
        after,
        table,
        g,
        i,
    ) by {
        let other = after[g].receivers[i]@.id;
        assert(holds(groups, g, i, other));
        assert(settled(groups, table, g, i));
    }
}

/// The records of one priority class.
#[verifier::reject_recursive_types(T)]
pub struct PriorityGroup<T, P: Priority> {
    priority: P,
    receivers: Vec<DynReceiver<T>>,
}

impl<T, P: Priority> View for PriorityGroup<T, P> {
    type V = GroupView<T, P>;

    closed spec fn view(&self) -> GroupView<T, P> {
        GroupView { priority: self.priority, receivers: self.receivers@ }
    }
}

impl<T, P: Priority> PriorityGroup<T, P> {
    /// A group of class `priority` with no record yet.
    pub fn new(priority: P) -> (group: Self)
        ensures
            group@ == (GroupView { priority, receivers: Seq::<DynReceiver<T>>::empty() }),
    {
        PriorityGroup { priority, receivers: Vec::new() }
    }

    /// The class of the group.
    pub fn priority(&self) -> (priority: &P)
        ensures
            *priority == self@.priority,
    {
        &self.priority
    }

    /// How many records the group has.
    pub fn len(&self) -> (len: usize)
        ensures
            len == self@.receivers.len(),
    {
        self.receivers.len()
    }

    /// The record at place `i`.
    pub fn receiver(&self, i: usize) -> (record: &DynReceiver<T>)
        requires
            i < self@.receivers.len(),
        ensures
            *record == self@.receivers[i as int],
    {
        &self.receivers[i]
    }

    /// A group has no more records than the machine can count.
    pub proof fn lemma_fits(&self)
        ensures
            self@.receivers.len() <= usize::MAX,
    {
        assert(self.receivers@.len() == self.receivers.len());
    }
}

/// The priority index of a bundle.
#[verifier::reject_recursive_types(T)]
pub struct DynState<T, P: Priority> {
    next_id: u32,
    lookup: HashMap<u32, Position, ahash::RandomState>,
    groups: Vec<PriorityGroup<T, P>>,
}

impl<T, P: Priority> View for DynState<T, P> {
    type V = Seq<GroupView<T, P>>;

    closed spec fn view(&self) -> Seq<GroupView<T, P>> {
        self.groups@.map_values(|group: PriorityGroup<T, P>| group@)
    }
}

impl<T, P: Priority> DynState<T, P> {
    /// The identifier that the next channel will get.
    pub closed spec fn next_id(&self) -> u32 {
        self.next_id
    }

    /// The index is well formed: its groups are valid, its table agrees with
    /// them, and every identifier in use was handed out before.
    pub closed spec fn wf(&self) -> bool {
        &&& valid(self@)
        &&& agrees(self@, self.lookup@)
        &&& forall|id: u32| #[trigger] self.lookup@.contains_key(id) ==> id < self.next_id
    }

    /// A well-formed index has valid groups, and has handed out the identifier
    /// of every channel in it.
    pub proof fn lemma_wf(&self)
        requires
            self.wf(),
        ensures
            valid(self@),
            forall|id: u32| has_channel(self@, id) ==> id < self.next_id(),
    {
    }

    /// Group `g` and the places within it are machine-sized numbers.
    proof fn lemma_positions_fit(&self, g: int)
        requires
            0 <= g < self@.len(),
        ensures
            self@.len() == self.groups@.len(),
            self@.len() <= usize::MAX,
            self@[g] == self.groups@[g]@,
            self@[g].receivers.len() <= usize::MAX,
    {
        assert(self.groups@.len() == self.groups.len());
        assert(self.groups@[g].receivers@.len() == self.groups@[g].receivers.len());
    }

    /// An index with no channel.
    pub fn new() -> (state: Self)
        ensures
            state.wf(),
            state@ == Seq::<GroupView<T, P>>::empty(),
            state.next_id() == 0,
    {
        DynState { next_id: 0, lookup: HashMap::default(), groups: Vec::new() }
    }

    /// Whether the index has no channel.
    pub fn is_empty(&self) -> (empty: bool)
        ensures
            empty == (self@.len() == 0),
    {
        self.groups.is_empty()
    }

    /// How many groups the index has.
    pub fn group_count(&self) -> (count: usize)
        ensures
            count == self@.len(),
    {
        self.groups.len()
    }

    /// The group at place `g`; the group at place 0 is served first.
    pub fn group(&self, g: usize) -> (group: &PriorityGroup<T, P>)
        requires
            g < self@.len(),
        ensures
            group@ == self@[g as int],
    {
        &self.groups[g]
    }

    /// Where the channel with identifier `id` stands, if the index has it.
    pub fn position(&self, id: u32) -> (at: Option<Position>)
        requires
            self.wf(),
        ensures
            at.is_some() == has_channel(self@, id),
            at matches Some(place) ==> (place.0 as int, place.1 as int) == locate(self@, id)
                && holds(self@, place.0 as int, place.1 as int, id),
    {
        let found = lookup_get(&self.lookup, id);
        proof {
            lemma_table_locates(self@, self.lookup@, id);
            if has_channel(self@, id) {
                self.lemma_positions_fit(locate(self@, id).0);
            }
        }
        found
    }

    /// The record of the channel with identifier `id`, if the index has it.
    pub fn find(&self, id: u32) -> (found: Option<&DynReceiver<T>>)
        requires
            self.wf(),
        ensures
            found.is_some() == has_channel(self@, id),
            found matches Some(record) ==> record@.id == id
                && *record == self@[locate(self@, id).0].receivers[locate(self@, id).1],
    {
        match self.position(id) {
            Some((g, i)) => {
                proof {
                    self.lemma_positions_fit(g as int);
                }
                Some(self.groups[g].receiver(i))
            },
            None => None,
        }
    }

    /// How many messages wait in the channel with identifier `id` right now; 0
    /// if the index has no such channel. For a channel of the index the number
    /// is an observation of its queue, which producers and consumers change at
    /// any time.
    pub fn pending_of(&self, id: u32) -> (pending: usize)
        requires
            self.wf(),
        ensures
            !has_channel(self@, id) ==> pending == 0,
    {
        match self.find(id) {
            Some(record) => record.pending(),
            None => 0,
        }
    }

    /// Whether the index has a channel with identifier `id`.
    pub fn contains(&self, id: u32) -> (present: bool)
        requires
            self.wf(),
        ensures
            present == has_channel(self@, id),
    {
        self.position(id).is_some()
    }

    /// Hands out the next identifier, or `None` when all of them have been used.
    pub fn fresh_id(&mut self) -> (id: Option<u32>)
        requires
            old(self).wf(),
        ensures
            final(self).wf(),
            final(self)@ == old(self)@,
            old(self).next_id() < u32::MAX ==> id == Some(old(self).next_id())
                && final(self).next_id() == old(self).next_id() + 1,
            old(self).next_id() == u32::MAX ==> id.is_none()
                && final(self).next_id() == u32::MAX,
    {
        if self.next_id == u32::MAX {
            return None;
        }
        let id = self.next_id;
        self.next_id = id + 1;
        Some(id)
    }

    /// Finds the slot of `priority` by bisection, and says whether a group of that
    /// class stands there.
    fn search(&self, priority: &P) -> (found: (usize, bool))
        requires
            self.wf(),
            lawful_order::<P>(),
        ensures
            found.0 == slot(self@, *priority),
            found.0 <= self@.len(),
            found.1 == (found.0 < self@.len() && same_class(
                self@[found.0 as int].priority,
                *priority,
            )),
    {
        let mut lo: usize = 0;
        let mut hi: usize = self.groups.len();
        while lo < hi
            invariant
                self.wf(),
                lawful_order::<P>(),
                lo <= hi <= self@.len(),
                self@.len() == self.groups@.len(),
                forall|j: int| 0 <= j < lo ==> before((#[trigger] self@[j]).priority, *priority),
                forall|j: int|
                    hi <= j < self@.len() ==> before(*priority, (#[trigger] self@[j]).priority),
            decreases hi - lo,
        {
            let mid = lo + (hi - lo) / 2;
            let ghost here = self@[mid as int].priority;
            match standing(self.groups[mid].priority(), priority) {
                Standing::Before => {
                    assert forall|j: int| 0 <= j < mid + 1 implies before(
                        (#[trigger] self@[j]).priority,
                        *priority,
                    ) by {
                        lemma_before_transitive(self@[j].priority, here, *priority);
                    }
                    lo = mid + 1;
                },
                Standing::After => {
                    assert forall|j: int| mid <= j < self@.len() implies before(
                        *priority,
                        (#[trigger] self@[j]).priority,
                    ) by {
                        lemma_before_transitive(*priority, here, self@[j].priority);
                    }
                    hi = mid;
                },
                Standing::Same => {
                    assert forall|j: int| 0 <= j < mid implies before(
                        (#[trigger] self@[j]).priority,
                        *priority,
                    ) by {
                        lemma_before_transitive(self@[j].priority, here, *priority);
                    }
                    proof {
                        lemma_slot(self@, *priority, mid as int);
                    }
                    return (mid, true);
                },
            }
        }
        proof {
            lemma_slot(self@, *priority, lo as int);
        }
        (lo, false)
    }

    /// Points the table at the records of group `g` from place `from` on.
    fn reindex_group(&mut self, g: usize, from: usize)
        requires
            valid(old(self)@),
            keys_match(old(self)@, old(self).lookup@),
            g < old(self)@.len(),
            from <= old(self)@[g as int].receivers.len(),
            forall|i: int| 0 <= i < from ==> settled(old(self)@, old(self).lookup@, g as int, i),
        ensures
            final(self)@ == old(self)@,
            final(self).next_id() == old(self).next_id(),
            final(self).lookup@.dom() == old(self).lookup@.dom(),
            keys_match(final(self)@, final(self).lookup@),
            forall|i: int|
                placed(final(self)@, g as int, i) ==> settled(
                    final(self)@,
                    final(self).lookup@,
                    g as int,
                    i,
                ),
            forall|h: int, i: int|
                placed(final(self)@, h, i) && h != g ==> (#[trigger] settled(
                    final(self)@,
                    final(self).lookup@,
                    h,
                    i,
                )) == settled(old(self)@, old(self).lookup@, h, i),
    {
        let count = self.groups[g].len();
        let ghost groups = self@;
        let mut place = from;
        while place < count
            invariant
                valid(groups),
                groups == old(self)@,
                self@ == groups,
                self.next_id == old(self).next_id,
                self.lookup@.dom() == old(self).lookup@.dom(),
                keys_match(groups, self.lookup@),
                g < groups.len(),
                self.groups@.len() == groups.len(),
                count == groups[g as int].receivers.len(),
                from <= place <= count,
                forall|i: int| 0 <= i < place ==> settled(groups, self.lookup@, g as int, i),
                forall|h: int, i: int|
                    placed(groups, h, i) && h != g ==> (#[trigger] settled(
                        groups,
                        self.lookup@,
                        h,
                        i,
                    )) == settled(groups, old(self).lookup@, h, i),
            decreases count - place,
        {
            let id = self.groups[g].receiver(place).id();
            let ghost table = self.lookup@;
            lookup_insert(&mut self.lookup, id, (g, place));
            proof {
                assert(holds(groups, g as int, place as int, id));
                assert forall|i: int| 0 <= i < place + 1 implies settled(
                    groups,
                    self.lookup@,
                    g as int,
                    i,
                ) by {
                    if i < place {
                        assert(settled(groups, table, g as int, i));
                        assert(holds(groups, g as int, i, groups[g as int].receivers[i]@.id));
                    }
                }
                assert forall|h: int, i: int|
                    #![trigger settled(groups, self.lookup@, h, i)]
                    placed(groups, h, i) && h != g implies settled(groups, self.lookup@, h, i)
                    == settled(groups, old(self).lookup@, h, i) by {
                    assert(holds(groups, h, i, groups[h].receivers[i]@.id));
                    assert(settled(groups, self.lookup@, h, i) == settled(groups, table, h, i));
                }
            }
            place = place + 1;
        }
    }

    /// Points the table at the records of every group from group `from` on.
    fn reindex_from(&mut self, from: usize)
        requires
            valid(old(self)@),
            keys_match(old(self)@, old(self).lookup@),
            from <= old(self)@.len(),
            forall|h: int, i: int|
                placed(old(self)@, h, i) && h < from ==> #[trigger] settled(
                    old(self)@,
                    old(self).lookup@,
                    h,
                    i,
                ),
        ensures
            final(self)@ == old(self)@,
            final(self).next_id() == old(self).next_id(),
            final(self).lookup@.dom() == old(self).lookup@.dom(),
            agrees(final(self)@, final(self).lookup@),
    {
        let count = self.groups.len();
        let ghost groups = self@;
        let mut g = from;
        while g < count
            invariant
                valid(groups),
                groups == old(self)@,
                self@ == groups,
                self.next_id == old(self).next_id,
                self.lookup@.dom() == old(self).lookup@.dom(),
                keys_match(groups, self.lookup@),
                count == groups.len(),
                from <= g <= count,
                forall|h: int, i: int|
                    placed(groups, h, i) && h < g ==> #[trigger] settled(
                        groups,
                        self.lookup@,
                        h,
                        i,
                    ),
            decreases count - g,
        {
            self.reindex_group(g, 0);
            g = g + 1;
        }
    }

    /// Adds `receiver` to the group of class `priority`, creating the group if
    /// the class has none yet.
    pub fn add_receiver(&mut self, priority: P, receiver: DynReceiver<T>)
        requires
            old(self).wf(),
            lawful_order::<P>(),
            !has_channel(old(self)@, receiver@.id),
            receiver@.id < old(self).next_id(),
            receiver@.weight >= 1,
        ensures
            final(self).wf(),
            final(self)@ == inserted(old(self)@, priority, receiver),
            final(self).next_id() == old(self).next_id(),
    {
        let id = receiver.id();
        let (at, present) = self.search(&priority);
        proof {
            lemma_inserted_valid(self@, priority, receiver);
        }
        if present {
            let place = self.groups[at].receivers.len();
            self.groups[at].receivers.push(receiver);
            lookup_insert(&mut self.lookup, id, (at, place));
            proof {
                let grown = self.groups@[at as int].receivers;
                assert(grown@.len() == grown.len());
                assert(self@ =~= inserted(old(self)@, priority, receiver));
                lemma_joined_agrees(old(self)@, old(self).lookup@, at as int, receiver);
            }
        } else {
            let mut group = PriorityGroup::new(priority);
            group.receivers.push(receiver);
            self.groups.insert(at, group);
            lookup_insert(&mut self.lookup, id, (at, 0));
            proof {
                assert(self@ =~= inserted(old(self)@, priority, receiver));
                lemma_opened_keys(old(self)@, old(self).lookup@, at as int, priority, receiver);
                self.lemma_positions_fit(at as int);
            }
            self.reindex_from(at + 1);
        }
    }

    /// Opens a channel of class `priority` and adds its record under the next
    /// identifier. Returns the identifier and the sending half, or `None`, with
    /// the index unchanged, when every identifier has been handed out or a
    /// channel of capacity `bounds` cannot be allocated.
    pub fn open_channel(
        &mut self,
        priority: P,
        weight: u32,
        frozen: bool,
        bounds: Option<usize>,
    ) -> (opened: Option<(u32, Sender<T>)>)
        requires
            old(self).wf(),
            lawful_order::<P>(),
            weight >= 1,
        ensures
            final(self).wf(),
            opened.is_some() <==> old(self).next_id() < u32::MAX && bounds_fit::<T>(bounds),
            opened.is_none() ==> final(self)@ == old(self)@
                && final(self).next_id() == old(self).next_id(),
            opened matches Some(channel) ==> {
                &&& channel.0 == old(self).next_id()
                &&& final(self).next_id() == old(self).next_id() + 1
                &&& exists|record: DynReceiver<T>|
                    {
                        &&& record@ == (RecordView {
                            id: channel.0,
                            weight,
                            frozen,
                            capacity: bounds,
                        })
                        &&& final(self)@ == inserted(old(self)@, priority, record)
                    }
            },
    {
        if !check_bounds::<T>(bounds) {
            return None;
        }
        match self.fresh_id() {
            None => None,
            Some(id) => {
                let (record, sender) = DynReceiver::open(id, weight, frozen, bounds);
                proof {
                    lemma_table_locates(self@, self.lookup@, id);
                }
                self.add_receiver(priority, record);
                Some((id, sender))
            },
        }
    }

    /// Removes the channel with identifier `id`. Messages still queued in it are
    /// lost with it.
    pub fn remove_receiver(&mut self, id: u32)
        requires
            old(self).wf(),
            has_channel(old(self)@, id),
        ensures
            final(self).wf(),
            final(self)@ == removed(old(self)@, id),
            final(self).next_id() == old(self).next_id(),
    {
        proof {
            lemma_table_locates(self@, self.lookup@, id);
            lemma_removed_valid(self@, id);
            lemma_removed_keys(self@, self.lookup@, id);
            self.lemma_positions_fit(locate(self@, id).0);
        }
        match lookup_remove(&mut self.lookup, id) {
            Some((g, i)) => {
                self.groups[g].receivers.remove(i);
                if self.groups[g].receivers.is_empty() {
                    self.groups.remove(g);
                    assert(self@ =~= removed(old(self)@, id));
                    self.reindex_from(g);
                } else {
                    assert(self@ =~= removed(old(self)@, id));
                    self.reindex_group(g, i);
                }
            },
            None => {},
        }
    }

    /// Removes the channel with identifier `id` if the index has it, and says
    /// whether it did.
    pub fn discard(&mut self, id: u32) -> (was_there: bool)
        requires
            old(self).wf(),
        ensures
            final(self).wf(),
            was_there == has_channel(old(self)@, id),
            final(self)@ == discarded(old(self)@, id),
            final(self).next_id() == old(self).next_id(),
    {
        if self.contains(id) {
            self.remove_receiver(id);
            true
        } else {
            false
        }
    }

    /// Removes every channel named in `ids` that the index still has.
    pub fn purge(&mut self, ids: &Vec<u32>)
        requires
            old(self).wf(),
        ensures
            final(self).wf(),
            final(self)@ == purged(old(self)@, ids@, ids@.len()),
            final(self).next_id() == old(self).next_id(),
    {
        let mut done: usize = 0;
        while done < ids.len()
            invariant
                self.wf(),
                done <= ids@.len(),
                self@ == purged(old(self)@, ids@, done as nat),
                self.next_id() == old(self).next_id(),
            decreases ids@.len() - done,
        {
            self.discard(ids[done]);
            done = done + 1;
        }
    }

    /// Freezes or unfreezes the channel with identifier `id`.
    pub fn set_frozen(&mut self, id: u32, frozen: bool)
        requires
            old(self).wf(),
            has_channel(old(self)@, id),
        ensures
            final(self).wf(),
            final(self)@ == refrozen(old(self)@, id, frozen),
            final(self).next_id() == old(self).next_id(),
    {
        proof {
            lemma_table_locates(self@, self.lookup@, id);
            lemma_refrozen_valid(self@, id, frozen);
            lemma_refrozen_agrees(self@, self.lookup@, id, frozen);
            self.lemma_positions_fit(locate(self@, id).0);
        }
        match lookup_get(&self.lookup, id) {
            Some((g, i)) => {
                self.groups[g].receivers[i].set_frozen(frozen);
                assert(self@ =~= refrozen(old(self)@, id, frozen));
            },
            None => {},
        }
    }

    /// Freezes or unfreezes the channel with identifier `id` if the index has
    /// it, and returns the flag that the channel had before.
    pub fn refreeze(&mut self, id: u32, frozen: bool) -> (before: Option<bool>)
        requires
            old(self).wf(),
        ensures
            final(self).wf(),
            before.is_some() == has_channel(old(self)@, id),
            before matches Some(flag) ==> final(self)@ == refrozen(old(self)@, id, frozen)
                && flag == old(self)@[locate(old(self)@, id).0].receivers[locate(
                old(self)@,
                id,
            ).1]@.frozen,
            before.is_none() ==> final(self)@ == old(self)@,
            final(self).next_id() == old(self).next_id(),
    {
        let before = match self.find(id) {
            Some(record) => Some(record.is_frozen()),
            None => None,
        };
        if before.is_some() {
            self.set_frozen(id, frozen);
        }
        before
    }
}

} // verus!
