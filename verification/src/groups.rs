//! The groups of a priority index as plain values, and what adding, removing
//! and freezing a channel does to them.
//!
//! The group at place 0 is served first. A group holds the records of one
//! priority class, in the order in which they joined.

use crate::priority::{before, lawful_order, lemma_before_transitive, lemma_trichotomy, same_class};
use crate::record::{lemma_with_frozen, DynReceiver};
use vstd::prelude::*;

verus! {

/// A priority group as a value: its class and its records, in order.
#[verifier::reject_recursive_types(T)]
pub struct GroupView<T, P> {
    /// The priority class that the records share.
    pub priority: P,
    /// The records of the group.
    pub receivers: Seq<DynReceiver<T>>,
}

/// Group `g` exists and has a record at place `i`.
pub open spec fn placed<T, P>(groups: Seq<GroupView<T, P>>, g: int, i: int) -> bool {
    0 <= g < groups.len() && 0 <= i < groups[g].receivers.len()
}

/// The record at place `i` of group `g` exists and has identifier `id`.
pub open spec fn holds<T, P>(groups: Seq<GroupView<T, P>>, g: int, i: int, id: u32) -> bool {
    placed(groups, g, i) && groups[g].receivers[i]@.id == id
}

/// Some record of the index has identifier `id`.
pub open spec fn has_channel<T, P>(groups: Seq<GroupView<T, P>>, id: u32) -> bool {
    exists|g: int, i: int| holds(groups, g, i, id)
}

/// Where the record with identifier `id` stands: its group and its place in it.
pub open spec fn locate<T, P>(groups: Seq<GroupView<T, P>>, id: u32) -> (int, int) {
    choose|at: (int, int)| holds(groups, at.0, at.1, id)
}

/// What must hold of the groups of an index: no group is empty, the groups stand
/// in strictly ascending order of their class (so no two share a class), no
/// identifier occurs twice, and every weight is at least 1.
pub open spec fn valid<T, P: Ord>(groups: Seq<GroupView<T, P>>) -> bool {
    &&& forall|g: int| 0 <= g < groups.len() ==> (#[trigger] groups[g]).receivers.len() > 0
    &&& forall|g: int, h: int|
        #![trigger groups[g], groups[h]]
        0 <= g < h < groups.len() ==> before(groups[g].priority, groups[h].priority)
    &&& forall|g: int, i: int, h: int, j: int, id: u32|
        #![trigger holds(groups, g, i, id), holds(groups, h, j, id)]
        holds(groups, g, i, id) && holds(groups, h, j, id) ==> g == h && i == j
    &&& forall|g: int, i: int|
        #![trigger groups[g].receivers[i]]
        placed(groups, g, i) ==> groups[g].receivers[i]@.weight >= 1
}

/// How many groups at the front are served strictly before `priority`. In a
/// valid index this is where the group of `priority` stands, or would stand.
pub open spec fn slot<T, P: Ord>(groups: Seq<GroupView<T, P>>, priority: P) -> int
    decreases groups.len(),
{
    if groups.len() > 0 && before(groups[0].priority, priority) {
        1 + slot(groups.drop_first(), priority)
    } else {
        0
    }
}

/// Group `g` with `receiver` appended.
pub open spec fn joined<T, P>(group: GroupView<T, P>, receiver: DynReceiver<T>) -> GroupView<T, P> {
    GroupView { priority: group.priority, receivers: group.receivers.push(receiver) }
}

/// A group of class `priority` with `receiver` as its only record.
pub open spec fn alone<T, P>(priority: P, receiver: DynReceiver<T>) -> GroupView<T, P> {
    GroupView { priority, receivers: seq![receiver] }
}

/// The index after `receiver` has joined class `priority`: appended to the group
/// of that class if there is one, else alone in a new group at the class's slot.
pub open spec fn inserted<T, P: Ord>(
    groups: Seq<GroupView<T, P>>,
    priority: P,
    receiver: DynReceiver<T>,
) -> Seq<GroupView<T, P>> {
    let k = slot(groups, priority);
    if k < groups.len() && same_class(groups[k].priority, priority) {
        groups.update(k, joined(groups[k], receiver))
    } else {
        groups.insert(k, alone(priority, receiver))
    }
}

/// Group `g` without the record at place `i`; the later records move up.
pub open spec fn without<T, P>(group: GroupView<T, P>, i: int) -> GroupView<T, P> {
    GroupView { priority: group.priority, receivers: group.receivers.remove(i) }
}

/// The index after the record with identifier `id` has left: the later records
/// of its group move up by one place, and a group left empty disappears.
pub open spec fn removed<T, P>(groups: Seq<GroupView<T, P>>, id: u32) -> Seq<GroupView<T, P>> {
    let (g, i) = locate(groups, id);
    if groups[g].receivers.len() == 1 {
        groups.remove(g)
    } else {
        groups.update(g, without(groups[g], i))
    }
}

/// Group `g` with the freeze flag of the record at place `i` set to `frozen`.
pub open spec fn refrozen_at<T, P>(group: GroupView<T, P>, i: int, frozen: bool) -> GroupView<
    T,
    P,
> {
    GroupView {
        priority: group.priority,
        receivers: group.receivers.update(i, group.receivers[i].with_frozen(frozen)),
    }
}

/// The index after the record with identifier `id` has had its freeze flag set.
pub open spec fn refrozen<T, P>(groups: Seq<GroupView<T, P>>, id: u32, frozen: bool) -> Seq<
    GroupView<T, P>,
> {
    let (g, i) = locate(groups, id);
    groups.update(g, refrozen_at(groups[g], i, frozen))
}

/// The index after the channel with identifier `id` has been discarded: removed
/// if the index has it, else the index as it is.
pub open spec fn discarded<T, P>(groups: Seq<GroupView<T, P>>, id: u32) -> Seq<GroupView<T, P>> {
    if has_channel(groups, id) {
        removed(groups, id)
    } else {
        groups
    }
}

/// The index after the first `n` identifiers of `ids` have been discarded, one
/// after the other.
pub open spec fn purged<T, P>(groups: Seq<GroupView<T, P>>, ids: Seq<u32>, n: nat) -> Seq<
    GroupView<T, P>,
>
    decreases n,
{
    if n == 0 {
        groups
    } else {
        discarded(purged(groups, ids, (n - 1) as nat), ids[n - 1])
    }
}

/// Where the record at place `(h, j)` of `removed(groups, id)` stood in `groups`.
pub open spec fn origin<T, P>(groups: Seq<GroupView<T, P>>, id: u32, h: int, j: int) -> (int, int) {
    let (g, i) = locate(groups, id);
    if groups[g].receivers.len() == 1 {
        if h < g {
            (h, j)
        } else {
            (h + 1, j)
        }
    } else if h == g && j >= i {
        (h, j + 1)
    } else {
        (h, j)
    }
}

/// In a valid index a channel stands at one place only, which is where `locate`
/// finds it.
pub proof fn lemma_locate<T, P: Ord>(groups: Seq<GroupView<T, P>>, g: int, i: int, id: u32)
    requires
        valid(groups),
        holds(groups, g, i, id),
    ensures
        has_channel(groups, id),
        locate(groups, id) == (g, i),
{
    let at = (g, i);
    assert(holds(groups, at.0, at.1, id));
}

/// An index that has a channel has it where `locate` says.
pub proof fn lemma_located<T, P>(groups: Seq<GroupView<T, P>>, id: u32)
    requires
        has_channel(groups, id),
    ensures
        holds(groups, locate(groups, id).0, locate(groups, id).1, id),
{
    let (g, i) = choose|g: int, i: int| holds(groups, g, i, id);
    let at = (g, i);
    assert(holds(groups, at.0, at.1, id));
}

/// If the first `k` groups are before `priority` and group `k`, where there is
/// one, is not, then `k` is the slot of `priority`.
pub proof fn lemma_slot<T, P: Ord>(groups: Seq<GroupView<T, P>>, priority: P, k: int)
    requires
        0 <= k <= groups.len(),
        forall|j: int| 0 <= j < k ==> before((#[trigger] groups[j]).priority, priority),
        k < groups.len() ==> !before(groups[k].priority, priority),
    ensures
        slot(groups, priority) == k,
    decreases k,
{
    if k > 0 {
        lemma_slot(groups.drop_first(), priority, k - 1);
    }
}

/// The slot of a class lies within the index; the groups before it are before
/// the class, and the group at it, where there is one, is not.
pub proof fn lemma_slot_bounds<T, P: Ord>(groups: Seq<GroupView<T, P>>, priority: P)
    ensures
        0 <= slot(groups, priority) <= groups.len(),
        forall|j: int|
            0 <= j < slot(groups, priority) ==> before((#[trigger] groups[j]).priority, priority),
        slot(groups, priority) < groups.len() ==> !before(
            groups[slot(groups, priority)].priority,
            priority,
        ),
    decreases groups.len(),
{
    if groups.len() > 0 && before(groups[0].priority, priority) {
        let rest = groups.drop_first();
        let k = slot(groups, priority);
        lemma_slot_bounds(rest, priority);
        assert forall|j: int| 0 <= j < k implies before(
            (#[trigger] groups[j]).priority,
            priority,
        ) by {
            if j > 0 {
                assert(groups[j] == rest[j - 1]);
            }
        }
    }
}

/// In a valid index, the groups from the slot of a class on are after the
/// class, but for a group of the class itself, which can only stand at the slot.
pub proof fn lemma_slot_splits<T, P: Ord>(groups: Seq<GroupView<T, P>>, priority: P)
    requires
        lawful_order::<P>(),
        valid(groups),
    ensures
        forall|j: int|
            slot(groups, priority) < j < groups.len() ==> before(
                priority,
                (#[trigger] groups[j]).priority,
            ),
        slot(groups, priority) < groups.len() && !same_class(
            groups[slot(groups, priority)].priority,
            priority,
        ) ==> before(priority, groups[slot(groups, priority)].priority),
{
    let k = slot(groups, priority);
    lemma_slot_bounds(groups, priority);
    if k < groups.len() {
        lemma_trichotomy(groups[k].priority, priority);
        assert forall|j: int| k < j < groups.len() implies before(
            priority,
            (#[trigger] groups[j]).priority,
        ) by {
            lemma_before_transitive(priority, groups[k].priority, groups[j].priority);
        }
    }
}

/// Adding a channel that a valid index does not have leaves the index valid.
pub proof fn lemma_inserted_valid<T, P: Ord>(
    groups: Seq<GroupView<T, P>>,
    priority: P,
    receiver: DynReceiver<T>,
)
    requires
        lawful_order::<P>(),
        valid(groups),
        !has_channel(groups, receiver@.id),
        receiver@.weight >= 1,
    ensures
        valid(inserted(groups, priority, receiver)),
{
    let k = slot(groups, priority);
    let after = inserted(groups, priority, receiver);
    lemma_slot_bounds(groups, priority);
    lemma_slot_splits(groups, priority);
    if k < groups.len() && same_class(groups[k].priority, priority) {
        // every record but the new one, at the end of group `k`, stands where it stood
        let last = groups[k].receivers.len() as int;
        assert forall|g: int, i: int, id: u32| holds(after, g, i, id) && !(g == k && i == last)
            implies holds(groups, g, i, id) by {}
    } else {
        // the group at place `g` of `after`, for `g` other than `k`, stood here
        let from = |g: int| if g < k { g } else { g - 1 };
        assert forall|g: int, i: int, h: int, j: int, id: u32|
            #![trigger holds(after, g, i, id), holds(after, h, j, id)]
            holds(after, g, i, id) && holds(after, h, j, id) implies g == h && i == j by {
            if g != k {
                assert(holds(groups, from(g), i, id));
            }
            if h != k {
                assert(holds(groups, from(h), j, id));
            }
        }
    }
}

/// Removing a channel keeps every other record, in its order: each record of
/// the index afterwards stood at its origin before, and each record before,
/// but for the removed one, is the origin of a record afterwards.
pub proof fn lemma_removed_keeps_the_rest<T, P: Ord>(groups: Seq<GroupView<T, P>>, id: u32)
    requires
        valid(groups),
        has_channel(groups, id),
    ensures
        forall|h: int, j: int|
            #![trigger removed(groups, id)[h].receivers[j]]
            placed(removed(groups, id), h, j) ==> {
                &&& placed(groups, origin(groups, id, h, j).0, origin(groups, id, h, j).1)
                &&& origin(groups, id, h, j) != locate(groups, id)
                &&& removed(groups, id)[h].priority == groups[origin(groups, id, h, j).0].priority
                &&& removed(groups, id)[h].receivers[j] == groups[origin(
                    groups,
                    id,
                    h,
                    j,
                ).0].receivers[origin(groups, id, h, j).1]
            },
        forall|g: int, i: int|
            #![trigger placed(groups, g, i)]
            placed(groups, g, i) && (g, i) != locate(groups, id) ==> exists|h: int, j: int|
                placed(removed(groups, id), h, j) && #[trigger] origin(groups, id, h, j) == (g, i),
{
    lemma_located(groups, id);
    let (at, place) = locate(groups, id);
    let after = removed(groups, id);
    assert forall|g: int, i: int|
        #![trigger placed(groups, g, i)]
        placed(groups, g, i) && (g, i) != locate(groups, id) implies exists|h: int, j: int|
        placed(after, h, j) && #[trigger] origin(groups, id, h, j) == (g, i) by {
        let h = if groups[at].receivers.len() == 1 && g > at { g - 1 } else { g };
        let j = if groups[at].receivers.len() > 1 && g == at && i > place { i - 1 } else { i };
        assert(placed(after, h, j) && origin(groups, id, h, j) == (g, i));
    }
}

/// Removing a channel from a valid index leaves the index valid, and the
/// channel is gone from it.
pub proof fn lemma_removed_valid<T, P: Ord>(groups: Seq<GroupView<T, P>>, id: u32)
    requires
        valid(groups),
        has_channel(groups, id),
    ensures
        valid(removed(groups, id)),
        !has_channel(removed(groups, id), id),
{
    lemma_located(groups, id);
    lemma_removed_keeps_the_rest(groups, id);
    let after = removed(groups, id);
    // a record of `after` has the identifier it had at its origin
    assert forall|h: int, j: int, other: u32| holds(after, h, j, other) implies holds(
        groups,
        origin(groups, id, h, j).0,
        origin(groups, id, h, j).1,
        other,
    ) by {}
    if has_channel(after, id) {
        lemma_located(after, id);
    }
}

/// Setting a freeze flag moves no record and changes no identifier, weight or
/// capacity; the index stays valid.
pub proof fn lemma_refrozen_valid<T, P: Ord>(groups: Seq<GroupView<T, P>>, id: u32, frozen: bool)
    requires
        valid(groups),
        has_channel(groups, id),
    ensures
        valid(refrozen(groups, id, frozen)),
        refrozen(groups, id, frozen).len() == groups.len(),
        forall|g: int, i: int, other: u32|
            holds(refrozen(groups, id, frozen), g, i, other) == holds(groups, g, i, other),
{
    lemma_located(groups, id);
    let (at, place) = locate(groups, id);
    let after = refrozen(groups, id, frozen);
    lemma_with_frozen(groups[at].receivers[place], frozen);
    assert forall|g: int, i: int, other: u32| holds(after, g, i, other) == holds(
        groups,
        g,
        i,
        other,
    ) by {}
}

/// Adding a channel adds its identifier to those of the index, and no other.
pub proof fn lemma_inserted_channels<T, P: Ord>(
    groups: Seq<GroupView<T, P>>,
    priority: P,
    receiver: DynReceiver<T>,
    id: u32,
)
    ensures
        has_channel(inserted(groups, priority, receiver), id) <==> has_channel(groups, id) || id
            == receiver@.id,
{
    let k = slot(groups, priority);
    let after = inserted(groups, priority, receiver);
    lemma_slot_bounds(groups, priority);
    let opens = !(k < groups.len() && same_class(groups[k].priority, priority));
    if has_channel(after, id) && id != receiver@.id {
        lemma_located(after, id);
        let (g, i) = locate(after, id);
        if opens {
            assert(holds(groups, if g < k { g } else { g - 1 }, i, id));
        } else {
            assert(holds(groups, g, i, id));
        }
    }
    if has_channel(groups, id) {
        lemma_located(groups, id);
        let (g, i) = locate(groups, id);
        assert(holds(after, if opens && g >= k { g + 1 } else { g }, i, id));
    }
    if id == receiver@.id {
        assert(holds(after, k, if opens { 0 } else { groups[k].receivers.len() as int }, id));
    }
}

/// Removing a channel takes its identifier from those of the index, and no
/// other.
pub proof fn lemma_removed_channels<T, P: Ord>(groups: Seq<GroupView<T, P>>, id: u32, other: u32)
    requires
        valid(groups),
        has_channel(groups, id),
    ensures
        has_channel(removed(groups, id), other) <==> has_channel(groups, other) && other != id,
{
    lemma_removed_valid(groups, id);
    lemma_removed_keeps_the_rest(groups, id);
    lemma_located(groups, id);
    let after = removed(groups, id);
    if has_channel(after, other) {
        lemma_located(after, other);
        let (h, j) = locate(after, other);
        let (g, i) = origin(groups, id, h, j);
        assert(holds(groups, g, i, other));
    }
    if has_channel(groups, other) && other != id {
        lemma_located(groups, other);
        let (g, i) = locate(groups, other);
        let (h, j) = choose|h: int, j: int|
            placed(after, h, j) && #[trigger] origin(groups, id, h, j) == (g, i);
        assert(holds(after, h, j, other));
    }
}

/// Purging leaves a valid index valid, and leaves in it exactly the channels
/// that were not named.
pub proof fn lemma_purged_channels<T, P: Ord>(
    groups: Seq<GroupView<T, P>>,
    ids: Seq<u32>,
    n: nat,
    other: u32,
)
    requires
        valid(groups),
        n <= ids.len(),
    ensures
        valid(purged(groups, ids, n)),
        has_channel(purged(groups, ids, n), other) <==> has_channel(groups, other) && !ids.take(
            n as int,
        ).contains(other),
    decreases n,
{
    if n > 0 {
        let before = purged(groups, ids, (n - 1) as nat);
        let id = ids[n - 1];
        lemma_purged_channels(groups, ids, (n - 1) as nat, other);
        if has_channel(before, id) {
            lemma_removed_valid(before, id);
            lemma_removed_channels(before, id, other);
        }
        // the first `n` names are the first `n - 1` and `id`
        assert(ids.take(n as int)[n - 1] == id);
    }
}

} // verus!
