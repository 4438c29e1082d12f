//! Pending counts: how many messages wait in the channels of a bundle.
//!
//! The counts are taken from a census, one look at every channel. Producers
//! and consumers go on while it is taken, so a census is exact only while the
//! bundle is quiet; what is proved is how the counts follow from one census.

use crate::groups::{
    has_channel, holds, lemma_removed_valid, placed, removed, valid, GroupView,
};
use crate::index::DynState;
use crate::priority::Priority;
use crate::record::DynReceiver;
use vstd::prelude::*;

verus! {

/// What a census saw in one channel.
#[derive(Debug, Clone, Copy, PartialEq, Eq, Structural)]
pub struct Tally {
    /// The identifier of the channel.
    pub id: u32,
    /// How many messages were queued in it.
    pub queued: usize,
}

/// The messages in the first `n` channels of a census, added up.
pub open spec fn sum_queued(census: Seq<Tally>, n: nat) -> nat
    decreases n,
{
    if n == 0 {
        0
    } else {
        sum_queued(census, (n - 1) as nat) + census[n - 1].queued as nat
    }
}

/// The messages that the first `n` entries of a census saw in channel `id`; 0
/// if none of them is about that channel.
pub open spec fn queued_among(census: Seq<Tally>, id: u32, n: nat) -> nat
    decreases n,
{
    if n == 0 {
        0
    } else if census[n - 1].id == id {
        census[n - 1].queued as nat
    } else {
        queued_among(census, id, (n - 1) as nat)
    }
}

/// The messages that a census saw in channel `id`; 0 if it saw no such channel.
pub open spec fn queued_of(census: Seq<Tally>, id: u32) -> nat {
    queued_among(census, id, census.len())
}

/// The per-channel counts of the first `n` channels of a census, added up.
pub open spec fn sum_by_channel(census: Seq<Tally>, n: nat) -> nat
    decreases n,
{
    if n == 0 {
        0
    } else {
        sum_by_channel(census, (n - 1) as nat) + queued_of(census, census[n - 1].id)
    }
}

/// No channel occurs twice in the census.
pub open spec fn distinct(census: Seq<Tally>) -> bool {
    forall|j: int, k: int|
        0 <= j < k < census.len() ==> (#[trigger] census[j]).id != (#[trigger] census[k]).id
}

/// The census has an entry about channel `id`.
pub open spec fn counted(census: Seq<Tally>, id: u32) -> bool {
    exists|k: int| 0 <= k < census.len() && (#[trigger] census[k]).id == id
}

/// The census is about exactly the channels of the index, each once.
pub open spec fn covers<T, P>(census: Seq<Tally>, groups: Seq<GroupView<T, P>>) -> bool {
    &&& distinct(census)
    &&& forall|k: int| 0 <= k < census.len() ==> has_channel(groups, (#[trigger] census[k]).id)
    &&& forall|g: int, i: int|
        #![trigger groups[g].receivers[i]]
        placed(groups, g, i) ==> counted(census, groups[g].receivers[i]@.id)
}

/// In a census without repeats, the count of a channel is what its own entry
/// says.
pub proof fn lemma_queued_of_entry(census: Seq<Tally>, k: int, n: nat)
    requires
        distinct(census),
        0 <= k < n <= census.len(),
    ensures
        queued_among(census, census[k].id, n) == census[k].queued,
    decreases n,
{
    if k < n - 1 {
        lemma_queued_of_entry(census, k, (n - 1) as nat);
    }
}

/// The total of a census is the sum of its per-channel counts.
pub proof fn lemma_total_is_sum_by_channel(census: Seq<Tally>, n: nat)
    requires
        distinct(census),
        n <= census.len(),
    ensures
        sum_queued(census, n) == sum_by_channel(census, n),
    decreases n,
{
    if n > 0 {
        lemma_total_is_sum_by_channel(census, (n - 1) as nat);
        lemma_queued_of_entry(census, n - 1, census.len());
    }
}

/// A channel that a census has no entry about counts for nothing in it.
pub proof fn lemma_uncounted_is_zero(census: Seq<Tally>, id: u32, n: nat)
    requires
        !counted(census, id),
        n <= census.len(),
    ensures
        queued_among(census, id, n) == 0,
    decreases n,
{
    if n > 0 {
        assert(census[n - 1].id != id);
        lemma_uncounted_is_zero(census, id, (n - 1) as nat);
    }
}

/// A census taken after a channel was removed has no entry about it and counts
/// nothing for it; its total is still the sum of its per-channel counts.
pub proof fn lemma_census_after_removal<T, P: Ord>(
    groups: Seq<GroupView<T, P>>,
    id: u32,
    census: Seq<Tally>,
)
    requires
        valid(groups),
        has_channel(groups, id),
        covers(census, removed(groups, id)),
    ensures
        !counted(census, id),
        queued_of(census, id) == 0,
        sum_queued(census, census.len()) == sum_by_channel(census, census.len()),
{
    lemma_removed_valid(groups, id);
    if counted(census, id) {
        let k = choose|k: int| 0 <= k < census.len() && (#[trigger] census[k]).id == id;
        assert(has_channel(removed(groups, id), census[k].id));
    }
    lemma_uncounted_is_zero(census, id, census.len());
    lemma_total_is_sum_by_channel(census, census.len());
}

/// The identifiers of the records of the first `n` groups, group by group.
pub open spec fn ids_in_order<T, P>(groups: Seq<GroupView<T, P>>, n: nat) -> Seq<u32>
    decreases n,
{
    if n == 0 {
        Seq::empty()
    } else {
        ids_in_order(groups, (n - 1) as nat) + groups[n - 1].receivers.map_values(
            |record: DynReceiver<T>| record@.id,
        )
    }
}

/// The identifiers of the channels that a census is about, in its order.
pub open spec fn ids_counted(census: Seq<Tally>) -> Seq<u32> {
    census.map_values(|tally: Tally| tally.id)
}

/// Looks once at every channel of the index, group by group, and within a group
/// in the order of its records.
pub fn take_census<T, P: Priority>(state: &DynState<T, P>) -> (census: Vec<Tally>)
    requires
        state.wf(),
    ensures
        ids_counted(census@) == ids_in_order(state@, state@.len()),
        covers(census@, state@),
{
    proof {
        state.lemma_wf();
    }
    let mut census: Vec<Tally> = Vec::new();
    let ghost groups = state@;
    let ghost mut places: Seq<(int, int)> = Seq::empty();
    let count = state.group_count();
    let mut g: usize = 0;
    while g < count
        invariant
            valid(groups),
            groups == state@,
            count == groups.len(),
            g <= count,
            ids_counted(census@) == ids_in_order(groups, g as nat),
            places.len() == census@.len(),
            forall|k: int|
                #![trigger places[k]]
                0 <= k < census@.len() ==> places[k].0 < g && holds(
                    groups,
                    places[k].0,
                    places[k].1,
                    census@[k].id,
                ),
            forall|j: int, k: int| 0 <= j < k < census@.len() ==> places[j] != places[k],
            forall|h: int, i: int|
                placed(groups, h, i) && h < g ==> #[trigger] places.contains((h, i)),
        decreases count - g,
    {
        let group = state.group(g);
        let size = group.len();
        let ghost ids = groups[g as int].receivers.map_values(|record: DynReceiver<T>| record@.id);
        let mut i: usize = 0;
        while i < size
            invariant
                valid(groups),
                groups == state@,
                g < groups.len(),
                group@ == groups[g as int],
                size == groups[g as int].receivers.len(),
                i <= size,
                ids == groups[g as int].receivers.map_values(|record: DynReceiver<T>| record@.id),
                ids_counted(census@) == ids_in_order(groups, g as nat) + ids.take(i as int),
                places.len() == census@.len(),
                forall|k: int|
                    #![trigger places[k]]
                    0 <= k < census@.len() ==> (places[k].0 < g || (places[k].0 == g
                        && places[k].1 < i)) && holds(
                        groups,
                        places[k].0,
                        places[k].1,
                        census@[k].id,
                    ),
                forall|j: int, k: int| 0 <= j < k < census@.len() ==> places[j] != places[k],
                forall|h: int, l: int|
                    placed(groups, h, l) && (h < g || (h == g && l < i))
                        ==> #[trigger] places.contains((h, l)),
            decreases size - i,
        {
            let record = group.receiver(i);
            let ghost before = places;
            let ghost counted = ids_counted(census@);
            census.push(Tally { id: record.id(), queued: record.pending() });
            proof {
                places = places.push((g as int, i as int));
                assert(ids_counted(census@) =~= counted.push(record@.id));
                assert forall|h: int, l: int|
                    placed(groups, h, l) && (h < g || (h == g && l < i + 1))
                    implies #[trigger] places.contains((h, l)) by {
                    if h == g && l == i {
                        assert(places[census@.len() - 1] == (h, l));
                    } else {
                        assert(before.contains((h, l)));
                        assert(places[before.index_of((h, l))] == (h, l));
                    }
                }
            }
            i = i + 1;
        }
        g = g + 1;
    }
    proof {
        assert forall|j: int, k: int| 0 <= j < k < census@.len() implies (#[trigger] census@[j]).id
            != (#[trigger] census@[k]).id by {
            assert(places[j] != places[k]);
        }
        assert forall|k: int| 0 <= k < census@.len() implies has_channel(
            groups,
            (#[trigger] census@[k]).id,
        ) by {
            assert(holds(groups, places[k].0, places[k].1, census@[k].id));
        }
        assert forall|h: int, i: int|
            #![trigger groups[h].receivers[i]]
            placed(groups, h, i) implies counted(census@, groups[h].receivers[i]@.id) by {
            assert(places.contains((h, i)));
        }
    }
    census
}

/// The messages that a census saw, added up, as a machine number: the sum
/// stops at the largest number the machine holds.
pub open spec fn total_of(census: Seq<Tally>) -> usize {
    if sum_queued(census, census.len()) <= usize::MAX {
        sum_queued(census, census.len()) as usize
    } else {
        usize::MAX
    }
}

/// The messages that a census saw, added up. The sum stops at the largest
/// number the machine holds.
pub fn pending_total(census: &Vec<Tally>) -> (total: usize)
    ensures
        total == total_of(census@),
{
    let mut total: usize = 0;
    let mut k: usize = 0;
    while k < census.len()
        invariant
            k <= census@.len(),
            total == if sum_queued(census@, k as nat) <= usize::MAX {
                sum_queued(census@, k as nat)
            } else {
                usize::MAX as nat
            },
        decreases census@.len() - k,
    {
        total = total.saturating_add(census[k].queued);
        k = k + 1;
    }
    total
}

/// The messages that a census saw in channel `id`; 0 if it saw no such channel.
pub fn pending_in(census: &Vec<Tally>, id: u32) -> (queued: usize)
    ensures
        queued == queued_of(census@, id),
{
    let mut k: usize = census.len();
    while k > 0
        invariant
            k <= census@.len(),
            queued_among(census@, id, census@.len()) == queued_among(census@, id, k as nat),
        decreases k,
    {
        k = k - 1;
        if census[k].id == id {
            return census[k].queued;
        }
    }
    0
}

} // verus!
