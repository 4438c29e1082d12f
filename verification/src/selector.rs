//! The selector: which channel a receive serves.
//!
//! Groups are tried in the order of their priority class. Within a group the
//! candidates are the channels that are not frozen and either have a message
//! queued or are rendezvous channels, where a producer may be waiting without
//! anything being queued. One candidate is drawn by weight and popped; if it
//! gives nothing it leaves the list and another is drawn, until the list is
//! empty and the next group has its turn.

use crate::candidates::{Candidate, Candidates};
use crate::cleanup::Cleanup;
use crate::fifo::Popped;
use crate::groups::{holds, valid, GroupView};
use crate::index::{DynState, PriorityGroup};
use crate::priority::{before, lawful_order, lemma_trichotomy, Priority};
use crate::record::{DynReceiver, RecordView};
use vstd::prelude::*;

verus! {

/// A message together with the identifier of the channel it came from.
pub struct Selected<T> {
    /// The message.
    pub value: T,
    /// The identifier of the channel that the message was popped from.
    pub source: u32,
}

/// What to do with a candidate after it was popped.
pub enum Verdict<T> {
    /// It gave a message: the pass ends with it.
    Deliver(Selected<T>),
    /// It gave nothing: it leaves the candidate list.
    Skip,
    /// Its producers are all gone: it leaves the list and is noted for cleanup.
    SkipAndClean,
}

/// Whether a record may be popped by a pass that saw `queued` messages in it.
pub open spec fn eligible(record: RecordView, queued: usize) -> bool {
    !record.frozen && (queued > 0 || record.capacity == Some(0usize))
}

/// Decides `eligible` for a record in which `queued` messages were seen.
pub fn is_eligible<T>(record: &DynReceiver<T>, queued: usize) -> (yes: bool)
    ensures
        yes == eligible(record@, queued),
{
    !record.is_frozen() && (queued > 0 || record.capacity() == Some(0))
}

/// The candidates among the first `n` records, for the queue lengths `queued`
/// that were seen in them: the eligible records in their order, each with its
/// place and weight.
pub open spec fn candidates_among<T>(
    records: Seq<DynReceiver<T>>,
    queued: Seq<usize>,
    n: nat,
) -> Seq<Candidate>
    decreases n,
{
    if n == 0 {
        Seq::empty()
    } else {
        let before = candidates_among(records, queued, (n - 1) as nat);
        let record = records[n - 1]@;
        if eligible(record, queued[n - 1]) {
            before.push(Candidate { place: (n - 1) as usize, weight: record.weight })
        } else {
            before
        }
    }
}

/// The candidates of a group of records, for the queue lengths seen in them.
pub open spec fn candidates_of<T>(records: Seq<DynReceiver<T>>, queued: Seq<usize>) -> Seq<
    Candidate,
> {
    candidates_among(records, queued, records.len())
}

/// Every candidate stands for a record of the group.
pub open spec fn within<T>(items: Seq<Candidate>, records: Seq<DynReceiver<T>>) -> bool {
    forall|k: int|
        0 <= k < items.len() ==> {
            &&& (#[trigger] items[k]).place < records.len()
            &&& items[k].weight == records[items[k].place as int]@.weight
            &&& !records[items[k].place as int]@.frozen
        }
}

/// Some candidate stands for the record with identifier `id`.
pub open spec fn offers<T>(items: Seq<Candidate>, records: Seq<DynReceiver<T>>, id: u32) -> bool {
    exists|k: int|
        0 <= k < items.len() && (#[trigger] items[k]).place < records.len()
            && records[items[k].place as int]@.id == id
}

/// A frozen channel is never a candidate, whatever is queued in it; and every
/// candidate carries the weight of the record at its place.
pub proof fn lemma_candidates_unfrozen<T>(
    records: Seq<DynReceiver<T>>,
    queued: Seq<usize>,
    n: nat,
)
    requires
        n <= records.len(),
        records.len() <= usize::MAX,
    ensures
        within(candidates_among(records, queued, n), records),
        forall|k: int|
            0 <= k < candidates_among(records, queued, n).len() ==> (#[trigger] candidates_among(
                records,
                queued,
                n,
            )[k]).place < n,
    decreases n,
{
    if n > 0 {
        lemma_candidates_unfrozen(records, queued, (n - 1) as nat);
    }
}

/// What was seen in records from place `n` on says nothing about the candidates
/// among the first `n`.
proof fn lemma_candidates_prefix<T>(
    records: Seq<DynReceiver<T>>,
    queued: Seq<usize>,
    more: Seq<usize>,
    n: nat,
)
    requires
        n <= queued.len() <= more.len(),
        forall|k: int| 0 <= k < n ==> queued[k] == more[k],
    ensures
        candidates_among(records, queued, n) == candidates_among(records, more, n),
    decreases n,
{
    if n > 0 {
        lemma_candidates_prefix(records, queued, more, (n - 1) as nat);
    }
}

/// What follows from popping the candidate with identifier `source`: a message
/// is delivered as it is, an empty channel is skipped, and a disconnected one is
/// skipped and noted for cleanup.
pub open spec fn verdict_of<T>(popped: Popped<T>, source: u32) -> Verdict<T> {
    match popped {
        Popped::Message(value) => Verdict::Deliver(Selected { value, source }),
        Popped::Empty => Verdict::Skip,
        Popped::Disconnected => Verdict::SkipAndClean,
    }
}

/// Decides what follows from popping the candidate with identifier `source`.
pub fn settle<T>(popped: Popped<T>, source: u32) -> (verdict: Verdict<T>)
    ensures
        verdict == verdict_of(popped, source),
{
    match popped {
        Popped::Message(value) => Verdict::Deliver(Selected { value, source }),
        Popped::Empty => Verdict::Skip,
        Popped::Disconnected => Verdict::SkipAndClean,
    }
}

/// Fills `list` with the candidates of `group`, looking once at how much each
/// channel that is not frozen has queued.
pub(crate) fn gather<T, P: Priority>(group: &PriorityGroup<T, P>, list: &mut Candidates)
    ensures
        exists|queued: Seq<usize>|
            queued.len() == group@.receivers.len() && final(list)@ == candidates_of(
                group@.receivers,
                queued,
            ),
{
    list.clear();
    let count = group.len();
    let ghost records = group@.receivers;
    let ghost mut seen: Seq<usize> = Seq::empty();
    let mut place: usize = 0;
    while place < count
        invariant
            records == group@.receivers,
            count == records.len(),
            place <= count,
            seen.len() == place,
            list@ == candidates_among(records, seen, place as nat),
        decreases count - place,
    {
        let record = group.receiver(place);
        let queued: usize = if record.is_frozen() {
            0
        } else {
            record.pending()
        };
        proof {
            lemma_candidates_prefix(records, seen, seen.push(queued), place as nat);
            seen = seen.push(queued);
        }
        if is_eligible(record, queued) {
            list.push(Candidate { place, weight: record.weight() });
        }
        place = place + 1;
    }
}

/// Draws and pops candidates of `group` until one gives a message or none is
/// left. A candidate found disconnected is noted in `cleanup`.
pub(crate) fn drain<T, P: Priority>(
    group: &PriorityGroup<T, P>,
    list: &mut Candidates,
    cleanup: &Cleanup,
) -> (found: Option<Selected<T>>)
    requires
        within(old(list)@, group@.receivers),
        forall|i: int|
            0 <= i < group@.receivers.len() ==> (#[trigger] group@.receivers[i])@.weight >= 1,
    ensures
        found matches Some(selected) ==> offers(old(list)@, group@.receivers, selected.source),
        found.is_none() ==> final(list)@.len() == 0,
        forall|k: int|
            0 <= k < final(list)@.len() ==> old(list)@.contains(#[trigger] final(list)@[k]),
{
    let ghost records = group@.receivers;
    while list.len() > 0
        invariant
            records == group@.receivers,
            within(list@, records),
            forall|i: int| 0 <= i < records.len() ==> (#[trigger] records[i])@.weight >= 1,
            forall|k: int| 0 <= k < list@.len() ==> old(list)@.contains(#[trigger] list@[k]),
        decreases list@.len(),
    {
        let at = list.draw();
        let candidate = list.get(at);
        let record = group.receiver(candidate.place);
        match settle(record.pop(), record.id()) {
            Verdict::Deliver(selected) => return Some(selected),
            Verdict::Skip => {},
            Verdict::SkipAndClean => {
                cleanup.schedule(record.id());
            },
        }
        list.remove(at);
    }
    None
}

/// One selection attempt within one group: `list` is filled with the candidates
/// of the group, and candidates are drawn and popped until one gives a message
/// or none is left. A message comes from a record of the group that is not
/// frozen; without a message, every candidate has left the list.
pub(crate) fn select_in_group<T, P: Priority>(
    group: &PriorityGroup<T, P>,
    list: &mut Candidates,
    cleanup: &Cleanup,
) -> (found: Option<Selected<T>>)
    requires
        forall|i: int|
            0 <= i < group@.receivers.len() ==> (#[trigger] group@.receivers[i])@.weight >= 1,
    ensures
        found matches Some(selected) ==> exists|i: int|
            0 <= i < group@.receivers.len() && (#[trigger] group@.receivers[i])@.id
                == selected.source && !group@.receivers[i]@.frozen,
        found.is_none() ==> final(list)@.len() == 0,
        exists|queued: Seq<usize>|
            {
                &&& queued.len() == group@.receivers.len()
                &&& forall|k: int|
                    #![trigger final(list)@[k]]
                    0 <= k < final(list)@.len() ==> candidates_of(
                        group@.receivers,
                        queued,
                    ).contains(final(list)@[k])
            },
{
    gather(group, list);
    proof {
        let queued = choose|queued: Seq<usize>|
            queued.len() == group@.receivers.len() && list@ == candidates_of(
                group@.receivers,
                queued,
            );
        group.lemma_fits();
        lemma_candidates_unfrozen(group@.receivers, queued, group@.receivers.len());
    }
    let ghost gathered = list@;
    let found = drain(group, list, cleanup);
    proof {
        let queued = choose|queued: Seq<usize>|
            queued.len() == group@.receivers.len() && gathered == candidates_of(
                group@.receivers,
                queued,
            );
        assert forall|k: int|
            #![trigger list@[k]]
            0 <= k < list@.len() implies candidates_of(group@.receivers, queued).contains(
            list@[k],
        ) by {}
    }
    found
}

/// The index has a channel with identifier `id` that is not frozen: one that a
/// pass may serve.
pub open spec fn serves<T, P>(groups: Seq<GroupView<T, P>>, id: u32) -> bool {
    exists|g: int, i: int| holds(groups, g, i, id) && !groups[g].receivers[i]@.frozen
}

/// The group whose turn it is after group `previous` gave nothing, or at the
/// start of a pass when `previous` is `None`: the group at place 0 first, then
/// the group one place further, until the last group has had its turn.
pub open spec fn turn_after(previous: Option<usize>, count: usize) -> Option<usize> {
    let place: int = match previous {
        None => 0,
        Some(g) => g + 1,
    };
    if place < count {
        Some(place as usize)
    } else {
        None
    }
}

/// Decides whose turn it is in a pass over `count` groups.
pub fn next_turn(previous: Option<usize>, count: usize) -> (turn: Option<usize>)
    requires
        previous matches Some(g) ==> g < count,
    ensures
        turn == turn_after(previous, count),
{
    match previous {
        None => if count > 0 {
            Some(0)
        } else {
            None
        },
        Some(g) => if g + 1 < count {
            Some(g + 1)
        } else {
            None
        },
    }
}

/// A pass goes through the classes from the best down and leaves none out: the
/// first turn is that of the group that stands before every other, and the turn
/// after a group is that of the next class in order, with no class between.
pub proof fn lemma_turns_follow_priority<T, P: Ord>(groups: Seq<GroupView<T, P>>, g: usize)
    requires
        lawful_order::<P>(),
        valid(groups),
        groups.len() <= usize::MAX,
        g < groups.len(),
    ensures
        turn_after(None, groups.len() as usize) == Some(0usize),
        g > 0 ==> before(groups[0].priority, groups[g as int].priority),
        turn_after(Some(g), groups.len() as usize) matches Some(next) ==> {
            &&& next == g + 1
            &&& before(groups[g as int].priority, groups[next as int].priority)
            &&& forall|h: int|
                0 <= h < groups.len() && before(
                    groups[g as int].priority,
                    (#[trigger] groups[h]).priority,
                ) ==> h >= next
        },
        turn_after(Some(g), groups.len() as usize).is_none() ==> g == groups.len() - 1,
{
    assert forall|h: int|
        0 <= h < groups.len() && before(
            groups[g as int].priority,
            (#[trigger] groups[h]).priority,
        ) implies h > g by {
        lemma_trichotomy(groups[h].priority, groups[g as int].priority);
    }
}

/// One selection pass over the whole index: the groups take their turns as
/// `turn_after` says, each until it gives a message or has no candidate left.
///
/// A message always comes from a channel of the index that is not frozen.
pub fn select<T, P: Priority>(state: &DynState<T, P>, cleanup: &Cleanup) -> (found: Option<
    Selected<T>,
>)
    requires
        state.wf(),
    ensures
        found matches Some(selected) ==> serves(state@, selected.source),
{
    proof {
        state.lemma_wf();
    }
    let mut list = Candidates::new();
    let count = state.group_count();
    let mut turn = next_turn(None, count);
    while turn.is_some()
        invariant
            valid(state@),
            count == state@.len(),
            turn matches Some(g) ==> g < count,
        decreases
            match turn {
                Some(g) => count - g,
                None => 0,
            },
    {
        let g = turn.unwrap();
        let group = state.group(g);
        let found = select_in_group(group, &mut list, cleanup);
        if let Some(selected) = found {
            proof {
                let i = choose|i: int|
                    0 <= i < group@.receivers.len() && (#[trigger] group@.receivers[i])@.id
                        == selected.source && !group@.receivers[i]@.frozen;
                assert(holds(state@, g as int, i, selected.source));
            }
            return Some(selected);
        }
        turn = next_turn(Some(g), count);
    }
    None
}

} // verus!
