//! Result slots: one place per work item, filled in whatever order the
//! items complete and read out in the order of the items.

use vstd::prelude::*;
use crate::exec::CommandResult;

verus! {

/// The slots after one completion: the result goes to its slot where that
/// slot exists and is still empty, and nothing else changes.
pub open spec fn record_one(
    slots: Seq<Option<CommandResult>>,
    index: int,
    result: CommandResult,
) -> Seq<Option<CommandResult>> {
    if 0 <= index < slots.len() && slots[index] is None {
        slots.update(index, Some(result))
    } else {
        slots
    }
}

/// The slots after a sequence of completions, each a position and the
/// result of the item at that position.
pub open spec fn record_all(
    slots: Seq<Option<CommandResult>>,
    completions: Seq<(int, CommandResult)>,
) -> Seq<Option<CommandResult>>
    decreases completions.len(),
{
    if completions.len() == 0 {
        slots
    } else {
        record_one(
            record_all(slots, completions.drop_last()),
            completions.last().0,
            completions.last().1,
        )
    }
}

/// Whether the item at position `i` is among the completions.
pub open spec fn completed(completions: Seq<(int, CommandResult)>, i: int) -> bool {
    exists|k: int| 0 <= k < completions.len() && (#[trigger] completions[k]).0 == i
}

/// `n` empty slots.
pub open spec fn empty_slots(n: nat) -> Seq<Option<CommandResult>> {
    Seq::new(n, |i: int| None)
}

/// After any sequence of completions in which each result is the one of
/// its position, a slot holds the result of its own item if that item has
/// completed and is empty if not.
pub proof fn lemma_slots_follow_positions(
    results: Seq<CommandResult>,
    completions: Seq<(int, CommandResult)>,
)
    requires
        forall|k: int|
            0 <= k < completions.len() ==> 0 <= (#[trigger] completions[k]).0 < results.len()
                && completions[k].1 == results[completions[k].0],
    ensures
        record_all(empty_slots(results.len()), completions).len() == results.len(),
        forall|i: int|
            0 <= i < results.len() ==> #[trigger] record_all(
                empty_slots(results.len()),
                completions,
            )[i] == (if completed(completions, i) {
                Some(results[i])
            } else {
                None
            }),
    decreases completions.len(),
{
    if completions.len() > 0 {
        let init = completions.drop_last();
        let last = completions.last();
        assert forall|k: int| 0 <= k < init.len() implies 0 <= (#[trigger] init[k]).0
            < results.len() && init[k].1 == results[init[k].0] by {
            assert(init[k] == completions[k]);
        }
        lemma_slots_follow_positions(results, init);
        let before = record_all(empty_slots(results.len()), init);
        let after = record_all(empty_slots(results.len()), completions);
        assert(completions[completions.len() - 1] == last);
        assert forall|i: int| 0 <= i < results.len() implies #[trigger] after[i] == (if completed(
            completions,
            i,
        ) {
            Some(results[i])
        } else {
            None
        }) by {
            let seen_before = completed(init, i);
            let seen_after = completed(completions, i);
            if seen_before {
                let k = choose|k: int| 0 <= k < init.len() && (#[trigger] init[k]).0 == i;
                assert(completions[k].0 == i);
            }
            if seen_after && !seen_before {
                let k = choose|k: int|
                    0 <= k < completions.len() && (#[trigger] completions[k]).0 == i;
                if k < init.len() {
                    assert(init[k].0 == i);
                }
                assert(last.0 == i);
            }
            if last.0 == i {
                assert(seen_after);
            }
        }
    }
}

/// Positional order: once every item has completed, in whatever order, the
/// slots hold the results in the order of the items.
pub proof fn lemma_order_is_positional(
    results: Seq<CommandResult>,
    completions: Seq<(int, CommandResult)>,
)
    requires
        forall|k: int|
            0 <= k < completions.len() ==> 0 <= (#[trigger] completions[k]).0 < results.len()
                && completions[k].1 == results[completions[k].0],
        forall|i: int| 0 <= i < results.len() ==> #[trigger] completed(completions, i),
    ensures
        record_all(empty_slots(results.len()), completions) =~= Seq::new(
            results.len(),
            |i: int| Some(results[i]),
        ),
{
    lemma_slots_follow_positions(results, completions);
}

/// The result slots of a run.
pub struct ResultSlots {
    slots: Vec<Option<CommandResult>>,
}

impl ResultSlots {
    /// What each slot holds.
    pub closed spec fn view(&self) -> Seq<Option<CommandResult>> {
        self.slots@
    }

    /// Whether every slot is filled.
    pub open spec fn complete(&self) -> bool {
        forall|i: int| 0 <= i < self@.len() ==> (#[trigger] self@[i]) is Some
    }

    /// One empty slot for each of `count` items.
    pub fn new(count: usize) -> (slots: ResultSlots)
        ensures
            slots@ =~= empty_slots(count as nat),
    {
        let mut slots: Vec<Option<CommandResult>> = Vec::new();
        let mut i: usize = 0;
        while i < count
            invariant
                i <= count,
                slots@ =~= empty_slots(i as nat),
            decreases count - i,
        {
            slots.push(None);
            i += 1;
        }
        ResultSlots { slots }
    }

    /// The number of slots.
    pub fn len(&self) -> (n: usize)
        ensures
            n == self@.len(),
    {
        self.slots.len()
    }

    /// Puts the result of the item at `index` into its slot. A slot is
    /// written once: a second result for it, or one for a position that
    /// does not exist, is dropped, and `false` is returned.
    pub fn record(&mut self, index: usize, result: CommandResult) -> (stored: bool)
        ensures
            final(self)@ == record_one(old(self)@, index as int, result),
            stored == (index < old(self)@.len() && old(self)@[index as int] is None),
    {
        if index < self.slots.len() && self.slots[index].is_none() {
            self.slots[index] = Some(result);
            true
        } else {
            false
        }
    }

    /// Whether every slot is filled.
    pub fn is_complete(&self) -> (done: bool)
        ensures
            done == self.complete(),
    {
        let mut i: usize = 0;
        while i < self.slots.len()
            invariant
                i <= self.slots.len(),
                forall|j: int| 0 <= j < i ==> (#[trigger] self@[j]) is Some,
            decreases self.slots.len() - i,
        {
            if self.slots[i].is_none() {
                return false;
            }
            i += 1;
        }
        true
    }

    /// The results in the order of the items, once every slot is filled;
    /// `None` before that.
    pub fn into_results(self) -> (results: Option<Vec<CommandResult>>)
        ensures
            match results {
                Some(list) => self.complete() && list@.len() == self@.len() && forall|i: int|
                    0 <= i < list@.len() ==> self@[i] == Some(#[trigger] list@[i]),
                None => !self.complete(),
            },
    {
        let mut slots = self.slots;
        let ghost all = slots@;
        assert(self@ == all);
        let mut reversed: Vec<CommandResult> = Vec::new();
        while slots.len() > 0
            invariant
                self@ == all,
                slots@.len() + reversed@.len() == all.len(),
                slots@ =~= all.take(slots@.len() as int),
                forall|j: int|
                    0 <= j < reversed@.len() ==> all[all.len() - 1 - j] == Some(
                        #[trigger] reversed@[j],
                    ),
            decreases slots@.len(),
        {
            let ghost at = slots@.len() - 1;
            assert(slots@[at] == all[at]);
            match slots.pop() {
                Some(Some(result)) => {
                    reversed.push(result);
                },
                _ => {
                    assert(self@[at] is None);
                    return None;
                },
            }
        }
        let mut list: Vec<CommandResult> = Vec::new();
        while reversed.len() > 0
            invariant
                self@ == all,
                list@.len() + reversed@.len() == all.len(),
                forall|j: int|
                    0 <= j < reversed@.len() ==> all[all.len() - 1 - j] == Some(
                        #[trigger] reversed@[j],
                    ),
                forall|i: int| 0 <= i < list@.len() ==> all[i] == Some(#[trigger] list@[i]),
            decreases reversed@.len(),
        {
            let ghost at = reversed@.len() - 1;
            match reversed.pop() {
                Some(result) => {
                    assert(all[all.len() - 1 - at] == Some(result));
                    list.push(result);
                },
                None => {},
            }
        }
        assert forall|i: int| 0 <= i < self@.len() implies (#[trigger] self@[i]) is Some by {
            assert(all[i] == Some(list@[i]));
        }
        Some(list)
    }
}

} // verus!
