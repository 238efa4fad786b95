//! The fan-in of a request: the outcomes of its conversion tasks are taken
//! in whatever order the tasks complete and handed on in submission order,
//! all of them or none.

use vstd::prelude::*;
use crate::codec::ConvertError;
use crate::convert::{ConversionResult, ResultView};
use crate::error::{failure, failure_at, UploadError};

verus! {

/// What one conversion task yields, as plain values.
pub type Outcome = Result<ResultView, ConvertError>;

/// The outcome of a task as plain values.
pub open spec fn outcome_view(outcome: Result<ConversionResult, ConvertError>) -> Outcome {
    match outcome {
        Ok(result) => Ok(result@),
        Err(e) => Err(e),
    }
}

/// Whether every task of a request succeeded.
pub open spec fn all_converted(outcomes: Seq<Outcome>) -> bool {
    forall|i: int| 0 <= i < outcomes.len() ==> (#[trigger] outcomes[i]) is Ok
}

/// Whether `index` is the first position, in submission order, whose task
/// failed.
pub open spec fn first_failure(outcomes: Seq<Outcome>, index: int) -> bool {
    &&& 0 <= index < outcomes.len()
    &&& outcomes[index] is Err
    &&& forall|j: int| 0 <= j < index ==> (#[trigger] outcomes[j]) is Ok
}

/// What a request's outcomes, listed in submission order, are joined to: all
/// results in that order where every task succeeded, else the failure of the
/// first task that did not.
pub open spec fn joined(outcomes: Seq<Outcome>) -> Result<Seq<ResultView>, UploadError> {
    if all_converted(outcomes) {
        Ok(outcomes.map_values(|o: Outcome| o->Ok_0))
    } else {
        let index = choose|index: int| first_failure(outcomes, index);
        Err(failure(index as usize, outcomes[index]->Err_0))
    }
}

/// At most one position is the first failure.
pub proof fn lemma_first_failure_unique(outcomes: Seq<Outcome>, i: int, j: int)
    requires
        first_failure(outcomes, i),
        first_failure(outcomes, j),
    ensures
        i == j,
{
    if i < j {
        assert(outcomes[i] is Ok);
    }
    if j < i {
        assert(outcomes[j] is Ok);
    }
}

/// Where a task failed and all before it succeeded, the request fails with
/// that task's failure.
pub proof fn lemma_joined_failure(outcomes: Seq<Outcome>, index: int)
    requires
        first_failure(outcomes, index),
    ensures
        joined(outcomes) == Err::<Seq<ResultView>, UploadError>(
            failure(index as usize, outcomes[index]->Err_0),
        ),
{
    let chosen = choose|i: int| first_failure(outcomes, i);
    lemma_first_failure_unique(outcomes, index, chosen);
}

/// The slots of a batch with no outcome recorded yet.
pub open spec fn pending(tasks: nat) -> Seq<Option<Outcome>> {
    Seq::new(tasks, |i: int| None::<Outcome>)
}

/// Whether an outcome for position `index` is still taken: the position
/// belongs to the request and nothing was recorded for it.
pub open spec fn accepts(slots: Seq<Option<Outcome>>, index: int) -> bool {
    0 <= index < slots.len() && slots[index] is None
}

/// The slots after an outcome for position `index` was handed in.
pub open spec fn recorded(slots: Seq<Option<Outcome>>, index: int, outcome: Outcome) -> Seq<
    Option<Outcome>,
> {
    if accepts(slots, index) {
        slots.update(index, Some(outcome))
    } else {
        slots
    }
}

/// Whether every task of the request has handed in its outcome.
pub open spec fn complete(slots: Seq<Option<Outcome>>) -> bool {
    forall|i: int| 0 <= i < slots.len() ==> (#[trigger] slots[i]) is Some
}

/// The outcomes held by the slots, in submission order.
pub open spec fn outcomes_in(slots: Seq<Option<Outcome>>) -> Seq<Outcome> {
    slots.map_values(|slot: Option<Outcome>| slot->Some_0)
}

/// The slots after the tasks completed in the given order, each handing in
/// its own outcome.
pub open spec fn recorded_in_order(
    slots: Seq<Option<Outcome>>,
    outcomes: Seq<Outcome>,
    order: Seq<int>,
) -> Seq<Option<Outcome>>
    decreases order.len(),
{
    if order.len() == 0 {
        slots
    } else {
        recorded(
            recorded_in_order(slots, outcomes, order.drop_last()),
            order.last(),
            outcomes[order.last()],
        )
    }
}

/// The outcomes of one request's conversion tasks, one slot per task in
/// submission order.
#[derive(Debug)]
pub struct Batch {
    slots: Vec<Option<Result<ConversionResult, ConvertError>>>,
}

impl View for Batch {
    type V = Seq<Option<Outcome>>;

    closed spec fn view(&self) -> Seq<Option<Outcome>> {
        self.slots@.map_values(
            |slot: Option<Result<ConversionResult, ConvertError>>|
                match slot {
                    Some(outcome) => Some(outcome_view(outcome)),
                    None => None,
                },
        )
    }
}

impl Batch {
    /// A batch for a request of `tasks` images, with no outcome recorded.
    pub fn new(tasks: usize) -> (batch: Batch)
        ensures
            batch@ == pending(tasks as nat),
    {
        let mut slots: Vec<Option<Result<ConversionResult, ConvertError>>> = Vec::new();
        let mut i: usize = 0;
        while i < tasks
            invariant
                i <= tasks,
                slots@.len() == i,
                forall|j: int| 0 <= j < i ==> (#[trigger] slots@[j]) is None,
            decreases tasks - i,
        {
            slots.push(None);
            i += 1;
        }
        let batch = Batch { slots };
        assert(batch@ =~= pending(tasks as nat));
        batch
    }

    /// The number of tasks of the request.
    pub fn len(&self) -> (n: usize)
        ensures
            n == self@.len(),
    {
        self.slots.len()
    }

    /// Hands in the outcome of the task at position `index`. The first
    /// outcome for a position of the request is kept and `true` returned;
    /// an outcome for a position outside the request, or a second one for
    /// the same position, is dropped and `false` returned.
    pub fn record(&mut self, index: usize, outcome: Result<ConversionResult, ConvertError>) -> (accepted:
        bool)
        ensures
            accepted == accepts(old(self)@, index as int),
            final(self)@ == recorded(old(self)@, index as int, outcome_view(outcome)),
    {
        if index < self.slots.len() && self.slots[index].is_none() {
            self.slots.set(index, Some(outcome));
            assert(self@ =~= recorded(old(self)@, index as int, outcome_view(outcome)));
            true
        } else {
            false
        }
    }

    /// Whether every task has handed in its outcome.
    pub fn is_complete(&self) -> (r: bool)
        ensures
            r == complete(self@),
    {
        let mut i: usize = 0;
        while i < self.slots.len()
            invariant
                i <= self.slots.len(),
                forall|j: int| 0 <= j < i ==> (#[trigger] self@[j]) is Some,
            decreases self.slots.len() - i,
        {
            if self.slots[i].is_none() {
                assert(self@[i as int] is None);
                return false;
            }
            assert(self@[i as int] is Some);
            i += 1;
        }
        true
    }

    /// Joins the outcomes once all tasks have completed. While a task is
    /// outstanding the answer is `None`: nothing is passed on before the
    /// last task has handed in its outcome. After that it is the results
    /// of all images in submission order, or the failure of the first image
    /// that could not be converted.
    pub fn finish(self) -> (r: Option<Result<Vec<ConversionResult>, UploadError>>)
        ensures
            match r {
                None => !complete(self@),
                Some(Ok(results)) => complete(self@) && joined(outcomes_in(self@)) == Ok::<
                    Seq<ResultView>,
                    UploadError,
                >(results@.map_values(|c: ConversionResult| c@)),
                Some(Err(e)) => complete(self@) && joined(outcomes_in(self@)) == Err::<
                    Seq<ResultView>,
                    UploadError,
                >(e),
            },
    {
        if !self.is_complete() {
            return None;
        }
        let ghost outcomes = outcomes_in(self@);
        let mut slots = self.slots;
        let n: usize = slots.len();
        let mut i: usize = 0;
        while i < n
            invariant
                i <= n,
                n == slots@.len(),
                slots@ == self.slots@,
                outcomes == outcomes_in(self@),
                complete(self@),
                forall|j: int| 0 <= j < i ==> (#[trigger] outcomes[j]) is Ok,
            decreases n - i,
        {
            assert(self@[i as int] is Some);
            match &slots[i] {
                Some(Err(e)) => {
                    proof {
                        assert(outcomes[i as int] == Err::<ResultView, ConvertError>(*e));
                        lemma_joined_failure(outcomes, i as int);
                    }
                    return Some(Err(failure_at(i, *e)));
                },
                _ => {},
            }
            assert(outcomes[i as int] is Ok);
            i += 1;
        }
        let mut results: Vec<ConversionResult> = Vec::new();
        let mut k: usize = 0;
        while k < n
            invariant
                k <= n,
                n == slots@.len(),
                n == self.slots@.len(),
                outcomes == outcomes_in(self@),
                complete(self@),
                all_converted(outcomes),
                forall|j: int| k <= j < n ==> (#[trigger] slots@[j]) == self.slots@[j],
                results@.len() == k,
                forall|j: int| 0 <= j < k ==> outcomes[j] == Ok::<ResultView, ConvertError>(
                    (#[trigger] results@[j])@,
                ),
            decreases n - k,
        {
            let mut slot: Option<Result<ConversionResult, ConvertError>> = None;
            slots.set_and_swap(k, &mut slot);
            assert(slot == self.slots@[k as int]);
            assert(self@[k as int] is Some);
            assert(outcomes[k as int] is Ok);
            assert(slot matches Some(Ok(result)) && outcomes[k as int] == Ok::<
                ResultView,
                ConvertError,
            >(result@));
            if let Some(Ok(result)) = slot {
                results.push(result);
            }
            k += 1;
        }
        assert(outcomes.map_values(|o: Outcome| o->Ok_0) =~= results@.map_values(
            |c: ConversionResult| c@,
        ));
        Some(Ok(results))
    }
}

/// Outcomes for different positions can be handed in in either order: the
/// batch ends up the same.
pub proof fn lemma_record_commutes(
    slots: Seq<Option<Outcome>>,
    i: int,
    a: Outcome,
    j: int,
    b: Outcome,
)
    requires
        i != j,
    ensures
        recorded(recorded(slots, i, a), j, b) == recorded(recorded(slots, j, b), i, a),
{
    assert(recorded(recorded(slots, i, a), j, b) =~= recorded(recorded(slots, j, b), i, a));
}

/// Whatever the order in which the tasks of a request complete, once each
/// has handed in its outcome exactly once the batch holds the outcomes in
/// submission order.
pub proof fn lemma_completion_order_irrelevant(outcomes: Seq<Outcome>, order: Seq<int>)
    requires
        forall|k: int| 0 <= k < order.len() ==> 0 <= #[trigger] order[k] < outcomes.len(),
        order.no_duplicates(),
        forall|i: int| 0 <= i < outcomes.len() ==> #[trigger] order.contains(i),
    ensures
        complete(recorded_in_order(pending(outcomes.len()), outcomes, order)),
        outcomes_in(recorded_in_order(pending(outcomes.len()), outcomes, order)) == outcomes,
{
    let slots = recorded_in_order(pending(outcomes.len()), outcomes, order);
    lemma_recorded_in_order(outcomes, order);
    assert forall|i: int| 0 <= i < slots.len() implies (#[trigger] slots[i]) == Some(outcomes[i]) by {
        assert(order.contains(i));
        let k = choose|k: int| 0 <= k < order.len() && order[k] == i;
        assert(order[k] == i);
    }
    assert(outcomes_in(slots) =~= outcomes);
}

/// After the tasks listed in `order` have completed, each once, a slot holds
/// its task's outcome if the task is listed and nothing otherwise.
proof fn lemma_recorded_in_order(outcomes: Seq<Outcome>, order: Seq<int>)
    requires
        forall|k: int| 0 <= k < order.len() ==> 0 <= #[trigger] order[k] < outcomes.len(),
        forall|k: int, l: int| 0 <= k < l < order.len() ==> order[k] != order[l],
    ensures
        recorded_in_order(pending(outcomes.len()), outcomes, order).len() == outcomes.len(),
        forall|i: int, k: int|
            0 <= k < order.len() && #[trigger] order[k] == i ==> (#[trigger] recorded_in_order(
                pending(outcomes.len()),
                outcomes,
                order,
            )[i]) == Some(outcomes[i]),
        forall|i: int|
            0 <= i < outcomes.len() && (forall|k: int| 0 <= k < order.len() ==> #[trigger] order[k] != i)
                ==> (#[trigger] recorded_in_order(pending(outcomes.len()), outcomes, order)[i]) is None,
    decreases order.len(),
{
    if order.len() > 0 {
        let earlier = order.drop_last();
        let last = order.last();
        assert forall|k: int| 0 <= k < earlier.len() implies 0 <= #[trigger] earlier[k] < outcomes.len() by {
            assert(earlier[k] == order[k]);
        }
        assert forall|k: int, l: int| 0 <= k < l < earlier.len() implies earlier[k] != earlier[l] by {
            assert(earlier[k] == order[k] && earlier[l] == order[l]);
        }
        lemma_recorded_in_order(outcomes, earlier);
        let before = recorded_in_order(pending(outcomes.len()), outcomes, earlier);
        let after = recorded_in_order(pending(outcomes.len()), outcomes, order);
        assert(0 <= order[order.len() - 1] < outcomes.len());
        assert forall|k: int| 0 <= k < earlier.len() implies #[trigger] earlier[k] != last by {
            assert(earlier[k] == order[k]);
        }
        assert(before[last] is None);
        assert(after == before.update(last, Some(outcomes[last])));
        assert forall|i: int, k: int| 0 <= k < order.len() && #[trigger] order[k] == i implies (
        #[trigger] after[i]) == Some(outcomes[i]) by {
            if k < earlier.len() {
                assert(earlier[k] == i);
                assert(before[i] == Some(outcomes[i]));
            }
        }
        assert forall|i: int|
            0 <= i < outcomes.len() && (forall|k: int|
                0 <= k < order.len() ==> #[trigger] order[k] != i) implies (#[trigger] after[i]) is None by {
            assert(order[order.len() - 1] != i);
            assert forall|k: int| 0 <= k < earlier.len() implies #[trigger] earlier[k] != i by {
                assert(earlier[k] == order[k]);
            }
            assert(before[i] is None);
        }
    }
}

} // verus!
