//! Putting the translated pages back together.
//!
//! Every dispatched page has a position, its place in dispatch order. The
//! final text is the translations in that order, one after the other with
//! nothing between them; a page whose translation failed adds nothing.
//! [`Barrier`] takes the outcomes in whatever order they arrive and gives
//! the text once the last one is in.

use vstd::prelude::*;
use vstd::string::StringExecFns;
use crate::translator::TranslationFailure;

verus! {

/// How the translation of one page ended.
pub type Outcome = Result<String, TranslationFailure>;

/// What one outcome adds to the final text.
pub open spec fn contribution(outcome: Outcome) -> Seq<char> {
    match outcome {
        Ok(text) => text@,
        Err(_) => Seq::empty(),
    }
}

/// The final text for the outcomes of all pages, in dispatch order.
pub open spec fn joined(outcomes: Seq<Outcome>) -> Seq<char>
    decreases outcomes.len(),
{
    if outcomes.len() == 0 {
        Seq::empty()
    } else {
        joined(outcomes.drop_last()) + contribution(outcomes.last())
    }
}

/// Concatenates the translations of the pages that have one.
pub fn join(outcomes: &Vec<Outcome>) -> (text: String)
    ensures
        text@ == joined(outcomes@),
{
    let mut text: String = String::new();
    let mut i: usize = 0;
    while i < outcomes.len()
        invariant
            i <= outcomes.len(),
            text@ == joined(outcomes@.take(i as int)),
        decreases outcomes.len() - i,
    {
        proof {
            assert(outcomes@.take(i + 1).drop_last() == outcomes@.take(i as int));
        }
        match &outcomes[i] {
            Ok(page) => {
                text.append(page.as_str());
            },
            Err(_) => {},
        }
        i = i + 1;
    }
    proof {
        assert(outcomes@.take(outcomes.len() as int) == outcomes@);
    }
    text
}

/// The final text of two runs of pages, one after the other, is the two
/// final texts one after the other.
pub proof fn lemma_joined_concat(first: Seq<Outcome>, second: Seq<Outcome>)
    ensures
        joined(first + second) == joined(first) + joined(second),
    decreases second.len(),
{
    if second.len() == 0 {
        assert(first + second == first);
    } else {
        lemma_joined_concat(first, second.drop_last());
        assert((first + second).drop_last() == first + second.drop_last());
        assert((first + second).last() == second.last());
    }
}

/// The final text of a single page is what that page adds.
pub proof fn lemma_joined_one(outcome: Outcome)
    ensures
        joined(seq![outcome]) == contribution(outcome),
{
    reveal_with_fuel(joined, 2);
    assert(seq![outcome].drop_last() == Seq::<Outcome>::empty());
}

/// A failed page adds nothing: the final text is what it would be had the
/// page never been dispatched, and the pages after it still count.
pub proof fn lemma_failure_is_skipped(outcomes: Seq<Outcome>, position: int)
    requires
        0 <= position < outcomes.len(),
        outcomes[position] is Err,
    ensures
        joined(outcomes) == joined(outcomes.remove(position)),
        joined(outcomes) == joined(outcomes.take(position)) + joined(
            outcomes.skip(position + 1),
        ),
{
    let before = outcomes.take(position);
    let after = outcomes.skip(position + 1);
    let failed = seq![outcomes[position]];
    assert(outcomes == before + failed + after);
    assert(outcomes.remove(position) == before + after);
    lemma_joined_concat(before + failed, after);
    lemma_joined_concat(before, failed);
    lemma_joined_concat(before, after);
    lemma_joined_one(outcomes[position]);
}

/// A translated page adds its text, as it is, at its own place.
pub proof fn lemma_success_is_kept(outcomes: Seq<Outcome>, position: int)
    requires
        0 <= position < outcomes.len(),
        outcomes[position] is Ok,
    ensures
        joined(outcomes) == joined(outcomes.take(position)) + outcomes[position]->Ok_0@ + joined(
            outcomes.skip(position + 1),
        ),
{
    let before = outcomes.take(position);
    let after = outcomes.skip(position + 1);
    let page = seq![outcomes[position]];
    assert(outcomes == before + page + after);
    lemma_joined_concat(before + page, after);
    lemma_joined_concat(before, page);
    lemma_joined_one(outcomes[position]);
}

/// How many slots still wait for their outcome.
pub open spec fn unsettled(slots: Seq<Option<Outcome>>) -> nat
    decreases slots.len(),
{
    if slots.len() == 0 {
        0
    } else if slots.last() is None {
        unsettled(slots.drop_last()) + 1
    } else {
        unsettled(slots.drop_last())
    }
}

/// Whether every slot has its outcome.
pub open spec fn all_settled(slots: Seq<Option<Outcome>>) -> bool {
    forall|p: int| 0 <= p < slots.len() ==> (#[trigger] slots[p]) is Some
}

/// The outcomes held by slots that are all settled, in dispatch order.
pub open spec fn outcomes_of(slots: Seq<Option<Outcome>>) -> Seq<Outcome> {
    Seq::new(slots.len(), |p: int| slots[p]->Some_0)
}

/// The slots after `outcome` arrived for `position`. It is taken where the
/// position was dispatched and still waits; otherwise nothing changes.
pub open spec fn settle(slots: Seq<Option<Outcome>>, position: int, outcome: Outcome) -> Seq<
    Option<Outcome>,
> {
    if 0 <= position < slots.len() && slots[position] is None {
        slots.update(position, Some(outcome))
    } else {
        slots
    }
}

/// The slots after a run of arrivals, each a position with its outcome.
pub open spec fn settle_all(slots: Seq<Option<Outcome>>, arrivals: Seq<(int, Outcome)>) -> Seq<
    Option<Outcome>,
>
    decreases arrivals.len(),
{
    if arrivals.len() == 0 {
        slots
    } else {
        settle(settle_all(slots, arrivals.drop_last()), arrivals.last().0, arrivals.last().1)
    }
}

/// `count` dispatched pages, none of them settled.
pub open spec fn all_waiting(count: nat) -> Seq<Option<Outcome>> {
    Seq::new(count, |p: int| None::<Outcome>)
}

/// The arrivals when the pages with the given outcomes finish in `order`.
pub open spec fn arrivals_in(outcomes: Seq<Outcome>, order: Seq<int>) -> Seq<(int, Outcome)> {
    Seq::new(order.len(), |k: int| (order[k], outcomes[order[k]]))
}

/// Whether `position` is among the first `count` entries of `order`.
pub open spec fn finished_within(order: Seq<int>, count: int, position: int) -> bool {
    exists|k: int| 0 <= k < count && k < order.len() && #[trigger] order[k] == position
}

proof fn lemma_unsettled_bound(slots: Seq<Option<Outcome>>)
    ensures
        unsettled(slots) <= slots.len(),
        unsettled(slots) == 0 <==> all_settled(slots),
    decreases slots.len(),
{
    if slots.len() > 0 {
        let front = slots.drop_last();
        lemma_unsettled_bound(front);
        if unsettled(slots) == 0 {
            assert forall|p: int| 0 <= p < slots.len() implies (#[trigger] slots[p]) is Some by {
                if p < front.len() {
                    assert(front[p] is Some);
                }
            }
        }
        if all_settled(slots) {
            assert(slots.last() == slots[slots.len() - 1]);
            assert forall|p: int| 0 <= p < front.len() implies (#[trigger] front[p]) is Some by {
                assert(slots[p] is Some);
            }
        }
    }
}

proof fn lemma_unsettled_after_settle(
    slots: Seq<Option<Outcome>>,
    position: int,
    outcome: Outcome,
)
    requires
        0 <= position < slots.len(),
        slots[position] is None,
    ensures
        unsettled(slots.update(position, Some(outcome))) + 1 == unsettled(slots),
    decreases slots.len(),
{
    let after = slots.update(position, Some(outcome));
    if position == slots.len() - 1 {
        assert(after.drop_last() == slots.drop_last());
    } else {
        lemma_unsettled_after_settle(slots.drop_last(), position, outcome);
        assert(after.drop_last() == slots.drop_last().update(position, Some(outcome)));
        assert(after.last() == slots.last());
    }
}

proof fn lemma_settle_prefix(outcomes: Seq<Outcome>, order: Seq<int>, count: int)
    requires
        0 <= count <= order.len(),
    ensures
        settle_all(all_waiting(outcomes.len()), arrivals_in(outcomes, order).take(count)).len()
            == outcomes.len(),
        forall|p: int|
            0 <= p < outcomes.len() ==> #[trigger] settle_all(
                all_waiting(outcomes.len()),
                arrivals_in(outcomes, order).take(count),
            )[p] == if finished_within(order, count, p) {
                Some(outcomes[p])
            } else {
                None
            },
    decreases count,
{
    let arrivals = arrivals_in(outcomes, order);
    let start = all_waiting(outcomes.len());
    if count > 0 {
        lemma_settle_prefix(outcomes, order, count - 1);
        let earlier = settle_all(start, arrivals.take(count - 1));
        let now = settle_all(start, arrivals.take(count));
        let at = order[count - 1];
        assert(arrivals.take(count).drop_last() == arrivals.take(count - 1));
        assert(arrivals.take(count).last() == (at, outcomes[at]));
        assert(now == settle(earlier, at, outcomes[at]));
        assert forall|p: int| 0 <= p < outcomes.len() implies #[trigger] now[p] == if finished_within(
            order,
            count,
            p,
        ) {
            Some(outcomes[p])
        } else {
            None
        } by {
            if finished_within(order, count - 1, p) {
                let k = choose|k: int|
                    0 <= k < count - 1 && k < order.len() && #[trigger] order[k] == p;
                assert(0 <= k < count && order[k] == p);
            }
            if p == at {
                assert(order[count - 1] == p);
            }
            if finished_within(order, count, p) && !finished_within(order, count - 1, p) {
                let k = choose|k: int| 0 <= k < count && k < order.len() && #[trigger] order[k] == p;
                if k < count - 1 {
                    assert(finished_within(order, count - 1, p));
                }
                assert(p == at);
            }
        }
    } else {
        assert(arrivals.take(0) == Seq::<(int, Outcome)>::empty());
    }
}

/// The order in which the pages finish does not matter. Let every page
/// finish at some time, in any order, some of them reported more than once
/// or under a position that was never dispatched: the slots then hold each
/// page's outcome at the page's own position, and the final text is that of
/// the outcomes in dispatch order.
pub proof fn lemma_completion_order_is_irrelevant(outcomes: Seq<Outcome>, order: Seq<int>)
    requires
        forall|p: int| 0 <= p < outcomes.len() ==> finished_within(order, order.len() as int, p),
    ensures
        all_settled(settle_all(all_waiting(outcomes.len()), arrivals_in(outcomes, order))),
        outcomes_of(settle_all(all_waiting(outcomes.len()), arrivals_in(outcomes, order)))
            == outcomes,
        joined(outcomes_of(settle_all(all_waiting(outcomes.len()), arrivals_in(outcomes, order))))
            == joined(outcomes),
{
    let arrivals = arrivals_in(outcomes, order);
    lemma_settle_prefix(outcomes, order, order.len() as int);
    assert(arrivals.take(order.len() as int) == arrivals);
    let slots = settle_all(all_waiting(outcomes.len()), arrivals);
    assert forall|p: int| 0 <= p < slots.len() implies (#[trigger] slots[p]) is Some by {
        assert(finished_within(order, order.len() as int, p));
    }
    assert(outcomes_of(slots) =~= outcomes);
}

/// The fan-in of the pipeline: one slot for every dispatched page, filled
/// when the page's translation ends, in any order.
pub struct Barrier {
    slots: Vec<Option<Outcome>>,
    waiting: usize,
}

impl View for Barrier {
    type V = Seq<Option<Outcome>>;

    /// The slots, in dispatch order.
    closed spec fn view(&self) -> Seq<Option<Outcome>> {
        self.slots@
    }
}

impl Barrier {
    /// The count of waiting slots is kept beside the slots.
    pub closed spec fn wf(&self) -> bool {
        self.waiting == unsettled(self.slots@)
    }

    /// A barrier that nothing was dispatched to.
    pub fn new() -> (barrier: Barrier)
        ensures
            barrier.wf(),
            barrier@ == Seq::<Option<Outcome>>::empty(),
    {
        Barrier { slots: Vec::new(), waiting: 0 }
    }

    /// Notes that one more page was dispatched and gives its position.
    pub fn dispatch(&mut self) -> (position: usize)
        requires
            old(self).wf(),
        ensures
            final(self).wf(),
            position == old(self)@.len(),
            final(self)@ == old(self)@.push(None),
    {
        let position: usize = self.slots.len();
        proof {
            lemma_unsettled_bound(self.slots@);
            assert(self.slots@.push(None).drop_last() == self.slots@);
        }
        self.slots.push(None);
        assert(self.waiting < self.slots.len());
        self.waiting = self.waiting + 1;
        position
    }

    /// Takes the outcome of the page at `position`. It is accepted where
    /// that page was dispatched and has no outcome yet; otherwise it is
    /// dropped and nothing changes.
    pub fn complete(&mut self, position: usize, outcome: Outcome) -> (accepted: bool)
        requires
            old(self).wf(),
        ensures
            final(self).wf(),
            accepted == (position < old(self)@.len() && old(self)@[position as int] is None),
            final(self)@ == settle(old(self)@, position as int, outcome),
    {
        if position < self.slots.len() && self.slots[position].is_none() {
            proof {
                lemma_unsettled_after_settle(self.slots@, position as int, outcome);
            }
            self.slots.set(position, Some(outcome));
            self.waiting = self.waiting - 1;
            true
        } else {
            false
        }
    }

    /// How many pages were dispatched.
    pub fn dispatched(&self) -> (count: usize)
        ensures
            count == self@.len(),
    {
        self.slots.len()
    }

    /// How many pages still wait for their outcome.
    pub fn outstanding(&self) -> (count: usize)
        requires
            self.wf(),
        ensures
            count == unsettled(self@),
    {
        self.waiting
    }

    /// Whether every dispatched page has its outcome.
    pub fn is_settled(&self) -> (settled: bool)
        requires
            self.wf(),
        ensures
            settled == all_settled(self@),
    {
        proof {
            lemma_unsettled_bound(self.slots@);
        }
        self.waiting == 0
    }

    /// The final text, once every page has its outcome; `None` before.
    pub fn output(&self) -> (text: Option<String>)
        requires
            self.wf(),
        ensures
            text is Some == all_settled(self@),
            text is Some ==> text->Some_0@ == joined(outcomes_of(self@)),
    {
        if !self.is_settled() {
            return None;
        }
        let ghost outcomes = outcomes_of(self.slots@);
        let mut text: String = String::new();
        let mut i: usize = 0;
        while i < self.slots.len()
            invariant
                i <= self.slots.len(),
                all_settled(self.slots@),
                outcomes == outcomes_of(self.slots@),
                text@ == joined(outcomes.take(i as int)),
            decreases self.slots.len() - i,
        {
            proof {
                assert(outcomes.take(i + 1).drop_last() == outcomes.take(i as int));
                assert(self.slots@[i as int] is Some);
            }
            match &self.slots[i] {
                Some(Ok(page)) => {
                    text.append(page.as_str());
                },
                _ => {},
            }
            i = i + 1;
        }
        proof {
            assert(outcomes.take(self.slots.len() as int) == outcomes);
        }
        Some(text)
    }
}

} // verus!
