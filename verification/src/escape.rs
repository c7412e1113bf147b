//! Escape-time counting: how many orbit steps are taken before a point
//! leaves the disc of radius two, within an iteration budget.
//!
//! The orbit itself is floating-point work and lives with the caller. The
//! caller reports, before each step, whether the current point has escaped;
//! the counter decides whether another step is taken and what count results.

use vstd::prelude::*;

verus! {

/// Index of the first sample that escaped, or the number of samples where
/// none did.
pub open spec fn first_escape(samples: Seq<bool>) -> nat
    decreases samples.len(),
{
    if samples.len() == 0 || samples[0] {
        0
    } else {
        1 + first_escape(samples.drop_first())
    }
}

/// Number of orbit steps taken: one for every sample before the first
/// escape, and never more than `budget`.
pub open spec fn completed_steps(samples: Seq<bool>, budget: nat) -> nat {
    if first_escape(samples) <= budget {
        first_escape(samples)
    } else {
        budget
    }
}

/// The escape-time count: the number of orbit steps completed before the
/// first escape. An orbit that uses its whole budget without escaping counts
/// one less than the budget, so that every count of a positive budget lies
/// below it; a budget of zero counts zero.
pub open spec fn escape_index(samples: Seq<bool>, budget: nat) -> nat {
    let steps = completed_steps(samples, budget);
    if steps < budget {
        steps
    } else if budget == 0 {
        0
    } else {
        (budget - 1) as nat
    }
}

/// Another sample is wanted: none has escaped so far and the budget is not
/// used up.
pub open spec fn awaiting(samples: Seq<bool>, budget: nat) -> bool {
    first_escape(samples) == samples.len() && samples.len() < budget
}

/// `first_escape` is the one index that has only quiet samples before it and
/// is either the end of the sequence or an escaped sample.
pub proof fn lemma_first_escape_unique(samples: Seq<bool>, index: nat)
    requires
        index <= samples.len(),
        forall|i: int| 0 <= i < index ==> !samples[i],
        index < samples.len() ==> samples[index as int],
    ensures
        first_escape(samples) == index,
    decreases samples.len(),
{
    if samples.len() == 0 || samples[0] {
    } else {
        let rest = samples.drop_first();
        assert forall|i: int| 0 <= i < index - 1 implies !rest[i] by {
            assert(rest[i] == samples[i + 1]);
        }
        lemma_first_escape_unique(rest, (index - 1) as nat);
    }
}

/// Every sample before `first_escape` is quiet, and the sample at it, where
/// there is one, escaped.
pub proof fn lemma_first_escape_found(samples: Seq<bool>)
    ensures
        first_escape(samples) <= samples.len(),
        forall|i: int| 0 <= i < first_escape(samples) ==> !samples[i],
        first_escape(samples) < samples.len() ==> samples[first_escape(samples) as int],
    decreases samples.len(),
{
    if samples.len() == 0 || samples[0] {
    } else {
        let rest = samples.drop_first();
        lemma_first_escape_found(rest);
        assert forall|i: int| 0 <= i < first_escape(samples) implies !samples[i] by {
            if i > 0 {
                assert(samples[i] == rest[i - 1]);
            }
        }
        if first_escape(samples) < samples.len() {
            assert(samples[first_escape(samples) as int] == rest[first_escape(rest) as int]);
        }
    }
}

/// An orbit whose first escape is seen after `steps` steps, with budget to
/// spare, counts `steps`: zero where the starting point has escaped already.
pub proof fn lemma_counts_completed_steps(samples: Seq<bool>, budget: nat, steps: nat)
    requires
        steps < budget,
        steps < samples.len(),
        forall|i: int| 0 <= i < steps ==> !samples[i],
        samples[steps as int],
    ensures
        escape_index(samples, budget) == steps,
{
    lemma_first_escape_unique(samples, steps);
}

/// An orbit that does not escape within its budget counts one less than the
/// budget.
pub proof fn lemma_bounded_orbit_count(samples: Seq<bool>, budget: nat)
    requires
        0 < budget <= samples.len(),
        forall|i: int| 0 <= i < budget ==> !samples[i],
    ensures
        escape_index(samples, budget) == budget - 1,
{
    lemma_first_escape_found(samples);
}

/// The count stays below the budget, whatever was sampled.
pub proof fn lemma_escape_index_below_budget(samples: Seq<bool>, budget: nat)
    requires
        budget > 0,
    ensures
        escape_index(samples, budget) < budget,
{
}

/// Once no further sample is wanted, samples that follow leave the count as
/// it is.
pub proof fn lemma_escape_index_settled(samples: Seq<bool>, later: Seq<bool>, budget: nat)
    requires
        !awaiting(samples, budget),
        samples.len() <= budget,
    ensures
        escape_index(samples + later, budget) == escape_index(samples, budget),
{
    lemma_first_escape_found(samples);
    let whole = samples + later;
    let index = first_escape(samples);
    if index < samples.len() {
        assert forall|i: int| 0 <= i < index implies !whole[i] by {
            assert(whole[i] == samples[i]);
        }
        assert(whole[index as int] == samples[index as int]);
        lemma_first_escape_unique(whole, index);
    } else {
        lemma_first_escape_found(whole);
        if first_escape(whole) < samples.len() {
            assert(whole[first_escape(whole) as int] == samples[first_escape(whole) as int]);
        }
    }
}

/// Counts the steps of one orbit.
pub struct EscapeCounter {
    budget: u32,
    completed: u32,
    stopped: bool,
    seen: Ghost<Seq<bool>>,
}

impl EscapeCounter {
    /// The counter's fields agree with the samples it has taken.
    #[verifier::type_invariant]
    pub closed spec fn wf(self) -> bool {
        &&& self.completed <= self.budget
        &&& self.seen@.len() == self.completed + if self.stopped { 1int } else { 0int }
        &&& forall|i: int| 0 <= i < self.completed ==> !self.seen@[i]
        &&& self.stopped ==> self.completed < self.budget && self.seen@[self.completed as int]
    }

    /// The largest number of steps the orbit may take.
    pub closed spec fn budget(self) -> nat {
        self.budget as nat
    }

    /// The samples recorded so far, oldest first.
    pub closed spec fn samples(self) -> Seq<bool> {
        self.seen@
    }

    /// A counter never takes more samples than its budget, and none after
    /// one that escaped.
    pub proof fn lemma_samples_within_budget(self)
        requires
            self.wf(),
        ensures
            self.samples().len() <= self.budget(),
            first_escape(self.samples()) + 1 >= self.samples().len(),
    {
        lemma_first_escape_unique(self.seen@, self.completed as nat);
    }

    /// A counter holds nothing but its budget and the samples it has taken:
    /// two counters that agree on these are the same counter.
    pub proof fn lemma_no_hidden_state(self, other: Self)
        requires
            self.wf(),
            other.wf(),
            self.budget() == other.budget(),
            self.samples() == other.samples(),
        ensures
            self == other,
    {
        lemma_first_escape_unique(self.seen@, self.completed as nat);
        lemma_first_escape_unique(other.seen@, other.completed as nat);
    }

    /// A counter that has taken no sample.
    pub fn new(budget: u32) -> (counter: Self)
        ensures
            counter.budget() == budget,
            counter.samples() == Seq::<bool>::empty(),
    {
        EscapeCounter { budget, completed: 0, stopped: false, seen: Ghost(Seq::empty()) }
    }

    /// Whether the caller should test the current point and record the
    /// outcome.
    pub fn wants_sample(&self) -> (wanted: bool)
        ensures
            wanted == awaiting(self.samples(), self.budget()),
    {
        proof {
            use_type_invariant(self);
            lemma_first_escape_unique(self.seen@, self.completed as nat);
        }
        !self.stopped && self.completed < self.budget
    }

    /// Records whether the current point has escaped and tells whether the
    /// orbit takes its next step. A sample that is not wanted is ignored.
    pub fn record(&mut self, escaped: bool) -> (advance: bool)
        ensures
            final(self).budget() == old(self).budget(),
            awaiting(old(self).samples(), old(self).budget()) ==> {
                &&& final(self).samples() == old(self).samples().push(escaped)
                &&& advance == !escaped
            },
            !awaiting(old(self).samples(), old(self).budget()) ==> {
                &&& final(self).samples() == old(self).samples()
                &&& !advance
            },
    {
        proof {
            use_type_invariant(&*self);
            lemma_first_escape_unique(self.seen@, self.completed as nat);
        }
        if self.stopped || self.completed >= self.budget {
            false
        } else if escaped {
            *self = EscapeCounter {
                budget: self.budget,
                completed: self.completed,
                stopped: true,
                seen: Ghost(self.seen@.push(true)),
            };
            false
        } else {
            *self = EscapeCounter {
                budget: self.budget,
                completed: self.completed + 1,
                stopped: false,
                seen: Ghost(self.seen@.push(false)),
            };
            true
        }
    }

    /// The escape-time count of the samples recorded so far.
    pub fn count(&self) -> (count: u32)
        ensures
            count == escape_index(self.samples(), self.budget()),
            self.budget() > 0 ==> count < self.budget(),
    {
        proof {
            use_type_invariant(self);
            lemma_first_escape_unique(self.seen@, self.completed as nat);
        }
        if self.completed < self.budget {
            self.completed
        } else if self.budget == 0 {
            0
        } else {
            self.budget - 1
        }
    }
}

} // verus!
