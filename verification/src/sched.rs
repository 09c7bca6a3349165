//! The weighted admission scheduler: a test acquires its permit weight
//! before running and returns it when its own work is done. At any
//! instant the weights of the running tests sum to the used count, which
//! never exceeds the budget.
//!
//! This is the model of the admission discipline; the asynchronous run
//! loop enforces the same bound with a counting semaphore initialized
//! with the same budget, acquiring and releasing the same weights, since
//! its waiting lives outside what the verifier sees.

use vstd::prelude::*;

verus! {

/// The sum of the running tests' weights.
pub open spec fn weights_sum(s: Seq<u32>) -> int
    decreases s.len(),
{
    if s.len() == 0 {
        0
    } else {
        weights_sum(s.drop_last()) + s.last()
    }
}

proof fn lemma_weights_sum_nonneg(s: Seq<u32>)
    ensures
        weights_sum(s) >= 0,
    decreases s.len(),
{
    if s.len() > 0 {
        lemma_weights_sum_nonneg(s.drop_last());
    }
}

proof fn lemma_weights_sum_remove(s: Seq<u32>, i: int)
    requires
        0 <= i < s.len(),
    ensures
        weights_sum(s.remove(i)) == weights_sum(s) - s[i],
    decreases s.len(),
{
    if i == s.len() - 1 {
        assert(s.remove(i) =~= s.drop_last());
    } else {
        assert(s.remove(i).drop_last() =~= s.drop_last().remove(i));
        assert(s.remove(i).last() == s.last());
        lemma_weights_sum_remove(s.drop_last(), i);
    }
}

/// The scheduler's state: the run's budget, the units in use, and (as a
/// ghost record) the weight of every test currently admitted.
pub struct Scheduler {
    pub budget: u32,
    pub used: u32,
    pub running: Ghost<Seq<u32>>,
}

impl Scheduler {
    /// The concurrency bound: the running tests' weights sum exactly to
    /// the used units, and never exceed the budget.
    pub open spec fn wf(self) -> bool {
        weights_sum(self.running@) == self.used && self.used <= self.budget
    }

    /// A fresh scheduler with the whole budget free.
    pub fn new(budget: u32) -> (r: Scheduler)
        ensures
            r.wf(),
            r.budget == budget,
            r.used == 0,
            r.running@.len() == 0,
    {
        Scheduler { budget, used: 0, running: Ghost(Seq::empty()) }
    }

    /// Admits a test of the given weight exactly when the free budget
    /// covers it; an admitted test's weight joins the running record.
    pub fn try_acquire(&mut self, weight: u32) -> (r: bool)
        requires
            old(self).wf(),
        ensures
            final(self).wf(),
            final(self).budget == old(self).budget,
            r == (old(self).used + weight <= old(self).budget),
            r ==> final(self).used == old(self).used + weight && final(self).running@ == old(
                self,
            ).running@.push(weight),
            !r ==> *final(self) == *old(self),
    {
        if weight <= self.budget - self.used {
            let ghost olds = self.running@;
            self.used = self.used + weight;
            proof {
                self.running@ = olds.push(weight);
                assert(olds.push(weight).drop_last() =~= olds);
                assert(olds.push(weight).last() == weight);
            }
            true
        } else {
            false
        }
    }

    /// Returns an admitted test's weight to the budget.
    pub fn release(&mut self, weight: u32)
        requires
            old(self).wf(),
            exists|i: int|
                0 <= i < old(self).running@.len() && old(self).running@[i] == weight,
        ensures
            final(self).wf(),
            final(self).budget == old(self).budget,
            final(self).used == old(self).used - weight,
            exists|i: int|
                0 <= i < old(self).running@.len() && old(self).running@[i] == weight
                    && final(self).running@ == old(self).running@.remove(i),
    {
        let ghost olds = self.running@;
        let ghost i = choose|i: int| 0 <= i < olds.len() && olds[i] == weight;
        proof {
            lemma_weights_sum_remove(olds, i);
            lemma_weights_sum_nonneg(olds.remove(i));
        }
        self.used = self.used - weight;
        proof {
            self.running@ = olds.remove(i);
        }
    }
}

/// At any instant of a run, the sum of the permit weights of the tests
/// executing concurrently stays within the configured budget: it is an
/// invariant of every scheduler state that admission and release
/// preserve.
pub proof fn lemma_running_bounded(s: Scheduler)
    requires
        s.wf(),
    ensures
        weights_sum(s.running@) <= s.budget,
{
}

} // verus!
