//! The state that the recurrence carries from one observation to the next.

use crate::scalar::{difference, one, product, quotient, sum, zero};
use num::Float;
use vstd::prelude::*;

verus! {

/// State of one pass of the recurrence.
///
/// `alpha` and `one_sub_alpha` are fixed for the pass. The other fields move
/// with the observations: the running mean, the number of observations that
/// were present, the weight that the next present observation will get with
/// its complement, and the normalising sum of the weights.
pub struct EwmState<T> {
    pub alpha: T,
    pub one_sub_alpha: T,
    pub current_mean: Option<T>,
    pub non_null_count: usize,
    pub current_weight: T,
    pub current_complement: T,
    pub weight_sum: T,
}

impl<T> EwmState<T> {
    /// A running mean exists exactly when an observation has been present.
    pub open spec fn wf(&self) -> bool {
        self.current_mean.is_some() <==> self.non_null_count > 0
    }

    /// The weights stand at their baseline, as they do at the start and
    /// after every present observation.
    pub open spec fn at_baseline(&self) -> bool {
        self.current_weight == self.alpha && self.current_complement == self.one_sub_alpha
    }

    /// What the pass puts out in this state: nothing during the warm-up,
    /// the running mean after it.
    pub open spec fn emitted(&self, min_periods: nat) -> Option<T> {
        if self.non_null_count < min_periods {
            None
        } else {
            self.current_mean
        }
    }
}

impl<T: Copy> EwmState<T> {
    /// The output for the observation taken in last.
    pub fn emit(&self, min_periods: usize) -> (r: Option<T>)
        ensures
            r == self.emitted(min_periods as nat),
    {
        if self.non_null_count < min_periods {
            None
        } else {
            self.current_mean
        }
    }
}

impl<T: Float> EwmState<T> {
    /// The state before the first observation. The normalising sum starts at
    /// zero when `adjust` is set and at one otherwise.
    pub fn new(alpha: T, adjust: bool) -> (s: Self)
        ensures
            s.alpha == alpha,
            s.current_mean.is_none(),
            s.non_null_count == 0,
            s.at_baseline(),
            s.wf(),
    {
        let one_sub_alpha = difference(one(), alpha);
        let weight_sum = if adjust {
            zero()
        } else {
            one()
        };
        EwmState {
            alpha,
            one_sub_alpha,
            current_mean: None,
            non_null_count: 0,
            current_weight: alpha,
            current_complement: one_sub_alpha,
            weight_sum,
        }
    }

    /// Takes in one observation.
    ///
    /// A present observation is counted, enters the normalising sum and the
    /// mean with the current weight (the first one seeds the mean), and puts
    /// the weights back to their baseline. An absent one leaves the mean, the
    /// count and the sum alone: with `ignore_na` it changes nothing at all,
    /// without it the current weight is multiplied by `alpha` once more and
    /// the complement follows.
    pub fn observe(&mut self, x: Option<T>, ignore_na: bool)
        requires
            x.is_some() ==> old(self).non_null_count < usize::MAX,
        ensures
            final(self).alpha == old(self).alpha,
            final(self).one_sub_alpha == old(self).one_sub_alpha,
            x.is_some() ==> final(self).non_null_count == old(self).non_null_count + 1
                && final(self).current_mean.is_some() && final(self).at_baseline(),
            x.is_none() ==> final(self).non_null_count == old(self).non_null_count
                && final(self).current_mean == old(self).current_mean && final(self).weight_sum
                == old(self).weight_sum,
            x.is_none() && ignore_na ==> *final(self) == *old(self),
            old(self).wf() ==> final(self).wf(),
    {
        match x {
            Some(value) => {
                self.non_null_count = self.non_null_count + 1;
                let prev_mean = match self.current_mean {
                    Some(mean) => mean,
                    None => value,
                };
                self.weight_sum = sum(
                    product(self.current_complement, self.weight_sum),
                    self.current_weight,
                );
                let correction = quotient(
                    product(difference(value, prev_mean), self.current_weight),
                    self.weight_sum,
                );
                self.current_mean = Some(sum(prev_mean, correction));
                self.current_weight = self.alpha;
                self.current_complement = self.one_sub_alpha;
            },
            None => {
                if !ignore_na {
                    self.current_weight = product(self.current_weight, self.alpha);
                    self.current_complement = difference(one(), self.current_weight);
                }
            },
        }
    }
}

} // verus!
