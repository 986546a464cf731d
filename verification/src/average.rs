//! The exponentially weighted moving average of a sequence with gaps.

use crate::presence::{
    all_present,
    lemma_masking_never_returns,
    lemma_present_count_at_most,
    lemma_present_count_monotone,
    lemma_present_count_without_gaps,
    masked,
    present_count,
};
use crate::regime::{regime_of, select_regime, EwmError, Regime};
use crate::scalar::{is_one, less_than, one, zero};
use crate::state::EwmState;
use num::Float;
use vstd::prelude::*;

verus! {

/// The observations as they pass through when the decay parameter is one:
/// nothing during the warm-up, then each observation as it came, an absent
/// one absent.
pub open spec fn forwarded<T>(xs: Seq<Option<T>>, min_periods: nat) -> Seq<Option<T>> {
    Seq::new(
        xs.len(),
        |i: int|
            if masked(xs, min_periods, i) {
                None
            } else {
                xs[i]
            },
    )
}

/// The recurrence has a mean to put out at position `i`: the warm-up is over
/// and an observation has been present.
pub open spec fn has_mean<T>(xs: Seq<Option<T>>, min_periods: nat, i: int) -> bool {
    !masked(xs, min_periods, i) && present_count(xs, i + 1) > 0
}

/// What holds of the output `out` of the recurrence on `xs`, whatever the
/// arithmetic of the numeric type returns: it is as long as `xs`, it has a
/// value exactly where the recurrence has a mean, and at an absent
/// observation it repeats the output before it.
pub open spec fn is_recurrence_output<T>(
    xs: Seq<Option<T>>,
    out: Seq<Option<T>>,
    min_periods: nat,
) -> bool {
    &&& out.len() == xs.len()
    &&& forall|i: int|
        0 <= i < xs.len() ==> (#[trigger] out[i]).is_some() == has_mean(xs, min_periods, i)
    &&& forall|i: int|
        0 < i < xs.len() && (#[trigger] xs[i]).is_none() ==> out[i] == out[i - 1]
}

/// The average for a decay parameter of one. No arithmetic is done: after
/// the warm-up of `min_periods` present observations each observation is its
/// own average, and an absent one stays absent.
pub fn ewm_mean_alpha_equals_one<T: Copy>(xs: &[Option<T>], min_periods: usize) -> (out: Vec<
    Option<T>,
>)
    ensures
        out@ == forwarded(xs@, min_periods as nat),
{
    let mut out: Vec<Option<T>> = Vec::with_capacity(xs.len());
    let mut non_null_count: usize = 0;
    let mut i: usize = 0;
    while i < xs.len()
        invariant
            i <= xs.len(),
            out.len() == i,
            non_null_count == present_count(xs@, i as int),
            forall|j: int| 0 <= j < i ==> out@[j] == forwarded(xs@, min_periods as nat)[j],
        decreases xs.len() - i,
    {
        let opt_x = xs[i];
        proof {
            lemma_present_count_at_most(xs@, i as int);
        }
        if opt_x.is_some() {
            non_null_count = non_null_count + 1;
        }
        if non_null_count < min_periods {
            out.push(None);
        } else {
            out.push(opt_x);
        }
        i = i + 1;
    }
    assert(out@ =~= forwarded(xs@, min_periods as nat));
    out
}

/// The average by the recurrence, for a decay parameter strictly between
/// zero and one. `alpha` is taken as it is and not tested.
///
/// One pass over `xs`: each observation goes into an [`EwmState`], and the
/// state's output for it is the entry of the result at its position.
pub fn ewm_mean_recurrence<T: Float>(
    xs: &[Option<T>],
    alpha: T,
    adjust: bool,
    min_periods: usize,
    ignore_na: bool,
) -> (out: Vec<Option<T>>)
    ensures
        is_recurrence_output(xs@, out@, min_periods as nat),
{
    let mut state = EwmState::new(alpha, adjust);
    let mut out: Vec<Option<T>> = Vec::with_capacity(xs.len());
    let mut i: usize = 0;
    while i < xs.len()
        invariant
            i <= xs.len(),
            out.len() == i,
            state.wf(),
            state.non_null_count == present_count(xs@, i as int),
            i > 0 ==> out@[i - 1] == state.emitted(min_periods as nat),
            forall|j: int|
                0 <= j < i ==> (#[trigger] out@[j]).is_some() == has_mean(
                    xs@,
                    min_periods as nat,
                    j,
                ),
            forall|j: int| 0 < j < i && (#[trigger] xs@[j]).is_none() ==> out@[j] == out@[j - 1],
        decreases xs.len() - i,
    {
        proof {
            lemma_present_count_at_most(xs@, i as int);
        }
        state.observe(xs[i], ignore_na);
        out.push(state.emit(min_periods));
        i = i + 1;
    }
    out
}

/// The exponentially weighted moving average of `xs` with decay parameter
/// `alpha`.
///
/// `alpha` must lie in `(0, 1]`; any other value, one that compares with
/// nothing included, is rejected. A decay parameter of one goes to
/// [`ewm_mean_alpha_equals_one`], every other valid one to
/// [`ewm_mean_recurrence`]. Which of the three it is, the numeric type
/// decides: [`ewm_mean_decided`] says what comes back for each outcome.
pub fn ewm_mean<T: Float>(
    xs: &[Option<T>],
    alpha: T,
    adjust: bool,
    min_periods: usize,
    ignore_na: bool,
) -> (r: Result<Vec<Option<T>>, EwmError>)
    ensures
        match r {
            Ok(out) => {
                &&& out@.len() == xs@.len()
                &&& forall|i: int|
                    0 <= i < xs@.len() && masked(xs@, min_periods as nat, i) ==> (#[trigger] out@[i]).is_none()
                &&& (out@ == forwarded(xs@, min_periods as nat) || is_recurrence_output(
                    xs@,
                    out@,
                    min_periods as nat,
                ))
            },
            Err(e) => e == EwmError::InvalidAlpha,
        },
{
    ewm_mean_decided(
        xs,
        alpha,
        is_one(alpha),
        less_than(zero(), alpha),
        less_than(alpha, one()),
        adjust,
        min_periods,
        ignore_na,
    )
}

/// The average of `xs` once the three domain tests on `alpha` have been
/// made: whether it equals one, whether it is greater than zero, and whether
/// it is less than one.
///
/// The outcome of the tests alone decides what comes back. Where
/// [`regime_of`] rejects them the result is the error and nothing is
/// computed; where it gives the degenerate regime the observations are
/// forwarded; where it gives the recurrence the result is the output of the
/// recurrence with `alpha`.
pub fn ewm_mean_decided<T: Float>(
    xs: &[Option<T>],
    alpha: T,
    alpha_is_one: bool,
    alpha_positive: bool,
    alpha_below_one: bool,
    adjust: bool,
    min_periods: usize,
    ignore_na: bool,
) -> (r: Result<Vec<Option<T>>, EwmError>)
    ensures
        match regime_of(alpha_is_one, alpha_positive, alpha_below_one) {
            Ok(Regime::Degenerate) => r.is_ok() && r.unwrap()@ == forwarded(
                xs@,
                min_periods as nat,
            ),
            Ok(Regime::Recurrence) => r.is_ok() && is_recurrence_output(
                xs@,
                r.unwrap()@,
                min_periods as nat,
            ),
            Err(e) => r == Err::<Vec<Option<T>>, EwmError>(e),
        },
{
    match select_regime(alpha_is_one, alpha_positive, alpha_below_one) {
        Ok(Regime::Degenerate) => Ok(ewm_mean_alpha_equals_one(xs, min_periods)),
        Ok(Regime::Recurrence) => Ok(
            ewm_mean_recurrence(xs, alpha, adjust, min_periods, ignore_na),
        ),
        Err(e) => Err(e),
    }
}

/// Once the recurrence has put out a value, it puts one out at every later
/// position, also where the observation is absent.
pub proof fn lemma_recurrence_output_stays_present<T>(
    xs: Seq<Option<T>>,
    out: Seq<Option<T>>,
    min_periods: nat,
    i: int,
    j: int,
)
    requires
        is_recurrence_output(xs, out, min_periods),
        0 <= i <= j < xs.len(),
        out[i].is_some(),
    ensures
        out[j].is_some(),
{
    lemma_masking_never_returns(xs, min_periods, i, j);
    lemma_present_count_monotone(xs, i + 1, j + 1);
}

/// With a decay parameter of one, every observation after the warm-up comes
/// out as it went in: the warm-up never comes back, and what is absent
/// later is absent because the observation is.
pub proof fn lemma_forwarded_after_warm_up<T>(
    xs: Seq<Option<T>>,
    min_periods: nat,
    i: int,
    j: int,
)
    requires
        0 <= i <= j < xs.len(),
        !masked(xs, min_periods, i),
    ensures
        forwarded(xs, min_periods)[j] == xs[j],
{
    lemma_masking_never_returns(xs, min_periods, i, j);
}

/// At a present observation the two paths put out a value on the same
/// condition: that the warm-up is over.
pub proof fn lemma_paths_agree_on_presence<T>(
    xs: Seq<Option<T>>,
    out: Seq<Option<T>>,
    min_periods: nat,
    i: int,
)
    requires
        is_recurrence_output(xs, out, min_periods),
        0 <= i < xs.len(),
        xs[i].is_some(),
    ensures
        out[i].is_some() == forwarded(xs, min_periods)[i].is_some(),
        out[i].is_some() == !masked(xs, min_periods, i),
{
}

/// Where no observation is absent, the warm-up is a matter of position
/// alone: the recurrence puts out a value at position `i` exactly when
/// `i + 1` reaches `min_periods`, and a decay parameter of one forwards the
/// observation there.
pub proof fn lemma_outputs_without_gaps<T>(
    xs: Seq<Option<T>>,
    out: Seq<Option<T>>,
    min_periods: nat,
    i: int,
)
    requires
        all_present(xs),
        is_recurrence_output(xs, out, min_periods),
        0 <= i < xs.len(),
    ensures
        out[i].is_some() == (i + 1 >= min_periods),
        forwarded(xs, min_periods)[i] == (if i + 1 >= min_periods {
            xs[i]
        } else {
            None
        }),
{
    lemma_present_count_without_gaps(xs, i + 1);
}

} // verus!
