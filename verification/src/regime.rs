//! The decay parameter's domain and the evaluation path that it selects.

use vstd::prelude::*;

verus! {

/// Why an average could not be computed.
#[derive(Debug, Clone, Copy, PartialEq, Eq)]
pub enum EwmError {
    /// The decay parameter lies outside the interval `(0, 1]`.
    InvalidAlpha,
}

/// How a valid decay parameter is evaluated.
#[derive(Debug, Clone, Copy, PartialEq, Eq)]
pub enum Regime {
    /// The decay parameter equals one: the average is the latest observation.
    Degenerate,
    /// The decay parameter lies strictly between zero and one.
    Recurrence,
}

/// The regime of a decay parameter, from three facts about it: whether it
/// equals one, whether it is greater than zero, and whether it is less than
/// one.
pub open spec fn regime_of(is_one: bool, positive: bool, below_one: bool) -> Result<
    Regime,
    EwmError,
> {
    if is_one {
        Ok(Regime::Degenerate)
    } else if positive && below_one {
        Ok(Regime::Recurrence)
    } else {
        Err(EwmError::InvalidAlpha)
    }
}

/// Selects the regime of a decay parameter from the outcome of its three
/// domain tests. A parameter that is neither one nor strictly inside
/// `(0, 1)` is rejected; this covers values that compare with nothing.
pub fn select_regime(is_one: bool, positive: bool, below_one: bool) -> (r: Result<
    Regime,
    EwmError,
>)
    ensures
        r == regime_of(is_one, positive, below_one),
{
    if is_one {
        Ok(Regime::Degenerate)
    } else if positive && below_one {
        Ok(Regime::Recurrence)
    } else {
        Err(EwmError::InvalidAlpha)
    }
}

} // verus!
