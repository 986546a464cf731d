//! The arithmetic that the averages need from the numeric type of the
//! observations.
//!
//! Each function here hands one operation of the type `T` to verified code.
//! Nothing is claimed of what an operation returns: a proof that goes
//! through one of them holds for every value that it could give back.

use num::Float;
use vstd::prelude::*;

verus! {

/// `num::Zero::zero` for `T`.
#[verifier::external_body]
pub(crate) fn zero<T: Float>() -> (r: T) {
    num::Zero::zero()
}

/// `num::One::one` for `T`.
#[verifier::external_body]
pub(crate) fn one<T: Float>() -> (r: T) {
    num::One::one()
}

/// `num::One::is_one` for `T`.
#[verifier::external_body]
pub(crate) fn is_one<T: Float>(a: T) -> (r: bool) {
    num::One::is_one(&a)
}

/// The operator `<` of `T`, that is `PartialOrd::lt`.
#[verifier::external_body]
pub(crate) fn less_than<T: Float>(a: T, b: T) -> (r: bool) {
    a < b
}

/// The operator `+` of `T`.
#[verifier::external_body]
pub(crate) fn sum<T: Float>(a: T, b: T) -> (r: T) {
    a + b
}

/// The operator `-` of `T`.
#[verifier::external_body]
pub(crate) fn difference<T: Float>(a: T, b: T) -> (r: T) {
    a - b
}

/// The operator `*` of `T`.
#[verifier::external_body]
pub(crate) fn product<T: Float>(a: T, b: T) -> (r: T) {
    a * b
}

/// The operator `/` of `T`.
#[verifier::external_body]
pub(crate) fn quotient<T: Float>(a: T, b: T) -> (r: T) {
    a / b
}

} // verus!
