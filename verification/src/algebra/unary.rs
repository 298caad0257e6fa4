use vstd::prelude::*;
use vstd::std_specs::ops::{NegSpec, NotSpec};
use core::ops::{Neg, Not};
use crate::algebra::UnaryOperator;
use crate::algebra::numeric::Numeric;

verus! {

/// The identity mapping.
#[derive(Copy, Clone)]
pub struct IdendityOp;

/// The absolute value, defined where it lies in the domain.
#[derive(Copy, Clone)]
pub struct AbsoluteOp;

/// The additive inverse, defined where it lies in the domain.
#[derive(Copy, Clone)]
pub struct AdditiveInverseOp;

/// The multiplicative inverse. Its results are floating-point numbers, so
/// the library holds the name only: no integer domain implements it.
#[derive(Copy, Clone)]
pub struct MultiplicativeInverseOp;

/// Logical negation.
#[derive(Copy, Clone)]
pub struct LogicalNotOp;

/// Bitwise complement.
#[derive(Copy, Clone)]
pub struct BitwiseNotOp;

impl<T> UnaryOperator<T> for IdendityOp {
    open spec fn defined(value: T) -> bool {
        true
    }

    open spec fn apply(value: T) -> T {
        value
    }

    fn op(value: T) -> (out: T) {
        value
    }
}

impl<T: Numeric> UnaryOperator<T> for AbsoluteOp {
    open spec fn defined(value: T) -> bool {
        value.abs_req()
    }

    open spec fn apply(value: T) -> T {
        value.abs_spec()
    }

    fn op(value: T) -> (out: T) {
        value.abs()
    }
}

impl<T> UnaryOperator<T> for AdditiveInverseOp where
    Self: Clone,
    T: Neg<Output = T>,
 {
    open spec fn defined(value: T) -> bool {
        T::obeys_neg_spec() && value.neg_req()
    }

    open spec fn apply(value: T) -> T {
        value.neg_spec()
    }

    fn op(value: T) -> (out: T) {
        value.neg()
    }
}

impl UnaryOperator<bool> for LogicalNotOp {
    open spec fn defined(value: bool) -> bool {
        true
    }

    open spec fn apply(value: bool) -> bool {
        !value
    }

    fn op(value: bool) -> (out: bool) {
        !value
    }
}

impl<T> UnaryOperator<T> for BitwiseNotOp where Self: Clone, T: Not<Output = T> {
    open spec fn defined(value: T) -> bool {
        T::obeys_not_spec() && value.not_req()
    }

    open spec fn apply(value: T) -> T {
        value.not_spec()
    }

    fn op(value: T) -> (out: T) {
        value.not()
    }
}

} // verus!
