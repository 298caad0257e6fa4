//! Algebra operators: unary and binary operators, monoids and semirings.
//!
//! Every operator is a pure function of its arguments. What it computes is
//! given by a specification function of the trait it implements, and the
//! arguments on which it may be called by another: integer arithmetic is
//! defined only where the exact result fits the domain.
use vstd::prelude::*;

pub mod binary;
pub mod monoid;
pub mod numeric;
pub mod semiring;
pub mod unary;

pub use crate::algebra::binary::{
    Addition, BitwiseAnd, BitwiseOr, BitwiseXnor, BitwiseXor, Division, Equal, First, GreaterThan,
    GreaterThanOrEqual, LessThan, LessThanOrEqual, LogicalAnd, LogicalOr, LogicalXnor, LogicalXor,
    Maximum, Minimum, Multiplication, NotEqual, Second, Subtraction,
};
pub use crate::algebra::monoid::{
    LogicalAndMonoid, LogicalOrMonoid, LogicalXnorMonoid, LogicalXorMonoid, MaxMonoid, MinMonoid,
    PlusMonoid, TimesMonoid,
};
pub use crate::algebra::numeric::Numeric;
pub use crate::algebra::semiring::{
    AndOrSemiring, LogicalSemiring, MaxFirstSemiring, MaxMinSemiring, MaxPlusSemiring,
    MaxSecondSemiring, MaxTimesSemiring, MinFirstSemiring, MinMaxSemiring, MinPlusSemiring,
    MinSecondSemiring, MinTimesSemiring, PlusMinSemiring, PlusTimesSemiring, XorAndSemiring,
    XorOrSemiring,
};
pub use crate::algebra::unary::{
    AbsoluteOp, AdditiveInverseOp, BitwiseNotOp, IdendityOp, LogicalNotOp, MultiplicativeInverseOp,
};

verus! {

/// A pure mapping from a value to a value.
pub trait UnaryOperator<T, O = T>: Clone {
    /// The values on which the operator may be applied.
    spec fn defined(value: T) -> bool;

    /// What the operator yields on `value`.
    spec fn apply(value: T) -> O;

    /// Applies the operator.
    fn op(value: T) -> (out: O)
        requires
            Self::defined(value),
        ensures
            out == Self::apply(value),
    ;
}

/// A pure mapping from a pair of values to a value.
pub trait BinaryOperator<D1, D2 = D1>: Clone {
    type Output;

    /// The pairs on which the operator may be applied.
    spec fn defined(&self, lhs: D1, rhs: D2) -> bool;

    /// What the operator yields on `(lhs, rhs)`.
    spec fn apply(&self, lhs: D1, rhs: D2) -> Self::Output;

    /// Applies the operator.
    fn op(&self, lhs: D1, rhs: D2) -> (out: Self::Output)
        requires
            self.defined(lhs, rhs),
        ensures
            out == self.apply(lhs, rhs),
    ;
}

/// A binary operator on one domain together with its identity element.
pub trait Monoid<D>: Clone {
    /// The identity element.
    spec fn unit(&self) -> D;

    /// The pairs on which the operator may be applied.
    spec fn defined(&self, lhs: D, rhs: D) -> bool;

    /// What the operator yields on `(lhs, rhs)`.
    spec fn combine(&self, lhs: D, rhs: D) -> D;

    /// The identity law: combining the identity with any `x` is defined and
    /// gives `x` back.
    proof fn identity_law(&self, x: D)
        ensures
            self.defined(self.unit(), x),
            self.combine(self.unit(), x) == x,
    ;

    /// The identity element.
    fn identity(&self) -> (out: D)
        ensures
            out == self.unit(),
    ;

    /// Applies the operator.
    fn operate(&self, lhs: D, rhs: D) -> (out: D)
        requires
            self.defined(lhs, rhs),
        ensures
            out == self.combine(lhs, rhs),
    ;
}

/// An "add" monoid paired with a "multiply" operator whose results lie in
/// the monoid's domain.
pub trait Semiring<D1, D2 = D1>: Clone {
    type Output;

    /// The identity of the addition.
    spec fn null(&self) -> Self::Output;

    /// The pairs that may be added.
    spec fn add_defined(&self, lhs: Self::Output, rhs: Self::Output) -> bool;

    /// The sum of `lhs` and `rhs`.
    spec fn sum(&self, lhs: Self::Output, rhs: Self::Output) -> Self::Output;

    /// The pairs that may be multiplied.
    spec fn mult_defined(&self, lhs: D1, rhs: D2) -> bool;

    /// The product of `lhs` and `rhs`.
    spec fn product(&self, lhs: D1, rhs: D2) -> Self::Output;

    /// Adding `zero()` to any `x` is defined and gives `x` back.
    proof fn zero_law(&self, x: Self::Output)
        ensures
            self.add_defined(self.null(), x),
            self.sum(self.null(), x) == x,
    ;

    /// Adds.
    fn add(&self, lhs: Self::Output, rhs: Self::Output) -> (out: Self::Output)
        requires
            self.add_defined(lhs, rhs),
        ensures
            out == self.sum(lhs, rhs),
    ;

    /// Multiplies.
    fn mult(&self, lhs: D1, rhs: D2) -> (out: Self::Output)
        requires
            self.mult_defined(lhs, rhs),
        ensures
            out == self.product(lhs, rhs),
    ;

    /// The identity of the addition.
    fn zero(&self) -> (out: Self::Output)
        ensures
            out == self.null(),
    ;
}

/// The operator of a monoid, as a binary operator.
pub struct MonoidOperator<M>(pub M);

impl<M: Clone> Clone for MonoidOperator<M> {
    fn clone(&self) -> (r: Self)
        ensures
            cloned(self.0, r.0),
    {
        MonoidOperator(self.0.clone())
    }
}

impl<D, M: Monoid<D>> BinaryOperator<D> for MonoidOperator<M> {
    type Output = D;

    open spec fn defined(&self, lhs: D, rhs: D) -> bool {
        self.0.defined(lhs, rhs)
    }

    open spec fn apply(&self, lhs: D, rhs: D) -> D {
        self.0.combine(lhs, rhs)
    }

    fn op(&self, lhs: D, rhs: D) -> (out: D) {
        self.0.operate(lhs, rhs)
    }
}

/// The addition of a semiring, as a binary operator.
pub struct SemiringAddition<S>(pub S);

impl<S: Clone> Clone for SemiringAddition<S> {
    fn clone(&self) -> (r: Self)
        ensures
            cloned(self.0, r.0),
    {
        SemiringAddition(self.0.clone())
    }
}

impl<D, S: Semiring<D, Output = D>> BinaryOperator<D> for SemiringAddition<S> {
    type Output = D;

    open spec fn defined(&self, lhs: D, rhs: D) -> bool {
        self.0.add_defined(lhs, rhs)
    }

    open spec fn apply(&self, lhs: D, rhs: D) -> D {
        self.0.sum(lhs, rhs)
    }

    fn op(&self, lhs: D, rhs: D) -> (out: D) {
        self.0.add(lhs, rhs)
    }
}

/// The multiplication of a semiring, as a binary operator.
pub struct SemiringMultiplication<S>(pub S);

impl<S: Clone> Clone for SemiringMultiplication<S> {
    fn clone(&self) -> (r: Self)
        ensures
            cloned(self.0, r.0),
    {
        SemiringMultiplication(self.0.clone())
    }
}

impl<D, S: Semiring<D, Output = D>> BinaryOperator<D> for SemiringMultiplication<S> {
    type Output = D;

    open spec fn defined(&self, lhs: D, rhs: D) -> bool {
        self.0.mult_defined(lhs, rhs)
    }

    open spec fn apply(&self, lhs: D, rhs: D) -> D {
        self.0.product(lhs, rhs)
    }

    fn op(&self, lhs: D, rhs: D) -> (out: D) {
        self.0.mult(lhs, rhs)
    }
}

} // verus!
