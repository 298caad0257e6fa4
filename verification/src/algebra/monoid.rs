use vstd::prelude::*;
use crate::algebra::{BinaryOperator, Monoid};
use crate::algebra::binary::{
    Addition, LogicalAnd, LogicalOr, LogicalXnor, LogicalXor, Maximum, Minimum, Multiplication,
};
use crate::algebra::numeric::Numeric;

verus! {

/// Addition with identity 0.
pub struct PlusMonoid<D> {
    _marker: core::marker::PhantomData<(D, D)>,
}

impl<D> Clone for PlusMonoid<D> {
    fn clone(&self) -> (r: Self)
        ensures
            r == *self,
    {
        Self { _marker: core::marker::PhantomData }
    }
}

impl<D> Copy for PlusMonoid<D> {
}

impl<D> PlusMonoid<D> {
    /// The monoid, as a value of specifications.
    pub closed spec fn spec_new() -> Self {
        Self { _marker: core::marker::PhantomData }
    }

    /// The monoid.
    #[verifier::when_used_as_spec(spec_new)]
    pub fn new() -> (r: Self)
        ensures
            r == Self::spec_new(),
    {
        Self { _marker: core::marker::PhantomData }
    }
}

impl<D: Numeric> Monoid<D> for PlusMonoid<D> {
    open spec fn unit(&self) -> D {
        D::zero_spec()
    }

    open spec fn defined(&self, lhs: D, rhs: D) -> bool {
        Addition::<D>::new().defined(lhs, rhs)
    }

    open spec fn combine(&self, lhs: D, rhs: D) -> D {
        Addition::<D>::new().apply(lhs, rhs)
    }

    proof fn identity_law(&self, x: D) {
        D::laws();
    }

    fn identity(&self) -> (out: D) {
        D::zero()
    }

    fn operate(&self, lhs: D, rhs: D) -> (out: D) {
        Addition::new().op(lhs, rhs)
    }
}

/// Multiplication with identity 1.
pub struct TimesMonoid<D> {
    _marker: core::marker::PhantomData<(D, D)>,
}

impl<D> Clone for TimesMonoid<D> {
    fn clone(&self) -> (r: Self)
        ensures
            r == *self,
    {
        Self { _marker: core::marker::PhantomData }
    }
}

impl<D> Copy for TimesMonoid<D> {
}

impl<D> TimesMonoid<D> {
    /// The monoid, as a value of specifications.
    pub closed spec fn spec_new() -> Self {
        Self { _marker: core::marker::PhantomData }
    }

    /// The monoid.
    #[verifier::when_used_as_spec(spec_new)]
    pub fn new() -> (r: Self)
        ensures
            r == Self::spec_new(),
    {
        Self { _marker: core::marker::PhantomData }
    }
}

impl<D: Numeric> Monoid<D> for TimesMonoid<D> {
    open spec fn unit(&self) -> D {
        D::one_spec()
    }

    open spec fn defined(&self, lhs: D, rhs: D) -> bool {
        Multiplication::<D>::new().defined(lhs, rhs)
    }

    open spec fn combine(&self, lhs: D, rhs: D) -> D {
        Multiplication::<D>::new().apply(lhs, rhs)
    }

    proof fn identity_law(&self, x: D) {
        D::laws();
    }

    fn identity(&self) -> (out: D) {
        D::one()
    }

    fn operate(&self, lhs: D, rhs: D) -> (out: D) {
        Multiplication::new().op(lhs, rhs)
    }
}

/// Minimum, whose identity is the greatest value of the domain.
pub struct MinMonoid<D> {
    _marker: core::marker::PhantomData<(D, D)>,
}

impl<D> Clone for MinMonoid<D> {
    fn clone(&self) -> (r: Self)
        ensures
            r == *self,
    {
        Self { _marker: core::marker::PhantomData }
    }
}

impl<D> Copy for MinMonoid<D> {
}

impl<D> MinMonoid<D> {
    /// The monoid, as a value of specifications.
    pub closed spec fn spec_new() -> Self {
        Self { _marker: core::marker::PhantomData }
    }

    /// The monoid.
    #[verifier::when_used_as_spec(spec_new)]
    pub fn new() -> (r: Self)
        ensures
            r == Self::spec_new(),
    {
        Self { _marker: core::marker::PhantomData }
    }
}

impl<D: Numeric> Monoid<D> for MinMonoid<D> {
    open spec fn unit(&self) -> D {
        D::highest_spec()
    }

    open spec fn defined(&self, lhs: D, rhs: D) -> bool {
        Minimum::<D>::new().defined(lhs, rhs)
    }

    open spec fn combine(&self, lhs: D, rhs: D) -> D {
        Minimum::<D>::new().apply(lhs, rhs)
    }

    proof fn identity_law(&self, x: D) {
        D::laws();
    }

    fn identity(&self) -> (out: D) {
        D::highest()
    }

    fn operate(&self, lhs: D, rhs: D) -> (out: D) {
        Minimum::new().op(lhs, rhs)
    }
}

/// Maximum, whose identity is the least value of the domain.
pub struct MaxMonoid<D> {
    _marker: core::marker::PhantomData<(D, D)>,
}

impl<D> Clone for MaxMonoid<D> {
    fn clone(&self) -> (r: Self)
        ensures
            r == *self,
    {
        Self { _marker: core::marker::PhantomData }
    }
}

impl<D> Copy for MaxMonoid<D> {
}

impl<D> MaxMonoid<D> {
    /// The monoid, as a value of specifications.
    pub closed spec fn spec_new() -> Self {
        Self { _marker: core::marker::PhantomData }
    }

    /// The monoid.
    #[verifier::when_used_as_spec(spec_new)]
    pub fn new() -> (r: Self)
        ensures
            r == Self::spec_new(),
    {
        Self { _marker: core::marker::PhantomData }
    }
}

impl<D: Numeric> Monoid<D> for MaxMonoid<D> {
    open spec fn unit(&self) -> D {
        D::lowest_spec()
    }

    open spec fn defined(&self, lhs: D, rhs: D) -> bool {
        Maximum::<D>::new().defined(lhs, rhs)
    }

    open spec fn combine(&self, lhs: D, rhs: D) -> D {
        Maximum::<D>::new().apply(lhs, rhs)
    }

    proof fn identity_law(&self, x: D) {
        D::laws();
    }

    fn identity(&self) -> (out: D) {
        D::lowest()
    }

    fn operate(&self, lhs: D, rhs: D) -> (out: D) {
        Maximum::new().op(lhs, rhs)
    }
}

/// Logical or with identity `false`.
pub struct LogicalOrMonoid {
    _marker: core::marker::PhantomData<()>,
}

impl Clone for LogicalOrMonoid {
    fn clone(&self) -> (r: Self)
        ensures
            r == *self,
    {
        Self { _marker: core::marker::PhantomData }
    }
}

impl Copy for LogicalOrMonoid {
}

impl LogicalOrMonoid {
    /// The monoid, as a value of specifications.
    pub closed spec fn spec_new() -> Self {
        Self { _marker: core::marker::PhantomData }
    }

    /// The monoid.
    #[verifier::when_used_as_spec(spec_new)]
    pub fn new() -> (r: Self)
        ensures
            r == Self::spec_new(),
    {
        Self { _marker: core::marker::PhantomData }
    }
}

impl Monoid<bool> for LogicalOrMonoid {
    open spec fn unit(&self) -> bool {
        false
    }

    open spec fn defined(&self, lhs: bool, rhs: bool) -> bool {
        true
    }

    open spec fn combine(&self, lhs: bool, rhs: bool) -> bool {
        LogicalOr::new().apply(lhs, rhs)
    }

    proof fn identity_law(&self, x: bool) {
    }

    fn identity(&self) -> (out: bool) {
        false
    }

    fn operate(&self, lhs: bool, rhs: bool) -> (out: bool) {
        LogicalOr::new().op(lhs, rhs)
    }
}

/// Logical and with identity `true`.
pub struct LogicalAndMonoid {
    _marker: core::marker::PhantomData<()>,
}

impl Clone for LogicalAndMonoid {
    fn clone(&self) -> (r: Self)
        ensures
            r == *self,
    {
        Self { _marker: core::marker::PhantomData }
    }
}

impl Copy for LogicalAndMonoid {
}

impl LogicalAndMonoid {
    /// The monoid, as a value of specifications.
    pub closed spec fn spec_new() -> Self {
        Self { _marker: core::marker::PhantomData }
    }

    /// The monoid.
    #[verifier::when_used_as_spec(spec_new)]
    pub fn new() -> (r: Self)
        ensures
            r == Self::spec_new(),
    {
        Self { _marker: core::marker::PhantomData }
    }
}

impl Monoid<bool> for LogicalAndMonoid {
    open spec fn unit(&self) -> bool {
        true
    }

    open spec fn defined(&self, lhs: bool, rhs: bool) -> bool {
        true
    }

    open spec fn combine(&self, lhs: bool, rhs: bool) -> bool {
        LogicalAnd::new().apply(lhs, rhs)
    }

    proof fn identity_law(&self, x: bool) {
    }

    fn identity(&self) -> (out: bool) {
        true
    }

    fn operate(&self, lhs: bool, rhs: bool) -> (out: bool) {
        LogicalAnd::new().op(lhs, rhs)
    }
}

/// Logical exclusive or with identity `false`.
pub struct LogicalXorMonoid {
    _marker: core::marker::PhantomData<()>,
}

impl Clone for LogicalXorMonoid {
    fn clone(&self) -> (r: Self)
        ensures
            r == *self,
    {
        Self { _marker: core::marker::PhantomData }
    }
}

impl Copy for LogicalXorMonoid {
}

impl LogicalXorMonoid {
    /// The monoid, as a value of specifications.
    pub closed spec fn spec_new() -> Self {
        Self { _marker: core::marker::PhantomData }
    }

    /// The monoid.
    #[verifier::when_used_as_spec(spec_new)]
    pub fn new() -> (r: Self)
        ensures
            r == Self::spec_new(),
    {
        Self { _marker: core::marker::PhantomData }
    }
}

impl Monoid<bool> for LogicalXorMonoid {
    open spec fn unit(&self) -> bool {
        false
    }

    open spec fn defined(&self, lhs: bool, rhs: bool) -> bool {
        true
    }

    open spec fn combine(&self, lhs: bool, rhs: bool) -> bool {
        LogicalXor::new().apply(lhs, rhs)
    }

    proof fn identity_law(&self, x: bool) {
    }

    fn identity(&self) -> (out: bool) {
        false
    }

    fn operate(&self, lhs: bool, rhs: bool) -> (out: bool) {
        LogicalXor::new().op(lhs, rhs)
    }
}

/// Logical equivalence with identity `true`.
pub struct LogicalXnorMonoid {
    _marker: core::marker::PhantomData<()>,
}

impl Clone for LogicalXnorMonoid {
    fn clone(&self) -> (r: Self)
        ensures
            r == *self,
    {
        Self { _marker: core::marker::PhantomData }
    }
}

impl Copy for LogicalXnorMonoid {
}

impl LogicalXnorMonoid {
    /// The monoid, as a value of specifications.
    pub closed spec fn spec_new() -> Self {
        Self { _marker: core::marker::PhantomData }
    }

    /// The monoid.
    #[verifier::when_used_as_spec(spec_new)]
    pub fn new() -> (r: Self)
        ensures
            r == Self::spec_new(),
    {
        Self { _marker: core::marker::PhantomData }
    }
}

impl Monoid<bool> for LogicalXnorMonoid {
    open spec fn unit(&self) -> bool {
        true
    }

    open spec fn defined(&self, lhs: bool, rhs: bool) -> bool {
        true
    }

    open spec fn combine(&self, lhs: bool, rhs: bool) -> bool {
        LogicalXnor::new().apply(lhs, rhs)
    }

    proof fn identity_law(&self, x: bool) {
    }

    fn identity(&self) -> (out: bool) {
        true
    }

    fn operate(&self, lhs: bool, rhs: bool) -> (out: bool) {
        LogicalXnor::new().op(lhs, rhs)
    }
}

} // verus!
