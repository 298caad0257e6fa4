use vstd::prelude::*;
use crate::algebra::{BinaryOperator, Monoid, Semiring};
use crate::algebra::binary::{
    Addition, First, LogicalAnd, LogicalOr, Maximum, Minimum, Multiplication, Second,
};
use crate::algebra::monoid::{
    LogicalAndMonoid, LogicalOrMonoid, LogicalXorMonoid, MaxMonoid, MinMonoid, PlusMonoid,
};
use crate::algebra::numeric::Numeric;

verus! {

/// Addition over multiplication: conventional arithmetic.
pub struct PlusTimesSemiring<D1, D2 = D1> {
    _marker: core::marker::PhantomData<(D1, D2)>,
}

impl<D1, D2> Clone for PlusTimesSemiring<D1, D2> {
    fn clone(&self) -> (r: Self)
        ensures
            r == *self,
    {
        Self { _marker: core::marker::PhantomData }
    }
}

impl<D1, D2> Copy for PlusTimesSemiring<D1, D2> {
}

impl<D1, D2> PlusTimesSemiring<D1, D2> {
    /// The semiring, as a value of specifications.
    pub closed spec fn spec_new() -> Self {
        Self { _marker: core::marker::PhantomData }
    }

    /// The semiring.
    #[verifier::when_used_as_spec(spec_new)]
    pub fn new() -> (r: Self)
        ensures
            r == Self::spec_new(),
    {
        Self { _marker: core::marker::PhantomData }
    }
}

impl<D1, D2> Semiring<D1, D2> for PlusTimesSemiring<D1, D2> where
    Self: Clone,
    PlusMonoid<D1>: Monoid<D1>,
    Multiplication<D1>: BinaryOperator<D1, D2, Output = D1>,
 {
    type Output = D1;

    open spec fn null(&self) -> D1 {
        PlusMonoid::<D1>::new().unit()
    }

    open spec fn add_defined(&self, lhs: D1, rhs: D1) -> bool {
        PlusMonoid::<D1>::new().defined(lhs, rhs)
    }

    open spec fn sum(&self, lhs: D1, rhs: D1) -> D1 {
        PlusMonoid::<D1>::new().combine(lhs, rhs)
    }

    open spec fn mult_defined(&self, lhs: D1, rhs: D2) -> bool {
        Multiplication::<D1>::new().defined(lhs, rhs)
    }

    open spec fn product(&self, lhs: D1, rhs: D2) -> D1 {
        Multiplication::<D1>::new().apply(lhs, rhs)
    }

    proof fn zero_law(&self, x: D1) {
        PlusMonoid::<D1>::new().identity_law(x);
    }

    fn add(&self, lhs: D1, rhs: D1) -> (out: D1) {
        PlusMonoid::new().operate(lhs, rhs)
    }

    fn mult(&self, lhs: D1, rhs: D2) -> (out: D1) {
        Multiplication::new().op(lhs, rhs)
    }

    fn zero(&self) -> (out: D1) {
        PlusMonoid::new().identity()
    }
}

/// Minimum over addition: shortest paths.
pub struct MinPlusSemiring<D1, D2 = D1> {
    _marker: core::marker::PhantomData<(D1, D2)>,
}

impl<D1, D2> Clone for MinPlusSemiring<D1, D2> {
    fn clone(&self) -> (r: Self)
        ensures
            r == *self,
    {
        Self { _marker: core::marker::PhantomData }
    }
}

impl<D1, D2> Copy for MinPlusSemiring<D1, D2> {
}

impl<D1, D2> MinPlusSemiring<D1, D2> {
    /// The semiring, as a value of specifications.
    pub closed spec fn spec_new() -> Self {
        Self { _marker: core::marker::PhantomData }
    }

    /// The semiring.
    #[verifier::when_used_as_spec(spec_new)]
    pub fn new() -> (r: Self)
        ensures
            r == Self::spec_new(),
    {
        Self { _marker: core::marker::PhantomData }
    }
}

impl<D1, D2> Semiring<D1, D2> for MinPlusSemiring<D1, D2> where
    Self: Clone,
    MinMonoid<D1>: Monoid<D1>,
    Addition<D1>: BinaryOperator<D1, D2, Output = D1>,
 {
    type Output = D1;

    open spec fn null(&self) -> D1 {
        MinMonoid::<D1>::new().unit()
    }

    open spec fn add_defined(&self, lhs: D1, rhs: D1) -> bool {
        MinMonoid::<D1>::new().defined(lhs, rhs)
    }

    open spec fn sum(&self, lhs: D1, rhs: D1) -> D1 {
        MinMonoid::<D1>::new().combine(lhs, rhs)
    }

    open spec fn mult_defined(&self, lhs: D1, rhs: D2) -> bool {
        Addition::<D1>::new().defined(lhs, rhs)
    }

    open spec fn product(&self, lhs: D1, rhs: D2) -> D1 {
        Addition::<D1>::new().apply(lhs, rhs)
    }

    proof fn zero_law(&self, x: D1) {
        MinMonoid::<D1>::new().identity_law(x);
    }

    fn add(&self, lhs: D1, rhs: D1) -> (out: D1) {
        MinMonoid::new().operate(lhs, rhs)
    }

    fn mult(&self, lhs: D1, rhs: D2) -> (out: D1) {
        Addition::new().op(lhs, rhs)
    }

    fn zero(&self) -> (out: D1) {
        MinMonoid::new().identity()
    }
}

/// Maximum over addition: longest paths.
pub struct MaxPlusSemiring<D1, D2 = D1> {
    _marker: core::marker::PhantomData<(D1, D2)>,
}

impl<D1, D2> Clone for MaxPlusSemiring<D1, D2> {
    fn clone(&self) -> (r: Self)
        ensures
            r == *self,
    {
        Self { _marker: core::marker::PhantomData }
    }
}

impl<D1, D2> Copy for MaxPlusSemiring<D1, D2> {
}

impl<D1, D2> MaxPlusSemiring<D1, D2> {
    /// The semiring, as a value of specifications.
    pub closed spec fn spec_new() -> Self {
        Self { _marker: core::marker::PhantomData }
    }

    /// The semiring.
    #[verifier::when_used_as_spec(spec_new)]
    pub fn new() -> (r: Self)
        ensures
            r == Self::spec_new(),
    {
        Self { _marker: core::marker::PhantomData }
    }
}

impl<D1, D2> Semiring<D1, D2> for MaxPlusSemiring<D1, D2> where
    Self: Clone,
    MaxMonoid<D1>: Monoid<D1>,
    Addition<D1>: BinaryOperator<D1, D2, Output = D1>,
 {
    type Output = D1;

    open spec fn null(&self) -> D1 {
        MaxMonoid::<D1>::new().unit()
    }

    open spec fn add_defined(&self, lhs: D1, rhs: D1) -> bool {
        MaxMonoid::<D1>::new().defined(lhs, rhs)
    }

    open spec fn sum(&self, lhs: D1, rhs: D1) -> D1 {
        MaxMonoid::<D1>::new().combine(lhs, rhs)
    }

    open spec fn mult_defined(&self, lhs: D1, rhs: D2) -> bool {
        Addition::<D1>::new().defined(lhs, rhs)
    }

    open spec fn product(&self, lhs: D1, rhs: D2) -> D1 {
        Addition::<D1>::new().apply(lhs, rhs)
    }

    proof fn zero_law(&self, x: D1) {
        MaxMonoid::<D1>::new().identity_law(x);
    }

    fn add(&self, lhs: D1, rhs: D1) -> (out: D1) {
        MaxMonoid::new().operate(lhs, rhs)
    }

    fn mult(&self, lhs: D1, rhs: D2) -> (out: D1) {
        Addition::new().op(lhs, rhs)
    }

    fn zero(&self) -> (out: D1) {
        MaxMonoid::new().identity()
    }
}

/// Minimum over multiplication.
pub struct MinTimesSemiring<D1, D2 = D1> {
    _marker: core::marker::PhantomData<(D1, D2)>,
}

impl<D1, D2> Clone for MinTimesSemiring<D1, D2> {
    fn clone(&self) -> (r: Self)
        ensures
            r == *self,
    {
        Self { _marker: core::marker::PhantomData }
    }
}

impl<D1, D2> Copy for MinTimesSemiring<D1, D2> {
}

impl<D1, D2> MinTimesSemiring<D1, D2> {
    /// The semiring, as a value of specifications.
    pub closed spec fn spec_new() -> Self {
        Self { _marker: core::marker::PhantomData }
    }

    /// The semiring.
    #[verifier::when_used_as_spec(spec_new)]
    pub fn new() -> (r: Self)
        ensures
            r == Self::spec_new(),
    {
        Self { _marker: core::marker::PhantomData }
    }
}

impl<D1, D2> Semiring<D1, D2> for MinTimesSemiring<D1, D2> where
    Self: Clone,
    MinMonoid<D1>: Monoid<D1>,
    Multiplication<D1>: BinaryOperator<D1, D2, Output = D1>,
 {
    type Output = D1;

    open spec fn null(&self) -> D1 {
        MinMonoid::<D1>::new().unit()
    }

    open spec fn add_defined(&self, lhs: D1, rhs: D1) -> bool {
        MinMonoid::<D1>::new().defined(lhs, rhs)
    }

    open spec fn sum(&self, lhs: D1, rhs: D1) -> D1 {
        MinMonoid::<D1>::new().combine(lhs, rhs)
    }

    open spec fn mult_defined(&self, lhs: D1, rhs: D2) -> bool {
        Multiplication::<D1>::new().defined(lhs, rhs)
    }

    open spec fn product(&self, lhs: D1, rhs: D2) -> D1 {
        Multiplication::<D1>::new().apply(lhs, rhs)
    }

    proof fn zero_law(&self, x: D1) {
        MinMonoid::<D1>::new().identity_law(x);
    }

    fn add(&self, lhs: D1, rhs: D1) -> (out: D1) {
        MinMonoid::new().operate(lhs, rhs)
    }

    fn mult(&self, lhs: D1, rhs: D2) -> (out: D1) {
        Multiplication::new().op(lhs, rhs)
    }

    fn zero(&self) -> (out: D1) {
        MinMonoid::new().identity()
    }
}

/// Minimum over maximum.
pub struct MinMaxSemiring<D1, D2 = D1> {
    _marker: core::marker::PhantomData<(D1, D2)>,
}

impl<D1, D2> Clone for MinMaxSemiring<D1, D2> {
    fn clone(&self) -> (r: Self)
        ensures
            r == *self,
    {
        Self { _marker: core::marker::PhantomData }
    }
}

impl<D1, D2> Copy for MinMaxSemiring<D1, D2> {
}

impl<D1, D2> MinMaxSemiring<D1, D2> {
    /// The semiring, as a value of specifications.
    pub closed spec fn spec_new() -> Self {
        Self { _marker: core::marker::PhantomData }
    }

    /// The semiring.
    #[verifier::when_used_as_spec(spec_new)]
    pub fn new() -> (r: Self)
        ensures
            r == Self::spec_new(),
    {
        Self { _marker: core::marker::PhantomData }
    }
}

impl<D1, D2> Semiring<D1, D2> for MinMaxSemiring<D1, D2> where
    Self: Clone,
    MinMonoid<D1>: Monoid<D1>,
    Maximum<D1>: BinaryOperator<D1, D2, Output = D1>,
 {
    type Output = D1;

    open spec fn null(&self) -> D1 {
        MinMonoid::<D1>::new().unit()
    }

    open spec fn add_defined(&self, lhs: D1, rhs: D1) -> bool {
        MinMonoid::<D1>::new().defined(lhs, rhs)
    }

    open spec fn sum(&self, lhs: D1, rhs: D1) -> D1 {
        MinMonoid::<D1>::new().combine(lhs, rhs)
    }

    open spec fn mult_defined(&self, lhs: D1, rhs: D2) -> bool {
        Maximum::<D1>::new().defined(lhs, rhs)
    }

    open spec fn product(&self, lhs: D1, rhs: D2) -> D1 {
        Maximum::<D1>::new().apply(lhs, rhs)
    }

    proof fn zero_law(&self, x: D1) {
        MinMonoid::<D1>::new().identity_law(x);
    }

    fn add(&self, lhs: D1, rhs: D1) -> (out: D1) {
        MinMonoid::new().operate(lhs, rhs)
    }

    fn mult(&self, lhs: D1, rhs: D2) -> (out: D1) {
        Maximum::new().op(lhs, rhs)
    }

    fn zero(&self) -> (out: D1) {
        MinMonoid::new().identity()
    }
}

/// Maximum over minimum.
pub struct MaxMinSemiring<D1, D2 = D1> {
    _marker: core::marker::PhantomData<(D1, D2)>,
}

impl<D1, D2> Clone for MaxMinSemiring<D1, D2> {
    fn clone(&self) -> (r: Self)
        ensures
            r == *self,
    {
        Self { _marker: core::marker::PhantomData }
    }
}

impl<D1, D2> Copy for MaxMinSemiring<D1, D2> {
}

impl<D1, D2> MaxMinSemiring<D1, D2> {
    /// The semiring, as a value of specifications.
    pub closed spec fn spec_new() -> Self {
        Self { _marker: core::marker::PhantomData }
    }

    /// The semiring.
    #[verifier::when_used_as_spec(spec_new)]
    pub fn new() -> (r: Self)
        ensures
            r == Self::spec_new(),
    {
        Self { _marker: core::marker::PhantomData }
    }
}

impl<D1, D2> Semiring<D1, D2> for MaxMinSemiring<D1, D2> where
    Self: Clone,
    MaxMonoid<D1>: Monoid<D1>,
    Minimum<D1>: BinaryOperator<D1, D2, Output = D1>,
 {
    type Output = D1;

    open spec fn null(&self) -> D1 {
        MaxMonoid::<D1>::new().unit()
    }

    open spec fn add_defined(&self, lhs: D1, rhs: D1) -> bool {
        MaxMonoid::<D1>::new().defined(lhs, rhs)
    }

    open spec fn sum(&self, lhs: D1, rhs: D1) -> D1 {
        MaxMonoid::<D1>::new().combine(lhs, rhs)
    }

    open spec fn mult_defined(&self, lhs: D1, rhs: D2) -> bool {
        Minimum::<D1>::new().defined(lhs, rhs)
    }

    open spec fn product(&self, lhs: D1, rhs: D2) -> D1 {
        Minimum::<D1>::new().apply(lhs, rhs)
    }

    proof fn zero_law(&self, x: D1) {
        MaxMonoid::<D1>::new().identity_law(x);
    }

    fn add(&self, lhs: D1, rhs: D1) -> (out: D1) {
        MaxMonoid::new().operate(lhs, rhs)
    }

    fn mult(&self, lhs: D1, rhs: D2) -> (out: D1) {
        Minimum::new().op(lhs, rhs)
    }

    fn zero(&self) -> (out: D1) {
        MaxMonoid::new().identity()
    }
}

/// Maximum over multiplication.
pub struct MaxTimesSemiring<D1, D2 = D1> {
    _marker: core::marker::PhantomData<(D1, D2)>,
}

impl<D1, D2> Clone for MaxTimesSemiring<D1, D2> {
    fn clone(&self) -> (r: Self)
        ensures
            r == *self,
    {
        Self { _marker: core::marker::PhantomData }
    }
}

impl<D1, D2> Copy for MaxTimesSemiring<D1, D2> {
}

impl<D1, D2> MaxTimesSemiring<D1, D2> {
    /// The semiring, as a value of specifications.
    pub closed spec fn spec_new() -> Self {
        Self { _marker: core::marker::PhantomData }
    }

    /// The semiring.
    #[verifier::when_used_as_spec(spec_new)]
    pub fn new() -> (r: Self)
        ensures
            r == Self::spec_new(),
    {
        Self { _marker: core::marker::PhantomData }
    }
}

impl<D1, D2> Semiring<D1, D2> for MaxTimesSemiring<D1, D2> where
    Self: Clone,
    MaxMonoid<D1>: Monoid<D1>,
    Multiplication<D1>: BinaryOperator<D1, D2, Output = D1>,
 {
    type Output = D1;

    open spec fn null(&self) -> D1 {
        MaxMonoid::<D1>::new().unit()
    }

    open spec fn add_defined(&self, lhs: D1, rhs: D1) -> bool {
        MaxMonoid::<D1>::new().defined(lhs, rhs)
    }

    open spec fn sum(&self, lhs: D1, rhs: D1) -> D1 {
        MaxMonoid::<D1>::new().combine(lhs, rhs)
    }

    open spec fn mult_defined(&self, lhs: D1, rhs: D2) -> bool {
        Multiplication::<D1>::new().defined(lhs, rhs)
    }

    open spec fn product(&self, lhs: D1, rhs: D2) -> D1 {
        Multiplication::<D1>::new().apply(lhs, rhs)
    }

    proof fn zero_law(&self, x: D1) {
        MaxMonoid::<D1>::new().identity_law(x);
    }

    fn add(&self, lhs: D1, rhs: D1) -> (out: D1) {
        MaxMonoid::new().operate(lhs, rhs)
    }

    fn mult(&self, lhs: D1, rhs: D2) -> (out: D1) {
        Multiplication::new().op(lhs, rhs)
    }

    fn zero(&self) -> (out: D1) {
        MaxMonoid::new().identity()
    }
}

/// Addition over minimum.
pub struct PlusMinSemiring<D1, D2 = D1> {
    _marker: core::marker::PhantomData<(D1, D2)>,
}

impl<D1, D2> Clone for PlusMinSemiring<D1, D2> {
    fn clone(&self) -> (r: Self)
        ensures
            r == *self,
    {
        Self { _marker: core::marker::PhantomData }
    }
}

impl<D1, D2> Copy for PlusMinSemiring<D1, D2> {
}

impl<D1, D2> PlusMinSemiring<D1, D2> {
    /// The semiring, as a value of specifications.
    pub closed spec fn spec_new() -> Self {
        Self { _marker: core::marker::PhantomData }
    }

    /// The semiring.
    #[verifier::when_used_as_spec(spec_new)]
    pub fn new() -> (r: Self)
        ensures
            r == Self::spec_new(),
    {
        Self { _marker: core::marker::PhantomData }
    }
}

impl<D1, D2> Semiring<D1, D2> for PlusMinSemiring<D1, D2> where
    Self: Clone,
    PlusMonoid<D1>: Monoid<D1>,
    Minimum<D1>: BinaryOperator<D1, D2, Output = D1>,
 {
    type Output = D1;

    open spec fn null(&self) -> D1 {
        PlusMonoid::<D1>::new().unit()
    }

    open spec fn add_defined(&self, lhs: D1, rhs: D1) -> bool {
        PlusMonoid::<D1>::new().defined(lhs, rhs)
    }

    open spec fn sum(&self, lhs: D1, rhs: D1) -> D1 {
        PlusMonoid::<D1>::new().combine(lhs, rhs)
    }

    open spec fn mult_defined(&self, lhs: D1, rhs: D2) -> bool {
        Minimum::<D1>::new().defined(lhs, rhs)
    }

    open spec fn product(&self, lhs: D1, rhs: D2) -> D1 {
        Minimum::<D1>::new().apply(lhs, rhs)
    }

    proof fn zero_law(&self, x: D1) {
        PlusMonoid::<D1>::new().identity_law(x);
    }

    fn add(&self, lhs: D1, rhs: D1) -> (out: D1) {
        PlusMonoid::new().operate(lhs, rhs)
    }

    fn mult(&self, lhs: D1, rhs: D2) -> (out: D1) {
        Minimum::new().op(lhs, rhs)
    }

    fn zero(&self) -> (out: D1) {
        PlusMonoid::new().identity()
    }
}

/// Logical or over logical and: reachability.
pub struct LogicalSemiring {
    _marker: core::marker::PhantomData<()>,
}

impl Clone for LogicalSemiring {
    fn clone(&self) -> (r: Self)
        ensures
            r == *self,
    {
        Self { _marker: core::marker::PhantomData }
    }
}

impl Copy for LogicalSemiring {
}

impl LogicalSemiring {
    /// The semiring, as a value of specifications.
    pub closed spec fn spec_new() -> Self {
        Self { _marker: core::marker::PhantomData }
    }

    /// The semiring.
    #[verifier::when_used_as_spec(spec_new)]
    pub fn new() -> (r: Self)
        ensures
            r == Self::spec_new(),
    {
        Self { _marker: core::marker::PhantomData }
    }
}

impl Semiring<bool> for LogicalSemiring where
    Self: Clone,
    LogicalOrMonoid: Monoid<bool>,
    LogicalAnd: BinaryOperator<bool, Output = bool>,
 {
    type Output = bool;

    open spec fn null(&self) -> bool {
        LogicalOrMonoid::new().unit()
    }

    open spec fn add_defined(&self, lhs: bool, rhs: bool) -> bool {
        LogicalOrMonoid::new().defined(lhs, rhs)
    }

    open spec fn sum(&self, lhs: bool, rhs: bool) -> bool {
        LogicalOrMonoid::new().combine(lhs, rhs)
    }

    open spec fn mult_defined(&self, lhs: bool, rhs: bool) -> bool {
        LogicalAnd::new().defined(lhs, rhs)
    }

    open spec fn product(&self, lhs: bool, rhs: bool) -> bool {
        LogicalAnd::new().apply(lhs, rhs)
    }

    proof fn zero_law(&self, x: bool) {
        LogicalOrMonoid::new().identity_law(x);
    }

    fn add(&self, lhs: bool, rhs: bool) -> (out: bool) {
        LogicalOrMonoid::new().operate(lhs, rhs)
    }

    fn mult(&self, lhs: bool, rhs: bool) -> (out: bool) {
        LogicalAnd::new().op(lhs, rhs)
    }

    fn zero(&self) -> (out: bool) {
        LogicalOrMonoid::new().identity()
    }
}

/// Logical and over logical or.
pub struct AndOrSemiring {
    _marker: core::marker::PhantomData<()>,
}

impl Clone for AndOrSemiring {
    fn clone(&self) -> (r: Self)
        ensures
            r == *self,
    {
        Self { _marker: core::marker::PhantomData }
    }
}

impl Copy for AndOrSemiring {
}

impl AndOrSemiring {
    /// The semiring, as a value of specifications.
    pub closed spec fn spec_new() -> Self {
        Self { _marker: core::marker::PhantomData }
    }

    /// The semiring.
    #[verifier::when_used_as_spec(spec_new)]
    pub fn new() -> (r: Self)
        ensures
            r == Self::spec_new(),
    {
        Self { _marker: core::marker::PhantomData }
    }
}

impl Semiring<bool> for AndOrSemiring where
    Self: Clone,
    LogicalAndMonoid: Monoid<bool>,
    LogicalOr: BinaryOperator<bool, Output = bool>,
 {
    type Output = bool;

    open spec fn null(&self) -> bool {
        LogicalAndMonoid::new().unit()
    }

    open spec fn add_defined(&self, lhs: bool, rhs: bool) -> bool {
        LogicalAndMonoid::new().defined(lhs, rhs)
    }

    open spec fn sum(&self, lhs: bool, rhs: bool) -> bool {
        LogicalAndMonoid::new().combine(lhs, rhs)
    }

    open spec fn mult_defined(&self, lhs: bool, rhs: bool) -> bool {
        LogicalOr::new().defined(lhs, rhs)
    }

    open spec fn product(&self, lhs: bool, rhs: bool) -> bool {
        LogicalOr::new().apply(lhs, rhs)
    }

    proof fn zero_law(&self, x: bool) {
        LogicalAndMonoid::new().identity_law(x);
    }

    fn add(&self, lhs: bool, rhs: bool) -> (out: bool) {
        LogicalAndMonoid::new().operate(lhs, rhs)
    }

    fn mult(&self, lhs: bool, rhs: bool) -> (out: bool) {
        LogicalOr::new().op(lhs, rhs)
    }

    fn zero(&self) -> (out: bool) {
        LogicalAndMonoid::new().identity()
    }
}

/// Logical exclusive or over logical and.
pub struct XorAndSemiring {
    _marker: core::marker::PhantomData<()>,
}

impl Clone for XorAndSemiring {
    fn clone(&self) -> (r: Self)
        ensures
            r == *self,
    {
        Self { _marker: core::marker::PhantomData }
    }
}

impl Copy for XorAndSemiring {
}

impl XorAndSemiring {
    /// The semiring, as a value of specifications.
    pub closed spec fn spec_new() -> Self {
        Self { _marker: core::marker::PhantomData }
    }

    /// The semiring.
    #[verifier::when_used_as_spec(spec_new)]
    pub fn new() -> (r: Self)
        ensures
            r == Self::spec_new(),
    {
        Self { _marker: core::marker::PhantomData }
    }
}

impl Semiring<bool> for XorAndSemiring where
    Self: Clone,
    LogicalXorMonoid: Monoid<bool>,
    LogicalAnd: BinaryOperator<bool, Output = bool>,
 {
    type Output = bool;

    open spec fn null(&self) -> bool {
        LogicalXorMonoid::new().unit()
    }

    open spec fn add_defined(&self, lhs: bool, rhs: bool) -> bool {
        LogicalXorMonoid::new().defined(lhs, rhs)
    }

    open spec fn sum(&self, lhs: bool, rhs: bool) -> bool {
        LogicalXorMonoid::new().combine(lhs, rhs)
    }

    open spec fn mult_defined(&self, lhs: bool, rhs: bool) -> bool {
        LogicalAnd::new().defined(lhs, rhs)
    }

    open spec fn product(&self, lhs: bool, rhs: bool) -> bool {
        LogicalAnd::new().apply(lhs, rhs)
    }

    proof fn zero_law(&self, x: bool) {
        LogicalXorMonoid::new().identity_law(x);
    }

    fn add(&self, lhs: bool, rhs: bool) -> (out: bool) {
        LogicalXorMonoid::new().operate(lhs, rhs)
    }

    fn mult(&self, lhs: bool, rhs: bool) -> (out: bool) {
        LogicalAnd::new().op(lhs, rhs)
    }

    fn zero(&self) -> (out: bool) {
        LogicalXorMonoid::new().identity()
    }
}

/// Logical exclusive or over logical or.
pub struct XorOrSemiring {
    _marker: core::marker::PhantomData<()>,
}

impl Clone for XorOrSemiring {
    fn clone(&self) -> (r: Self)
        ensures
            r == *self,
    {
        Self { _marker: core::marker::PhantomData }
    }
}

impl Copy for XorOrSemiring {
}

impl XorOrSemiring {
    /// The semiring, as a value of specifications.
    pub closed spec fn spec_new() -> Self {
        Self { _marker: core::marker::PhantomData }
    }

    /// The semiring.
    #[verifier::when_used_as_spec(spec_new)]
    pub fn new() -> (r: Self)
        ensures
            r == Self::spec_new(),
    {
        Self { _marker: core::marker::PhantomData }
    }
}

impl Semiring<bool> for XorOrSemiring where
    Self: Clone,
    LogicalXorMonoid: Monoid<bool>,
    LogicalOr: BinaryOperator<bool, Output = bool>,
 {
    type Output = bool;

    open spec fn null(&self) -> bool {
        LogicalXorMonoid::new().unit()
    }

    open spec fn add_defined(&self, lhs: bool, rhs: bool) -> bool {
        LogicalXorMonoid::new().defined(lhs, rhs)
    }

    open spec fn sum(&self, lhs: bool, rhs: bool) -> bool {
        LogicalXorMonoid::new().combine(lhs, rhs)
    }

    open spec fn mult_defined(&self, lhs: bool, rhs: bool) -> bool {
        LogicalOr::new().defined(lhs, rhs)
    }

    open spec fn product(&self, lhs: bool, rhs: bool) -> bool {
        LogicalOr::new().apply(lhs, rhs)
    }

    proof fn zero_law(&self, x: bool) {
        LogicalXorMonoid::new().identity_law(x);
    }

    fn add(&self, lhs: bool, rhs: bool) -> (out: bool) {
        LogicalXorMonoid::new().operate(lhs, rhs)
    }

    fn mult(&self, lhs: bool, rhs: bool) -> (out: bool) {
        LogicalOr::new().op(lhs, rhs)
    }

    fn zero(&self) -> (out: bool) {
        LogicalXorMonoid::new().identity()
    }
}

/// Minimum over the first operand: the value travels unchanged.
pub struct MinFirstSemiring<D1, D2 = D1> {
    _marker: core::marker::PhantomData<(D1, D2)>,
}

impl<D1, D2> Clone for MinFirstSemiring<D1, D2> {
    fn clone(&self) -> (r: Self)
        ensures
            r == *self,
    {
        Self { _marker: core::marker::PhantomData }
    }
}

impl<D1, D2> Copy for MinFirstSemiring<D1, D2> {
}

impl<D1, D2> MinFirstSemiring<D1, D2> {
    /// The semiring, as a value of specifications.
    pub closed spec fn spec_new() -> Self {
        Self { _marker: core::marker::PhantomData }
    }

    /// The semiring.
    #[verifier::when_used_as_spec(spec_new)]
    pub fn new() -> (r: Self)
        ensures
            r == Self::spec_new(),
    {
        Self { _marker: core::marker::PhantomData }
    }
}

impl<D1, D2> Semiring<D1, D2> for MinFirstSemiring<D1, D2> where
    Self: Clone,
    MinMonoid<D1>: Monoid<D1>,
    First<D1>: BinaryOperator<D1, D2, Output = D1>,
 {
    type Output = D1;

    open spec fn null(&self) -> D1 {
        MinMonoid::<D1>::new().unit()
    }

    open spec fn add_defined(&self, lhs: D1, rhs: D1) -> bool {
        MinMonoid::<D1>::new().defined(lhs, rhs)
    }

    open spec fn sum(&self, lhs: D1, rhs: D1) -> D1 {
        MinMonoid::<D1>::new().combine(lhs, rhs)
    }

    open spec fn mult_defined(&self, lhs: D1, rhs: D2) -> bool {
        First::<D1>::new().defined(lhs, rhs)
    }

    open spec fn product(&self, lhs: D1, rhs: D2) -> D1 {
        First::<D1>::new().apply(lhs, rhs)
    }

    proof fn zero_law(&self, x: D1) {
        MinMonoid::<D1>::new().identity_law(x);
    }

    fn add(&self, lhs: D1, rhs: D1) -> (out: D1) {
        MinMonoid::new().operate(lhs, rhs)
    }

    fn mult(&self, lhs: D1, rhs: D2) -> (out: D1) {
        First::new().op(lhs, rhs)
    }

    fn zero(&self) -> (out: D1) {
        MinMonoid::new().identity()
    }
}

/// Minimum over the second operand.
pub struct MinSecondSemiring<D1, D2 = D1> {
    _marker: core::marker::PhantomData<(D1, D2)>,
}

impl<D1, D2> Clone for MinSecondSemiring<D1, D2> {
    fn clone(&self) -> (r: Self)
        ensures
            r == *self,
    {
        Self { _marker: core::marker::PhantomData }
    }
}

impl<D1, D2> Copy for MinSecondSemiring<D1, D2> {
}

impl<D1, D2> MinSecondSemiring<D1, D2> {
    /// The semiring, as a value of specifications.
    pub closed spec fn spec_new() -> Self {
        Self { _marker: core::marker::PhantomData }
    }

    /// The semiring.
    #[verifier::when_used_as_spec(spec_new)]
    pub fn new() -> (r: Self)
        ensures
            r == Self::spec_new(),
    {
        Self { _marker: core::marker::PhantomData }
    }
}

impl<D1, D2> Semiring<D1, D2> for MinSecondSemiring<D1, D2> where
    Self: Clone,
    MinMonoid<D1>: Monoid<D1>,
    Second<D1>: BinaryOperator<D1, D2, Output = D1>,
 {
    type Output = D1;

    open spec fn null(&self) -> D1 {
        MinMonoid::<D1>::new().unit()
    }

    open spec fn add_defined(&self, lhs: D1, rhs: D1) -> bool {
        MinMonoid::<D1>::new().defined(lhs, rhs)
    }

    open spec fn sum(&self, lhs: D1, rhs: D1) -> D1 {
        MinMonoid::<D1>::new().combine(lhs, rhs)
    }

    open spec fn mult_defined(&self, lhs: D1, rhs: D2) -> bool {
        Second::<D1>::new().defined(lhs, rhs)
    }

    open spec fn product(&self, lhs: D1, rhs: D2) -> D1 {
        Second::<D1>::new().apply(lhs, rhs)
    }

    proof fn zero_law(&self, x: D1) {
        MinMonoid::<D1>::new().identity_law(x);
    }

    fn add(&self, lhs: D1, rhs: D1) -> (out: D1) {
        MinMonoid::new().operate(lhs, rhs)
    }

    fn mult(&self, lhs: D1, rhs: D2) -> (out: D1) {
        Second::new().op(lhs, rhs)
    }

    fn zero(&self) -> (out: D1) {
        MinMonoid::new().identity()
    }
}

/// Maximum over the first operand.
pub struct MaxFirstSemiring<D1, D2 = D1> {
    _marker: core::marker::PhantomData<(D1, D2)>,
}

impl<D1, D2> Clone for MaxFirstSemiring<D1, D2> {
    fn clone(&self) -> (r: Self)
        ensures
            r == *self,
    {
        Self { _marker: core::marker::PhantomData }
    }
}

impl<D1, D2> Copy for MaxFirstSemiring<D1, D2> {
}

impl<D1, D2> MaxFirstSemiring<D1, D2> {
    /// The semiring, as a value of specifications.
    pub closed spec fn spec_new() -> Self {
        Self { _marker: core::marker::PhantomData }
    }

    /// The semiring.
    #[verifier::when_used_as_spec(spec_new)]
    pub fn new() -> (r: Self)
        ensures
            r == Self::spec_new(),
    {
        Self { _marker: core::marker::PhantomData }
    }
}

impl<D1, D2> Semiring<D1, D2> for MaxFirstSemiring<D1, D2> where
    Self: Clone,
    MaxMonoid<D1>: Monoid<D1>,
    First<D1>: BinaryOperator<D1, D2, Output = D1>,
 {
    type Output = D1;

    open spec fn null(&self) -> D1 {
        MaxMonoid::<D1>::new().unit()
    }

    open spec fn add_defined(&self, lhs: D1, rhs: D1) -> bool {
        MaxMonoid::<D1>::new().defined(lhs, rhs)
    }

    open spec fn sum(&self, lhs: D1, rhs: D1) -> D1 {
        MaxMonoid::<D1>::new().combine(lhs, rhs)
    }

    open spec fn mult_defined(&self, lhs: D1, rhs: D2) -> bool {
        First::<D1>::new().defined(lhs, rhs)
    }

    open spec fn product(&self, lhs: D1, rhs: D2) -> D1 {
        First::<D1>::new().apply(lhs, rhs)
    }

    proof fn zero_law(&self, x: D1) {
        MaxMonoid::<D1>::new().identity_law(x);
    }

    fn add(&self, lhs: D1, rhs: D1) -> (out: D1) {
        MaxMonoid::new().operate(lhs, rhs)
    }

    fn mult(&self, lhs: D1, rhs: D2) -> (out: D1) {
        First::new().op(lhs, rhs)
    }

    fn zero(&self) -> (out: D1) {
        MaxMonoid::new().identity()
    }
}

/// Maximum over the second operand.
pub struct MaxSecondSemiring<D1, D2 = D1> {
    _marker: core::marker::PhantomData<(D1, D2)>,
}

impl<D1, D2> Clone for MaxSecondSemiring<D1, D2> {
    fn clone(&self) -> (r: Self)
        ensures
            r == *self,
    {
        Self { _marker: core::marker::PhantomData }
    }
}

impl<D1, D2> Copy for MaxSecondSemiring<D1, D2> {
}

impl<D1, D2> MaxSecondSemiring<D1, D2> {
    /// The semiring, as a value of specifications.
    pub closed spec fn spec_new() -> Self {
        Self { _marker: core::marker::PhantomData }
    }

    /// The semiring.
    #[verifier::when_used_as_spec(spec_new)]
    pub fn new() -> (r: Self)
        ensures
            r == Self::spec_new(),
    {
        Self { _marker: core::marker::PhantomData }
    }
}

impl<D1, D2> Semiring<D1, D2> for MaxSecondSemiring<D1, D2> where
    Self: Clone,
    MaxMonoid<D1>: Monoid<D1>,
    Second<D1>: BinaryOperator<D1, D2, Output = D1>,
 {
    type Output = D1;

    open spec fn null(&self) -> D1 {
        MaxMonoid::<D1>::new().unit()
    }

    open spec fn add_defined(&self, lhs: D1, rhs: D1) -> bool {
        MaxMonoid::<D1>::new().defined(lhs, rhs)
    }

    open spec fn sum(&self, lhs: D1, rhs: D1) -> D1 {
        MaxMonoid::<D1>::new().combine(lhs, rhs)
    }

    open spec fn mult_defined(&self, lhs: D1, rhs: D2) -> bool {
        Second::<D1>::new().defined(lhs, rhs)
    }

    open spec fn product(&self, lhs: D1, rhs: D2) -> D1 {
        Second::<D1>::new().apply(lhs, rhs)
    }

    proof fn zero_law(&self, x: D1) {
        MaxMonoid::<D1>::new().identity_law(x);
    }

    fn add(&self, lhs: D1, rhs: D1) -> (out: D1) {
        MaxMonoid::new().operate(lhs, rhs)
    }

    fn mult(&self, lhs: D1, rhs: D2) -> (out: D1) {
        Second::new().op(lhs, rhs)
    }

    fn zero(&self) -> (out: D1) {
        MaxMonoid::new().identity()
    }
}

/// In the min-plus semiring the zero is the greatest value of the domain,
/// and adding it to any `x` gives `x`.
pub proof fn lemma_min_plus_zero<D: Numeric>(x: D)
    ensures
        MinPlusSemiring::<D>::new().null() == D::highest_spec(),
        MinPlusSemiring::<D>::new().add_defined(MinPlusSemiring::<D>::new().null(), x),
        MinPlusSemiring::<D>::new().sum(MinPlusSemiring::<D>::new().null(), x) == x,
{
    MinPlusSemiring::<D>::new().zero_law(x);
}

} // verus!
