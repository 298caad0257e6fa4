use vstd::prelude::*;
use vstd::std_specs::cmp::{PartialEqIs, PartialEqSpec, PartialOrdIs, PartialOrdSpec};
use vstd::std_specs::ops::{
    AddSpec, BitAndSpec, BitOrSpec, BitXorSpec, DivSpec, MulSpec, NotSpec, SubSpec,
};
use core::ops::Not;
use crate::algebra::BinaryOperator;

verus! {

/// Logical or.
pub struct LogicalOr {
    _marker: core::marker::PhantomData<()>,
}

impl Clone for LogicalOr {
    fn clone(&self) -> (r: Self)
        ensures
            r == *self,
    {
        Self { _marker: core::marker::PhantomData }
    }
}

impl Copy for LogicalOr {
}

impl LogicalOr {
    /// The operator, as a value of specifications.
    pub closed spec fn spec_new() -> Self {
        Self { _marker: core::marker::PhantomData }
    }

    /// The operator.
    #[verifier::when_used_as_spec(spec_new)]
    pub fn new() -> (r: Self)
        ensures
            r == Self::spec_new(),
    {
        Self { _marker: core::marker::PhantomData }
    }
}

impl BinaryOperator<bool> for LogicalOr {
    type Output = bool;

    open spec fn defined(&self, lhs: bool, rhs: bool) -> bool {
        true
    }

    open spec fn apply(&self, lhs: bool, rhs: bool) -> bool {
        lhs || rhs
    }

    fn op(&self, lhs: bool, rhs: bool) -> (out: bool) {
        lhs || rhs
    }
}

/// Logical and.
pub struct LogicalAnd {
    _marker: core::marker::PhantomData<()>,
}

impl Clone for LogicalAnd {
    fn clone(&self) -> (r: Self)
        ensures
            r == *self,
    {
        Self { _marker: core::marker::PhantomData }
    }
}

impl Copy for LogicalAnd {
}

impl LogicalAnd {
    /// The operator, as a value of specifications.
    pub closed spec fn spec_new() -> Self {
        Self { _marker: core::marker::PhantomData }
    }

    /// The operator.
    #[verifier::when_used_as_spec(spec_new)]
    pub fn new() -> (r: Self)
        ensures
            r == Self::spec_new(),
    {
        Self { _marker: core::marker::PhantomData }
    }
}

impl BinaryOperator<bool> for LogicalAnd {
    type Output = bool;

    open spec fn defined(&self, lhs: bool, rhs: bool) -> bool {
        true
    }

    open spec fn apply(&self, lhs: bool, rhs: bool) -> bool {
        lhs && rhs
    }

    fn op(&self, lhs: bool, rhs: bool) -> (out: bool) {
        lhs && rhs
    }
}

/// Logical exclusive or.
pub struct LogicalXor {
    _marker: core::marker::PhantomData<()>,
}

impl Clone for LogicalXor {
    fn clone(&self) -> (r: Self)
        ensures
            r == *self,
    {
        Self { _marker: core::marker::PhantomData }
    }
}

impl Copy for LogicalXor {
}

impl LogicalXor {
    /// The operator, as a value of specifications.
    pub closed spec fn spec_new() -> Self {
        Self { _marker: core::marker::PhantomData }
    }

    /// The operator.
    #[verifier::when_used_as_spec(spec_new)]
    pub fn new() -> (r: Self)
        ensures
            r == Self::spec_new(),
    {
        Self { _marker: core::marker::PhantomData }
    }
}

impl BinaryOperator<bool> for LogicalXor {
    type Output = bool;

    open spec fn defined(&self, lhs: bool, rhs: bool) -> bool {
        true
    }

    open spec fn apply(&self, lhs: bool, rhs: bool) -> bool {
        lhs != rhs
    }

    fn op(&self, lhs: bool, rhs: bool) -> (out: bool) {
        lhs ^ rhs
    }
}

/// Logical equivalence, the negation of exclusive or.
pub struct LogicalXnor {
    _marker: core::marker::PhantomData<()>,
}

impl Clone for LogicalXnor {
    fn clone(&self) -> (r: Self)
        ensures
            r == *self,
    {
        Self { _marker: core::marker::PhantomData }
    }
}

impl Copy for LogicalXnor {
}

impl LogicalXnor {
    /// The operator, as a value of specifications.
    pub closed spec fn spec_new() -> Self {
        Self { _marker: core::marker::PhantomData }
    }

    /// The operator.
    #[verifier::when_used_as_spec(spec_new)]
    pub fn new() -> (r: Self)
        ensures
            r == Self::spec_new(),
    {
        Self { _marker: core::marker::PhantomData }
    }
}

impl BinaryOperator<bool> for LogicalXnor {
    type Output = bool;

    open spec fn defined(&self, lhs: bool, rhs: bool) -> bool {
        true
    }

    open spec fn apply(&self, lhs: bool, rhs: bool) -> bool {
        lhs == rhs
    }

    fn op(&self, lhs: bool, rhs: bool) -> (out: bool) {
        !(lhs ^ rhs)
    }
}

/// Bitwise or.
pub struct BitwiseOr<D1, D2 = D1> {
    _marker: core::marker::PhantomData<(D1, D2)>,
}

impl<D1, D2> Clone for BitwiseOr<D1, D2> {
    fn clone(&self) -> (r: Self)
        ensures
            r == *self,
    {
        Self { _marker: core::marker::PhantomData }
    }
}

impl<D1, D2> Copy for BitwiseOr<D1, D2> {
}

impl<D1, D2> BitwiseOr<D1, D2> {
    /// The operator, as a value of specifications.
    pub closed spec fn spec_new() -> Self {
        Self { _marker: core::marker::PhantomData }
    }

    /// The operator.
    #[verifier::when_used_as_spec(spec_new)]
    pub fn new() -> (r: Self)
        ensures
            r == Self::spec_new(),
    {
        Self { _marker: core::marker::PhantomData }
    }
}

impl<D1, D2> BinaryOperator<D1, D2> for BitwiseOr<D1, D2> where
    D1: core::ops::BitOr<D2, Output = D1>,
{
    type Output = D1;

    open spec fn defined(&self, lhs: D1, rhs: D2) -> bool {
        D1::obeys_bitor_spec() && lhs.bitor_req(rhs)
    }

    open spec fn apply(&self, lhs: D1, rhs: D2) -> D1 {
        lhs.bitor_spec(rhs)
    }

    fn op(&self, lhs: D1, rhs: D2) -> (out: D1) {
        lhs | rhs
    }
}

/// Bitwise and.
pub struct BitwiseAnd<D1, D2 = D1> {
    _marker: core::marker::PhantomData<(D1, D2)>,
}

impl<D1, D2> Clone for BitwiseAnd<D1, D2> {
    fn clone(&self) -> (r: Self)
        ensures
            r == *self,
    {
        Self { _marker: core::marker::PhantomData }
    }
}

impl<D1, D2> Copy for BitwiseAnd<D1, D2> {
}

impl<D1, D2> BitwiseAnd<D1, D2> {
    /// The operator, as a value of specifications.
    pub closed spec fn spec_new() -> Self {
        Self { _marker: core::marker::PhantomData }
    }

    /// The operator.
    #[verifier::when_used_as_spec(spec_new)]
    pub fn new() -> (r: Self)
        ensures
            r == Self::spec_new(),
    {
        Self { _marker: core::marker::PhantomData }
    }
}

impl<D1, D2> BinaryOperator<D1, D2> for BitwiseAnd<D1, D2> where
    D1: core::ops::BitAnd<D2, Output = D1>,
{
    type Output = D1;

    open spec fn defined(&self, lhs: D1, rhs: D2) -> bool {
        D1::obeys_bitand_spec() && lhs.bitand_req(rhs)
    }

    open spec fn apply(&self, lhs: D1, rhs: D2) -> D1 {
        lhs.bitand_spec(rhs)
    }

    fn op(&self, lhs: D1, rhs: D2) -> (out: D1) {
        lhs & rhs
    }
}

/// Bitwise exclusive or.
pub struct BitwiseXor<D1, D2 = D1> {
    _marker: core::marker::PhantomData<(D1, D2)>,
}

impl<D1, D2> Clone for BitwiseXor<D1, D2> {
    fn clone(&self) -> (r: Self)
        ensures
            r == *self,
    {
        Self { _marker: core::marker::PhantomData }
    }
}

impl<D1, D2> Copy for BitwiseXor<D1, D2> {
}

impl<D1, D2> BitwiseXor<D1, D2> {
    /// The operator, as a value of specifications.
    pub closed spec fn spec_new() -> Self {
        Self { _marker: core::marker::PhantomData }
    }

    /// The operator.
    #[verifier::when_used_as_spec(spec_new)]
    pub fn new() -> (r: Self)
        ensures
            r == Self::spec_new(),
    {
        Self { _marker: core::marker::PhantomData }
    }
}

impl<D1, D2> BinaryOperator<D1, D2> for BitwiseXor<D1, D2> where
    D1: core::ops::BitXor<D2, Output = D1>,
{
    type Output = D1;

    open spec fn defined(&self, lhs: D1, rhs: D2) -> bool {
        D1::obeys_bitxor_spec() && lhs.bitxor_req(rhs)
    }

    open spec fn apply(&self, lhs: D1, rhs: D2) -> D1 {
        lhs.bitxor_spec(rhs)
    }

    fn op(&self, lhs: D1, rhs: D2) -> (out: D1) {
        lhs ^ rhs
    }
}

/// Bitwise equivalence, the complement of exclusive or.
pub struct BitwiseXnor<D1, D2 = D1> {
    _marker: core::marker::PhantomData<(D1, D2)>,
}

impl<D1, D2> Clone for BitwiseXnor<D1, D2> {
    fn clone(&self) -> (r: Self)
        ensures
            r == *self,
    {
        Self { _marker: core::marker::PhantomData }
    }
}

impl<D1, D2> Copy for BitwiseXnor<D1, D2> {
}

impl<D1, D2> BitwiseXnor<D1, D2> {
    /// The operator, as a value of specifications.
    pub closed spec fn spec_new() -> Self {
        Self { _marker: core::marker::PhantomData }
    }

    /// The operator.
    #[verifier::when_used_as_spec(spec_new)]
    pub fn new() -> (r: Self)
        ensures
            r == Self::spec_new(),
    {
        Self { _marker: core::marker::PhantomData }
    }
}

impl<D1, D2> BinaryOperator<D1, D2> for BitwiseXnor<D1, D2> where
    D1: core::ops::Not<Output = D1>,
    D1: core::ops::BitXor<D2, Output = D1>,
{
    type Output = D1;

    open spec fn defined(&self, lhs: D1, rhs: D2) -> bool {
        D1::obeys_bitxor_spec() && D1::obeys_not_spec() && lhs.bitxor_req(rhs) && lhs.bitxor_spec(
            rhs,
        ).not_req()
    }

    open spec fn apply(&self, lhs: D1, rhs: D2) -> D1 {
        lhs.bitxor_spec(rhs).not_spec()
    }

    fn op(&self, lhs: D1, rhs: D2) -> (out: D1) {
        (lhs ^ rhs).not()
    }
}

/// Whether the operands are equal.
pub struct Equal<D1, D2 = D1> {
    _marker: core::marker::PhantomData<(D1, D2)>,
}

impl<D1, D2> Clone for Equal<D1, D2> {
    fn clone(&self) -> (r: Self)
        ensures
            r == *self,
    {
        Self { _marker: core::marker::PhantomData }
    }
}

impl<D1, D2> Copy for Equal<D1, D2> {
}

impl<D1, D2> Equal<D1, D2> {
    /// The operator, as a value of specifications.
    pub closed spec fn spec_new() -> Self {
        Self { _marker: core::marker::PhantomData }
    }

    /// The operator.
    #[verifier::when_used_as_spec(spec_new)]
    pub fn new() -> (r: Self)
        ensures
            r == Self::spec_new(),
    {
        Self { _marker: core::marker::PhantomData }
    }
}

impl<D1, D2> BinaryOperator<D1, D2> for Equal<D1, D2> where
    D1: PartialEq<D2>,
{
    type Output = bool;

    open spec fn defined(&self, lhs: D1, rhs: D2) -> bool {
        D1::obeys_eq_spec()
    }

    open spec fn apply(&self, lhs: D1, rhs: D2) -> bool {
        lhs.is_eq(&rhs)
    }

    fn op(&self, lhs: D1, rhs: D2) -> (out: bool) {
        lhs == rhs
    }
}

/// Whether the operands differ.
pub struct NotEqual<D1, D2 = D1> {
    _marker: core::marker::PhantomData<(D1, D2)>,
}

impl<D1, D2> Clone for NotEqual<D1, D2> {
    fn clone(&self) -> (r: Self)
        ensures
            r == *self,
    {
        Self { _marker: core::marker::PhantomData }
    }
}

impl<D1, D2> Copy for NotEqual<D1, D2> {
}

impl<D1, D2> NotEqual<D1, D2> {
    /// The operator, as a value of specifications.
    pub closed spec fn spec_new() -> Self {
        Self { _marker: core::marker::PhantomData }
    }

    /// The operator.
    #[verifier::when_used_as_spec(spec_new)]
    pub fn new() -> (r: Self)
        ensures
            r == Self::spec_new(),
    {
        Self { _marker: core::marker::PhantomData }
    }
}

impl<D1, D2> BinaryOperator<D1, D2> for NotEqual<D1, D2> where
    D1: PartialEq<D2>,
{
    type Output = bool;

    open spec fn defined(&self, lhs: D1, rhs: D2) -> bool {
        D1::obeys_eq_spec()
    }

    open spec fn apply(&self, lhs: D1, rhs: D2) -> bool {
        lhs.is_ne(&rhs)
    }

    fn op(&self, lhs: D1, rhs: D2) -> (out: bool) {
        lhs != rhs
    }
}

/// Whether the first operand is greater than the second.
pub struct GreaterThan<D1, D2 = D1> {
    _marker: core::marker::PhantomData<(D1, D2)>,
}

impl<D1, D2> Clone for GreaterThan<D1, D2> {
    fn clone(&self) -> (r: Self)
        ensures
            r == *self,
    {
        Self { _marker: core::marker::PhantomData }
    }
}

impl<D1, D2> Copy for GreaterThan<D1, D2> {
}

impl<D1, D2> GreaterThan<D1, D2> {
    /// The operator, as a value of specifications.
    pub closed spec fn spec_new() -> Self {
        Self { _marker: core::marker::PhantomData }
    }

    /// The operator.
    #[verifier::when_used_as_spec(spec_new)]
    pub fn new() -> (r: Self)
        ensures
            r == Self::spec_new(),
    {
        Self { _marker: core::marker::PhantomData }
    }
}

impl<D1, D2> BinaryOperator<D1, D2> for GreaterThan<D1, D2> where
    D1: PartialOrd<D2>,
{
    type Output = bool;

    open spec fn defined(&self, lhs: D1, rhs: D2) -> bool {
        D1::obeys_partial_cmp_spec()
    }

    open spec fn apply(&self, lhs: D1, rhs: D2) -> bool {
        lhs.is_gt(&rhs)
    }

    fn op(&self, lhs: D1, rhs: D2) -> (out: bool) {
        lhs > rhs
    }
}

/// Whether the first operand is less than the second.
pub struct LessThan<D1, D2 = D1> {
    _marker: core::marker::PhantomData<(D1, D2)>,
}

impl<D1, D2> Clone for LessThan<D1, D2> {
    fn clone(&self) -> (r: Self)
        ensures
            r == *self,
    {
        Self { _marker: core::marker::PhantomData }
    }
}

impl<D1, D2> Copy for LessThan<D1, D2> {
}

impl<D1, D2> LessThan<D1, D2> {
    /// The operator, as a value of specifications.
    pub closed spec fn spec_new() -> Self {
        Self { _marker: core::marker::PhantomData }
    }

    /// The operator.
    #[verifier::when_used_as_spec(spec_new)]
    pub fn new() -> (r: Self)
        ensures
            r == Self::spec_new(),
    {
        Self { _marker: core::marker::PhantomData }
    }
}

impl<D1, D2> BinaryOperator<D1, D2> for LessThan<D1, D2> where
    D1: PartialOrd<D2>,
{
    type Output = bool;

    open spec fn defined(&self, lhs: D1, rhs: D2) -> bool {
        D1::obeys_partial_cmp_spec()
    }

    open spec fn apply(&self, lhs: D1, rhs: D2) -> bool {
        lhs.is_lt(&rhs)
    }

    fn op(&self, lhs: D1, rhs: D2) -> (out: bool) {
        lhs < rhs
    }
}

/// Whether the first operand is greater than or equal to the second.
pub struct GreaterThanOrEqual<D1, D2 = D1> {
    _marker: core::marker::PhantomData<(D1, D2)>,
}

impl<D1, D2> Clone for GreaterThanOrEqual<D1, D2> {
    fn clone(&self) -> (r: Self)
        ensures
            r == *self,
    {
        Self { _marker: core::marker::PhantomData }
    }
}

impl<D1, D2> Copy for GreaterThanOrEqual<D1, D2> {
}

impl<D1, D2> GreaterThanOrEqual<D1, D2> {
    /// The operator, as a value of specifications.
    pub closed spec fn spec_new() -> Self {
        Self { _marker: core::marker::PhantomData }
    }

    /// The operator.
    #[verifier::when_used_as_spec(spec_new)]
    pub fn new() -> (r: Self)
        ensures
            r == Self::spec_new(),
    {
        Self { _marker: core::marker::PhantomData }
    }
}

impl<D1, D2> BinaryOperator<D1, D2> for GreaterThanOrEqual<D1, D2> where
    D1: PartialOrd<D2>,
{
    type Output = bool;

    open spec fn defined(&self, lhs: D1, rhs: D2) -> bool {
        D1::obeys_partial_cmp_spec()
    }

    open spec fn apply(&self, lhs: D1, rhs: D2) -> bool {
        lhs.is_ge(&rhs)
    }

    fn op(&self, lhs: D1, rhs: D2) -> (out: bool) {
        lhs >= rhs
    }
}

/// Whether the first operand is less than or equal to the second.
pub struct LessThanOrEqual<D1, D2 = D1> {
    _marker: core::marker::PhantomData<(D1, D2)>,
}

impl<D1, D2> Clone for LessThanOrEqual<D1, D2> {
    fn clone(&self) -> (r: Self)
        ensures
            r == *self,
    {
        Self { _marker: core::marker::PhantomData }
    }
}

impl<D1, D2> Copy for LessThanOrEqual<D1, D2> {
}

impl<D1, D2> LessThanOrEqual<D1, D2> {
    /// The operator, as a value of specifications.
    pub closed spec fn spec_new() -> Self {
        Self { _marker: core::marker::PhantomData }
    }

    /// The operator.
    #[verifier::when_used_as_spec(spec_new)]
    pub fn new() -> (r: Self)
        ensures
            r == Self::spec_new(),
    {
        Self { _marker: core::marker::PhantomData }
    }
}

impl<D1, D2> BinaryOperator<D1, D2> for LessThanOrEqual<D1, D2> where
    D1: PartialOrd<D2>,
{
    type Output = bool;

    open spec fn defined(&self, lhs: D1, rhs: D2) -> bool {
        D1::obeys_partial_cmp_spec()
    }

    open spec fn apply(&self, lhs: D1, rhs: D2) -> bool {
        lhs.is_le(&rhs)
    }

    fn op(&self, lhs: D1, rhs: D2) -> (out: bool) {
        lhs <= rhs
    }
}

/// Projection on the first operand.
pub struct First<D1, D2 = D1> {
    _marker: core::marker::PhantomData<(D1, D2)>,
}

impl<D1, D2> Clone for First<D1, D2> {
    fn clone(&self) -> (r: Self)
        ensures
            r == *self,
    {
        Self { _marker: core::marker::PhantomData }
    }
}

impl<D1, D2> Copy for First<D1, D2> {
}

impl<D1, D2> First<D1, D2> {
    /// The operator, as a value of specifications.
    pub closed spec fn spec_new() -> Self {
        Self { _marker: core::marker::PhantomData }
    }

    /// The operator.
    #[verifier::when_used_as_spec(spec_new)]
    pub fn new() -> (r: Self)
        ensures
            r == Self::spec_new(),
    {
        Self { _marker: core::marker::PhantomData }
    }
}

impl<D1, D2> BinaryOperator<D1, D2> for First<D1, D2> where
    D1: Clone,
{
    type Output = D1;

    open spec fn defined(&self, lhs: D1, rhs: D2) -> bool {
        true
    }

    open spec fn apply(&self, lhs: D1, rhs: D2) -> D1 {
        lhs
    }

    fn op(&self, lhs: D1, _rhs: D2) -> (out: D1) {
        lhs
    }
}

/// Projection on the second operand.
pub struct Second<D1, D2 = D1> {
    _marker: core::marker::PhantomData<(D1, D2)>,
}

impl<D1, D2> Clone for Second<D1, D2> {
    fn clone(&self) -> (r: Self)
        ensures
            r == *self,
    {
        Self { _marker: core::marker::PhantomData }
    }
}

impl<D1, D2> Copy for Second<D1, D2> {
}

impl<D1, D2> Second<D1, D2> {
    /// The operator, as a value of specifications.
    pub closed spec fn spec_new() -> Self {
        Self { _marker: core::marker::PhantomData }
    }

    /// The operator.
    #[verifier::when_used_as_spec(spec_new)]
    pub fn new() -> (r: Self)
        ensures
            r == Self::spec_new(),
    {
        Self { _marker: core::marker::PhantomData }
    }
}

impl<D1, D2> BinaryOperator<D1, D2> for Second<D1, D2> where
    D2: Clone,
{
    type Output = D2;

    open spec fn defined(&self, lhs: D1, rhs: D2) -> bool {
        true
    }

    open spec fn apply(&self, lhs: D1, rhs: D2) -> D2 {
        rhs
    }

    fn op(&self, _lhs: D1, rhs: D2) -> (out: D2) {
        rhs
    }
}

/// The lesser operand; the second where neither is less.
pub struct Minimum<D1> {
    _marker: core::marker::PhantomData<(D1, D1)>,
}

impl<D1> Clone for Minimum<D1> {
    fn clone(&self) -> (r: Self)
        ensures
            r == *self,
    {
        Self { _marker: core::marker::PhantomData }
    }
}

impl<D1> Copy for Minimum<D1> {
}

impl<D1> Minimum<D1> {
    /// The operator, as a value of specifications.
    pub closed spec fn spec_new() -> Self {
        Self { _marker: core::marker::PhantomData }
    }

    /// The operator.
    #[verifier::when_used_as_spec(spec_new)]
    pub fn new() -> (r: Self)
        ensures
            r == Self::spec_new(),
    {
        Self { _marker: core::marker::PhantomData }
    }
}

impl<D1> BinaryOperator<D1> for Minimum<D1> where
    D1: Clone,
    D1: PartialOrd<D1>,
{
    type Output = D1;

    open spec fn defined(&self, lhs: D1, rhs: D1) -> bool {
        D1::obeys_partial_cmp_spec()
    }

    open spec fn apply(&self, lhs: D1, rhs: D1) -> D1 {
        if lhs.is_lt(&rhs) {
            lhs
        } else {
            rhs
        }
    }

    fn op(&self, lhs: D1, rhs: D1) -> (out: D1) {
        if lhs < rhs {
            lhs
        } else {
            rhs
        }
    }
}

/// The greater operand; the second where neither is greater.
pub struct Maximum<D1> {
    _marker: core::marker::PhantomData<(D1, D1)>,
}

impl<D1> Clone for Maximum<D1> {
    fn clone(&self) -> (r: Self)
        ensures
            r == *self,
    {
        Self { _marker: core::marker::PhantomData }
    }
}

impl<D1> Copy for Maximum<D1> {
}

impl<D1> Maximum<D1> {
    /// The operator, as a value of specifications.
    pub closed spec fn spec_new() -> Self {
        Self { _marker: core::marker::PhantomData }
    }

    /// The operator.
    #[verifier::when_used_as_spec(spec_new)]
    pub fn new() -> (r: Self)
        ensures
            r == Self::spec_new(),
    {
        Self { _marker: core::marker::PhantomData }
    }
}

impl<D1> BinaryOperator<D1> for Maximum<D1> where
    D1: Clone,
    D1: PartialOrd<D1>,
{
    type Output = D1;

    open spec fn defined(&self, lhs: D1, rhs: D1) -> bool {
        D1::obeys_partial_cmp_spec()
    }

    open spec fn apply(&self, lhs: D1, rhs: D1) -> D1 {
        if lhs.is_gt(&rhs) {
            lhs
        } else {
            rhs
        }
    }

    fn op(&self, lhs: D1, rhs: D1) -> (out: D1) {
        if lhs > rhs {
            lhs
        } else {
            rhs
        }
    }
}

/// Addition, defined where the exact sum lies in the domain.
pub struct Addition<D1, D2 = D1> {
    _marker: core::marker::PhantomData<(D1, D2)>,
}

impl<D1, D2> Clone for Addition<D1, D2> {
    fn clone(&self) -> (r: Self)
        ensures
            r == *self,
    {
        Self { _marker: core::marker::PhantomData }
    }
}

impl<D1, D2> Copy for Addition<D1, D2> {
}

impl<D1, D2> Addition<D1, D2> {
    /// The operator, as a value of specifications.
    pub closed spec fn spec_new() -> Self {
        Self { _marker: core::marker::PhantomData }
    }

    /// The operator.
    #[verifier::when_used_as_spec(spec_new)]
    pub fn new() -> (r: Self)
        ensures
            r == Self::spec_new(),
    {
        Self { _marker: core::marker::PhantomData }
    }
}

impl<D1, D2> BinaryOperator<D1, D2> for Addition<D1, D2> where
    D1: core::ops::Add<D2, Output = D1>,
{
    type Output = D1;

    open spec fn defined(&self, lhs: D1, rhs: D2) -> bool {
        D1::obeys_add_spec() && lhs.add_req(rhs)
    }

    open spec fn apply(&self, lhs: D1, rhs: D2) -> D1 {
        lhs.add_spec(rhs)
    }

    fn op(&self, lhs: D1, rhs: D2) -> (out: D1) {
        lhs + rhs
    }
}

/// Subtraction, defined where the exact difference lies in the domain.
pub struct Subtraction<D1, D2 = D1> {
    _marker: core::marker::PhantomData<(D1, D2)>,
}

impl<D1, D2> Clone for Subtraction<D1, D2> {
    fn clone(&self) -> (r: Self)
        ensures
            r == *self,
    {
        Self { _marker: core::marker::PhantomData }
    }
}

impl<D1, D2> Copy for Subtraction<D1, D2> {
}

impl<D1, D2> Subtraction<D1, D2> {
    /// The operator, as a value of specifications.
    pub closed spec fn spec_new() -> Self {
        Self { _marker: core::marker::PhantomData }
    }

    /// The operator.
    #[verifier::when_used_as_spec(spec_new)]
    pub fn new() -> (r: Self)
        ensures
            r == Self::spec_new(),
    {
        Self { _marker: core::marker::PhantomData }
    }
}

impl<D1, D2> BinaryOperator<D1, D2> for Subtraction<D1, D2> where
    D1: core::ops::Sub<D2, Output = D1>,
{
    type Output = D1;

    open spec fn defined(&self, lhs: D1, rhs: D2) -> bool {
        D1::obeys_sub_spec() && lhs.sub_req(rhs)
    }

    open spec fn apply(&self, lhs: D1, rhs: D2) -> D1 {
        lhs.sub_spec(rhs)
    }

    fn op(&self, lhs: D1, rhs: D2) -> (out: D1) {
        lhs - rhs
    }
}

/// Multiplication, defined where the exact product lies in the domain.
pub struct Multiplication<D1, D2 = D1> {
    _marker: core::marker::PhantomData<(D1, D2)>,
}

impl<D1, D2> Clone for Multiplication<D1, D2> {
    fn clone(&self) -> (r: Self)
        ensures
            r == *self,
    {
        Self { _marker: core::marker::PhantomData }
    }
}

impl<D1, D2> Copy for Multiplication<D1, D2> {
}

impl<D1, D2> Multiplication<D1, D2> {
    /// The operator, as a value of specifications.
    pub closed spec fn spec_new() -> Self {
        Self { _marker: core::marker::PhantomData }
    }

    /// The operator.
    #[verifier::when_used_as_spec(spec_new)]
    pub fn new() -> (r: Self)
        ensures
            r == Self::spec_new(),
    {
        Self { _marker: core::marker::PhantomData }
    }
}

impl<D1, D2> BinaryOperator<D1, D2> for Multiplication<D1, D2> where
    D1: core::ops::Mul<D2, Output = D1>,
{
    type Output = D1;

    open spec fn defined(&self, lhs: D1, rhs: D2) -> bool {
        D1::obeys_mul_spec() && lhs.mul_req(rhs)
    }

    open spec fn apply(&self, lhs: D1, rhs: D2) -> D1 {
        lhs.mul_spec(rhs)
    }

    fn op(&self, lhs: D1, rhs: D2) -> (out: D1) {
        lhs * rhs
    }
}

/// Division, defined where the divisor is not zero and the quotient lies in the domain.
pub struct Division<D1, D2 = D1> {
    _marker: core::marker::PhantomData<(D1, D2)>,
}

impl<D1, D2> Clone for Division<D1, D2> {
    fn clone(&self) -> (r: Self)
        ensures
            r == *self,
    {
        Self { _marker: core::marker::PhantomData }
    }
}

impl<D1, D2> Copy for Division<D1, D2> {
}

impl<D1, D2> Division<D1, D2> {
    /// The operator, as a value of specifications.
    pub closed spec fn spec_new() -> Self {
        Self { _marker: core::marker::PhantomData }
    }

    /// The operator.
    #[verifier::when_used_as_spec(spec_new)]
    pub fn new() -> (r: Self)
        ensures
            r == Self::spec_new(),
    {
        Self { _marker: core::marker::PhantomData }
    }
}

impl<D1, D2> BinaryOperator<D1, D2> for Division<D1, D2> where
    D1: core::ops::Div<D2, Output = D1>,
{
    type Output = D1;

    open spec fn defined(&self, lhs: D1, rhs: D2) -> bool {
        D1::obeys_div_spec() && lhs.div_req(rhs)
    }

    open spec fn apply(&self, lhs: D1, rhs: D2) -> D1 {
        lhs.div_spec(rhs)
    }

    fn op(&self, lhs: D1, rhs: D2) -> (out: D1) {
        lhs / rhs
    }
}

} // verus!
