use vstd::prelude::*;
use vstd::std_specs::cmp::{PartialOrdIs, PartialOrdSpec};
use vstd::std_specs::ops::{AddSpec, MulSpec};

verus! {

/// The primitive integer domains over which the arithmetic monoids and
/// semirings are provided.
pub trait Numeric: Copy + PartialOrd + core::ops::Add<Output = Self> + core::ops::Mul<
    Output = Self,
> {
    /// The additive identity.
    spec fn zero_spec() -> Self;

    /// The multiplicative identity.
    spec fn one_spec() -> Self;

    /// The least value of the domain.
    spec fn lowest_spec() -> Self;

    /// The greatest value of the domain.
    spec fn highest_spec() -> Self;

    /// Whether the absolute value lies in the domain.
    spec fn abs_req(self) -> bool;

    /// The absolute value.
    spec fn abs_spec(self) -> Self;

    /// What the identities and bounds of the domain are to its arithmetic
    /// and to its order.
    proof fn laws()
        ensures
            Self::obeys_add_spec(),
            Self::obeys_mul_spec(),
            Self::obeys_partial_cmp_spec(),
            forall|x: Self| #[trigger] Self::zero_spec().add_req(x),
            forall|x: Self| #[trigger] Self::zero_spec().add_spec(x) == x,
            forall|x: Self| #[trigger] Self::one_spec().mul_req(x),
            forall|x: Self| #[trigger] Self::one_spec().mul_spec(x) == x,
            forall|x: Self| !Self::highest_spec().is_lt(&x),
            forall|x: Self| !Self::lowest_spec().is_gt(&x),
    ;

    fn zero() -> (r: Self)
        ensures
            r == Self::zero_spec(),
    ;

    fn one() -> (r: Self)
        ensures
            r == Self::one_spec(),
    ;

    fn lowest() -> (r: Self)
        ensures
            r == Self::lowest_spec(),
    ;

    fn highest() -> (r: Self)
        ensures
            r == Self::highest_spec(),
    ;

    fn abs(self) -> (r: Self)
        requires
            self.abs_req(),
        ensures
            r == self.abs_spec(),
    ;
}

impl Numeric for i8 {
    open spec fn zero_spec() -> i8 {
        0
    }

    open spec fn one_spec() -> i8 {
        1
    }

    open spec fn lowest_spec() -> i8 {
        i8::MIN
    }

    open spec fn highest_spec() -> i8 {
        i8::MAX
    }

    open spec fn abs_req(self) -> bool {
        self != i8::MIN
    }

    open spec fn abs_spec(self) -> i8 {
        if self < 0 {
            (-self) as i8
        } else {
            self
        }
    }

    proof fn laws() {
    }

    fn zero() -> (r: i8) {
        0
    }

    fn one() -> (r: i8) {
        1
    }

    fn lowest() -> (r: i8) {
        i8::MIN
    }

    fn highest() -> (r: i8) {
        i8::MAX
    }

    fn abs(self) -> (r: i8) {
        if self < 0 {
            -self
        } else {
            self
        }
    }
}

impl Numeric for i16 {
    open spec fn zero_spec() -> i16 {
        0
    }

    open spec fn one_spec() -> i16 {
        1
    }

    open spec fn lowest_spec() -> i16 {
        i16::MIN
    }

    open spec fn highest_spec() -> i16 {
        i16::MAX
    }

    open spec fn abs_req(self) -> bool {
        self != i16::MIN
    }

    open spec fn abs_spec(self) -> i16 {
        if self < 0 {
            (-self) as i16
        } else {
            self
        }
    }

    proof fn laws() {
    }

    fn zero() -> (r: i16) {
        0
    }

    fn one() -> (r: i16) {
        1
    }

    fn lowest() -> (r: i16) {
        i16::MIN
    }

    fn highest() -> (r: i16) {
        i16::MAX
    }

    fn abs(self) -> (r: i16) {
        if self < 0 {
            -self
        } else {
            self
        }
    }
}

impl Numeric for i32 {
    open spec fn zero_spec() -> i32 {
        0
    }

    open spec fn one_spec() -> i32 {
        1
    }

    open spec fn lowest_spec() -> i32 {
        i32::MIN
    }

    open spec fn highest_spec() -> i32 {
        i32::MAX
    }

    open spec fn abs_req(self) -> bool {
        self != i32::MIN
    }

    open spec fn abs_spec(self) -> i32 {
        if self < 0 {
            (-self) as i32
        } else {
            self
        }
    }

    proof fn laws() {
    }

    fn zero() -> (r: i32) {
        0
    }

    fn one() -> (r: i32) {
        1
    }

    fn lowest() -> (r: i32) {
        i32::MIN
    }

    fn highest() -> (r: i32) {
        i32::MAX
    }

    fn abs(self) -> (r: i32) {
        if self < 0 {
            -self
        } else {
            self
        }
    }
}

impl Numeric for i64 {
    open spec fn zero_spec() -> i64 {
        0
    }

    open spec fn one_spec() -> i64 {
        1
    }

    open spec fn lowest_spec() -> i64 {
        i64::MIN
    }

    open spec fn highest_spec() -> i64 {
        i64::MAX
    }

    open spec fn abs_req(self) -> bool {
        self != i64::MIN
    }

    open spec fn abs_spec(self) -> i64 {
        if self < 0 {
            (-self) as i64
        } else {
            self
        }
    }

    proof fn laws() {
    }

    fn zero() -> (r: i64) {
        0
    }

    fn one() -> (r: i64) {
        1
    }

    fn lowest() -> (r: i64) {
        i64::MIN
    }

    fn highest() -> (r: i64) {
        i64::MAX
    }

    fn abs(self) -> (r: i64) {
        if self < 0 {
            -self
        } else {
            self
        }
    }
}

impl Numeric for u8 {
    open spec fn zero_spec() -> u8 {
        0
    }

    open spec fn one_spec() -> u8 {
        1
    }

    open spec fn lowest_spec() -> u8 {
        u8::MIN
    }

    open spec fn highest_spec() -> u8 {
        u8::MAX
    }

    open spec fn abs_req(self) -> bool {
        true
    }

    open spec fn abs_spec(self) -> u8 {
        self
    }

    proof fn laws() {
    }

    fn zero() -> (r: u8) {
        0
    }

    fn one() -> (r: u8) {
        1
    }

    fn lowest() -> (r: u8) {
        u8::MIN
    }

    fn highest() -> (r: u8) {
        u8::MAX
    }

    fn abs(self) -> (r: u8) {
        self
    }
}

impl Numeric for u16 {
    open spec fn zero_spec() -> u16 {
        0
    }

    open spec fn one_spec() -> u16 {
        1
    }

    open spec fn lowest_spec() -> u16 {
        u16::MIN
    }

    open spec fn highest_spec() -> u16 {
        u16::MAX
    }

    open spec fn abs_req(self) -> bool {
        true
    }

    open spec fn abs_spec(self) -> u16 {
        self
    }

    proof fn laws() {
    }

    fn zero() -> (r: u16) {
        0
    }

    fn one() -> (r: u16) {
        1
    }

    fn lowest() -> (r: u16) {
        u16::MIN
    }

    fn highest() -> (r: u16) {
        u16::MAX
    }

    fn abs(self) -> (r: u16) {
        self
    }
}

impl Numeric for u32 {
    open spec fn zero_spec() -> u32 {
        0
    }

    open spec fn one_spec() -> u32 {
        1
    }

    open spec fn lowest_spec() -> u32 {
        u32::MIN
    }

    open spec fn highest_spec() -> u32 {
        u32::MAX
    }

    open spec fn abs_req(self) -> bool {
        true
    }

    open spec fn abs_spec(self) -> u32 {
        self
    }

    proof fn laws() {
    }

    fn zero() -> (r: u32) {
        0
    }

    fn one() -> (r: u32) {
        1
    }

    fn lowest() -> (r: u32) {
        u32::MIN
    }

    fn highest() -> (r: u32) {
        u32::MAX
    }

    fn abs(self) -> (r: u32) {
        self
    }
}

impl Numeric for u64 {
    open spec fn zero_spec() -> u64 {
        0
    }

    open spec fn one_spec() -> u64 {
        1
    }

    open spec fn lowest_spec() -> u64 {
        u64::MIN
    }

    open spec fn highest_spec() -> u64 {
        u64::MAX
    }

    open spec fn abs_req(self) -> bool {
        true
    }

    open spec fn abs_spec(self) -> u64 {
        self
    }

    proof fn laws() {
    }

    fn zero() -> (r: u64) {
        0
    }

    fn one() -> (r: u64) {
        1
    }

    fn lowest() -> (r: u64) {
        u64::MIN
    }

    fn highest() -> (r: u64) {
        u64::MAX
    }

    fn abs(self) -> (r: u64) {
        self
    }
}

} // verus!
