use gblas::algebra::{
    AbsoluteOp, AdditiveInverseOp, BitwiseNotOp, IdendityOp, LogicalNotOp, UnaryOperator,
    Addition, AndOrSemiring, BinaryOperator, BitwiseAnd, BitwiseOr, BitwiseXnor, BitwiseXor,
    Division, Equal, First, GreaterThan, GreaterThanOrEqual, LessThan, LessThanOrEqual,
    LogicalAnd, LogicalAndMonoid, LogicalOr, LogicalOrMonoid, LogicalSemiring, LogicalXnor,
    LogicalXnorMonoid, LogicalXor, LogicalXorMonoid, MaxFirstSemiring, MaxMinSemiring, MaxMonoid,
    MaxPlusSemiring, MaxSecondSemiring, MaxTimesSemiring, Maximum, MinFirstSemiring,
    MinMaxSemiring, MinMonoid, MinPlusSemiring, MinSecondSemiring, MinTimesSemiring, Minimum,
    Monoid, Multiplication, NotEqual, PlusMinSemiring, PlusMonoid, PlusTimesSemiring, Second,
    Semiring, Subtraction, TimesMonoid, XorAndSemiring, XorOrSemiring,
};

#[test]
fn test_bin_ops() {
    let or = LogicalOr::new();
    assert!(or.op(true, true));

    let and = LogicalAnd::new();
    assert!(and.op(true, true));

    let xor = LogicalXor::new();
    assert!(!xor.op(true, true));

    let xnor = LogicalXnor::new();
    assert!(xnor.op(true, true));

    let bit_or = BitwiseOr::new();
    assert_eq!(bit_or.op(1, 1), 1);

    let bit_and = BitwiseAnd::new();
    assert_eq!(bit_and.op(1, 1), 1);

    let bit_xor = BitwiseXor::new();
    assert_eq!(bit_xor.op(3, 4), 7);

    let bit_xnor = BitwiseXnor::new();
    assert_eq!(bit_xnor.op(3, 4), -8);

    let equal = Equal::new();
    assert!(equal.op(1, 1));

    let not_equal = NotEqual::new();
    assert!(!not_equal.op(1, 1));

    let greater = GreaterThan::new();
    assert!(!greater.op(1, 1));

    let less = LessThan::new();
    assert!(!less.op(1, 1));

    let greater_equal = GreaterThanOrEqual::new();
    assert!(greater_equal.op(1, 1));

    let less_equal = LessThanOrEqual::new();
    assert!(less_equal.op(1, 1));

    let first = First::new();
    assert_eq!(first.op(1, 2), 1);

    let second = Second::new();
    assert_eq!(second.op(1, 2), 2);

    let min = Minimum::new();
    assert_eq!(min.op(1, 2), 1);

    let max = Maximum::new();
    assert_eq!(max.op(1, 2), 2);

    let add = Addition::new();
    assert_eq!(add.op(1, 1), 2);

    let sub = Subtraction::new();
    assert_eq!(sub.op(1, 1), 0);

    let mult = Multiplication::new();
    assert_eq!(mult.op(1, 1), 1);

    let div = Division::new();
    assert_eq!(div.op(1, 1), 1);
}

#[test]
fn test_monoids() {
    let plus = PlusMonoid::new();
    assert_eq!(plus.operate(1, 1), 2);

    let times = TimesMonoid::new();
    assert_eq!(times.operate(1, 1), 1);

    let min = MinMonoid::new();
    assert_eq!(min.operate(1, 2), 1);

    let max = MaxMonoid::new();
    assert_eq!(max.operate(1, 2), 2);

    let or = LogicalOrMonoid::new();
    assert!(or.operate(true, true));

    let and = LogicalAndMonoid::new();
    assert!(and.operate(true, true));

    let xor = LogicalXorMonoid::new();
    assert!(!xor.operate(true, true));

    let xnor = LogicalXnorMonoid::new();
    assert!(xnor.operate(true, true));
}

#[test]
fn test_semirings() {
    let plus_times = PlusTimesSemiring::new();
    assert_eq!(plus_times.add(1, 1), 2);
    assert_eq!(plus_times.mult(1, 1), 1);

    let min_plus = MinPlusSemiring::new();
    assert_eq!(min_plus.add(1, 1), 1);
    assert_eq!(min_plus.mult(1, 1), 2);

    let max_plus = MaxPlusSemiring::new();
    assert_eq!(max_plus.add(1, 1), 1);
    assert_eq!(max_plus.mult(1, 1), 2);

    let min_times = MinTimesSemiring::new();
    assert_eq!(min_times.add(1, 1), 1);
    assert_eq!(min_times.mult(1, 1), 1);

    let min_max = MinMaxSemiring::new();
    assert_eq!(min_max.add(1, 1), 1);
    assert_eq!(min_max.mult(1, 1), 1);

    let max_min = MaxMinSemiring::new();
    assert_eq!(max_min.add(1, 1), 1);
    assert_eq!(max_min.mult(1, 1), 1);

    let max_times = MaxTimesSemiring::new();
    assert_eq!(max_times.add(1, 1), 1);
    assert_eq!(max_times.mult(1, 1), 1);

    let plus_min = PlusMinSemiring::new();
    assert_eq!(plus_min.add(1, 1), 2);
    assert_eq!(plus_min.mult(1, 2), 1);

    let logical = LogicalSemiring::new();
    assert!(logical.add(true, true));
    assert!(logical.mult(true, true));

    let and_or = AndOrSemiring::new();
    assert!(and_or.add(true, true));
    assert!(and_or.mult(true, true));

    let xor_and = XorAndSemiring::new();
    assert!(!xor_and.add(true, true));
    assert!(xor_and.mult(true, true));

    let xor_or = XorOrSemiring::new();
    assert!(!xor_or.add(true, true));
    assert!(xor_or.mult(true, true));

    let min_first = MinFirstSemiring::new();
    assert_eq!(min_first.add(1, 2), 1);
    assert_eq!(min_first.mult(1, 2), 1);

    let min_second = MinSecondSemiring::new();
    assert_eq!(min_second.add(1, 2), 1);
    assert_eq!(min_second.mult(1, 2), 2);

    let max_first = MaxFirstSemiring::new();
    assert_eq!(max_first.add(1, 2), 2);
    assert_eq!(max_first.mult(1, 2), 1);

    let max_second = MaxSecondSemiring::new();
    assert_eq!(max_second.add(1, 2), 2);
    assert_eq!(max_second.mult(1, 2), 2);
}

#[test]
fn min_plus_zero_is_the_identity_of_addition() {
    let min_plus = MinPlusSemiring::<i64>::new();
    assert_eq!(min_plus.zero(), i64::MAX);
    for x in [i64::MIN, -7, 0, 1, 42, i64::MAX - 1, i64::MAX] {
        assert_eq!(min_plus.add(min_plus.zero(), x), x);
    }
}

#[test]
fn monoid_identities() {
    assert_eq!(Monoid::<i32>::identity(&PlusMonoid::new()), 0);
    assert_eq!(Monoid::<u8>::identity(&TimesMonoid::new()), 1);
    assert_eq!(Monoid::<i16>::identity(&MinMonoid::new()), i16::MAX);
    assert_eq!(Monoid::<i16>::identity(&MaxMonoid::new()), i16::MIN);
    assert_eq!(Monoid::<u64>::identity(&MaxMonoid::new()), 0);
    assert!(!LogicalOrMonoid::new().identity());
    assert!(LogicalAndMonoid::new().identity());
    assert!(!LogicalXorMonoid::new().identity());
    assert!(LogicalXnorMonoid::new().identity());
    for x in [-5i32, 0, 9] {
        assert_eq!(PlusMonoid::new().operate(0, x), x);
        assert_eq!(TimesMonoid::new().operate(1, x), x);
        assert_eq!(MinMonoid::new().operate(i32::MAX, x), x);
        assert_eq!(MaxMonoid::new().operate(i32::MIN, x), x);
    }
    for x in [false, true] {
        assert_eq!(LogicalOrMonoid::new().operate(false, x), x);
        assert_eq!(LogicalAndMonoid::new().operate(true, x), x);
        assert_eq!(LogicalXorMonoid::new().operate(false, x), x);
        assert_eq!(LogicalXnorMonoid::new().operate(true, x), x);
    }
}

#[test]
fn semiring_zeros() {
    assert_eq!(Semiring::<i32>::zero(&PlusTimesSemiring::new()), 0);
    assert_eq!(Semiring::<i32>::zero(&MaxPlusSemiring::new()), i32::MIN);
    assert_eq!(Semiring::<u8>::zero(&MinTimesSemiring::new()), u8::MAX);
    assert!(!LogicalSemiring::new().zero());
    assert!(AndOrSemiring::new().zero());
    assert!(!XorAndSemiring::new().zero());
    assert!(!XorOrSemiring::new().zero());
}

#[test]
fn unary_operators() {
    assert_eq!(<IdendityOp as UnaryOperator<i32>>::op(5), 5);
    assert_eq!(<AbsoluteOp as UnaryOperator<i32>>::op(-5), 5);
    assert_eq!(<AbsoluteOp as UnaryOperator<i8>>::op(-127), 127);
    assert_eq!(<AbsoluteOp as UnaryOperator<u16>>::op(7), 7);
    assert_eq!(<AdditiveInverseOp as UnaryOperator<i64>>::op(9), -9);
    assert!(!<LogicalNotOp as UnaryOperator<bool>>::op(true));
    assert_eq!(<BitwiseNotOp as UnaryOperator<u8>>::op(0b1010_0101), 0b0101_1010);
    assert_eq!(<BitwiseNotOp as UnaryOperator<i32>>::op(0), -1);
}

#[test]
fn binary_operators_on_distinct_values() {
    assert_eq!(Subtraction::new().op(7, 9), -2);
    assert_eq!(Division::new().op(-7, 2), -3);
    assert_eq!(Multiplication::new().op(6, -7), -42);
    assert_eq!(Minimum::new().op(4u8, 3u8), 3);
    assert_eq!(Maximum::new().op(4u8, 3u8), 4);
    assert!(GreaterThan::new().op(2, 1));
    assert!(LessThan::new().op(1, 2));
    assert!(!GreaterThanOrEqual::new().op(1, 2));
    assert!(!LessThanOrEqual::new().op(2, 1));
    assert!(!Equal::new().op(1, 2));
    assert!(NotEqual::new().op(1, 2));
    assert_eq!(BitwiseOr::new().op(0b0101u8, 0b0011u8), 0b0111);
    assert_eq!(BitwiseAnd::new().op(0b0101u8, 0b0011u8), 0b0001);
    assert!(LogicalOr::new().op(false, true));
    assert!(!LogicalAnd::new().op(false, true));
    assert!(LogicalXor::new().op(false, true));
    assert!(!LogicalXnor::new().op(false, true));
}
