use cypher::number::{Number, FX_SCALE};

const ONE_BITS: i128 = 281474976710656;

#[test]
fn constants_and_predicates() {
    assert_eq!(Number::zero().bits, 0);
    assert_eq!(Number::one().bits, ONE_BITS);
    assert_eq!(FX_SCALE, ONE_BITS);
    assert_eq!(Number::max_value().bits, i128::MAX);
    assert!(Number::zero().is_zero());
    assert!(!Number::one().is_zero());
    assert!(Number::max_value().is_max());
    assert!(!Number::one().is_max());
}

#[test]
fn from_u64_scales() {
    assert_eq!(Number::from_u64(0), Number::zero());
    assert_eq!(Number::from_u64(1), Number::one());
    assert_eq!(Number::from_u64(25).bits, 25 * ONE_BITS);
    assert_eq!(Number::from_u64(u64::MAX).bits, (u64::MAX as i128) * ONE_BITS);
}

#[test]
fn from_percent_exact() {
    assert_eq!(Number::from_percent(100), Number::one());
    assert_eq!(Number::from_percent(110).bits, 309622474381721);
    assert_eq!(Number::from_percent(0), Number::zero());
}

#[test]
fn from_bps_exact() {
    assert_eq!(Number::from_bps(10000), Number::one());
    assert_eq!(Number::from_bps(500).bits, 14073748835532);
    assert_eq!(Number::from_bps(100).bits, 2814749767106);
    assert_eq!(Number::from_bps(0), Number::zero());
}

#[test]
fn checked_add_and_sub() {
    let five = Number::from_u64(5);
    let twenty = Number::from_u64(20);
    assert_eq!(five.checked_add(twenty), Some(Number::from_u64(25)));
    assert_eq!(twenty.checked_sub(five), Some(Number::from_u64(15)));
    assert_eq!(Number::max_value().checked_add(Number::one()), None);
    let min = Number { bits: i128::MIN };
    assert_eq!(min.checked_sub(Number::one()), None);
}

#[test]
fn checked_mul_exact() {
    let three = Number::from_u64(3);
    let four = Number::from_u64(4);
    assert_eq!(three.checked_mul(four), Some(Number::from_u64(12)));
    assert_eq!(Number::max_value().checked_mul(Number::from_u64(2)), None);
}

#[test]
fn checked_mul_rounds_toward_negative_infinity() {
    // the product of the two smallest magnitudes is below one bit of
    // precision; the shift keeps the floor, not the truncation toward zero
    let tiny_neg = Number { bits: -1 };
    let tiny_pos = Number { bits: 1 };
    assert_eq!(tiny_neg.checked_mul(tiny_pos), Some(Number { bits: -1 }));
    assert_eq!(tiny_pos.checked_mul(tiny_pos), Some(Number { bits: 0 }));
}

#[test]
fn checked_div_exact() {
    let hundred = Number::from_u64(100);
    let ninety_five = Number::from_u64(95);
    let ratio = hundred.checked_div(ninety_five).unwrap();
    assert_eq!(ratio.bits, 296289449169111);
    assert_eq!(hundred.checked_div(Number::zero()), None);
    // a huge dividend over a sub-unit divisor overflows
    assert_eq!(Number::max_value().checked_div(Number { bits: 1 }), None);
}

#[test]
fn checked_div_truncates_toward_zero() {
    let tiny_neg = Number { bits: -1 };
    assert_eq!(tiny_neg.checked_div(Number::from_u64(3)), Some(Number { bits: 0 }));
    assert_eq!(tiny_neg.checked_div(Number::one()), Some(Number { bits: -1 }));
}

#[test]
fn raw_bytes_round_trip_across_range() {
    let samples: [i128; 8] = [
        0,
        1,
        -1,
        FX_SCALE,
        -FX_SCALE,
        i128::MAX,
        i128::MIN,
        123456789012345678901234567890,
    ];
    for bits in samples {
        let n = Number { bits };
        let bytes = n.to_le_bytes();
        assert_eq!(Number::from_le_bytes(&bytes), n);
    }
}

#[test]
fn raw_bytes_known_patterns() {
    let one_bytes = Number::one().to_le_bytes();
    let mut expected = [0u8; 16];
    expected[6] = 1;
    assert_eq!(one_bytes, expected);
    assert_eq!(Number { bits: -1 }.to_le_bytes(), [0xFF; 16]);
    let mut max_bytes = [0xFF; 16];
    max_bytes[15] = 0x7F;
    assert_eq!(Number::max_value().to_le_bytes(), max_bytes);
    assert_eq!(Number::from_le_bytes(&max_bytes), Number::max_value());
}

#[test]
fn min_max_selection() {
    let a = Number::from_u64(3);
    let b = Number::from_u64(7);
    assert_eq!(a.max_of(b), b);
    assert_eq!(b.max_of(a), b);
    assert_eq!(a.min_of(b), a);
    assert_eq!(b.min_of(a), a);
    assert_eq!(a.max_of(a), a);
}
