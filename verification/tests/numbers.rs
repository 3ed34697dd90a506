use concurrent_engine::binary64::doubled;
use concurrent_engine::binary64::finite;
use concurrent_engine::binary64::from_signed;
use concurrent_engine::binary64::from_unsigned;
use concurrent_engine::parallel::transform_item;
use concurrent_engine::pipeline::VALIDATION_SCORE;
use concurrent_engine::value::Number;
use concurrent_engine::value::Value;

fn twice(x: f64) -> Option<u64> {
    let y = x * 2.0;
    if y.is_finite() {
        Some(y.to_bits())
    } else {
        None
    }
}

#[test]
fn from_unsigned_agrees_with_the_hardware_on_small_integers() {
    for u in 0u64..2000 {
        assert_eq!(from_unsigned(u), (u as f64).to_bits(), "u = {}", u);
    }
}

#[test]
fn from_unsigned_is_exact_up_to_two_to_the_53() {
    let edge = 1u64 << 53;
    for u in [1u64, 2, 3, 1 << 20, (1 << 52) - 1, 1 << 52, (1 << 52) + 1, edge - 1, edge] {
        assert_eq!(from_unsigned(u), (u as f64).to_bits(), "u = {}", u);
        assert_eq!(f64::from_bits(from_unsigned(u)) as u64, u);
    }
}

#[test]
fn from_unsigned_rounds_to_nearest_and_ties_to_even() {
    let edge = 1u64 << 53;
    assert_eq!(f64::from_bits(from_unsigned(edge + 1)), 9007199254740992.0);
    assert_eq!(f64::from_bits(from_unsigned(edge + 2)), 9007199254740994.0);
    assert_eq!(f64::from_bits(from_unsigned(edge + 3)), 9007199254740996.0);
    for u in [
        edge + 1,
        edge + 2,
        edge + 3,
        edge + 5,
        (1u64 << 54) + 2,
        (1u64 << 54) + 6,
        (1u64 << 60) + 127,
        (1u64 << 60) + 128,
        (1u64 << 60) + 129,
        (1u64 << 60) + 384,
        (1u64 << 63) + 1024,
        (1u64 << 63) + 1025,
        (1u64 << 63) + 3072,
        u64::MAX - 1024,
        u64::MAX - 1023,
        u64::MAX,
        12345678901234567890,
    ] {
        assert_eq!(from_unsigned(u), (u as f64).to_bits(), "u = {}", u);
    }
}

#[test]
fn from_unsigned_agrees_with_the_hardware_on_a_sweep() {
    let mut u: u64 = 1;
    let mut step: u64 = 0x9e37_79b9_7f4a_7c15;
    for _ in 0..20000 {
        assert_eq!(from_unsigned(u), (u as f64).to_bits(), "u = {}", u);
        step = step.wrapping_mul(6364136223846793005).wrapping_add(1442695040888963407);
        u = step >> (step % 64);
    }
}

#[test]
fn from_signed_agrees_with_the_hardware() {
    for i in [
        0i64,
        1,
        -1,
        -2,
        7,
        -7,
        i64::MAX,
        i64::MIN,
        i64::MIN + 1,
        -(1 << 53),
        -(1 << 53) - 1,
        -(1 << 53) - 3,
        -1234567890123456789,
    ] {
        assert_eq!(from_signed(i), (i as f64).to_bits(), "i = {}", i);
    }
}

#[test]
fn doubled_agrees_with_the_hardware() {
    for x in [
        0.0f64,
        -0.0,
        1.0,
        -1.0,
        0.95,
        3.5,
        -2.25,
        1e300,
        -1e300,
        f64::MAX,
        f64::MIN,
        f64::MAX / 2.0,
        f64::MIN_POSITIVE,
        f64::MIN_POSITIVE / 2.0,
        f64::MIN_POSITIVE / 4.0,
        -f64::MIN_POSITIVE / 2.0,
        5e-324,
        2.2250738585072009e-308,
        8.98846567431158e307,
    ] {
        assert_eq!(doubled(x.to_bits()), twice(x), "x = {}", x);
    }
}

#[test]
fn doubled_of_what_is_not_finite_is_none() {
    assert_eq!(doubled(f64::INFINITY.to_bits()), None);
    assert_eq!(doubled(f64::NEG_INFINITY.to_bits()), None);
    assert_eq!(doubled(f64::NAN.to_bits()), None);
}

#[test]
fn finite_tells_infinities_and_nan_apart() {
    assert!(finite(0.95f64.to_bits()));
    assert!(finite(f64::MAX.to_bits()));
    assert!(finite((-0.0f64).to_bits()));
    assert!(!finite(f64::INFINITY.to_bits()));
    assert!(!finite(f64::NEG_INFINITY.to_bits()));
    assert!(!finite(f64::NAN.to_bits()));
}

#[test]
fn validation_score_is_ninety_five_hundredths() {
    assert_eq!(VALIDATION_SCORE, 0.95f64.to_bits());
}

#[test]
fn number_to_binary64_follows_its_variant() {
    assert_eq!(Number::PosInt(3).to_binary64(), 3.0f64.to_bits());
    assert_eq!(Number::NegInt(-3).to_binary64(), (-3.0f64).to_bits());
    assert_eq!(Number::Float(2.5f64.to_bits()).to_binary64(), 2.5f64.to_bits());
}

#[test]
fn transform_doubles_numbers_of_each_kind() {
    assert_eq!(
        transform_item(&Value::Number(Number::PosInt(21))),
        Value::Number(Number::Float(42.0f64.to_bits()))
    );
    assert_eq!(
        transform_item(&Value::Number(Number::NegInt(-4))),
        Value::Number(Number::Float((-8.0f64).to_bits()))
    );
    assert_eq!(
        transform_item(&Value::Number(Number::Float(1.25f64.to_bits()))),
        Value::Number(Number::Float(2.5f64.to_bits()))
    );
    assert_eq!(
        transform_item(&Value::Number(Number::PosInt(0))),
        Value::Number(Number::Float(0.0f64.to_bits()))
    );
    assert_eq!(transform_item(&Value::Number(Number::Float(f64::MAX.to_bits()))), Value::Null);
}
