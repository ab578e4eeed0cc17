use icps::number::Number;
use icps::value::Value;

fn number(x: f64) -> Number {
    Number::from_bits(x.to_bits())
}

fn samples() -> Vec<f64> {
    vec![
        0.0,
        -0.0,
        1.0,
        -1.0,
        0.4,
        0.5,
        0.49999999999999994,
        1.5,
        2.5,
        -2.5,
        3.0,
        1e300,
        -1e300,
        f64::INFINITY,
        f64::NEG_INFINITY,
        f64::NAN,
        -f64::NAN,
        5e-324,
        -5e-324,
        2.2250738585072014e-308,
        4503599627370496.0,
        4503599627370495.5,
        9007199254740992.0,
        9007199254740993.0,
        9223372036854775808.0,
        18446744073709549568.0,
        18446744073709551616.0,
        1e19,
        1e20,
        255.5,
        1023.4999,
    ]
}

#[test]
fn equality_is_that_of_doubles() {
    for x in samples() {
        for y in samples() {
            assert_eq!(number(x).same(number(y)), x == y, "{} == {}", x, y);
            assert_eq!(number(x) == number(y), x == y, "{} == {}", x, y);
        }
    }
}

#[test]
fn order_is_that_of_doubles() {
    for x in samples() {
        for y in samples() {
            assert_eq!(number(x).less(number(y)), x < y, "{} < {}", x, y);
            assert_eq!(number(x).less_or_same(number(y)), x <= y, "{} <= {}", x, y);
        }
    }
}

#[test]
fn negation_flips_the_sign() {
    for x in samples() {
        assert_eq!(number(x).negate().to_bits(), (-x).to_bits(), "-{}", x);
    }
}

#[test]
fn zero_and_not_a_number_are_told() {
    for x in samples() {
        assert_eq!(number(x).is_zero(), x == 0.0, "{}", x);
        assert_eq!(number(x).is_nan(), x.is_nan(), "{}", x);
    }
}

#[test]
fn rounding_to_a_count_is_that_of_doubles() {
    for x in samples() {
        assert_eq!(number(x).round_count(), x.round() as u64, "{}", x);
    }
    assert_eq!(number(2.5).round_count(), 3);
    assert_eq!(number(0.5).round_count(), 1);
    assert_eq!(number(0.49999999999999994).round_count(), 0);
    assert_eq!(number(-7.0).round_count(), 0);
    assert_eq!(number(f64::NAN).round_count(), 0);
    assert_eq!(number(f64::INFINITY).round_count(), u64::MAX);
    assert_eq!(number(1e19).round_count(), 10000000000000000000);
}

#[test]
fn one_is_one() {
    assert_eq!(Number::one().to_bits(), 1.0f64.to_bits());
    assert_eq!(Number::from_bits(7).to_bits(), 7);
}

#[test]
fn truthiness() {
    assert!(Value::Boolean(true).is_truthy());
    assert!(!Value::Boolean(false).is_truthy());
    assert!(!Value::Null.is_truthy());
    assert!(!Value::String(String::new()).is_truthy());
    assert!(Value::String("a".to_string()).is_truthy());
    assert!(Value::Number(number(0.0)).is_truthy());
    assert!(Value::Number(number(f64::NAN)).is_truthy());
    assert!(Value::Range(number(0.0), number(0.0)).is_truthy());
}

#[test]
fn values_give_what_they_hold() {
    assert_eq!(Value::String("abc".to_string()).as_str(), "abc");
    assert_eq!(Value::Number(number(2.5)).as_num().to_bits(), 2.5f64.to_bits());
    assert!(Value::Boolean(true).as_bool());
    assert!(!Value::Boolean(false).as_bool());
    assert_eq!(Value::Number(number(0.0)), Value::Number(number(-0.0)));
    assert_ne!(Value::Number(number(f64::NAN)), Value::Number(number(f64::NAN)));
    assert_ne!(Value::Null, Value::Boolean(false));
    assert_eq!(Value::String("a".to_string()).clone(), Value::String("a".to_string()));
}
