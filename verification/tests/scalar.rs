use atom_engine::scalar::Scalar;

fn num(x: f64) -> Scalar {
    Scalar::from_bits(x.to_bits())
}

fn val(s: Scalar) -> f64 {
    f64::from_bits(s.to_bits())
}

fn samples() -> Vec<f64> {
    vec![
        0.0,
        -0.0,
        1.0,
        -1.0,
        2.0,
        3.0,
        0.1,
        0.2,
        0.3,
        -2.5,
        1e-320,
        -1e-320,
        5e-324,
        2.2250738585072014e-308,
        1e16,
        9007199254740992.0,
        9007199254740993.0,
        1.0e308,
        -1.0e308,
        f64::MAX,
        f64::MIN,
        f64::MIN_POSITIVE,
        f64::EPSILON,
        f64::INFINITY,
        f64::NEG_INFINITY,
        f64::NAN,
        123456.789,
        -987654.321,
        1.0 / 3.0,
        2.0 / 3.0,
    ]
}

fn same(expected: f64, actual: Scalar) -> bool {
    if expected.is_nan() {
        actual.check_nan() && val(actual).is_nan()
    } else {
        expected.to_bits() == actual.to_bits()
    }
}

#[test]
fn arithmetic_matches_the_hardware() {
    for &a in samples().iter() {
        for &b in samples().iter() {
            assert!(same(a + b, num(a).plus(num(b))), "{:?} + {:?}", a, b);
            assert!(same(a - b, num(a).minus(num(b))), "{:?} - {:?}", a, b);
            assert!(same(a * b, num(a).times(num(b))), "{:?} * {:?}", a, b);
            assert!(same(a / b, num(a).divided_by(num(b))), "{:?} / {:?}", a, b);
        }
    }
}

#[test]
fn comparison_matches_the_hardware() {
    for &a in samples().iter() {
        for &b in samples().iter() {
            assert_eq!(num(a).lt(num(b)), a < b, "{:?} < {:?}", a, b);
            assert_eq!(num(a).gt(num(b)), a > b, "{:?} > {:?}", a, b);
        }
        assert_eq!(num(a).check_nan(), a.is_nan());
    }
}

#[test]
fn negation_flips_the_sign_bit() {
    for &a in samples().iter() {
        assert_eq!(num(a).neg().to_bits(), (-a).to_bits());
    }
    assert_eq!(val(num(2.5).neg()), -2.5);
    assert_eq!(num(0.0).neg().to_bits(), 0x8000_0000_0000_0000);
}

#[test]
fn exact_results_of_each_operation() {
    assert_eq!(val(num(1.0).plus(num(2.0))), 3.0);
    assert_eq!(val(num(5.0).minus(num(3.0))), 2.0);
    assert_eq!(val(num(2.0).times(num(3.0))), 6.0);
    assert_eq!(val(num(10.0).divided_by(num(4.0))), 2.5);
    assert_eq!(val(num(1.0).divided_by(num(0.0))), f64::INFINITY);
    assert_eq!(val(num(-1.0).divided_by(num(0.0))), f64::NEG_INFINITY);
    assert!(val(num(0.0).divided_by(num(0.0))).is_nan());
}

#[test]
fn constants_are_the_documented_numbers() {
    assert_eq!(val(Scalar::new_zero()), 0.0);
    assert_eq!(Scalar::new_zero().to_bits(), 0);
    assert_eq!(val(Scalar::new_max_finite()), f64::MAX);
    assert_eq!(val(Scalar::new_min_finite()), f64::MIN);
}

#[test]
fn counts_convert_as_casts_do() {
    let counts: Vec<usize> = vec![
        0,
        1,
        2,
        3,
        10,
        255,
        256,
        1 << 20,
        (1 << 53) - 1,
        1 << 53,
        (1 << 53) + 1,
        (1 << 53) + 3,
        usize::MAX - 1,
        usize::MAX,
    ];
    for &n in counts.iter() {
        assert_eq!(Scalar::from_count(n).to_bits(), (n as f64).to_bits(), "{}", n);
    }
    assert_eq!(val(Scalar::from_count(3)), 3.0);
}

#[test]
fn decimals_parse_as_the_standard_library_does() {
    let numerals = vec![
        "0",
        "1",
        "10",
        "42",
        "3.14159",
        "0.1",
        "0.2",
        "0.30000000000000004",
        "1.5",
        "100.0",
        "007.250",
        "123456789012345678901234567890",
        "0.000000000000000000000000000001",
        "9007199254740993",
        "9007199254740992.5",
        "2.2250738585072014",
        "17976931348623157000000000000000000000000000000000000000000000000000000000000",
        "0.00000000000000000000000000000000000000000000000000000000000000000000000049",
        "4.35",
        "8.41",
        "1.0000000000000002",
        "1.00000000000000011102230246251565404236316680908203125",
        "1.00000000000000011102230246251565404236316680908203124",
        "1.00000000000000011102230246251565404236316680908203126",
    ];
    for text in numerals.iter() {
        let expected: f64 = text.parse().unwrap();
        let actual = Scalar::from_decimal(text).expect(text);
        assert_eq!(actual.to_bits(), expected.to_bits(), "{}", text);
    }
    assert_eq!(val(Scalar::from_decimal("1.5").unwrap()), 1.5);
    let huge = "9".repeat(400);
    assert_eq!(val(Scalar::from_decimal(&huge).unwrap()), f64::INFINITY);
    let tiny = format!("0.{}1", "0".repeat(400));
    assert_eq!(val(Scalar::from_decimal(&tiny).unwrap()), 0.0);
}

#[test]
fn text_that_is_no_numeral_gives_none() {
    assert_eq!(Scalar::from_decimal(""), None);
    assert_eq!(Scalar::from_decimal("x"), None);
    assert_eq!(Scalar::from_decimal("1.2.3"), None);
}

#[test]
fn sums_depend_on_the_order_of_three_operands() {
    // Rounded addition is not associative: 2^53 + 1 rounds back to 2^53.
    let big = num(9007199254740992.0);
    let one = num(1.0);
    let neg = num(-9007199254740992.0);
    let zero = Scalar::new_zero();
    let forward = zero.plus(big).plus(one).plus(neg);
    let backward = zero.plus(neg).plus(one).plus(big);
    assert_eq!(val(forward), 0.0);
    assert_eq!(val(backward), 1.0);
}
