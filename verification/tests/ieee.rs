use bioristor_lib::ieee;

fn samples() -> Vec<f32> {
    vec![
        0.0,
        -0.0,
        f32::MIN_POSITIVE,
        -f32::MIN_POSITIVE,
        f32::from_bits(1),
        f32::from_bits(0x8000_0001),
        f32::EPSILON,
        0.1,
        0.5,
        -0.5,
        1.0,
        -1.0,
        1.5,
        2.0,
        -2.0,
        1e-3,
        1e-6,
        1e9,
        -1e9,
        f32::MAX,
        f32::MIN,
        f32::INFINITY,
        f32::NEG_INFINITY,
        f32::NAN,
        -f32::NAN,
        f32::from_bits(0x7f80_0001),
        f32::from_bits(0xffff_ffff),
    ]
}

#[test]
fn constants_are_the_patterns_of_their_values() {
    assert_eq!(ieee::ZERO, 0.0f32.to_bits());
    assert_eq!(ieee::ONE_HALF, 0.5f32.to_bits());
    assert_eq!(ieee::INFINITY, f32::INFINITY.to_bits());
    assert_eq!(ieee::NEG_INFINITY, f32::NEG_INFINITY.to_bits());
    assert_eq!(ieee::SIGN_BIT, (-0.0f32).to_bits());
}

#[test]
fn classification_agrees_with_the_values() {
    for x in samples() {
        assert_eq!(ieee::is_nan(x.to_bits()), x.is_nan(), "is_nan of {:?}", x);
        assert_eq!(ieee::is_finite(x.to_bits()), x.is_finite(), "is_finite of {:?}", x);
    }
}

#[test]
fn abs_agrees_with_the_values() {
    for x in samples() {
        assert_eq!(ieee::abs(x.to_bits()), x.abs().to_bits(), "abs of {:?}", x);
    }
    assert_eq!(ieee::abs((-2.5f32).to_bits()), 2.5f32.to_bits());
    assert_eq!(ieee::abs(2.5f32.to_bits()), 2.5f32.to_bits());
}

#[test]
fn comparisons_agree_with_the_values() {
    for a in samples() {
        for b in samples() {
            assert_eq!(ieee::lt(a.to_bits(), b.to_bits()), a < b, "{:?} < {:?}", a, b);
            assert_eq!(ieee::gt(a.to_bits(), b.to_bits()), a > b, "{:?} > {:?}", a, b);
        }
    }
}

#[test]
fn the_two_zeros_are_equal() {
    let positive = 0.0f32.to_bits();
    let negative = (-0.0f32).to_bits();
    assert!(!ieee::lt(positive, negative));
    assert!(!ieee::lt(negative, positive));
}

#[test]
fn nothing_compares_with_a_nan() {
    let nan = f32::NAN.to_bits();
    for x in samples() {
        assert!(!ieee::lt(nan, x.to_bits()));
        assert!(!ieee::lt(x.to_bits(), nan));
        assert!(!ieee::gt(nan, x.to_bits()));
        assert!(!ieee::gt(x.to_bits(), nan));
    }
}

#[test]
fn the_order_is_transitive_on_the_samples() {
    for a in samples() {
        for b in samples() {
            for c in samples() {
                if ieee::lt(a.to_bits(), b.to_bits()) && ieee::lt(b.to_bits(), c.to_bits()) {
                    assert!(ieee::lt(a.to_bits(), c.to_bits()));
                }
            }
        }
    }
}

#[test]
fn finite_values_lie_between_the_infinities() {
    for x in samples() {
        if ieee::is_finite(x.to_bits()) {
            assert!(ieee::lt(x.to_bits(), ieee::INFINITY));
            assert!(ieee::lt(ieee::NEG_INFINITY, x.to_bits()));
        }
    }
}
