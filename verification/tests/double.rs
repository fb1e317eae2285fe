use ljbox::double::{signe, Double};

fn d(x: f64) -> Double {
    Double { bits: x.to_bits() }
}

fn samples() -> Vec<f64> {
    vec![
        0.0,
        -0.0,
        1.0,
        -1.0,
        0.5,
        3.0,
        100.0,
        -100.0,
        f64::MIN_POSITIVE,
        -f64::MIN_POSITIVE,
        5e-324,
        -5e-324,
        2.2250738585072009e-308,
        f64::MAX,
        f64::MIN,
        f64::INFINITY,
        f64::NEG_INFINITY,
        f64::NAN,
        -f64::NAN,
        1.0000000000000002,
        0.9999999999999999,
        1e-16,
        42.0,
    ]
}

#[test]
fn comparisons_agree_with_hardware_on_samples() {
    for a in samples() {
        for b in samples() {
            assert_eq!(d(a).below(d(b)), a < b, "{} < {}", a, b);
            assert_eq!(d(a).equals(d(b)), a == b, "{} == {}", a, b);
            assert_eq!(d(a).at_most(d(b)), a <= b, "{} <= {}", a, b);
        }
    }
}

#[test]
fn comparisons_agree_with_hardware_on_neighbouring_encodings() {
    let anchors: [u64; 6] = [
        0x0000_0000_0000_0001,
        0x000f_ffff_ffff_ffff,
        0x0010_0000_0000_0000,
        0x3ff0_0000_0000_0000,
        0x7fef_ffff_ffff_ffff,
        0x7ff0_0000_0000_0000,
    ];
    for anchor in anchors {
        for low in [anchor - 1, anchor, anchor + 1] {
            for high in [anchor - 1, anchor, anchor + 1] {
                for sign in [0u64, 0x8000_0000_0000_0000] {
                    let a = f64::from_bits(low | sign);
                    let b = f64::from_bits(high);
                    assert_eq!(d(a).below(d(b)), a < b, "{:e} < {:e}", a, b);
                    assert_eq!(d(b).below(d(a)), b < a, "{:e} < {:e}", b, a);
                    assert_eq!(d(a).equals(d(b)), a == b, "{:e} == {:e}", a, b);
                }
            }
        }
    }
}

#[test]
fn not_a_number_equals_nothing() {
    let nan = d(f64::NAN);
    assert!(!nan.equals(nan));
    assert!(!nan.below(nan));
    assert!(!nan.at_most(nan));
    assert!(nan.is_nan());
    assert!(!d(f64::INFINITY).is_nan());
    assert!(!d(1.0).is_nan());
}

#[test]
fn both_zeros_are_zero_and_equal() {
    assert!(d(0.0).is_zero());
    assert!(d(-0.0).is_zero());
    assert!(d(0.0).equals(d(-0.0)));
    assert!(!d(-0.0).below(d(0.0)));
    assert!(!d(5e-324).is_zero());
    assert!(!d(f64::NAN).is_zero());
}

#[test]
fn abs_and_neg_agree_with_hardware() {
    for a in samples() {
        assert_eq!(d(a).abs().bits, a.abs().to_bits(), "abs {}", a);
        assert_eq!(d(a).neg().bits, (-a).to_bits(), "neg {}", a);
    }
}

#[test]
fn abs_and_neg_exact_encodings() {
    assert_eq!(d(-3.0).abs().bits, 0x4008_0000_0000_0000);
    assert_eq!(d(3.0).neg().bits, 0xc008_0000_0000_0000);
    assert_eq!(d(0.0).neg().bits, 0x8000_0000_0000_0000);
}

fn signe_in_floats(a: f64, b: f64) -> f64 {
    if b >= 0.0 {
        a.abs()
    } else {
        -a.abs()
    }
}

#[test]
fn signe_agrees_with_float_formula() {
    for a in samples() {
        for b in samples() {
            assert_eq!(signe(d(a), d(b)).bits, signe_in_floats(a, b).to_bits(), "signe({}, {})", a, b);
        }
    }
}

#[test]
fn signe_edge_cases() {
    assert_eq!(signe(d(1.0), d(0.0)).bits, 1.0f64.to_bits());
    assert_eq!(signe(d(1.0), d(-0.0)).bits, 1.0f64.to_bits());
    assert_eq!(signe(d(-1.0), d(2.5)).bits, 1.0f64.to_bits());
    assert_eq!(signe(d(1.0), d(-2.5)).bits, (-1.0f64).to_bits());
    assert_eq!(signe(d(1.0), d(f64::NAN)).bits, (-1.0f64).to_bits());
    assert_eq!(signe(d(1.0), d(-1e-300)).bits, (-1.0f64).to_bits());
}
