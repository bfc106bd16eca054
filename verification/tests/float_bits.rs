use flow_linux::float_bits::{at_least_zero, finite, le, lt, nan};

fn samples() -> Vec<f64> {
    vec![
        0.0,
        -0.0,
        1.0,
        -1.0,
        0.35,
        220.0,
        -1e300,
        1e-310,
        -1e-310,
        f64::MAX,
        f64::MIN,
        f64::INFINITY,
        f64::NEG_INFINITY,
        f64::NAN,
        -f64::NAN,
    ]
}

#[test]
fn comparisons_agree_with_f64() {
    for a in samples() {
        for b in samples() {
            assert_eq!(lt(a.to_bits(), b.to_bits()), a < b, "{a} < {b}");
            assert_eq!(le(a.to_bits(), b.to_bits()), a <= b, "{a} <= {b}");
        }
        assert_eq!(nan(a.to_bits()), a.is_nan());
        assert_eq!(finite(a.to_bits()), a.is_finite());
    }
}

#[test]
fn clamping_matches_max_with_zero() {
    for a in samples() {
        let clamped = f64::from_bits(at_least_zero(a.to_bits()));
        assert_eq!(clamped, a.max(0.0));
    }
}
