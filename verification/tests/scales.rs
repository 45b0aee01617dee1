use cvitek::scale::{effective_scale, EPSILON_BITS, INFINITY_BITS};

#[test]
fn named_patterns() {
    assert_eq!(EPSILON_BITS, f32::EPSILON.to_bits());
    assert_eq!(INFINITY_BITS, f32::INFINITY.to_bits());
}

#[test]
fn scale_is_the_larger_of_the_two() {
    let samples = [
        0.0f32,
        -0.0,
        1.0,
        -1.0,
        0.0078125,
        f32::EPSILON,
        f32::EPSILON / 2.0,
        f32::MIN_POSITIVE,
        f32::MAX,
        f32::MIN,
        f32::INFINITY,
        f32::NEG_INFINITY,
        f32::NAN,
        -f32::NAN,
        f32::from_bits(1),
        f32::from_bits(0x3400_0001),
        f32::from_bits(0x33ff_ffff),
    ];
    for s in samples {
        assert_eq!(
            effective_scale(s.to_bits()),
            s.max(f32::EPSILON).to_bits(),
            "{}",
            s
        );
    }
}

#[test]
fn scale_agrees_with_float_maximum_over_the_patterns() {
    let mut bits: u32 = 0;
    loop {
        let want = f32::from_bits(bits).max(f32::EPSILON).to_bits();
        assert_eq!(effective_scale(bits), want);
        assert_eq!(effective_scale(effective_scale(bits)), want);
        match bits.checked_add(65_521) {
            Some(next) => bits = next,
            None => break,
        }
    }
}
