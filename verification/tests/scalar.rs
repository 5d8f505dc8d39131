use learn_vk::scalar::{less_than, not_a_number, INFINITY, ONE, SIGN_BIT, ZERO};

fn samples() -> Vec<u32> {
    let mut patterns = vec![
        0.0f32.to_bits(),
        (-0.0f32).to_bits(),
        1.0f32.to_bits(),
        (-1.0f32).to_bits(),
        0.999_999_94f32.to_bits(),
        1.000_000_1f32.to_bits(),
        2.4f32.to_bits(),
        100.0f32.to_bits(),
        (-190.0f32).to_bits(),
        f32::MIN_POSITIVE.to_bits(),
        (-f32::MIN_POSITIVE).to_bits(),
        1,
        0x8000_0001,
        0x007f_ffff,
        0x807f_ffff,
        f32::MAX.to_bits(),
        f32::MIN.to_bits(),
        f32::INFINITY.to_bits(),
        f32::NEG_INFINITY.to_bits(),
        f32::NAN.to_bits(),
        0x7f80_0001,
        0x7fff_ffff,
        0xff80_0001,
        0xffff_ffff,
        f32::EPSILON.to_bits(),
    ];
    let mut state: u32 = 0x1234_5678;
    for _ in 0..400 {
        state = state.wrapping_mul(1_664_525).wrapping_add(1_013_904_223);
        patterns.push(state);
    }
    patterns
}

#[test]
fn the_constants_are_the_bit_patterns_of_their_numbers() {
    assert_eq!(ZERO, 0.0f32.to_bits());
    assert_eq!(ONE, 1.0f32.to_bits());
    assert_eq!(INFINITY, f32::INFINITY.to_bits());
    assert_eq!(SIGN_BIT, (-0.0f32).to_bits());
}

#[test]
fn less_than_orders_bit_patterns_as_the_numbers_are_ordered() {
    let patterns = samples();
    for &left in &patterns {
        for &right in &patterns {
            assert_eq!(
                less_than(left, right),
                f32::from_bits(left) < f32::from_bits(right),
                "{:#010x} < {:#010x}",
                left,
                right
            );
        }
    }
}

#[test]
fn not_a_number_knows_every_sample() {
    for bits in samples() {
        assert_eq!(not_a_number(bits), f32::from_bits(bits).is_nan(), "{:#010x}", bits);
    }
}

#[test]
fn the_two_zeros_are_equal() {
    assert!(!less_than(0x8000_0000, 0));
    assert!(!less_than(0, 0x8000_0000));
}

#[test]
fn nothing_is_less_than_what_is_no_number() {
    let nan = f32::NAN.to_bits();
    assert!(!less_than(nan, ONE));
    assert!(!less_than(ONE, nan));
    assert!(!less_than(nan, nan));
    assert!(!less_than(f32::NEG_INFINITY.to_bits(), nan));
}

#[test]
fn the_infinities_are_the_ends() {
    let up = f32::INFINITY.to_bits();
    let down = f32::NEG_INFINITY.to_bits();
    assert!(less_than(down, f32::MIN.to_bits()));
    assert!(less_than(f32::MAX.to_bits(), up));
    assert!(less_than(down, up));
    assert!(!less_than(up, up));
}
