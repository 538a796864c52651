use netgame::misc::scalar::{
    differs, halved, is_nan, is_zero, magnitude, same_number, whole, ONE, ZERO,
};

fn samples() -> Vec<u32> {
    let mut bits = vec![
        0u32,
        1,
        2,
        3,
        4,
        5,
        6,
        7,
        0x0000_ffff,
        0x007f_fffe,
        0x007f_ffff,
        0x0080_0000,
        0x0080_0001,
        0x0080_0002,
        0x0080_0003,
        0x00ff_fffe,
        0x00ff_ffff,
        0x0100_0000,
        0x0100_0001,
        0x3f00_0000,
        0x3f80_0000,
        0x4000_0000,
        0x447a_0000,
        0x7f7f_ffff,
        0x7f80_0000,
        0x7f80_0001,
        0x7fc0_0000,
        0x7fff_ffff,
    ];
    let mut state: u32 = 0x1234_5678;
    for _ in 0..20_000 {
        state ^= state << 13;
        state ^= state >> 17;
        state ^= state << 5;
        bits.push(state);
    }
    let signed: Vec<u32> = bits.iter().map(|b| b | 0x8000_0000).collect();
    bits.extend(signed);
    bits
}

#[test]
fn halving_agrees_with_the_machine() {
    for bits in samples() {
        let number = f32::from_bits(bits);
        let half = f32::from_bits(halved(bits));
        if number.is_nan() {
            assert!(half.is_nan());
        } else {
            assert_eq!(halved(bits), (number * 0.5).to_bits(), "halving {:#010x}", bits);
        }
    }
}

#[test]
fn halving_known_values() {
    assert_eq!(halved(1000.0f32.to_bits()), 500.0f32.to_bits());
    assert_eq!(halved((-3.0f32).to_bits()), (-1.5f32).to_bits());
    assert_eq!(halved(ZERO), ZERO);
    assert_eq!(halved((-0.0f32).to_bits()), (-0.0f32).to_bits());
    assert_eq!(halved(f32::INFINITY.to_bits()), f32::INFINITY.to_bits());
    assert_eq!(halved(1), 0);
    assert_eq!(halved(3), 2);
    assert_eq!(halved(5), 2);
    assert_eq!(halved(0x00ff_ffff), 0x0080_0000);
    assert_eq!(halved(ONE), 0.5f32.to_bits());
}

#[test]
fn comparison_agrees_with_the_machine() {
    let all = samples();
    for pair in all.windows(2) {
        let (a, b) = (pair[0], pair[1]);
        let (x, y) = (f32::from_bits(a), f32::from_bits(b));
        assert_eq!(same_number(a, b), x == y);
        assert_eq!(differs(a, b), x != y);
        assert_eq!(same_number(a, a), x == x);
        assert_eq!(is_nan(a), x.is_nan());
        assert_eq!(is_zero(a), x == 0.0);
        assert_eq!(magnitude(a), x.abs().to_bits());
    }
}

#[test]
fn zeros_are_equal_and_nan_is_not() {
    assert!(same_number(0.0f32.to_bits(), (-0.0f32).to_bits()));
    assert!(!differs(0.0f32.to_bits(), (-0.0f32).to_bits()));
    assert!(differs(f32::NAN.to_bits(), f32::NAN.to_bits()));
    assert!(!same_number(f32::NAN.to_bits(), 1.0f32.to_bits()));
    assert!(same_number(ONE, 1.0f32.to_bits()));
    assert!(differs(ONE, ZERO));
}

#[test]
fn whole_numbers_agree_with_the_machine() {
    for number in -3000..3000 {
        assert_eq!(whole(number), (number as f32).to_bits(), "pattern of {}", number);
    }
    for number in [
        0x00ff_ffff,
        -0x00ff_ffff,
        0x0080_0000,
        0x0080_0001,
        0x007f_ffff,
        65535,
        65536,
        -65537,
        1 << 20,
    ] {
        assert_eq!(whole(number), (number as f32).to_bits(), "pattern of {}", number);
    }
    assert_eq!(whole(0), ZERO);
    assert_eq!(whole(1), ONE);
    assert_eq!(whole(800), 0x4448_0000);
    assert_eq!(whole(-10), 0xC120_0000);
}
