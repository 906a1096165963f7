use ykcode::decimal::fixed_decimal;

fn check(b: u32) {
    let x = f32::from_bits(b);
    assert_eq!(fixed_decimal(b, 1), format!("{:.1}", x), "bits {:#010x}", b);
    assert_eq!(fixed_decimal(b, 2), format!("{:.2}", x), "bits {:#010x}", b);
    assert_eq!(fixed_decimal(b, 3), format!("{:.3}", x), "bits {:#010x}", b);
}

#[test]
fn fixed_decimals_of_chosen_values() {
    let values = [
        0.0f32, -0.0, 0.25, 0.75, 1.25, 2.5, 0.05, 0.0625, 0.1875, 0.999, 0.9995, 1.0, 24.0, 4.5,
        120.0, 50.0, 0.5, -0.01, -3.0, 1e-7, 1e-45, 3.4028235e38, -3.4028235e38, 123456.79,
        16777216.0, 0.3, 0.15, 0.35, 0.45, 0.55, 0.65, 99.95, 1e10,
    ];
    for v in values {
        check(v.to_bits());
    }
    for b in [0x7f80_0000u32, 0xff80_0000, 0x7fc0_0000, 0xffc0_0001, 0x0000_0001, 0x007f_ffff, 0x0080_0000] {
        check(b);
    }
    assert_eq!(fixed_decimal(0.25f32.to_bits(), 1), "0.2");
    assert_eq!(fixed_decimal(0.75f32.to_bits(), 1), "0.8");
    assert_eq!(fixed_decimal((-0.0f32).to_bits(), 3), "-0.000");
    assert_eq!(fixed_decimal(f32::INFINITY.to_bits(), 1), "inf");
}

#[test]
fn fixed_decimals_of_many_patterns() {
    let mut state: u64 = 0x9e37_79b9_7f4a_7c15;
    for _ in 0..150_000 {
        state ^= state << 13;
        state ^= state >> 7;
        state ^= state << 17;
        check(state as u32);
    }
    // every value with a short fraction, around the rounding points
    for i in 0..40_000u32 {
        check((i as f32 / 16.0).to_bits());
        check((i as f32 / 64.0 + 1000.0).to_bits());
    }
}
