use mic_capture::quantize::quantize_sample;

fn reference(x: f32) -> i16 {
    let clamped = x.clamp(-1.0, 1.0);
    (clamped * (i16::MAX as f32)) as i16
}

#[test]
fn quantize_matches_single_precision_on_named_values() {
    let values: [f32; 16] = [
        0.0, -0.0, 1.0, -1.0, 0.5, -0.5, 0.25, 0.999_999_94, -0.999_999_94, 1.5, -2.0,
        3.0e-5, 3.1e-5, 1.0e-20, f32::MIN_POSITIVE, 0.1,
    ];
    for x in values {
        assert_eq!(quantize_sample(x.to_bits()), reference(x), "sample {x}");
    }
}

#[test]
fn quantize_special_values() {
    assert_eq!(quantize_sample(f32::NAN.to_bits()), 0);
    assert_eq!(quantize_sample((-f32::NAN).to_bits()), 0);
    assert_eq!(quantize_sample(f32::INFINITY.to_bits()), 32767);
    assert_eq!(quantize_sample(f32::NEG_INFINITY.to_bits()), -32767);
    assert_eq!(quantize_sample(f32::MAX.to_bits()), 32767);
    assert_eq!(quantize_sample(f32::MIN.to_bits()), -32767);
    assert_eq!(quantize_sample(1u32), 0);
    assert_eq!(quantize_sample(0x007f_ffff), 0);
}

#[test]
fn quantize_half_is_16383() {
    assert_eq!(quantize_sample(0.5f32.to_bits()), 16383);
    assert_eq!(quantize_sample((-0.5f32).to_bits()), -16383);
}

#[test]
fn quantize_matches_single_precision_on_a_sweep_of_bit_patterns() {
    let mut state: u64 = 0x2545_f491_4f6c_dd1d;
    let mut checked: u32 = 0;
    while checked < 400_000 {
        state = state.wrapping_mul(6364136223846793005).wrapping_add(1442695040888963407);
        let bits = (state >> 32) as u32;
        let x = f32::from_bits(bits);
        assert_eq!(quantize_sample(bits), reference(x), "bits {bits:#x}");
        checked += 1;
    }
}

#[test]
fn quantize_matches_single_precision_below_one() {
    let mut bits: u32 = 0x3700_0000;
    while bits < 0x3f80_0010 {
        let x = f32::from_bits(bits);
        assert_eq!(quantize_sample(bits), reference(x), "bits {bits:#x}");
        let negative = bits | 0x8000_0000;
        assert_eq!(quantize_sample(negative), reference(-x), "bits {negative:#x}");
        bits += 97;
    }
}

#[test]
fn quantize_matches_single_precision_around_every_step() {
    let mut k: u32 = 1;
    while k <= 32767 {
        let centre = (k as f32 / 32767.0).to_bits();
        let mut bits = centre - 4;
        while bits <= centre + 4 {
            let x = f32::from_bits(bits);
            assert_eq!(quantize_sample(bits), reference(x), "bits {bits:#x}");
            bits += 1;
        }
        k += 1;
    }
}
