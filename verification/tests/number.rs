use bacnet_rs::number::{Double, Real};

const SPECIAL: [u32; 16] = [
    0x0000_0000, // 0
    0x8000_0000, // -0
    0x0000_0001, // the smallest number
    0x007f_ffff, // the largest subnormal number
    0x0080_0000, // the smallest normal number
    0x3f80_0000, // 1
    0xbf80_0000, // -1
    0x3f80_0001, // just above 1
    0x3400_0000, // the distance from 1 to the next number
    0x4b80_0000, // 2^24
    0x7f7f_ffff, // the largest number
    0xff7f_ffff,
    0x7f80_0000, // infinity
    0xff80_0000,
    0x7fc0_0000, // not a number
    0x41c8_0000, // 25
];

fn samples() -> Vec<u32> {
    let mut samples = SPECIAL.to_vec();
    let mut state: u32 = 12345;
    for _ in 0..200 {
        state = state.wrapping_mul(1_664_525).wrapping_add(1_013_904_223);
        samples.push(state);
        // Close neighbours, whose difference is exact or cancels.
        samples.push(state ^ 1);
    }
    samples
}

fn agree(ours: Real, theirs: f32) -> bool {
    if theirs.is_nan() {
        f32::from_bits(ours.to_bits()).is_nan()
    } else {
        ours.to_bits() == theirs.to_bits()
    }
}

#[test]
fn differences_and_sums_are_those_of_the_hardware() {
    let samples = samples();
    for &a in &samples {
        for &b in &samples {
            let (x, y) = (f32::from_bits(a), f32::from_bits(b));
            let (ours_x, ours_y) = (Real::from_bits(a), Real::from_bits(b));
            assert!(agree(ours_x.minus(ours_y), x - y), "{x} - {y}");
            assert!(agree(ours_x.plus(ours_y), x + y), "{x} + {y}");
        }
    }
}

#[test]
fn comparisons_are_those_of_the_hardware() {
    let samples = samples();
    for &a in &samples {
        for &b in &samples {
            let (x, y) = (f32::from_bits(a), f32::from_bits(b));
            let (ours_x, ours_y) = (Real::from_bits(a), Real::from_bits(b));
            assert_eq!(ours_x.is_below(ours_y), x < y);
            assert_eq!(ours_x.equals(ours_y), x == y);
            assert_eq!(ours_x.is_at_least(ours_y), x >= y);
            assert_eq!(ours_x == ours_y, x == y);
            assert_eq!(ours_x.is_near(ours_y), (x - y).abs() < f32::EPSILON);
        }
        assert_eq!(
            Real::from_bits(a).absolute().to_bits(),
            f32::from_bits(a).abs().to_bits()
        );
    }
}

#[test]
fn doubles_are_near_where_the_hardware_says_so() {
    let near_one = 1.0f64.to_bits();
    let mut samples = vec![
        0.0f64.to_bits(),
        (-0.0f64).to_bits(),
        near_one,
        near_one + 1,
        near_one + 2,
        near_one - 1,
        1e-300f64.to_bits(),
        1e300f64.to_bits(),
        f64::INFINITY.to_bits(),
        f64::NEG_INFINITY.to_bits(),
        f64::NAN.to_bits(),
        f64::EPSILON.to_bits(),
        f64::EPSILON.to_bits() - 1,
        f64::EPSILON.to_bits() + 1,
        21.5f64.to_bits(),
        1u64,
    ];
    for bits in samples.clone() {
        samples.push(bits ^ (1 << 63));
    }
    for &a in &samples {
        for &b in &samples {
            let (x, y) = (f64::from_bits(a), f64::from_bits(b));
            let (ours_x, ours_y) = (Double::from_bits(a), Double::from_bits(b));
            assert_eq!(
                ours_x.is_near(ours_y),
                (x - y).abs() < f64::EPSILON,
                "{x} and {y}"
            );
            assert_eq!(ours_x.equals(ours_y), x == y);
        }
    }
}
