use float_parts::{decode, from_parts, to_parts, BIAS, MANTISSA_BITS};

fn reconstruct(x: f32) -> f32 {
    let (s, e, m) = to_parts(x.to_bits());
    let (u, p, mant) = decode(s, e, m);
    f32::from_bits(from_parts(u, p, mant).expect("normal value"))
}

fn as_reals(u: i32, p: i32, mant: u32) -> (f32, f32, f32) {
    (u as f32, 2f32.powi(p), mant as f32 / 8388608.0)
}

#[test]
fn concrete_scenario() {
    let n: f32 = 87.87;
    let (s, e, m) = to_parts(n.to_bits());
    assert_eq!(s, 0);
    assert_eq!(e, 0b10000101);
    assert_eq!(e, 133);
    let (u, p, mant) = decode(s, e, m);
    assert_eq!(u, 1);
    assert_eq!(p, 6);
    assert_eq!(mant, 0x80_0000 + m);
    let (su, ev, mv) = as_reals(u, p, mant);
    assert_eq!(su * ev * mv, n);
    let b = from_parts(u, p, mant).unwrap();
    assert_eq!(b, n.to_bits());
    assert_eq!(f32::from_bits(b), n);
}

#[test]
fn zero_mantissa_scenario() {
    let (u, p, mant) = decode(0, 128, 0);
    assert_eq!((u, p, mant), (1, 1, 0x80_0000));
    assert_eq!(as_reals(u, p, mant), (1.0, 2.0, 1.0));
    let b = from_parts(u, p, mant).unwrap();
    assert_eq!(b, 0x4000_0000);
    assert_eq!(f32::from_bits(b), 2.0);
}

#[test]
fn negative_value_scenario() {
    for &(e, m) in &[(128u32, 0u32), (133, 0x2f_bd71), (1, 0), (254, 0x7f_ffff), (100, 12345)] {
        let (up, pp, mp) = decode(0, e, m);
        let (un, pn, mn) = decode(1, e, m);
        assert_eq!((pp, mp), (pn, mn));
        let pos = from_parts(up, pp, mp).unwrap();
        let neg = from_parts(un, pn, mn).unwrap();
        assert_eq!(neg, pos | 0x8000_0000);
        assert_eq!(f32::from_bits(neg), -f32::from_bits(pos));
    }
    assert_eq!(reconstruct(-87.87), -87.87);
    assert_eq!(reconstruct(-2.0), -reconstruct(2.0));
}

#[test]
fn round_trip_on_chosen_values() {
    let values: [f32; 12] = [
        1.0,
        -1.0,
        0.1,
        -0.75,
        3.14159,
        87.87,
        1.0e-30,
        -2.5e20,
        f32::MIN_POSITIVE,
        f32::MAX,
        f32::MIN,
        f32::EPSILON,
    ];
    for &x in values.iter() {
        assert_eq!(reconstruct(x).to_bits(), x.to_bits());
    }
}

#[test]
fn round_trip_on_a_sweep_of_patterns() {
    let mut b: u32 = 0;
    let mut tried: u32 = 0;
    loop {
        let x = f32::from_bits(b);
        if x.is_normal() {
            assert_eq!(reconstruct(x).to_bits(), b);
            tried += 1;
        }
        match b.checked_add(65_537) {
            Some(n) => b = n,
            None => break,
        }
    }
    assert!(tried > 60_000);
}

#[test]
fn bit_partition_on_chosen_patterns() {
    let patterns: [u32; 9] = [
        0,
        u32::MAX,
        0x8000_0000,
        0x7f80_0000,
        0x7fc0_0000,
        0x0000_0001,
        0x007f_ffff,
        0x42af_bd71,
        0xdead_beef,
    ];
    for &b in patterns.iter() {
        let (s, e, m) = to_parts(b);
        assert!(s <= 1 && e <= 0xff && m < 0x80_0000);
        assert_eq!((s << 31) | (e << 23) | m, b);
    }
    assert_eq!(to_parts(0xdead_beef), (1, 0xbd, 0x2d_beef));
    assert_eq!(to_parts(u32::MAX), (1, 0xff, 0x7f_ffff));
    assert_eq!(to_parts(0), (0, 0, 0));
}

#[test]
fn sign_correctness() {
    for &(e, m) in &[(0u32, 0u32), (127, 1), (255, 0x7f_ffff), (33, 0x40_0000)] {
        assert_eq!(decode(0, e, m).0, 1);
        assert_eq!(decode(1, e, m).0, -1);
    }
}

#[test]
fn exponent_boundary() {
    let (_, p, _) = decode(0, 127, 0x12_3456);
    assert_eq!(p, 0);
    assert_eq!(2f32.powi(p), 1.0);
    assert_eq!(BIAS, 127);
    assert_eq!(decode(0, 0, 0).1, -127);
    assert_eq!(decode(0, 255, 0).1, 128);
}

#[test]
fn mantissa_range() {
    let mut m: u32 = 0;
    while m < 0x80_0000 {
        let (_, _, mant) = decode(0, 127, m);
        assert_eq!(mant, 0x80_0000 + m);
        let v = mant as f64 / 8388608.0;
        assert!(1.0 <= v && v < 2.0);
        m += 4099;
    }
    assert_eq!(decode(0, 127, 0).2, 0x80_0000);
    assert_eq!(decode(0, 127, 0x7f_ffff).2, 0xff_ffff);
    assert_eq!(decode(0, 127, 1).2, 0x80_0001);
    assert_eq!(MANTISSA_BITS, 23);
}

#[test]
fn each_mantissa_bit_weighs_its_power() {
    for i in 0..23u32 {
        let (_, _, mant) = decode(0, 127, 1 << i);
        assert_eq!(mant, 0x80_0000 + (1 << i));
        assert_eq!(mant as f64 / 8388608.0, 1.0 + 2f64.powi(i as i32 - 23));
    }
}

#[test]
fn reassembly_outside_the_normal_range() {
    assert_eq!(from_parts(1, -127, 0x80_0000), None);
    assert_eq!(from_parts(-1, 128, 0xff_ffff), None);
    assert_eq!(from_parts(1, i32::MIN, 0x80_0000), None);
    assert_eq!(from_parts(1, -126, 0x80_0000), Some(f32::MIN_POSITIVE.to_bits()));
    assert_eq!(from_parts(1, 127, 0xff_ffff), Some(f32::MAX.to_bits()));
    assert_eq!(from_parts(-1, 0, 0xc0_0000), Some((-1.5f32).to_bits()));
}
