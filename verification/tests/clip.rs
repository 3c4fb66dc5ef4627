use rat_distortion::clip::{bits_finite, bits_order_key, sanitize, CLIP_N};

fn bits(v: &[f32]) -> Vec<u32> {
    v.iter().map(|x| x.to_bits()).collect()
}

#[test]
fn bits_finite_agrees_with_float_finiteness() {
    for x in [0.0f32, -0.0, 1.5, -4.5, f32::MIN, f32::MAX, f32::MIN_POSITIVE] {
        assert!(bits_finite(x.to_bits()), "{x} should be finite");
    }
    for x in [f32::NAN, f32::INFINITY, f32::NEG_INFINITY] {
        assert!(!bits_finite(x.to_bits()), "{x} should not be finite");
    }
}

#[test]
fn order_key_sorts_bit_patterns_as_floats() {
    let ordered = [-3.5f32, -1.0, -0.5, 0.5, 1.0, 2.25];
    for w in ordered.windows(2) {
        assert!(bits_order_key(w[0].to_bits()) < bits_order_key(w[1].to_bits()));
    }
}

#[test]
fn sanitize_keeps_finite_entries() {
    let mut t = bits(&[f32::NAN, -2.0, 1.0, f32::INFINITY, 3.0, f32::NAN]);
    let before = t.clone();
    sanitize(&mut t);
    for i in [1usize, 2, 4] {
        assert_eq!(t[i], before[i]);
    }
}

#[test]
fn sanitize_replaces_lower_half_with_min_and_upper_half_with_max() {
    let mut t = bits(&[f32::NAN, -2.0, 1.0, f32::INFINITY, 3.0, f32::NAN]);
    sanitize(&mut t);
    // Lower half (indices 0..3) falls to the least finite entry, -2.0.
    assert_eq!(f32::from_bits(t[0]), -2.0);
    // Upper half (indices 3..6) rises to the greatest finite entry, 3.0.
    assert_eq!(f32::from_bits(t[3]), 3.0);
    assert_eq!(f32::from_bits(t[5]), 3.0);
    assert!(t.iter().all(|&b| bits_finite(b)));
    assert!(t.iter().all(|&b| f32::from_bits(b).is_finite()));
}

#[test]
fn sanitize_minimum_respects_float_sign_order() {
    // A plain unsigned comparison of the bit patterns would call 1.0 the
    // minimum here; the float order puts -2.0 below it.
    let mut t = bits(&[f32::NAN, 1.0, -2.0, 4.0]);
    sanitize(&mut t);
    assert_eq!(f32::from_bits(t[0]), -2.0);
}

#[test]
fn sanitize_stays_within_finite_extremes() {
    let raw = [f32::NAN, -2.0f32, 1.0, f32::INFINITY, 3.0, f32::NEG_INFINITY];
    let mut t = bits(&raw);
    sanitize(&mut t);
    let finite: Vec<f32> = raw.iter().copied().filter(|x| x.is_finite()).collect();
    let min = finite.iter().copied().fold(f32::INFINITY, f32::min);
    let max = finite.iter().copied().fold(f32::NEG_INFINITY, f32::max);
    for &b in &t {
        let v = f32::from_bits(b);
        assert!(min <= v && v <= max);
    }
}

#[test]
fn sanitize_without_finite_entries_falls_back_to_zero() {
    let mut t = bits(&[f32::NAN, f32::INFINITY, f32::NEG_INFINITY, f32::NAN]);
    sanitize(&mut t);
    for &b in &t {
        assert_eq!(f32::from_bits(b), 0.0);
    }
}

#[test]
fn sanitize_of_empty_table_is_empty() {
    let mut t: Vec<u32> = Vec::new();
    sanitize(&mut t);
    assert!(t.is_empty());
}

#[test]
fn sanitize_full_size_table() {
    // A table of the real size with overflowed samples at both edges.
    let mut t: Vec<u32> = Vec::with_capacity(CLIP_N);
    for i in 0..CLIP_N {
        let x = if i < 3 {
            f32::NEG_INFINITY
        } else if i >= CLIP_N - 3 {
            f32::INFINITY
        } else {
            (i as f32) / (CLIP_N as f32) - 0.5
        };
        t.push(x.to_bits());
    }
    sanitize(&mut t);
    assert!(t.iter().all(|&b| bits_finite(b)));
    let min = (3.0f32) / (CLIP_N as f32) - 0.5;
    let max = ((CLIP_N - 4) as f32) / (CLIP_N as f32) - 0.5;
    assert_eq!(f32::from_bits(t[0]), min);
    assert_eq!(f32::from_bits(t[CLIP_N - 1]), max);
}
