use haversine::{doubles_equal, widen_single, Location};

fn from_doubles(latitude: f64, longitude: f64) -> Location {
    (latitude.to_bits(), longitude.to_bits()).into()
}

fn from_singles(latitude: f32, longitude: f32) -> Location {
    (latitude.to_bits(), longitude.to_bits()).into()
}

#[test]
fn location_from_f64() {
    let loc_tup64: Location = from_doubles(38.898556, -77.037852);
    let loc_struct = Location {
        latitude: 38.898556_f64.to_bits(),
        longitude: (-77.037852_f64).to_bits(),
    };
    assert_eq!(loc_tup64, loc_struct);
}

#[test]
fn location_from_f32() {
    let loc_tup32: Location = from_singles(38.898556_f32, -77.037852_f32);
    let loc_struct = Location {
        latitude: 38.898555755615234_f64.to_bits(),
        longitude: (-77.03784942626953_f64).to_bits(),
    };
    assert_eq!(loc_tup32, loc_struct);
}

#[test]
fn from_doubles_keeps_bits_exactly() {
    let loc = from_doubles(-0.0, f64::NAN);
    assert_eq!(loc.latitude, (-0.0_f64).to_bits());
    assert_eq!(loc.longitude, f64::NAN.to_bits());
}

#[test]
fn widening_matches_the_cast_on_finite_values() {
    let samples: Vec<f32> = vec![
        0.0,
        -0.0,
        1.0,
        -1.5,
        0.1,
        38.898556,
        -77.037852,
        90.0,
        -180.0,
        f32::MIN_POSITIVE,
        f32::MAX,
        f32::MIN,
        f32::EPSILON,
        f32::from_bits(1),
        f32::from_bits(0x8000_0001),
        f32::from_bits(0x007f_ffff),
        f32::from_bits(0x0040_0000),
        f32::from_bits(0x0000_0300),
    ];
    for x in samples {
        assert_eq!(widen_single(x.to_bits()), (x as f64).to_bits(), "{}", x);
    }
}

#[test]
fn widening_exhaustive_stride() {
    let mut bits: u32 = 0;
    loop {
        let x = f32::from_bits(bits);
        if !x.is_nan() {
            assert_eq!(widen_single(bits), (x as f64).to_bits(), "{:#x}", bits);
        }
        match bits.checked_add(65_521) {
            Some(next) => bits = next,
            None => break,
        }
    }
}

#[test]
fn widening_smallest_subnormal_is_exact() {
    // 2^-149
    assert_eq!(f64::from_bits(widen_single(1)), 2.0_f64.powi(-149));
    assert_eq!(widen_single(1), 0x36a0_0000_0000_0000);
}

#[test]
fn widening_infinities() {
    assert_eq!(widen_single(0x7f80_0000), f64::INFINITY.to_bits());
    assert_eq!(widen_single(0xff80_0000), f64::NEG_INFINITY.to_bits());
}

#[test]
fn widening_nans_are_quiet_with_the_payload_on_top() {
    assert_eq!(widen_single(0x7fc0_0000), 0x7ff8_0000_0000_0000);
    assert_eq!(widen_single(0x7f80_0001), 0x7ff8_0000_2000_0000);
    assert_eq!(widen_single(0xffc0_0001), 0xfff8_0000_2000_0000);
    assert!(f64::from_bits(widen_single(0x7f80_0001)).is_nan());
}

#[test]
fn doubles_equal_follows_float_equality() {
    let values: Vec<f64> = vec![0.0, -0.0, 1.0, -1.0, f64::NAN, f64::INFINITY, 38.898556];
    for &a in &values {
        for &b in &values {
            assert_eq!(doubles_equal(a.to_bits(), b.to_bits()), a == b, "{} {}", a, b);
        }
    }
}

#[test]
fn locations_with_signed_zeros_are_equal() {
    assert_eq!(from_doubles(0.0, -0.0), from_doubles(-0.0, 0.0));
}

#[test]
fn location_with_nan_is_not_equal_to_itself() {
    let loc = from_doubles(f64::NAN, 1.0);
    assert_ne!(loc, loc);
}

#[test]
fn locations_differing_in_one_component_are_not_equal() {
    assert_ne!(from_doubles(38.898556, -77.037852), from_doubles(38.898556, -77.043934));
    assert_ne!(from_doubles(38.898556, -77.037852), from_doubles(38.897147, -77.037852));
}

#[test]
fn single_construction_differs_from_double_construction() {
    let single = from_singles(38.898556_f32, -77.037852_f32);
    let double = from_doubles(38.898556, -77.037852);
    assert_ne!(single, double);
    assert_eq!(single.latitude, (38.898556_f32 as f64).to_bits());
}
