use spectrogram::util::{encodes_no_number, intensity_color, is_less, Shade};

fn by_comparison(val: f32) -> Shade {
    if val < 0.3 {
        Shade::Blue
    } else if val < 0.4 {
        Shade::Cyan
    } else if val < 0.6 {
        Shade::Green
    } else if val < 0.8 {
        Shade::Yellow
    } else {
        Shade::Red
    }
}

fn probes() -> Vec<f32> {
    let mut values: Vec<f32> = vec![
        0.0,
        -0.0,
        f32::MIN_POSITIVE,
        -f32::MIN_POSITIVE,
        f32::from_bits(1),
        f32::from_bits(0x8000_0001),
        f32::MAX,
        f32::MIN,
        f32::INFINITY,
        f32::NEG_INFINITY,
        f32::NAN,
        f32::from_bits(0x7f80_0001),
        f32::from_bits(0xff80_0001),
        f32::from_bits(0xffff_ffff),
        f32::from_bits(0x7fff_ffff),
        1.0,
        2.0,
        -1.0,
    ];
    for threshold in [0.3f32, 0.4, 0.6, 0.8] {
        let bits = threshold.to_bits();
        values.push(f32::from_bits(bits - 1));
        values.push(threshold);
        values.push(f32::from_bits(bits + 1));
        values.push(-threshold);
    }
    for step in -300..=1300i32 {
        values.push(step as f32 / 1000.0);
    }
    values
}

#[test]
fn thresholds_belong_to_the_stronger_colour() {
    assert_eq!(intensity_color(0.3f32.to_bits()), Shade::Cyan);
    assert_eq!(intensity_color(0.4f32.to_bits()), Shade::Green);
    assert_eq!(intensity_color(0.6f32.to_bits()), Shade::Yellow);
    assert_eq!(intensity_color(0.8f32.to_bits()), Shade::Red);
}

#[test]
fn one_colour_per_band() {
    assert_eq!(intensity_color(0.0f32.to_bits()), Shade::Blue);
    assert_eq!(intensity_color(0.29f32.to_bits()), Shade::Blue);
    assert_eq!(intensity_color(0.35f32.to_bits()), Shade::Cyan);
    assert_eq!(intensity_color(0.5f32.to_bits()), Shade::Green);
    assert_eq!(intensity_color(0.7f32.to_bits()), Shade::Yellow);
    assert_eq!(intensity_color(0.9f32.to_bits()), Shade::Red);
    assert_eq!(intensity_color(2.0f32.to_bits()), Shade::Red);
}

#[test]
fn odd_intensities() {
    assert_eq!(intensity_color((-0.0f32).to_bits()), Shade::Blue);
    assert_eq!(intensity_color((-5.0f32).to_bits()), Shade::Blue);
    assert_eq!(intensity_color(f32::NEG_INFINITY.to_bits()), Shade::Blue);
    assert_eq!(intensity_color(f32::INFINITY.to_bits()), Shade::Red);
    assert_eq!(intensity_color(f32::NAN.to_bits()), Shade::Red);
    assert_eq!(intensity_color(0xffc0_0000), Shade::Red);
}

#[test]
fn colour_agrees_with_number_comparison() {
    for val in probes() {
        assert_eq!(intensity_color(val.to_bits()), by_comparison(val), "{}", val);
    }
}

#[test]
fn order_agrees_with_number_comparison() {
    let values = probes();
    for a in &values {
        for b in &values {
            assert_eq!(is_less(a.to_bits(), b.to_bits()), a < b, "{} < {}", a, b);
        }
    }
}

#[test]
fn zeros_are_equal() {
    assert!(!is_less(0x8000_0000, 0));
    assert!(!is_less(0, 0x8000_0000));
    assert!(is_less(0x8000_0001, 0));
    assert!(is_less(0x8000_0000, 1));
}

#[test]
fn patterns_that_encode_no_number() {
    for val in probes() {
        assert_eq!(encodes_no_number(val.to_bits()), val.is_nan(), "{}", val);
    }
    assert!(!encodes_no_number(0x7f80_0000));
    assert!(encodes_no_number(0x7f80_0001));
    assert!(!encodes_no_number(0xff80_0000));
    assert!(encodes_no_number(0xff80_0001));
}
