use pathtracer::color::{
    into_rgba8888, quantise, write_decimal, write_pixel, write_ppm, BLACK, FULL, WHITE,
};
use pathtracer::frame::Frame;

#[test]
fn write_decimal_writes_plain_numerals() {
    for (n, text) in [(0usize, "0"), (7, "7"), (10, "10"), (255, "255"), (1024, "1024"), (90017, "90017")] {
        let mut out = Vec::new();
        write_decimal(n, &mut out);
        assert_eq!(out, text.as_bytes());
    }
    let mut out = Vec::new();
    write_decimal(usize::MAX, &mut out);
    assert_eq!(out, format!("{}", usize::MAX).into_bytes());
}

#[test]
fn write_decimal_appends() {
    let mut out = b"x=".to_vec();
    write_decimal(42, &mut out);
    assert_eq!(out, b"x=42");
}

#[test]
fn write_pixel_leaves_alpha_out() {
    let mut out = Vec::new();
    write_pixel([12, 0, 255, 77], &mut out);
    assert_eq!(out, b"12 0 255\n");
}

#[test]
fn write_ppm_writes_header_and_rows() {
    let pixels = vec![[255, 0, 0, 0], [0, 128, 255, 9], WHITE, BLACK];
    let mut out = Vec::new();
    write_ppm(2, 2, &pixels, &mut out);
    assert_eq!(out, b"P3\n2 2\n255\n255 0 0\n0 128 255\n255 255 255\n0 0 0\n");
}

#[test]
fn write_ppm_of_no_pixels_is_the_header() {
    let mut out = Vec::new();
    write_ppm(640, 0, &[], &mut out);
    assert_eq!(out, b"P3\n640 0\n255\n");
}

#[test]
fn write_ppm_appends_to_what_is_there() {
    let mut out = b"# ".to_vec();
    write_ppm(1, 1, &[[1, 2, 3, 4]], &mut out);
    assert_eq!(out, b"# P3\n1 1\n255\n1 2 3\n");
}

#[test]
fn frame_new_refuses_what_does_not_fit() {
    assert_eq!(Frame::new(640, 480), Some(Frame { width: 640, height: 480 }));
    assert_eq!(Frame::new(0, usize::MAX), Some(Frame { width: 0, height: usize::MAX }));
    assert_eq!(Frame::new(usize::MAX, 2), None);
}

#[test]
fn frame_index_is_row_major() {
    let frame = Frame::new(4, 3).unwrap();
    assert_eq!(frame.len(), 12);
    assert_eq!(frame.index(0, 0), 0);
    assert_eq!(frame.index(3, 0), 3);
    assert_eq!(frame.index(0, 1), 4);
    assert_eq!(frame.index(2, 2), 10);
    assert_eq!(frame.index(3, 2), 11);
}

#[test]
fn frame_position_undoes_index() {
    let frame = Frame::new(5, 3).unwrap();
    let mut seen = vec![false; frame.len()];
    for y in 0..3 {
        for x in 0..5 {
            let i = frame.index(x, y);
            assert!(!seen[i]);
            seen[i] = true;
            assert_eq!(frame.position(i), (x, y));
        }
    }
    assert!(seen.iter().all(|s| *s));
}

#[test]
fn quantise_maps_zero_to_0_and_one_scaled_to_255() {
    assert_eq!(quantise((0.0f64 * 255.0).to_bits()), 0);
    assert_eq!(quantise((1.0f64 * 255.0).to_bits()), 255);
    assert_eq!(FULL, 255.0f64.to_bits());
}

#[test]
fn quantise_cuts_and_does_not_round() {
    assert_eq!(quantise(0.999f64.to_bits()), 0);
    assert_eq!(quantise(1.0f64.to_bits()), 1);
    assert_eq!(quantise(1.999f64.to_bits()), 1);
    assert_eq!(quantise(127.5f64.to_bits()), 127);
    assert_eq!(quantise(254.999f64.to_bits()), 254);
    assert_eq!(quantise((0.5f64 * 255.0).to_bits()), 127);
    assert_eq!(quantise(f64::from_bits(255.0f64.to_bits() - 1).to_bits()), 254);
}

#[test]
fn quantise_agrees_with_the_cast_of_the_number() {
    for k in 0..=2600 {
        let x = k as f64 / 10.0 - 2.0;
        assert_eq!(quantise(x.to_bits()), x as u8, "{x:?}");
    }
    for k in 0..=256u32 {
        let x = k as f64;
        assert_eq!(quantise(x.to_bits()), x as u8, "{x:?}");
        let below = f64::from_bits(x.to_bits().wrapping_sub(1));
        assert_eq!(quantise(below.to_bits()), below as u8, "{below:?}");
        let above = f64::from_bits(x.to_bits() + 1);
        assert_eq!(quantise(above.to_bits()), above as u8, "{above:?}");
    }
    for x in [-0.0, -1.0, -300.0, 1e300, f64::INFINITY, f64::NEG_INFINITY, f64::NAN, -f64::NAN, 5e-324, f64::MAX, f64::MIN] {
        assert_eq!(quantise(x.to_bits()), x as u8, "{x:?}");
    }
}

#[test]
fn quantise_never_falls_as_the_channel_rises() {
    let mut last = 0u8;
    for k in 0..=5200 {
        let x = k as f64 / 20.0;
        let q = quantise(x.to_bits());
        assert!(last <= q);
        last = q;
    }
    assert_eq!(last, 255);
}

#[test]
fn into_rgba8888_quantises_each_channel() {
    let scaled = [255.0f64, 127.9, 0.0, 64.0].map(|x| x.to_bits());
    assert_eq!(into_rgba8888(scaled), [255, 127, 0, 64]);
    let color = [1.0f64, 0.5, 0.25, 0.0].map(|c| (c * 255.0).to_bits());
    assert_eq!(into_rgba8888(color), [255, 127, 63, 0]);
}
