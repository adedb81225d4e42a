//! Hashes of pictures, computed from the cosine transform of their samples.

use asset_shelf::phash::{
    be_of_hash, hamming_distance, hash_of_be, hash_window, perceptual_hash_gray, reliable_phash,
    AcGrid, GrayPixels, SAMPLE_EDGE,
};
use image::{GrayImage, ImageBuffer, Luma};

const SIZE: usize = 32;
const GRID: usize = 8;
const AC_ENERGY_FLOOR: f64 = 4.0;

/// An integer for each number, in the same order.
fn key(value: f64) -> i64 {
    let bits = (value + 0.0).to_bits() as i64;
    if bits < 0 {
        bits ^ i64::MAX
    } else {
        bits
    }
}

fn cosine(i: usize, k: usize) -> f64 {
    (std::f64::consts::PI * (2 * i + 1) as f64 * k as f64 / (2.0 * SIZE as f64)).cos()
}

fn coefficients(img: &GrayImage) -> (Vec<f64>, f64) {
    let mut rows = vec![vec![0f64; SIZE]; SIZE];
    for y in 0..SIZE {
        for u in 0..SIZE {
            let mut acc = 0.0;
            for x in 0..SIZE {
                acc += img.get_pixel(x as u32, y as u32)[0] as f64 * cosine(x, u);
            }
            rows[y][u] = acc;
        }
    }
    let mut values = Vec::new();
    let mut max_abs = 0f64;
    for v in 0..GRID {
        for u in 0..GRID {
            if u == 0 && v == 0 {
                continue;
            }
            let mut acc = 0.0;
            for (y, row) in rows.iter().enumerate() {
                acc += row[u] * cosine(y, v);
            }
            values.push(acc);
            max_abs = max_abs.max(acc.abs());
        }
    }
    (values, max_abs)
}

fn ac_grid(img: &GrayImage) -> AcGrid {
    let (values, max_abs) = coefficients(img);
    AcGrid { values: values.iter().map(|v| key(*v)).collect(), max_abs: key(max_abs) }
}

fn bare(img: &GrayImage) -> u64 {
    perceptual_hash_gray(&ac_grid(img))
}

fn reliable(img: &GrayImage) -> Option<u64> {
    reliable_phash(&ac_grid(img), key(AC_ENERGY_FLOOR))
}

fn structured_pattern(size: u32, shift: i16) -> GrayImage {
    ImageBuffer::from_fn(size, size, |x, y| {
        let fx = x as f64 / size as f64;
        let fy = y as f64 / size as f64;
        let v = 110.0
            + 40.0 * (std::f64::consts::TAU * 3.0 * fx).sin()
            + 25.0 * (std::f64::consts::TAU * 2.0 * fy).cos()
            + 30.0 * fx
            + shift as f64;
        Luma([v.clamp(0.0, 255.0) as u8])
    })
}

fn stripes(size: u32, period: u32, horizontal: bool) -> GrayImage {
    ImageBuffer::from_fn(size, size, |x, y| {
        let coord = if horizontal { y } else { x };
        let band = (coord / (period / 2)) % 2 == 0;
        Luma([if band { 220 } else { 35 }])
    })
}

fn flat(size: u32, value: u8, noise: i16) -> GrayImage {
    ImageBuffer::from_fn(size, size, |x, y| {
        let wobble = if noise == 0 { 0 } else { ((x + y) % 2) as i16 * noise };
        Luma([(value as i16 + wobble).clamp(0, 255) as u8])
    })
}

#[test]
fn identical_images_hash_distance_is_zero() {
    let a = bare(&structured_pattern(64, 0));
    let b = bare(&structured_pattern(64, 0));
    assert_eq!(hamming_distance(a, b), 0);
}

#[test]
fn slight_brightness_shift_stays_under_threshold() {
    let a = bare(&structured_pattern(64, 0));
    let b = bare(&structured_pattern(64, 8));
    let d = hamming_distance(a, b);
    assert!(d <= 10, "{d}");
}

#[test]
fn unrelated_patterns_exceed_threshold() {
    let a = bare(&stripes(64, 16, true));
    let b = bare(&stripes(64, 16, false));
    let d = hamming_distance(a, b);
    assert!(d >= 16, "{d}");
}

#[test]
fn hamming_distance_known_values() {
    assert_eq!(hamming_distance(0, u64::MAX), 64);
    assert_eq!(hamming_distance(0b1010, 0b0110), 2);
    assert_eq!(hamming_distance(42, 42), 0);
}

#[test]
fn flat_image_ac_energy_is_below_floor() {
    assert!(coefficients(&flat(32, 128, 0)).1 < AC_ENERGY_FLOOR);
    assert!(coefficients(&flat(32, 128, 1)).1 < AC_ENERGY_FLOOR);
    assert!(coefficients(&structured_pattern(64, 0)).1 >= AC_ENERGY_FLOOR);
    assert!(reliable(&flat(32, 20, 0)).is_none());
    assert!(reliable(&flat(32, 240, 0)).is_none());
}

#[test]
fn reliable_phash_rejects_flat_and_noisy_flat() {
    assert!(reliable(&flat(32, 128, 0)).is_none());
    assert!(reliable(&flat(32, 128, 1)).is_none());
}

#[test]
fn reliable_phash_accepts_structured_and_matches_bare_hash() {
    let img = structured_pattern(64, 0);
    assert_eq!(reliable(&img), Some(bare(&img)));
    assert!(reliable(&stripes(64, 16, true)).is_some());
}

#[test]
fn distance_is_a_metric() {
    let samples = [0u64, 1, 0xff, 0xdead_beef, u64::MAX, 1 << 63];
    for a in samples {
        for b in samples {
            assert_eq!(hamming_distance(a, b), (a ^ b).count_ones());
            assert_eq!(hamming_distance(a, b), hamming_distance(b, a));
            for c in samples {
                assert!(hamming_distance(a, c) <= hamming_distance(a, b) + hamming_distance(b, c));
            }
        }
    }
}

#[test]
fn hash_marks_what_is_above_the_median() {
    let grid = AcGrid { values: (0..63).collect(), max_abs: 62 };
    let expected: u64 = (32..63).map(|i| 1u64 << i).sum();
    assert_eq!(perceptual_hash_gray(&grid), expected);
    assert_eq!(reliable_phash(&grid, 62), Some(expected));
    assert_eq!(reliable_phash(&grid, 63), None);
}

#[test]
fn hashes_are_stored_with_the_high_byte_first() {
    let hash = 0x0102_0304_0506_0708u64;
    assert_eq!(be_of_hash(hash), hash.to_be_bytes());
    assert_eq!(hash_of_be(&hash.to_be_bytes()), Some(hash));
    assert_eq!(hash_of_be(&[1, 2, 3]), None);
}

#[test]
fn small_pictures_are_enlarged_before_they_are_hashed() {
    let edge = SAMPLE_EDGE as usize;
    let small = GrayPixels { width: 2, height: 2, pixels: vec![10, 200, 60, 90] };
    let window = hash_window(&small);
    assert_eq!(window.len(), edge * edge);
    assert_eq!(window[0], 10);
    assert_eq!(window[edge - 1], 200);
    assert_eq!(window[(edge - 1) * edge], 60);
    assert_eq!(window[edge * edge - 1], 90);

    let wide = GrayPixels {
        width: 40,
        height: 33,
        pixels: (0..40 * 33).map(|i| (i % 251) as u8).collect(),
    };
    let window = hash_window(&wide);
    for y in 0..edge {
        for x in 0..edge {
            assert_eq!(window[y * edge + x], wide.pixels[y * 40 + x]);
        }
    }
}
