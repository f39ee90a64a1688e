use image_processor::blur_plugin::{
    apply_blur, blur_fits_in, blur_once, process_image, BlurParams, BlurSample,
};
use image_processor::rgba::PluginError;
use std::cell::RefCell;

/// Linear fall-off weighting: weight `1 - dist / (radius + 1)`, weighted mean
/// rounded and clamped to a byte.
fn linear_falloff(radius: usize) -> impl Fn(Vec<BlurSample>) -> Option<(u8, u8, u8)> {
    move |samples: Vec<BlurSample>| {
        let mut sum_r: f64 = 0.0;
        let mut sum_g: f64 = 0.0;
        let mut sum_b: f64 = 0.0;
        let mut sum_w: f64 = 0.0;
        for s in &samples {
            let dist = (s.dist_sqr as f64).sqrt();
            let weight = 1.0 - dist / (radius as f64 + 1.0);
            if weight <= 0.0 {
                continue;
            }
            sum_r += s.r as f64 * weight;
            sum_g += s.g as f64 * weight;
            sum_b += s.b as f64 * weight;
            sum_w += weight;
        }
        if sum_w > 0.0 {
            Some((
                (sum_r / sum_w).round().clamp(0.0, 255.0) as u8,
                (sum_g / sum_w).round().clamp(0.0, 255.0) as u8,
                (sum_b / sum_w).round().clamp(0.0, 255.0) as u8,
            ))
        } else {
            None
        }
    }
}

#[test]
fn apply_blur_with_zero_radius_is_noop() {
    let mut buf = vec![10, 20, 30, 255, 40, 50, 60, 255];
    let original = buf.clone();

    apply_blur(&mut buf, 2, 1, 0, 1, &linear_falloff(0));

    assert_eq!(buf, original);
}

#[test]
fn blur_once_radius_one_changes_rgb() {
    let mut buf = vec![
        0, 0, 0, 255, // x=0
        255, 0, 0, 255, // x=1
        0, 0, 0, 255, // x=2
    ];

    blur_once(&mut buf, 3, 1, 1, &linear_falloff(1));

    // Edges should become non-zero due to neighbor contribution.
    assert!(buf[0] > 0);
    assert!(buf[8] > 0);
    // Center should no longer be the original full intensity.
    assert!(buf[4] < 255);
}

#[test]
fn blur_once_preserves_alpha_channel() {
    let mut buf = vec![10, 20, 30, 1, 40, 50, 60, 77, 70, 80, 90, 255];
    let alpha_before: Vec<u8> = buf.chunks_exact(4).map(|p| p[3]).collect();

    blur_once(&mut buf, 3, 1, 1, &linear_falloff(1));

    let alpha_after: Vec<u8> = buf.chunks_exact(4).map(|p| p[3]).collect();
    assert_eq!(alpha_before, alpha_after);
}

#[test]
fn blur_once_exact_values_radius_one() {
    let mut buf = vec![0, 0, 0, 255, 255, 0, 0, 255, 0, 0, 0, 255];
    blur_once(&mut buf, 3, 1, 1, &linear_falloff(1));
    // edge: 255 * 0.5 / 1.5 = 85; centre: 255 / 2 = 127.5, rounded to 128
    assert_eq!(buf, vec![85, 0, 0, 255, 128, 0, 0, 255, 85, 0, 0, 255]);
}

#[test]
fn blur_hands_circle_samples_in_row_major_order() {
    // 3x3 image, pixel value = its index; record what the centre pixel sees.
    let mut buf: Vec<u8> = Vec::new();
    for p in 0..9u8 {
        buf.extend_from_slice(&[p, 10 + p, 20 + p, 200]);
    }
    let seen: RefCell<Vec<Vec<BlurSample>>> = RefCell::new(Vec::new());
    let recorder = |samples: Vec<BlurSample>| {
        seen.borrow_mut().push(samples);
        None
    };
    let original = buf.clone();
    blur_once(&mut buf, 3, 3, 1, &recorder);
    // `None` everywhere keeps every colour.
    assert_eq!(buf, original);
    let seen = seen.into_inner();
    assert_eq!(seen.len(), 9);
    let centre: Vec<(u8, i64)> = seen[4].iter().map(|s| (s.r, s.dist_sqr)).collect();
    // radius 1: the corners (distance 2) are outside the circle
    assert_eq!(centre, vec![(1, 1), (3, 1), (4, 0), (5, 1), (7, 1)]);
    let corner: Vec<(u8, u8, u8, i64)> = seen[0].iter().map(|s| (s.r, s.g, s.b, s.dist_sqr)).collect();
    assert_eq!(corner, vec![(0, 10, 20, 0), (1, 11, 21, 1), (3, 13, 23, 1)]);
}

#[test]
fn blur_radius_two_reaches_diagonal_neighbours() {
    let mut buf = vec![0u8; 3 * 3 * 4];
    let seen: RefCell<Vec<usize>> = RefCell::new(Vec::new());
    let counter = |samples: Vec<BlurSample>| {
        seen.borrow_mut().push(samples.len());
        Some((1, 2, 3))
    };
    blur_once(&mut buf, 3, 3, 2, &counter);
    // radius 2 keeps squared distances up to 4: the centre sees all 9 pixels,
    // an edge pixel loses the two far corners (1 + 4), a corner loses those and the far corner (8)
    assert_eq!(seen.into_inner(), vec![6, 7, 6, 7, 9, 7, 6, 7, 6]);
    for p in 0..9 {
        assert_eq!(&buf[p * 4..p * 4 + 4], &[1, 2, 3, 0]);
    }
}

#[test]
fn blur_keeps_uniform_image() {
    let mut buf: Vec<u8> = Vec::new();
    for _ in 0..12 {
        buf.extend_from_slice(&[40, 80, 120, 7]);
    }
    let original = buf.clone();
    apply_blur(&mut buf, 4, 3, 2, 3, &linear_falloff(2));
    assert_eq!(buf, original);
}

#[test]
fn apply_blur_repeats_passes() {
    let start = vec![0, 0, 0, 255, 255, 0, 0, 255, 0, 0, 0, 255];
    let mut once_twice = start.clone();
    blur_once(&mut once_twice, 3, 1, 1, &linear_falloff(1));
    blur_once(&mut once_twice, 3, 1, 1, &linear_falloff(1));
    let mut twice = start.clone();
    apply_blur(&mut twice, 3, 1, 1, 2, &linear_falloff(1));
    assert_eq!(twice, once_twice);
}

#[test]
fn process_image_refuses_zero_iterations() {
    let mut buf = vec![1, 2, 3, 4];
    let params = BlurParams { radius: 1, iterations: 0 };
    assert_eq!(
        process_image(1, 1, &mut buf, &params, &linear_falloff(1)),
        Err(PluginError::ZeroIterations)
    );
    assert_eq!(buf, vec![1, 2, 3, 4]);
}

#[test]
fn blur_process_image_refuses_empty_image() {
    let mut buf: Vec<u8> = Vec::new();
    let params = BlurParams { radius: 1, iterations: 1 };
    assert_eq!(
        process_image(0, 3, &mut buf, &params, &linear_falloff(1)),
        Err(PluginError::EmptyBuffer)
    );
}

#[test]
fn process_image_blurs() {
    let mut buf = vec![0, 0, 0, 255, 255, 0, 0, 255, 0, 0, 0, 255];
    let params = BlurParams { radius: 1, iterations: 1 };
    assert_eq!(process_image(3, 1, &mut buf, &params, &linear_falloff(1)), Ok(()));
    assert_eq!(buf, vec![85, 0, 0, 255, 128, 0, 0, 255, 85, 0, 0, 255]);
}

#[test]
fn blur_fits_in_checks_sizes() {
    assert!(blur_fits_in(3, 1, 1, 12));
    assert!(!blur_fits_in(3, 1, 1, 11));
    assert!(blur_fits_in(0, 0, 5, 0));
    assert!(!blur_fits_in(1, 1, usize::MAX, 4));
    if usize::BITS == 64 {
        // a very wide single row: dx * dx overflows i64
        assert!(!blur_fits_in(4_000_000_000, 1, 4_000_000_000, 16_000_000_000));
        assert!(blur_fits_in(4_000_000_000, 1, 1, 16_000_000_000));
    }
}
