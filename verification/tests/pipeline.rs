use lanebench::dispatch::{
    dispatch_mandel, dispatch_sqrt, pixel_coords, pixel_index, reassemble, reassemble_scalars,
    run_mandel, run_sqrt,
};
use lanebench::lane::{ComplexLane, LaneValue, LaneWidth, SizingError};

fn fadd(a: u32, b: u32) -> u32 {
    (f32::from_bits(a) + f32::from_bits(b)).to_bits()
}

fn fsub(a: u32, b: u32) -> u32 {
    (f32::from_bits(a) - f32::from_bits(b)).to_bits()
}

fn fmul(a: u32, b: u32) -> u32 {
    (f32::from_bits(a) * f32::from_bits(b)).to_bits()
}

fn fsqrt(x: u32) -> u32 {
    f32::from_bits(x).sqrt().to_bits()
}

/// Pixel index -> viewport coordinates, as the harness generates them:
/// row-major order, each axis scaled to [-2.0, 2.0).
fn generate_points(width: usize, height: usize) -> Vec<(u32, u32)> {
    let mut points: Vec<(u32, u32)> = Vec::new();
    for i in 0..width * height {
        let (x, y) = pixel_coords(i, width);
        let re = ((x as f32) / (width as f32)) * 4.0 - 2.0;
        let im = ((y as f32) / (height as f32)) * 4.0 - 2.0;
        points.push((re.to_bits(), im.to_bits()));
    }
    points
}

/// The escape-time update on plain scalars, written independently of the
/// library: z <- z*z + c for `iters` steps from zero.
fn scalar_mandel(c: (f32, f32), iters: usize) -> (f32, f32) {
    let (cr, ci) = c;
    let (mut zr, mut zi) = (0.0f32, 0.0f32);
    for _ in 0..iters {
        let new_r = zr * zr - zi * zi + cr;
        let new_i = zr * zi + zi * zr + ci;
        zr = new_r;
        zi = new_i;
    }
    (zr, zi)
}

#[test]
fn lane_width_lane_counts() {
    assert_eq!(LaneWidth::W1.lanes(), 1);
    assert_eq!(LaneWidth::W2.lanes(), 2);
    assert_eq!(LaneWidth::W4.lanes(), 4);
    assert_eq!(LaneWidth::W8.lanes(), 8);
}

#[test]
fn sizing_error_on_indivisible_length() {
    // L = 10, W = 4 must fail fast, not yield 8 or 12 results.
    let values: Vec<u32> = (0..10u32).map(|x| (x as f32).to_bits()).collect();
    let r = run_sqrt(&values, LaneWidth::W4, &fsqrt);
    assert_eq!(r, Err(SizingError { len: 10, width: 4 }));

    let points: Vec<(u32, u32)> = vec![(0, 0); 10];
    let r = run_mandel(&points, LaneWidth::W4, 3, &fadd, &fsub, &fmul);
    assert_eq!(r, Err(SizingError { len: 10, width: 4 }));

    let r = dispatch_sqrt(&values, LaneWidth::W8, &fsqrt);
    assert_eq!(r, Err(SizingError { len: 10, width: 8 }));
}

#[test]
fn sizing_accepts_divisible_lengths() {
    let values: Vec<u32> = (0..16u32).map(|x| (x as f32).to_bits()).collect();
    for w in [LaneWidth::W1, LaneWidth::W2, LaneWidth::W4, LaneWidth::W8] {
        let out = run_sqrt(&values, w, &fsqrt).unwrap();
        assert_eq!(out.len(), 16);
    }
}

#[test]
fn empty_input_is_divisible_by_every_width() {
    let values: Vec<u32> = Vec::new();
    for w in [LaneWidth::W1, LaneWidth::W2, LaneWidth::W4, LaneWidth::W8] {
        assert_eq!(run_sqrt(&values, w, &fsqrt).unwrap(), Vec::<u32>::new());
    }
}

#[test]
fn sqrt_scalar_values() {
    // sqrt of [0, 1, 4, 9, -1] at width 1: [0, 1, 2, 3, NaN].
    let values: Vec<u32> = [0.0f32, 1.0, 4.0, 9.0, -1.0].iter().map(|v| v.to_bits()).collect();
    let out = run_sqrt(&values, LaneWidth::W1, &fsqrt).unwrap();
    assert_eq!(out.len(), 5);
    assert_eq!(f32::from_bits(out[0]), 0.0);
    assert_eq!(f32::from_bits(out[1]), 1.0);
    assert_eq!(f32::from_bits(out[2]), 2.0);
    assert_eq!(f32::from_bits(out[3]), 3.0);
    assert!(f32::from_bits(out[4]).is_nan());
}

#[test]
fn sqrt_negative_lane_does_not_disturb_its_chunk() {
    // A NaN-producing lane inside a wide chunk leaves the other lanes exact.
    let values: Vec<u32> =
        [0.0f32, 1.0, 4.0, 9.0, -1.0, 16.0, 25.0, 36.0].iter().map(|v| v.to_bits()).collect();
    for w in [LaneWidth::W2, LaneWidth::W4, LaneWidth::W8] {
        let out = run_sqrt(&values, w, &fsqrt).unwrap();
        assert_eq!(f32::from_bits(out[3]), 3.0);
        assert!(f32::from_bits(out[4]).is_nan());
        assert_eq!(f32::from_bits(out[5]), 4.0);
        assert_eq!(f32::from_bits(out[7]), 6.0);
    }
}

#[test]
fn sqrt_width_independence_bit_identical() {
    // Results from width 1, 2, 4 and 8 dispatch are bit-identical per element.
    let values: Vec<u32> = [
        0.0f32, 1.0, 2.0, 0.5, 0.25, 10.0, 1.0e-30, 1.0e30, 3.1415927, 2.7182818, 123456.78,
        0.003, 7.0, 49.0, 144.0, 1.0e-40,
    ]
    .iter()
    .map(|v| v.to_bits())
    .collect();
    let base = run_sqrt(&values, LaneWidth::W1, &fsqrt).unwrap();
    for w in [LaneWidth::W2, LaneWidth::W4, LaneWidth::W8] {
        let out = run_sqrt(&values, w, &fsqrt).unwrap();
        assert_eq!(out, base);
    }
}

#[test]
fn mandel_width_independence_bit_identical() {
    // The per-lane escape-time results agree bit for bit across widths.
    let points = generate_points(4, 4);
    let base = run_mandel(&points, LaneWidth::W1, 20, &fadd, &fsub, &fmul).unwrap();
    for w in [LaneWidth::W2, LaneWidth::W4, LaneWidth::W8] {
        let out = run_mandel(&points, w, 20, &fadd, &fsub, &fmul).unwrap();
        assert_eq!(out, base);
    }
}

#[test]
fn mandel_concrete_grid_scenario() {
    // 4x4 grid, 5 iterations, lane width 4 against scalar dispatch: 16
    // results; the pixels at index 0 (plane (-2,-2)) and index 8 (pixel
    // (0,2), plane (-2,0)) agree between the two dispatches.
    let points = generate_points(4, 4);
    assert_eq!(points.len(), 16);
    assert_eq!(f32::from_bits(points[0].0), -2.0);
    assert_eq!(f32::from_bits(points[0].1), -2.0);
    assert_eq!(f32::from_bits(points[8].0), -2.0);
    assert_eq!(f32::from_bits(points[8].1), 0.0);
    let scalar = run_mandel(&points, LaneWidth::W1, 5, &fadd, &fsub, &fmul).unwrap();
    let vector = run_mandel(&points, LaneWidth::W4, 5, &fadd, &fsub, &fmul).unwrap();
    assert_eq!(scalar.len(), 16);
    assert_eq!(vector.len(), 16);
    assert_eq!(scalar[0], vector[0]);
    assert_eq!(scalar[8], vector[8]);
    // And both match an independent scalar computation of z*z + c.
    for i in 0..16 {
        let c = (f32::from_bits(points[i].0), f32::from_bits(points[i].1));
        let (zr, zi) = scalar_mandel(c, 5);
        assert_eq!(zr.to_bits(), vector[i].0);
        assert_eq!(zi.to_bits(), vector[i].1);
    }
}

#[test]
fn mandel_zero_iterations_stays_at_zero() {
    let points = generate_points(2, 2);
    let out = run_mandel(&points, LaneWidth::W2, 0, &fadd, &fsub, &fmul).unwrap();
    for &(re, im) in &out {
        assert_eq!(f32::from_bits(re), 0.0);
        assert_eq!(f32::from_bits(im), 0.0);
    }
}

#[test]
fn mandel_one_iteration_preserves_order() {
    // One update from zero lands exactly on c, so a single-iteration run
    // returns the input points in order: output index i is input index i,
    // whatever the width.
    let mut points: Vec<(u32, u32)> = Vec::new();
    for i in 0..16u32 {
        points.push(((i as f32 * 0.125 - 1.0).to_bits(), (i as f32 * 0.0625).to_bits()));
    }
    for w in [LaneWidth::W1, LaneWidth::W2, LaneWidth::W4, LaneWidth::W8] {
        let out = run_mandel(&points, w, 1, &fadd, &fsub, &fmul).unwrap();
        assert_eq!(out, points);
    }
}

#[test]
fn mandel_escaping_point_grows_quickly() {
    // For c = 2 + 2i the magnitude strictly exceeds 2.0 within a few
    // iterations and then keeps growing toward infinity/NaN.
    let points = vec![((2.0f32).to_bits(), (2.0f32).to_bits())];
    let out = run_mandel(&points, LaneWidth::W1, 2, &fadd, &fsub, &fmul).unwrap();
    let (zr, zi) = (f32::from_bits(out[0].0), f32::from_bits(out[0].1));
    assert!((zr * zr + zi * zi).sqrt() > 2.0);
}

#[test]
fn mandel_bounded_point_stays_bounded_as_iterations_grow() {
    // c = -1 + 0i cycles between -1 and 0; c = 0 stays at 0. Raising the
    // iteration count keeps the magnitude bounded.
    let points = vec![((-1.0f32).to_bits(), (0.0f32).to_bits()), (0, 0)];
    for iters in [1usize, 2, 5, 20, 100, 500] {
        let out = run_mandel(&points, LaneWidth::W2, iters, &fadd, &fsub, &fmul).unwrap();
        for &(re, im) in &out {
            let (zr, zi) = (f32::from_bits(re), f32::from_bits(im));
            assert!(zr * zr + zi * zi <= 4.0);
        }
    }
}

#[test]
fn reassemble_flattens_in_chunk_order() {
    let chunks = vec![
        ComplexLane {
            real: LaneValue { bits: vec![1, 3] },
            imag: LaneValue { bits: vec![2, 4] },
        },
        ComplexLane {
            real: LaneValue { bits: vec![5, 7] },
            imag: LaneValue { bits: vec![6, 8] },
        },
    ];
    let flat = reassemble(&chunks, 2);
    assert_eq!(flat, vec![(1, 2), (3, 4), (5, 6), (7, 8)]);

    let lanes = vec![LaneValue { bits: vec![10, 11, 12] }, LaneValue { bits: vec![13, 14, 15] }];
    assert_eq!(reassemble_scalars(&lanes, 3), vec![10, 11, 12, 13, 14, 15]);
}

#[test]
fn dispatch_produces_one_chunk_per_width_lanes() {
    let points = generate_points(4, 4);
    let chunks = dispatch_mandel(&points, LaneWidth::W8, 3, &fadd, &fsub, &fmul).unwrap();
    assert_eq!(chunks.len(), 2);
    assert_eq!(chunks[0].real.bits.len(), 8);
    assert_eq!(chunks[0].imag.bits.len(), 8);
    assert_eq!(chunks[1].real.bits.len(), 8);
}

#[test]
fn pixel_indexing_round_trip() {
    for i in 0..20usize {
        let (x, y) = pixel_coords(i, 5);
        assert_eq!(x, i % 5);
        assert_eq!(y, i / 5);
        assert_eq!(pixel_index(x, y, 5), i);
    }
}
