use mandelbrot_lib::batch::{batch_counts, lane_active, new_batch, observe_lane, BATCH_SIZE};
use mandelbrot_lib::escape::{scalar_count, Escape};
use mandelbrot_lib::grid::{blocks_per_row, kernel_counts, render, Algorithm};
use mandelbrot_lib::masked::{any_lane, masked_counts, masked_step, narrow_counts};
use mandelbrot_lib::ITER_LIMIT;

const THRESHOLD: f64 = 4.0;

/// Observations of the trajectory of `c` under z <- z^2 + c, starting at c.
/// A lane is beyond the threshold unless its squared magnitude is at most the
/// threshold, so that a trajectory that has overflowed to NaN stays beyond.
fn trajectory(re: f64, im: f64) -> Vec<bool> {
    let (mut zr, mut zi) = (re, im);
    let mut out = Vec::new();
    for _ in 0..ITER_LIMIT {
        let rr = zr * zr;
        let ii = zi * zi;
        out.push(!(rr + ii <= THRESHOLD));
        let ri = zr * zi;
        zr = re + (rr - ii);
        zi = im + (ri + ri);
    }
    out
}

/// A record that crosses the threshold at `at` and stays beyond it.
fn escaping_at(at: usize) -> Vec<bool> {
    (0..ITER_LIMIT as usize).map(|k| k >= at).collect()
}

fn never_escaping() -> Vec<bool> {
    vec![false; ITER_LIMIT as usize]
}

const ALL: [Algorithm; 5] = [
    Algorithm::Scalar,
    Algorithm::CompilerSimd,
    Algorithm::Simd,
    Algorithm::Wide,
    Algorithm::Pulp,
];

#[test]
fn origin_never_escapes() {
    let rec = trajectory(0.0, 0.0);
    assert_eq!(scalar_count(&rec), ITER_LIMIT);
    let block = vec![rec.clone(); 4];
    assert_eq!(masked_counts(&block), vec![ITER_LIMIT; 4]);
    let block = vec![rec; BATCH_SIZE];
    assert_eq!(batch_counts(&block), vec![ITER_LIMIT; BATCH_SIZE]);
}

#[test]
fn far_point_escapes_at_first_check() {
    let rec = trajectory(1000.0, 0.0);
    assert_eq!(scalar_count(&rec), 0);
    let block = vec![rec.clone(), trajectory(0.0, 0.0)];
    assert_eq!(masked_counts(&block), vec![0, ITER_LIMIT]);
    assert_eq!(batch_counts(&block), vec![0, ITER_LIMIT]);
}

#[test]
fn real_trajectories_give_known_counts() {
    // c = 1: z goes 1, 2, 5, ...; |z|^2 = 25 > 4 at iteration 2.
    assert_eq!(scalar_count(&trajectory(1.0, 0.0)), 2);
    // c = -2 stays at 2 forever, exactly on the threshold.
    assert_eq!(scalar_count(&trajectory(-2.0, 0.0)), ITER_LIMIT);
    // c = 2: |c|^2 = 4 is not beyond; next z = 6.
    assert_eq!(scalar_count(&trajectory(2.0, 0.0)), 1);
}

#[test]
fn width_not_divisible_by_lanes_is_refused() {
    assert_eq!(blocks_per_row(5, 4), None);
    assert_eq!(blocks_per_row(8, 4), Some(2));
    assert_eq!(blocks_per_row(8, 0), None);
    let obs = vec![never_escaping(); 5];
    assert_eq!(render(5, 1, Algorithm::Wide, 0, &obs), None);
    assert_eq!(render(5, 1, Algorithm::Simd, 0, &obs), None);
    assert_eq!(render(5, 1, Algorithm::CompilerSimd, 0, &obs), None);
    assert_eq!(render(5, 1, Algorithm::Pulp, 4, &obs), None);
    assert!(render(5, 1, Algorithm::Scalar, 0, &obs).is_some());
}

#[test]
fn lane_widths_of_algorithms() {
    assert_eq!(Algorithm::Scalar.lanes(16), 1);
    assert_eq!(Algorithm::CompilerSimd.lanes(16), 8);
    assert_eq!(Algorithm::Simd.lanes(16), 8);
    assert_eq!(Algorithm::Wide.lanes(16), 4);
    assert_eq!(Algorithm::Pulp.lanes(2), 2);
}

fn sample_grid(width: usize, height: usize) -> (Vec<Vec<bool>>, Vec<u32>) {
    let mut obs = Vec::new();
    let mut expected = Vec::new();
    for p in 0..width * height {
        if p % 3 == 0 {
            obs.push(never_escaping());
            expected.push(ITER_LIMIT);
        } else {
            let at = (p * 7) % 40;
            obs.push(escaping_at(at));
            expected.push(at as u32);
        }
    }
    (obs, expected)
}

#[test]
fn all_algorithms_agree() {
    let (obs, expected) = sample_grid(8, 3);
    for alg in ALL {
        let grid = render(8, 3, alg, 2, &obs).unwrap();
        assert_eq!(grid, expected, "{:?}", alg);
    }
}

#[test]
fn counts_stay_within_limit() {
    let (obs, _) = sample_grid(8, 2);
    for alg in ALL {
        let grid = render(8, 2, alg, 8, &obs).unwrap();
        assert_eq!(grid.len(), 16);
        assert!(grid.iter().all(|&c| c <= ITER_LIMIT));
    }
}

#[test]
fn repeated_render_is_identical() {
    let (obs, _) = sample_grid(4, 4);
    for alg in ALL {
        let a = render(4, 4, alg, 4, &obs);
        let b = render(4, 4, alg, 4, &obs);
        assert_eq!(a, b);
    }
}

#[test]
fn grid_is_row_major() {
    // Two rows of four; only pixel (row 1, column 2) escapes, at iteration 5.
    let mut obs = vec![never_escaping(); 8];
    obs[6] = escaping_at(5);
    let grid = render(4, 2, Algorithm::Wide, 0, &obs).unwrap();
    let mut expected = vec![ITER_LIMIT; 8];
    expected[6] = 5;
    assert_eq!(grid, expected);
}

#[test]
fn escape_state_is_one_way() {
    let s = Escape::Active.advance(0, false);
    assert_eq!(s, Escape::Active);
    assert_eq!(s.count(), ITER_LIMIT);
    let s = s.advance(3, true);
    assert_eq!(s, Escape::Escaped(3));
    let s = s.advance(4, false).advance(5, true);
    assert_eq!(s, Escape::Escaped(3));
    assert_eq!(s.count(), 3);
}

#[test]
fn batch_lane_is_set_once() {
    let mut counts = new_batch(3);
    assert_eq!(counts, vec![ITER_LIMIT; 3]);
    assert!(lane_active(&counts, 1));
    observe_lane(&mut counts, 1, 0, false);
    assert_eq!(counts, vec![ITER_LIMIT; 3]);
    observe_lane(&mut counts, 1, 7, true);
    assert_eq!(counts, vec![ITER_LIMIT, 7, ITER_LIMIT]);
    assert!(!lane_active(&counts, 1));
    observe_lane(&mut counts, 1, 9, true);
    assert_eq!(counts, vec![ITER_LIMIT, 7, ITER_LIMIT]);
}

#[test]
fn masked_step_counts_active_lanes() {
    // Lane 1 escaped earlier (its count lags the iteration): it stays frozen
    // even though it is within the threshold again.
    let mut counts: Vec<u64> = vec![3, 1, 3];
    assert!(masked_step(&mut counts, &vec![true, true, false], 3));
    assert_eq!(counts, vec![4, 1, 3]);
    assert!(!masked_step(&mut counts, &vec![false, true, true], 4));
    assert_eq!(counts, vec![4, 1, 3]);
}

#[test]
fn any_lane_reduction() {
    assert!(!any_lane(&vec![]));
    assert!(!any_lane(&vec![false, false]));
    assert!(any_lane(&vec![false, true]));
}

#[test]
fn narrowing_truncates_each_lane() {
    let wide: Vec<u64> = vec![0, 1000, 0x1_0000_0005, u64::MAX];
    assert_eq!(narrow_counts(&wide), vec![0, 1000, 5, u32::MAX]);
}

#[test]
fn escaped_lane_stays_frozen() {
    // Lane 0 is beyond the threshold at iteration 1 only; it keeps its
    // escape time although later observations are within again.
    let mut wobbly = never_escaping();
    wobbly[1] = true;
    let block = vec![wobbly.clone(), escaping_at(4)];
    assert_eq!(masked_counts(&block), vec![1, 4]);
    assert_eq!(batch_counts(&block), vec![1, 4]);
    assert_eq!(scalar_count(&wobbly), 1);
    let mut obs = vec![never_escaping(); 8];
    obs[0] = wobbly;
    let mut expected = vec![ITER_LIMIT; 8];
    expected[0] = 1;
    for alg in ALL {
        assert_eq!(render(8, 1, alg, 4, &obs), Some(expected.clone()), "{:?}", alg);
    }
}

#[test]
fn kernel_dispatch_per_algorithm() {
    let block = vec![escaping_at(2), never_escaping(), escaping_at(0), escaping_at(9)];
    for alg in ALL {
        assert_eq!(kernel_counts(alg, &block), vec![2, ITER_LIMIT, 0, 9]);
    }
}
