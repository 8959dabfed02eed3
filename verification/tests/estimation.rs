use pi_lattice::aggregate::lattice_total;
use pi_lattice::circle::point_in_disk;
use pi_lattice::estimate::estimate_pi;

/// Brute-force count of lattice points (x, y) in [0, n) x [0, n) with
/// x^2 + y^2 <= (n - 1)^2, written independently of the library's scheme.
fn brute_force_count(n: u32) -> u64 {
    let r2: u64 = ((n - 1) as u64) * ((n - 1) as u64);
    let mut total: u64 = 0;
    for y in 0..(n as u64) {
        for x in 0..(n as u64) {
            if x * x + y * y <= r2 {
                total += 1;
            }
        }
    }
    total
}

#[test]
fn total_matches_brute_force_n8() {
    assert_eq!(lattice_total(8), brute_force_count(8));
}

#[test]
fn total_matches_brute_force_n64() {
    assert_eq!(lattice_total(64), brute_force_count(64));
}

#[test]
fn total_matches_brute_force_n512() {
    assert_eq!(lattice_total(512), brute_force_count(512));
}

#[test]
fn estimation_is_idempotent() {
    let first = estimate_pi(64);
    let second = estimate_pi(64);
    assert_eq!(first, second);
    assert_eq!(lattice_total(64), lattice_total(64));
}

#[test]
fn scenario_n8_unit_boundary_blocks() {
    // With n = 8 each block is a single point; the eight representative
    // boundary blocks are the diagonal of the table, and the total is the
    // 41 Full cells plus the boundary points (7, 0), (0, 7), (6, 3) and
    // (3, 6) that radius 7 still covers.
    let boundary_points: [(u32, u32); 8] =
        [(7, 0), (7, 1), (7, 2), (7, 3), (6, 3), (6, 4), (6, 5), (5, 5)];
    let expected: [bool; 8] = [true, false, false, false, true, false, false, false];
    for (k, &(x, y)) in boundary_points.iter().enumerate() {
        assert_eq!(point_in_disk(x, y, 7), expected[k]);
    }
    assert_eq!(lattice_total(8), 45);
    let est = estimate_pi(8);
    assert_eq!(est.num, 180);
    assert_eq!(est.den, 49);
}

#[test]
fn scenario_n1024_result_line() {
    let est = estimate_pi(1024);
    assert_eq!(est.den, 1023 * 1023);
    let line = format!("pi = {}/{}", est.num, est.den);
    assert_eq!(line, "pi = 3291768/1046529");
    let ratio = est.num as f64 / est.den as f64;
    assert!((ratio - 3.14159).abs() < 0.01);
}

#[test]
fn converges_towards_pi() {
    let sizes: [u32; 4] = [8, 64, 512, 4096];
    let mut last_error = f64::INFINITY;
    for &n in sizes.iter() {
        let est = estimate_pi(n);
        let ratio = est.num as f64 / est.den as f64;
        let error = (ratio - std::f64::consts::PI).abs();
        // The error shrinks roughly as 1/n and strictly along this run.
        assert!(error < 5.0 / n as f64);
        assert!(error < last_error);
        last_error = error;
    }
}
