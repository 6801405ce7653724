use sbp::operators::{OperatorError, Stencil, Upwind4, MAX_SAMPLE, NORM_DENOM, Q_DENOM};

#[test]
fn operator_needs_eight_points() {
    assert_eq!(Upwind4::new(7).err(), Some(OperatorError::TooFewPoints));
    assert_eq!(Upwind4::new(0).err(), Some(OperatorError::TooFewPoints));
    assert_eq!(Upwind4::new(8).unwrap().len(), 8);
}

#[test]
fn norm_weights_exact_values() {
    let op = Upwind4::new(10).unwrap();
    assert_eq!(
        op.norm_weights(),
        vec![49, 183, 123, 149, 144, 144, 149, 123, 183, 49]
    );
}

#[test]
fn norm_weights_positive_and_sum_to_length() {
    for n in 8..60usize {
        let op = Upwind4::new(n).unwrap();
        let w = op.norm_weights();
        assert_eq!(w.len(), n);
        assert!(w.iter().all(|&v| v > 0));
        let total: u64 = w.iter().sum();
        assert_eq!(total, NORM_DENOM * (n as u64 - 1));
    }
}

#[test]
fn quadrature_reproduces_domain_length() {
    // Weights over [-5, 5] with 25 points: h = 10 / 24.
    let n = 25usize;
    let op = Upwind4::new(n).unwrap();
    let h = 10.0f64 / (n as f64 - 1.0);
    let len: f64 = op
        .norm_weights()
        .iter()
        .map(|&w| w as f64 / NORM_DENOM as f64 * h)
        .sum();
    assert!((len - 10.0).abs() < 1e-12);
}

#[test]
fn sbp_identity_holds() {
    for n in 8..30usize {
        let op = Upwind4::new(n).unwrap();
        for i in 0..n {
            for j in 0..n {
                let sum = op.coeff(Stencil::Skew, i, j) + op.coeff(Stencil::Skew, j, i);
                let expected = if i == 0 && j == 0 {
                    -(Q_DENOM as i64)
                } else if i == n - 1 && j == n - 1 {
                    Q_DENOM as i64
                } else {
                    0
                };
                assert_eq!(sum, expected, "n={} i={} j={}", n, i, j);
            }
        }
    }
}

#[test]
fn dissipation_is_symmetric() {
    for n in 8..30usize {
        let op = Upwind4::new(n).unwrap();
        for i in 0..n {
            for j in 0..n {
                assert_eq!(
                    op.coeff(Stencil::Dissipation, i, j),
                    op.coeff(Stencil::Dissipation, j, i)
                );
            }
        }
    }
}

#[test]
fn coefficients_exact_values() {
    let op = Upwind4::new(12).unwrap();
    assert_eq!(op.coeff(Stencil::Skew, 0, 0), -144);
    assert_eq!(op.coeff(Stencil::Skew, 0, 1), 187);
    assert_eq!(op.coeff(Stencil::Skew, 3, 6), 12);
    assert_eq!(op.coeff(Stencil::Skew, 5, 6), 252);
    assert_eq!(op.coeff(Stencil::Skew, 5, 2), -12);
    assert_eq!(op.coeff(Stencil::Skew, 11, 11), 144);
    assert_eq!(op.coeff(Stencil::Skew, 11, 10), -187);
    assert_eq!(op.coeff(Stencil::Skew, 5, 9), 0);
    assert_eq!(op.coeff(Stencil::Dissipation, 5, 5), -120);
    assert_eq!(op.coeff(Stencil::Dissipation, 2, 2), -87);
    assert_eq!(op.coeff(Stencil::Dissipation, 9, 9), -87);
    assert_eq!(op.coeff(Stencil::Dissipation, 8, 11), 3);
}

#[test]
fn span_covers_nonzero_entries() {
    let n = 15usize;
    let op = Upwind4::new(n).unwrap();
    assert_eq!(op.span_start(0), 0);
    assert_eq!(op.span_start(3), 0);
    assert_eq!(op.span_start(7), 4);
    assert_eq!(op.span_start(14), 8);
    for i in 0..n {
        let lo = op.span_start(i);
        for j in 0..n {
            if j < lo || j >= lo + 7 {
                assert_eq!(op.coeff(Stencil::Skew, i, j), 0);
                assert_eq!(op.coeff(Stencil::Dissipation, i, j), 0);
            }
        }
    }
}

#[test]
fn constant_line_has_no_derivative() {
    for n in [8usize, 9, 13, 40] {
        let op = Upwind4::new(n).unwrap();
        let u = vec![-7i64; n];
        assert_eq!(op.apply(Stencil::Skew, &u), vec![0i64; n]);
        assert_eq!(op.apply(Stencil::Dissipation, &u), vec![0i64; n]);
        let big = vec![MAX_SAMPLE; n];
        assert_eq!(op.apply(Stencil::Skew, &big), vec![0i64; n]);
    }
}

#[test]
fn apply_on_linear_line() {
    // Q u for u = (0, 1, ..., n-1): the interior rows give 288 * 1 exactly.
    let n = 12usize;
    let op = Upwind4::new(n).unwrap();
    let u: Vec<i64> = (0..n as i64).collect();
    let r = op.apply(Stencil::Skew, &u);
    for i in 4..n - 4 {
        assert_eq!(r[i], 288);
    }
    // First row: 187 - 80 - 9 = 98, and 98 / 288 * 144 / 49 = 1.
    assert_eq!(r[0], 98);
    // Dissipation is exact on linear data in the interior.
    let d = op.apply(Stencil::Dissipation, &u);
    for i in 4..n - 4 {
        assert_eq!(d[i], 0);
    }
}

#[test]
fn apply_matches_coefficients() {
    let n = 10usize;
    let op = Upwind4::new(n).unwrap();
    let u: Vec<i64> = vec![3, -1, 4, 1, -5, 9, 2, -6, 5, 3];
    for s in [Stencil::Skew, Stencil::Dissipation] {
        let r = op.apply(s, &u);
        for i in 0..n {
            let expected: i64 = (0..n).map(|j| op.coeff(s, i, j) * u[j]).sum();
            assert_eq!(r[i], expected);
        }
    }
}

#[test]
fn norm_weights_2d_outer_product() {
    let ox = Upwind4::new(9).unwrap();
    let oy = Upwind4::new(8).unwrap();
    let w = sbp::operators::norm_weights_2d(&ox, &oy);
    assert_eq!(w.len(), 72);
    assert_eq!(w[0], 49 * 49);
    assert_eq!(w[1], 49 * 183);
    assert_eq!(w[9], 183 * 49);
    assert_eq!(w[9 * 4 + 4], 149 * 144);
    assert_eq!(w[71], 49 * 49);
    let wx = ox.norm_weights();
    let wy = oy.norm_weights();
    for r in 0..8 {
        for c in 0..9 {
            assert_eq!(w[r * 9 + c], wy[r] * wx[c]);
        }
    }
}

#[test]
fn norm_weights_2d_sum_to_area() {
    for (nx, ny) in [(8usize, 8usize), (9, 13), (25, 25), (40, 11)] {
        let w = sbp::operators::norm_weights_2d(
            &Upwind4::new(nx).unwrap(),
            &Upwind4::new(ny).unwrap(),
        );
        assert!(w.iter().all(|&v| v > 0));
        let total: u64 = w.iter().sum();
        assert_eq!(
            total,
            NORM_DENOM * NORM_DENOM * (nx as u64 - 1) * (ny as u64 - 1)
        );
    }
}

#[test]
fn energy_only_leaves_through_boundaries() {
    for n in [8usize, 11, 20] {
        let op = Upwind4::new(n).unwrap();
        let u: Vec<i64> = (0..n as i64).map(|i| (i * 37 + 11) % 23 - 9).collect();
        let qu = op.apply(Stencil::Skew, &u);
        let energy: i64 = u.iter().zip(qu.iter()).map(|(a, b)| a * b).sum();
        let last = u[n - 1];
        assert_eq!(2 * energy, Q_DENOM as i64 * (last * last - u[0] * u[0]));
    }
}
