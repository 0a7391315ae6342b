use std::cell::RefCell;

use nalgebra::{DMatrix, DVector, SymmetricEigen, SVD};
use rand::{rngs::StdRng, Rng, SeedableRng};
use spectral_triple::dirac::clamp_eigenvalues;
use spectral_triple::error::ConnesError;
use spectral_triple::estimate::left_nullspace_prob;
use spectral_triple::extrema::largest;
use spectral_triple::matrix::Matrix;
use spectral_triple::search::{Action, SEED};
use spectral_triple::triple::SpectralTriple;
use spectral_triple::validate::{validate_generator, validate_transition};

fn vector_bits(v: &DVector<f64>) -> Vec<u64> {
    v.iter().map(|x| x.to_bits()).collect()
}

fn vector_from_bits(bits: &[u64]) -> DVector<f64> {
    DVector::from_iterator(bits.len(), bits.iter().map(|b| f64::from_bits(*b)))
}

fn matrix_bits(m: &DMatrix<f64>) -> Matrix {
    let (rows, cols) = m.shape();
    let mut entries = Vec::new();
    for i in 0..rows {
        for j in 0..cols {
            entries.push(m[(i, j)].to_bits());
        }
    }
    Matrix::new(rows, cols, entries).unwrap()
}

fn matrix_from_bits(m: &Matrix) -> DMatrix<f64> {
    DMatrix::from_fn(m.rows, m.cols, |i, j| f64::from_bits(m.entries[i * m.cols + j]))
}

fn row_sums(m: &DMatrix<f64>) -> Vec<u64> {
    (0..m.nrows()).map(|i| m.row(i).sum().to_bits()).collect()
}

fn row_excess(m: &DMatrix<f64>) -> Vec<u64> {
    (0..m.nrows()).map(|i| (m.row(i).sum() - 1.0).to_bits()).collect()
}

fn estimate(a: &DMatrix<f64>) -> DVector<f64> {
    let svd = SVD::new(a.clone(), true, true);
    let vt = svd.v_t.unwrap();
    let singular: Vec<u64> = svd.singular_values.iter().map(|s| s.to_bits()).collect();
    let floored = vector_from_bits(&left_nullspace_prob(&singular, &matrix_bits(&vt)));
    let sum = floored.sum();
    floored.scale(1.0 / sum)
}

fn new(l: &DMatrix<f64>, pi: &DVector<f64>, epsilon: f64) -> Result<SpectralTriple, ConnesError> {
    let sum = pi.sum();
    SpectralTriple::new(
        matrix_bits(l),
        &row_sums(l),
        vector_bits(pi),
        sum.to_bits(),
        (sum - 1.0).to_bits(),
        epsilon.to_bits(),
    )
}

fn from_generator(l: &DMatrix<f64>, epsilon: f64) -> Result<SpectralTriple, ConnesError> {
    let sums = row_sums(l);
    validate_generator(&matrix_bits(l), &sums)?;
    let pi = estimate(&matrix_from_bits(&matrix_bits(l).transposed()));
    let sum = pi.sum();
    SpectralTriple::from_generator(
        matrix_bits(l),
        &sums,
        vector_bits(&pi),
        sum.to_bits(),
        (sum - 1.0).to_bits(),
        epsilon.to_bits(),
    )
}

fn from_transition(p: &DMatrix<f64>, epsilon: f64) -> Result<SpectralTriple, ConnesError> {
    let excess = row_excess(p);
    let shape = matrix_bits(p);
    validate_transition(&shape, &excess)?;
    let n = p.nrows();
    let l = p - DMatrix::<f64>::identity(n, n);
    let pi = estimate(&(p.transpose() - DMatrix::<f64>::identity(n, n)));
    let sum = pi.sum();
    SpectralTriple::from_transition(
        &shape,
        &excess,
        matrix_bits(&l),
        &row_sums(&l),
        vector_bits(&pi),
        sum.to_bits(),
        (sum - 1.0).to_bits(),
        epsilon.to_bits(),
    )
}

fn symmetrized(t: &SpectralTriple) -> DMatrix<f64> {
    let l = matrix_from_bits(&t.generator);
    let pi = vector_from_bits(&t.stationary);
    let n = l.nrows();
    let mut pi_sqrt = DMatrix::<f64>::zeros(n, n);
    let mut pi_isqrt = DMatrix::<f64>::zeros(n, n);
    for i in 0..n {
        let s = pi[i].sqrt();
        pi_sqrt[(i, i)] = s;
        pi_isqrt[(i, i)] = 1.0 / s;
    }
    let l1 = &pi_sqrt * &l * &pi_isqrt;
    let l2 = &pi_isqrt * l.transpose() * &pi_sqrt;
    (l1 + l2) * 0.5
}

fn dirac(t: &SpectralTriple) -> DMatrix<f64> {
    let SymmetricEigen { eigenvalues, eigenvectors: u } = SymmetricEigen::new(-symmetrized(t));
    let clamped = clamp_eigenvalues(&vector_bits(&eigenvalues));
    let n = clamped.len();
    let mut d = DMatrix::<f64>::zeros(n, n);
    for i in 0..n {
        d[(i, i)] = 1.0 / (f64::from_bits(t.epsilon) + f64::from_bits(clamped[i]));
    }
    &u * d * u.transpose()
}

fn spectral_norm(m: &DMatrix<f64>) -> f64 {
    let svd = SVD::new(m.clone(), false, false);
    let singular: Vec<u64> = svd.singular_values.iter().map(|s| s.to_bits()).collect();
    f64::from_bits(largest(&singular))
}

fn lipschitz(d: &DMatrix<f64>, f: &DVector<f64>) -> (f64, DMatrix<f64>) {
    let n = f.len();
    let mut diagf = DMatrix::<f64>::zeros(n, n);
    for i in 0..n {
        diagf[(i, i)] = f[i];
    }
    let m = d * &diagf - &diagf * d;
    (spectral_norm(&m), m)
}

fn subgradient(d: &DMatrix<f64>, m: &DMatrix<f64>) -> DVector<f64> {
    let n = d.nrows();
    let svd = SVD::new(m.clone(), true, true);
    let u = svd.u.unwrap().column(0).into_owned();
    let v = svd.v_t.unwrap().row(0).transpose().into_owned();
    let ut_d = u.transpose() * d;
    let d_v = d * &v;
    let mut g = DVector::<f64>::zeros(n);
    for k in 0..n {
        g[k] = ut_d[(0, k)] * v[k] - u[k] * d_v[k];
    }
    g
}

struct Climb {
    rng: StdRng,
    f: DVector<f64>,
    seminorm: f64,
    commutator: DMatrix<f64>,
}

fn measure(d: &DMatrix<f64>, s: &mut Climb) -> f64 {
    let (lf, m) = lipschitz(d, &s.f);
    s.seminorm = lf;
    s.commutator = m;
    lf
}

fn distance(t: &SpectralTriple, i: usize, j: usize) -> Result<f64, ConnesError> {
    t.check_states(i, j)?;
    let n = t.states();
    let d = dirac(t);
    let climb = RefCell::new(Climb {
        rng: StdRng::seed_from_u64(SEED),
        f: DVector::zeros(n),
        seminorm: 0.0,
        commutator: DMatrix::zeros(n, n),
    });
    let evaluate = |direction: &Vec<u64>, request: Action| -> u64 {
        let c = vector_from_bits(direction);
        let mut s = climb.borrow_mut();
        let reply = match request {
            Action::MeasureDirection => {
                let (lc, _) = lipschitz(&d, &c);
                s.seminorm = lc;
                lc
            }
            Action::ScoreDirection => c.dot(&c) / s.seminorm,
            Action::Draw => {
                let drawn = DVector::<f64>::from_fn(n, |_r, _c| s.rng.gen::<f64>() * 2.0 - 1.0);
                s.f = drawn;
                measure(&d, &mut s)
            }
            Action::Nudge { by } => {
                s.f = &s.f + DVector::<f64>::from_element(n, f64::from_bits(by));
                measure(&d, &mut s)
            }
            Action::Step { shrink, rate } => {
                if let Some(by) = shrink {
                    s.f = &s.f / f64::from_bits(by);
                }
                let g = subgradient(&d, &s.commutator);
                let num = c.dot(&s.f);
                let lf = s.seminorm;
                let grad = (&c * lf - &g * num) / (lf * lf);
                s.f = &s.f + grad.scale(f64::from_bits(rate));
                measure(&d, &mut s)
            }
            Action::Settle { shrink } => {
                if let Some(by) = shrink {
                    s.f = &s.f / f64::from_bits(by);
                }
                lipschitz(&d, &s.f).0
            }
            Action::Score { over } => c.dot(&s.f) / f64::from_bits(over),
            Action::Finish { distance } => f64::from_bits(distance),
        };
        reply.to_bits()
    };
    Ok(f64::from_bits(t.connes_distance(i, j, evaluate)?))
}

fn two_state_generator() -> DMatrix<f64> {
    DMatrix::from_row_slice(2, 2, &[-1.0, 1.0, 1.0, -1.0])
}

fn three_state_generator() -> DMatrix<f64> {
    DMatrix::from_row_slice(3, 3, &[-1.0, 0.5, 0.5, 0.25, -0.5, 0.25, 0.5, 0.5, -1.0])
}

#[test]
fn generator_with_zero_row_sums_validates() {
    let l = three_state_generator();
    assert_eq!(validate_generator(&matrix_bits(&l), &row_sums(&l)), Ok(()));
}

#[test]
fn perturbed_row_sum_is_reported_with_its_magnitude() {
    let l = DMatrix::from_row_slice(3, 3, &[-0.5, 0.5, 0.0, -0.5, 0.5, 2e-9, 0.5, -0.5, 0.0]);
    assert_eq!(
        validate_generator(&matrix_bits(&l), &row_sums(&l)),
        Err(ConnesError::RowSumsNotZero { max_abs: 2e-9f64.to_bits() })
    );
}

#[test]
fn uniform_transition_matrix_gives_uniform_distribution() {
    let p = DMatrix::from_row_slice(2, 2, &[0.5, 0.5, 0.5, 0.5]);
    let t = from_transition(&p, 0.1).unwrap();
    let pi = vector_from_bits(&t.stationary);
    assert!((pi[0] - 0.5).abs() < 1e-6);
    assert!((pi[1] - 0.5).abs() < 1e-6);
    let l = matrix_from_bits(&t.generator);
    let expected = [[-0.5, 0.5], [0.5, -0.5]];
    for i in 0..2 {
        for j in 0..2 {
            assert!((l[(i, j)] - expected[i][j]).abs() < 1e-12);
        }
    }
    assert_eq!(f64::from_bits(t.epsilon), 0.1);
}

#[test]
fn transition_matrix_whose_rows_do_not_add_up_is_refused() {
    let p = DMatrix::from_row_slice(2, 2, &[0.5, 0.25, 0.5, 0.5]);
    assert_eq!(
        from_transition(&p, 0.1).err(),
        Some(ConnesError::RowSumsNotOne { max_abs: 0.25f64.to_bits() })
    );
    let wide = DMatrix::from_row_slice(1, 2, &[0.5, 0.5]);
    assert_eq!(
        from_transition(&wide, 0.1).err(),
        Some(ConnesError::NotSquare { rows: 1, cols: 2 })
    );
}

#[test]
fn identity_is_no_generator() {
    let identity = DMatrix::<f64>::identity(3, 3);
    let pi = DVector::from_vec(vec![0.2, 0.3, 0.5]);
    assert_eq!(
        new(&identity, &pi, 0.1).err(),
        Some(ConnesError::RowSumsNotZero { max_abs: 1.0f64.to_bits() })
    );
}

#[test]
fn negative_epsilon_is_refused_with_its_value() {
    for l in [two_state_generator(), three_state_generator()] {
        assert_eq!(
            from_generator(&l, -0.5).err(),
            Some(ConnesError::NonPositiveEpsilon((-0.5f64).to_bits()))
        );
    }
}

#[test]
fn unnormalized_distribution_is_refused_with_its_sum() {
    let pi = DVector::from_vec(vec![0.5, 0.25]);
    assert_eq!(
        new(&two_state_generator(), &pi, 0.1).err(),
        Some(ConnesError::StationaryNotNormalized { sum: 0.75f64.to_bits() })
    );
    let pi = DVector::from_vec(vec![1.0, 0.0]);
    assert_eq!(
        new(&two_state_generator(), &pi, 0.1).err(),
        Some(ConnesError::StationaryNonPositive)
    );
}

#[test]
fn estimated_distribution_is_stationary() {
    let l = three_state_generator();
    let t = from_generator(&l, 0.1).unwrap();
    let pi = vector_from_bits(&t.stationary);
    assert!((pi.sum() - 1.0).abs() < 1e-9);
    let flow = l.transpose() * &pi;
    for k in 0..3 {
        assert!(pi[k] > 0.0);
        assert!(flow[k].abs() < 1e-9);
    }
    assert!((pi[0] - 0.25).abs() < 1e-9);
    assert!((pi[1] - 0.5).abs() < 1e-9);
    assert!((pi[2] - 0.25).abs() < 1e-9);
}

#[test]
fn dirac_operator_is_symmetric_with_the_regularized_spectrum() {
    let t = from_generator(&three_state_generator(), 0.1).unwrap();
    let d = dirac(&t);
    for i in 0..3 {
        for j in 0..3 {
            assert!((d[(i, j)] - d[(j, i)]).abs() < 1e-9);
        }
    }
    let lambdas = SymmetricEigen::new(-symmetrized(&t)).eigenvalues;
    let mut expected: Vec<f64> = lambdas.iter().map(|l| 1.0 / (0.1 + l.max(0.0))).collect();
    let mut found: Vec<f64> = SymmetricEigen::new(d).eigenvalues.iter().copied().collect();
    expected.sort_by(|a, b| a.partial_cmp(b).unwrap());
    found.sort_by(|a, b| a.partial_cmp(b).unwrap());
    for (e, f) in expected.iter().zip(found.iter()) {
        assert!((e - f).abs() < 1e-9);
    }
}

#[test]
fn dirac_operator_of_the_two_state_chain() {
    let pi = DVector::from_vec(vec![0.5, 0.5]);
    let t = new(&two_state_generator(), &pi, 0.1).unwrap();
    let d = dirac(&t);
    let diagonal = (10.0 + 1.0 / 2.1) / 2.0;
    let off = (10.0 - 1.0 / 2.1) / 2.0;
    assert!((d[(0, 0)] - diagonal).abs() < 1e-9);
    assert!((d[(1, 1)] - diagonal).abs() < 1e-9);
    assert!((d[(0, 1)] - off).abs() < 1e-9);
    assert!((d[(1, 0)] - off).abs() < 1e-9);
}

#[test]
fn larger_epsilon_gives_a_smaller_dirac_operator() {
    let l = three_state_generator();
    let mut last = f64::INFINITY;
    for epsilon in [0.05, 0.1, 0.2, 1.0, 10.0] {
        let norm = spectral_norm(&dirac(&from_generator(&l, epsilon).unwrap()));
        assert!(norm < last);
        assert!((norm - 1.0 / epsilon).abs() < 1e-6 / epsilon);
        last = norm;
    }
}

#[test]
fn distance_of_the_two_state_chain() {
    let pi = DVector::from_vec(vec![0.5, 0.5]);
    let t = new(&two_state_generator(), &pi, 0.1).unwrap();
    let found = distance(&t, 0, 1).unwrap();
    assert!((found - 0.21).abs() < 1e-9, "{found}");
}

#[test]
fn distance_from_a_state_to_itself_is_zero() {
    let t = from_generator(&three_state_generator(), 0.1).unwrap();
    for k in 0..3 {
        assert_eq!(distance(&t, k, k).unwrap(), 0.0);
    }
}

#[test]
fn distance_is_symmetric() {
    let t = from_generator(&three_state_generator(), 0.1).unwrap();
    for i in 0..3 {
        for j in 0..3 {
            let forth = distance(&t, i, j).unwrap();
            let back = distance(&t, j, i).unwrap();
            assert!((forth - back).abs() <= 1e-9 * forth.abs().max(1.0), "{forth} {back}");
        }
    }
}

#[test]
fn distance_is_the_same_on_every_call() {
    let t = from_generator(&three_state_generator(), 0.1).unwrap();
    let first = distance(&t, 0, 2).unwrap();
    let second = distance(&t, 0, 2).unwrap();
    assert_eq!(first.to_bits(), second.to_bits());
    assert!(first > 0.0);
}

#[test]
fn distance_to_a_state_outside_the_chain_is_refused() {
    let t = from_generator(&three_state_generator(), 0.1).unwrap();
    assert_eq!(distance(&t, 0, 3).err(), Some(ConnesError::DimensionMismatch { len: 4, n: 3 }));
    assert_eq!(distance(&t, 5, 1).err(), Some(ConnesError::DimensionMismatch { len: 6, n: 3 }));
}

#[test]
fn epsilon_that_is_not_a_number_is_refused() {
    let nan = f64::NAN;
    let pi = DVector::from_vec(vec![0.5, 0.5]);
    assert_eq!(
        new(&two_state_generator(), &pi, nan).err(),
        Some(ConnesError::NonPositiveEpsilon(nan.to_bits()))
    );
    assert_eq!(
        from_generator(&two_state_generator(), nan).err(),
        Some(ConnesError::NonPositiveEpsilon(nan.to_bits()))
    );
    let p = DMatrix::from_row_slice(2, 2, &[0.5, 0.5, 0.5, 0.5]);
    assert_eq!(
        from_transition(&p, nan).err(),
        Some(ConnesError::NonPositiveEpsilon(nan.to_bits()))
    );
}

#[test]
fn zero_epsilon_is_refused() {
    assert_eq!(
        from_generator(&two_state_generator(), 0.0).err(),
        Some(ConnesError::NonPositiveEpsilon(0.0f64.to_bits()))
    );
}
