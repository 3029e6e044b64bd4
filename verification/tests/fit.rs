use curve_fit::curve_fit::{accept_step, chi2, lambda_decrease, lambda_increase, Minimizer};
use curve_fit::fp::{fabs, fgt, flt, fmax, fmin, fsqrt, NAN_SEED, POS_ZERO};
use curve_fit::linalg::matrix_solve;
use curve_fit::model::LinearModel;

fn bits(xs: &[f64]) -> Vec<u64> {
    xs.iter().map(|x| x.to_bits()).collect()
}

fn floats(xs: &[u64]) -> Vec<f64> {
    xs.iter().map(|x| f64::from_bits(*x)).collect()
}

fn linear_minimizer(
    x: &[f64],
    y: &[f64],
    sy: &[f64],
    p0: f64,
    p1: f64,
    vary: &[bool],
    lambda: f64,
) -> Minimizer<LinearModel> {
    let model = LinearModel { x: bits(x), parameters: bits(&[p0, p1]) };
    Minimizer::init(model, bits(y), bits(sy), vary.to_vec(), lambda.to_bits())
}

#[test]
fn chi2_exact_value() {
    let y = bits(&[1.0, 2.0]);
    let ym = bits(&[0.5, 1.5]);
    let sy = bits(&[1.0, 1.0]);
    let c = chi2(&y, &ym, &sy);
    assert_eq!(c, 0.5f64.to_bits());
}

#[test]
fn chi2_weighted_exact_value() {
    let y = bits(&[3.0]);
    let ym = bits(&[1.0]);
    let sy = bits(&[0.5]);
    // ((3 - 1) / 0.5)^2 = 16
    let c = chi2(&y, &ym, &sy);
    assert_eq!(c, 16.0f64.to_bits());
}

#[test]
fn init_sets_constants_and_derived_state() {
    let m = linear_minimizer(
        &[0.0, 1.0],
        &[1.0, 3.0],
        &[0.5, 0.5],
        1.0,
        2.0,
        &[true, true],
        1.0,
    );
    assert_eq!(m.num_params, 2);
    assert_eq!(m.num_data, 2);
    assert_eq!(m.num_varying_params, 2);
    assert_eq!(m.dof, 0);
    assert_eq!(m.max_iterations, 20);
    assert_eq!(m.epsilon1, 1e-3f64.to_bits());
    assert_eq!(m.epsilon2, 1e-3f64.to_bits());
    assert_eq!(m.epsilon3, 1e-1f64.to_bits());
    assert_eq!(m.epsilon4, 1e-1f64.to_bits());
    assert_eq!(m.lambda_UP_fac, 11.0f64.to_bits());
    assert_eq!(m.lambda_DOWN_fac, 9.0f64.to_bits());
    // w = 1 / sy^2 = 4
    assert_eq!(m.weighting_matrix, bits(&[4.0, 4.0]));
    // the model fits exactly, so chi2 is exactly zero
    assert_eq!(m.chi2, POS_ZERO);
    assert_eq!(m.convergence_message, "");
}

#[test]
fn r2_is_exactly_one_on_perfect_fit() {
    let m = linear_minimizer(
        &[0.0, 1.0, 2.0],
        &[1.0, 3.0, 5.0],
        &[0.1, 0.1, 0.1],
        1.0,
        2.0,
        &[true, false],
        1.0,
    );
    // init evaluated the model at the true parameters: ymodel == y
    assert_eq!(m.minimizer_ymodel, m.y);
    let r2 = m.calculate_R2();
    assert_eq!(r2, 1.0f64.to_bits());
}

#[test]
fn lambda_stays_within_clamps() {
    // dividing at the floor keeps the floor
    let lo = 1e-7f64.to_bits();
    let hi = 1e7f64.to_bits();
    assert_eq!(lambda_decrease(lo, 9.0f64.to_bits()), lo);
    // multiplying at the cap keeps the cap
    assert_eq!(lambda_increase(hi, 11.0f64.to_bits()), hi);
    // an interior value moves exactly as the arithmetic says
    let l = 1.0f64.to_bits();
    assert_eq!(lambda_decrease(l, 9.0f64.to_bits()), (1.0f64 / 9.0).max(1e-7).to_bits());
    assert_eq!(lambda_increase(l, 11.0f64.to_bits()), (1.0f64 * 11.0).min(1e7).to_bits());
}

#[test]
fn lambda_in_range_after_whole_fit() {
    let mut m = noisy_linear_minimizer();
    m.minimize();
    let l = f64::from_bits(m.lambda);
    assert!(l >= 1e-7 && l <= 1e7);
}

#[test]
fn acceptance_requires_sufficient_gain() {
    // rho = (1.0 - 0.5) / 1.0 = 0.5 > 0.1: accepted, chi2 decreased
    assert!(accept_step(1.0f64.to_bits(), 0.5f64.to_bits(), 1.0f64.to_bits(), 0.1f64.to_bits()));
    // no decrease at all: rho = 0, rejected
    assert!(!accept_step(1.0f64.to_bits(), 1.0f64.to_bits(), 1.0f64.to_bits(), 0.1f64.to_bits()));
    // decrease below the threshold: rho = 0.05, rejected
    assert!(!accept_step(
        1.0f64.to_bits(),
        0.95f64.to_bits(),
        1.0f64.to_bits(),
        0.1f64.to_bits()
    ));
}

fn noisy_linear_minimizer() -> Minimizer<LinearModel> {
    // y = 1 + 2 x plus small fixed noise of scale 0.1
    let x: Vec<f64> = (0..10).map(|i| i as f64).collect();
    let noise = [0.05, -0.12, 0.08, 0.02, -0.07, 0.11, -0.03, 0.06, -0.09, 0.04];
    let y: Vec<f64> = x.iter().zip(noise.iter()).map(|(xi, n)| 1.0 + 2.0 * xi + n).collect();
    let sy: Vec<f64> = x.iter().map(|_| 0.1).collect();
    linear_minimizer(&x, &y, &sy, 0.0, 0.0, &[true, true], 1.0)
}

#[test]
fn linear_fit_recovers_true_parameters() {
    let mut m = noisy_linear_minimizer();
    m.minimize();
    let p = floats(&m.minimizer_parameters);
    assert!((p[0] - 1.0).abs() < 0.3, "p0 = {}", p[0]);
    assert!((p[1] - 2.0).abs() < 0.1, "p1 = {}", p[1]);
    let redchi2 = f64::from_bits(m.redchi2);
    assert!(redchi2 > 0.05 && redchi2 < 5.0, "redchi2 = {}", redchi2);
    assert!(!m.convergence_message.is_empty());
    // chi2 did not grow over the fit (accepted steps only lower it)
    let initial = linear_minimizer(
        &(0..10).map(|i| i as f64).collect::<Vec<f64>>(),
        &floats(&m.y),
        &floats(&m.sy),
        0.0,
        0.0,
        &[true, true],
        1.0,
    );
    assert!(f64::from_bits(m.chi2) <= f64::from_bits(initial.chi2));
    // varying parameters got positive finite errors
    let errs = floats(&m.parameter_errors);
    assert!(errs[0] > 0.0 && errs[0].is_finite(), "err0 = {}", errs[0]);
    assert!(errs[1] > 0.0 && errs[1].is_finite(), "err1 = {}", errs[1]);
}

#[test]
fn fixed_parameters_get_zero_error() {
    let x: Vec<f64> = (0..6).map(|i| i as f64).collect();
    let y: Vec<f64> = x.iter().map(|xi| 1.0 + 2.0 * xi + 0.01 * (xi - 2.0)).collect();
    let sy: Vec<f64> = x.iter().map(|_| 0.1).collect();
    let mut m = linear_minimizer(&x, &y, &sy, 1.0, 0.0, &[false, true], 1.0);
    m.minimize();
    assert_eq!(m.parameter_errors[0], POS_ZERO);
    assert!(f64::from_bits(m.parameter_errors[1]) > 0.0);
}

#[test]
fn all_fixed_parameters_converge_immediately() {
    let mut m = linear_minimizer(
        &[0.0, 1.0, 2.0],
        &[1.1, 2.9, 5.2],
        &[0.1, 0.1, 0.1],
        1.0,
        2.0,
        &[false, false],
        1.0,
    );
    let before_params = m.minimizer_parameters.clone();
    let before_chi2 = m.chi2;
    assert_eq!(m.num_varying_params, 0);
    assert_eq!(m.dof, m.num_data);
    m.minimize();
    assert_eq!(m.convergence_message, "Parameters converged");
    assert_eq!(m.minimizer_parameters, before_params);
    assert_eq!(m.chi2, before_chi2);
    assert!(m.parameter_errors.iter().all(|e| *e == POS_ZERO));
}

#[test]
fn minimize_twice_from_same_state_is_identical() {
    let mut a = noisy_linear_minimizer();
    let mut b = noisy_linear_minimizer();
    a.minimize();
    b.minimize();
    assert_eq!(a.minimizer_parameters, b.minimizer_parameters);
    assert_eq!(a.chi2, b.chi2);
    assert_eq!(a.redchi2, b.redchi2);
    assert_eq!(a.lambda, b.lambda);
    assert_eq!(a.convergence_message, b.convergence_message);
    assert_eq!(a.parameter_errors, b.parameter_errors);
    assert_eq!(a.num_func_evaluation, b.num_func_evaluation);
}

#[test]
fn broyden_jacobian_agrees_with_explicit_recomputation() {
    let mut m = noisy_linear_minimizer();
    m.minimize();
    // recompute the Jacobian analytically at the final parameters and
    // compare with whatever maintenance strategy left behind
    let explicit = curve_fit::model::Model::parameter_gradient(
        &m.model,
        &m.minimizer_parameters,
        &m.vary_parameter,
        &m.minimizer_ymodel,
    );
    assert_eq!(m.jacobian.len(), explicit.len());
    for (row_kept, row_exp) in m.jacobian.iter().zip(explicit.iter()) {
        for (a, b) in row_kept.iter().zip(row_exp.iter()) {
            let d = (f64::from_bits(*a) - f64::from_bits(*b)).abs();
            assert!(d < 1e-6, "jacobian entries differ: {} vs {}", a, b);
        }
    }
}

#[test]
fn solver_exact_on_diagonal_system() {
    let a = vec![bits(&[2.0, 0.0]), bits(&[0.0, 4.0])];
    let b = bits(&[2.0, 8.0]);
    let x = matrix_solve(&a, &b);
    assert_eq!(x, bits(&[1.0, 2.0]));
}

#[test]
fn solver_with_pivoting() {
    // first pivot must move the second row up
    let a = vec![bits(&[0.0, 1.0]), bits(&[2.0, 0.0])];
    let b = bits(&[3.0, 4.0]);
    let x = matrix_solve(&a, &b);
    assert_eq!(x, bits(&[2.0, 3.0]));
}

#[test]
fn singular_system_propagates_nan() {
    let a = vec![bits(&[0.0, 0.0]), bits(&[0.0, 0.0])];
    let b = bits(&[1.0, 1.0]);
    let x = matrix_solve(&a, &b);
    assert!(x.iter().any(|v| f64::from_bits(*v).is_nan()));
}

#[test]
fn bit_level_comparisons_and_folds() {
    let two = 2.0f64.to_bits();
    let neg_three = (-3.0f64).to_bits();
    assert!(fgt(two, neg_three));
    assert!(flt(neg_three, two));
    assert!(!fgt(NAN_SEED, two));
    assert!(!flt(NAN_SEED, two));
    assert_eq!(fabs(neg_three), 3.0f64.to_bits());
    // the NaN seed is discarded by the first real comparison
    assert_eq!(fmax(NAN_SEED, two), two);
    assert_eq!(fmax(two, NAN_SEED), two);
    assert_eq!(fmin(NAN_SEED, two), two);
    assert_eq!(fmax(two, neg_three), two);
    assert_eq!(fmin(two, neg_three), neg_three);
}

#[test]
fn square_root_iteration_is_accurate() {
    for v in [4.0f64, 2.0, 0.25, 9.0e6, 1.3e-5] {
        let r = f64::from_bits(fsqrt(v.to_bits()));
        let e = v.sqrt();
        assert!((r - e).abs() <= 1e-14 * e, "sqrt({}) = {} vs {}", v, r, e);
    }
    assert_eq!(fsqrt(POS_ZERO), POS_ZERO);
    assert!(f64::from_bits(fsqrt((-1.0f64).to_bits())).is_nan());
}

#[test]
fn reduced_chi2_divides_by_dof_exactly() {
    // y differs from the exact model by 1.0 at each of 4 points, sy = 1:
    // chi2 = 4, two varying parameters, dof = 2, redchi2 = 2
    let x = [0.0, 1.0, 2.0, 3.0];
    let y = [2.0, 4.0, 6.0, 8.0];
    let sy = [1.0, 1.0, 1.0, 1.0];
    let m = linear_minimizer(&x, &y, &sy, 1.0, 2.0, &[true, true], 1.0);
    assert_eq!(m.chi2, 4.0f64.to_bits());
    assert_eq!(m.dof, 2);
    assert_eq!(m.redchi2, 2.0f64.to_bits());
}

#[test]
fn lm_step_exact_on_scalar_system() {
    // one data point, one varying parameter: J = [[1]], w = 1, resid = 2,
    // b = [2], A0 = [[1]], A = [[1 + lambda]] = [[2]], delta = [1]
    let mut m = linear_minimizer(&[0.0], &[2.0], &[1.0], 0.0, 0.0, &[true, false], 1.0);
    let step = m.lm();
    assert_eq!(step.delta, bits(&[1.0]));
    assert_eq!(step.parameters, bits(&[1.0, 0.0]));
    // chi2 at the candidate: ((2 - 1) / 1)^2 = 1
    assert_eq!(step.chi2, 1.0f64.to_bits());
    // metric = delta . b + delta^2 * lambda * diag(A0) = 2 + 1 = 3
    assert_eq!(step.metric, 3.0f64.to_bits());
    assert_eq!(step.metric_gradient, 2.0f64.to_bits());
    // relative change against zero parameters: infinite
    assert_eq!(step.metric_parameters, f64::INFINITY.to_bits());
    assert_eq!(step.JT_W_J, vec![bits(&[1.0])]);
    // dof = 0: the reduced chi2 is infinite, by design unchecked
    assert_eq!(step.redchi2, f64::INFINITY.to_bits());
}
