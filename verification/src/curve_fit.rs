//! The Levenberg-Marquardt minimizer: state, the damped step, the
//! acceptance test, Jacobian maintenance, convergence detection and the
//! post-convergence covariance and parameter errors.
//!
//! Every quantity is a binary64 bit pattern; the spec functions here give
//! the exact operation-by-operation meaning of each computation, and the
//! executable functions are proved to return precisely those values.  The
//! whole control loop is mirrored by the total spec function `run`, which
//! makes the fit a mathematical function of its starting state.
use vstd::prelude::*;
use vstd::pervasive::VecAdditionalExecFns;
use crate::fp::{
    POS_ZERO, POS_INF_BITS, ONE_BITS, add_bits, sub_bits, mul_bits, div_bits, sqrt_bits,
    usize_to_f64_bits, max_bits, min_bits, f64_gt, f64_lt, is_finite, is_pos, fadd, fsub, fmul,
    fdiv, fsqrt, f_from_usize, fmax, fmin, fgt, flt,
};
use crate::linalg::{
    is_matrix, seq_sub_spec, seq_add_spec, dot_spec, matvec_spec, max_abs_spec, solve_spec,
    seq_sub, seq_add, dot, matvec, max_abs, matrix_solve, lemma_rows_deep,
};
use crate::model::{Model, count_true, count_true_exec, lemma_count_take_succ, lemma_count_take_le};

verus! {

/// Bit pattern of the lower clamp of the damping parameter, `1e-7`.
pub const LAMBDA_MIN_BITS: u64 = 0x3E7A_D7F2_9ABC_AF48;

/// Bit pattern of the upper clamp of the damping parameter, `1e7`.
pub const LAMBDA_MAX_BITS: u64 = 0x4163_12D0_0000_0000;

/// Bit pattern of `1e-3`, the gradient and parameter convergence bounds.
pub const EPSILON_SMALL_BITS: u64 = 0x3F50_624D_D2F1_A9FC;

/// Bit pattern of `1e-1`, the chi-squared convergence bound and the
/// acceptance bound on the gain ratio.
pub const EPSILON_TENTH_BITS: u64 = 0x3FB9_9999_9999_999A;

/// Bit pattern of `11.0`, the factor the damping grows by on rejection.
pub const LAMBDA_UP_BITS: u64 = 0x4026_0000_0000_0000;

/// Bit pattern of `9.0`, the factor the damping shrinks by on acceptance.
pub const LAMBDA_DOWN_BITS: u64 = 0x4022_0000_0000_0000;

/// The damping parameter lies within its clamps `[1e-7, 1e7]`.
pub open spec fn lambda_in_range(l: u64) -> bool {
    LAMBDA_MIN_BITS <= l && l <= LAMBDA_MAX_BITS
}

/// A damping factor is a finite number of at least one.
pub open spec fn fac_ok(f: u64) -> bool {
    ONE_BITS <= f && f < POS_INF_BITS
}

/// One term of the figure of merit: the squared weighted residual.
pub open spec fn chi2_term(y: u64, ym: u64, sy: u64) -> u64 {
    mul_bits(div_bits(sub_bits(y, ym), sy), div_bits(sub_bits(y, ym), sy))
}

/// Left fold of the first `n` chi-squared terms from `+0.0`.
pub open spec fn chi2_prefix(y: Seq<u64>, ym: Seq<u64>, sy: Seq<u64>, n: int) -> u64
    decreases n,
{
    if n <= 0 {
        POS_ZERO
    } else {
        add_bits(chi2_prefix(y, ym, sy, n - 1), chi2_term(y[n - 1], ym[n - 1], sy[n - 1]))
    }
}

/// The figure of merit `sum_i ((y_i - ymodel_i) / sy_i)^2`.
pub open spec fn chi2_spec(y: Seq<u64>, ym: Seq<u64>, sy: Seq<u64>) -> u64 {
    chi2_prefix(y, ym, sy, y.len() as int)
}

/// Figure of merit that is minimized during the fit procedure.
pub fn chi2(y: &Vec<u64>, ymodel: &Vec<u64>, sy: &Vec<u64>) -> (r: u64)
    requires
        y@.len() == ymodel@.len(),
        y@.len() == sy@.len(),
    ensures
        r == chi2_spec(y@, ymodel@, sy@),
{
    let mut acc: u64 = POS_ZERO;
    let mut i: usize = 0;
    while i < y.len()
        invariant
            i <= y@.len(),
            y@.len() == ymodel@.len(),
            y@.len() == sy@.len(),
            acc == chi2_prefix(y@, ymodel@, sy@, i as int),
        decreases y@.len() - i,
    {
        let s = fdiv(fsub(y[i], ymodel[i]), sy[i]);
        acc = fadd(acc, fmul(s, s));
        i = i + 1;
    }
    acc
}

/// The weighting vector `w_i = 1 / sy_i^2`.
pub open spec fn weights_spec(sy: Seq<u64>) -> Seq<u64> {
    Seq::new(sy.len(), |i: int| div_bits(ONE_BITS, mul_bits(sy[i], sy[i])))
}

/// Entry `i` of `J^T W (y - f)`, folded over the data points.
pub open spec fn wrhs_prefix(j: Seq<Seq<u64>>, w: Seq<u64>, resid: Seq<u64>, i: int, n: int) -> u64
    decreases n,
{
    if n <= 0 {
        POS_ZERO
    } else {
        add_bits(
            wrhs_prefix(j, w, resid, i, n - 1),
            mul_bits(mul_bits(j[n - 1][i], w[n - 1]), resid[n - 1]),
        )
    }
}

/// The right-hand side `b = J^T W (y - f)` of the damped system.
pub open spec fn wrhs_spec(j: Seq<Seq<u64>>, w: Seq<u64>, resid: Seq<u64>, nv: nat) -> Seq<u64> {
    Seq::new(nv, |i: int| wrhs_prefix(j, w, resid, i, j.len() as int))
}

/// Entry `(i, c)` of `J^T W J`, folded over the data points.
pub open spec fn jtwj_prefix(j: Seq<Seq<u64>>, w: Seq<u64>, i: int, c: int, n: int) -> u64
    decreases n,
{
    if n <= 0 {
        POS_ZERO
    } else {
        add_bits(
            jtwj_prefix(j, w, i, c, n - 1),
            mul_bits(mul_bits(j[n - 1][i], w[n - 1]), j[n - 1][c]),
        )
    }
}

/// The Gauss-Newton matrix `J^T W J`.
pub open spec fn jtwj_spec(j: Seq<Seq<u64>>, w: Seq<u64>, nv: nat) -> Seq<Seq<u64>> {
    Seq::new(nv, |i: int| Seq::new(nv, |c: int| jtwj_prefix(j, w, i, c, j.len() as int)))
}

/// The damped system `A = A0 + lambda * diag(A0)`: only the diagonal is
/// damped.
pub open spec fn damped_spec(a0: Seq<Seq<u64>>, lambda: u64) -> Seq<Seq<u64>> {
    Seq::new(
        a0.len(),
        |i: int| Seq::new(
            a0.len() as nat,
            |c: int| if i == c {
                add_bits(a0[i][c], mul_bits(lambda, a0[i][c]))
            } else {
                a0[i][c]
            },
        ),
    )
}

/// The solved delta scattered back to full parameter length: varying
/// positions take the solved entries in order, fixed positions zero.
pub open spec fn scatter_spec(delta: Seq<u64>, vary: Seq<bool>) -> Seq<u64> {
    Seq::new(
        vary.len(),
        |i: int| if vary[i] {
            delta[count_true(vary.take(i)) as int]
        } else {
            POS_ZERO
        },
    )
}

/// The predicted reduction `delta . b + sum_i delta_i^2 * lambda *
/// diag(A0)_i`, folded after the dot product.
pub open spec fn metric_prefix(delta: Seq<u64>, b: Seq<u64>, a0: Seq<Seq<u64>>, lambda: u64, i: int) -> u64
    decreases i,
{
    if i <= 0 {
        dot_spec(delta, b)
    } else {
        add_bits(
            metric_prefix(delta, b, a0, lambda, i - 1),
            mul_bits(mul_bits(delta[i - 1], delta[i - 1]), mul_bits(lambda, a0[i - 1][i - 1])),
        )
    }
}

/// The full predicted-reduction metric of one step.
pub open spec fn metric_spec(delta: Seq<u64>, b: Seq<u64>, a0: Seq<Seq<u64>>, lambda: u64) -> u64 {
    metric_prefix(delta, b, a0, lambda, delta.len() as int)
}

/// The relative parameter change, elementwise over all parameters.
pub open spec fn ratio_spec(delta_all: Seq<u64>, params: Seq<u64>) -> Seq<u64> {
    Seq::new(delta_all.len(), |i: int| div_bits(delta_all[i], params[i]))
}

/// Everything one minimization step computes, at spec level.
pub ghost struct StepSpec {
    pub parameters: Seq<u64>,
    pub delta: Seq<u64>,
    pub ymodel: Seq<u64>,
    pub chi2: u64,
    pub redchi2: u64,
    pub metric: u64,
    pub metric_gradient: u64,
    pub metric_parameters: u64,
    pub jt_w_j: Seq<Seq<u64>>,
}

/// The damped minimization step, as a function of the current state:
/// form `J^T W`, the right-hand side, the damped system, solve it,
/// scatter the delta, compute the three metrics, and evaluate the model
/// at the candidate parameters.
pub open spec fn lm_step_spec<M: Model>(
    model: M,
    y: Seq<u64>,
    sy: Seq<u64>,
    w: Seq<u64>,
    vary: Seq<bool>,
    params: Seq<u64>,
    ymodel: Seq<u64>,
    jac: Seq<Seq<u64>>,
    lambda: u64,
    dof: usize,
) -> StepSpec {
    let nv = count_true(vary);
    let resid = seq_sub_spec(y, ymodel);
    let b = wrhs_spec(jac, w, resid, nv);
    let a0 = jtwj_spec(jac, w, nv);
    let a = damped_spec(a0, lambda);
    let delta = solve_spec(a, b);
    let delta_all = scatter_spec(delta, vary);
    let new_params = seq_add_spec(params, delta_all);
    let new_ymodel = model.eval_spec(new_params);
    let new_chi2 = chi2_spec(y, new_ymodel, sy);
    (StepSpec {
        parameters: new_params,
        delta: delta,
        ymodel: new_ymodel,
        chi2: new_chi2,
        redchi2: div_bits(new_chi2, usize_to_f64_bits(dof)),
        metric: metric_spec(delta, b, a0, lambda),
        metric_gradient: max_abs_spec(b),
        metric_parameters: max_abs_spec(ratio_spec(delta_all, params)),
        jt_w_j: a0,
    })
}

/// The Broyden rank-1 update of the Jacobian: each column `i` gains
/// `(f(new) - f(old) - J delta) * delta_i / (delta . delta)`.
pub open spec fn broyden_spec(
    jac: Seq<Seq<u64>>,
    delta: Seq<u64>,
    old_ym: Seq<u64>,
    new_ym: Seq<u64>,
) -> Seq<Seq<u64>> {
    let norm = dot_spec(delta, delta);
    let diff = seq_sub_spec(seq_sub_spec(new_ym, old_ym), matvec_spec(jac, delta));
    Seq::new(
        jac.len(),
        |k: int| Seq::new(
            delta.len(),
            |i: int| add_bits(jac[k][i], div_bits(mul_bits(diff[k], delta[i]), norm)),
        ),
    )
}

/// The unit basis vector `e_c` of length `n`.
pub open spec fn unit_spec(n: nat, c: int) -> Seq<u64> {
    Seq::new(n, |i: int| if i == c {
        ONE_BITS
    } else {
        POS_ZERO
    })
}

/// The covariance matrix: column `c` is the solution of the final
/// `J^T W J` against the unit basis vector `e_c`.
pub open spec fn cov_spec(a0: Seq<Seq<u64>>, nv: nat) -> Seq<Seq<u64>> {
    Seq::new(nv, |r: int| Seq::new(nv, |c: int| solve_spec(a0, unit_spec(nv, c))[r]))
}

/// The parameter errors: for each varying parameter the square root of
/// the matching covariance diagonal entry scaled by the reduced
/// chi-squared; fixed parameters get zero.
pub open spec fn errors_spec(cov: Seq<Seq<u64>>, redchi2: u64, vary: Seq<bool>) -> Seq<u64> {
    Seq::new(
        vary.len(),
        |i: int| if vary[i] {
            sqrt_bits(mul_bits(cov[count_true(vary.take(i)) as int][count_true(vary.take(i)) as int], redchi2))
        } else {
            POS_ZERO
        },
    )
}

/// All-zero vector.
pub open spec fn zero_vec_spec(n: nat) -> Seq<u64> {
    Seq::new(n, |i: int| POS_ZERO)
}

/// All-zero square matrix.
pub open spec fn zero_matrix_spec(n: nat) -> Seq<Seq<u64>> {
    Seq::new(n, |i: int| zero_vec_spec(n))
}

/// Contains all relevant information after one minimization step.
#[allow(non_snake_case)]
pub struct MinimizationStep {
    pub parameters: Vec<u64>,
    pub delta: Vec<u64>,
    pub ymodel: Vec<u64>,
    pub chi2: u64,
    pub redchi2: u64,
    pub metric: u64,
    pub metric_gradient: u64,
    pub metric_parameters: u64,
    pub JT_W_J: Vec<Vec<u64>>,
}

impl MinimizationStep {
    /// The spec-level content of this step.
    #[allow(non_snake_case)]
    pub open spec fn view_spec(self) -> StepSpec {
        (StepSpec {
            parameters: self.parameters@,
            delta: self.delta@,
            ymodel: self.ymodel@,
            chi2: self.chi2,
            redchi2: self.redchi2,
            metric: self.metric,
            metric_gradient: self.metric_gradient,
            metric_parameters: self.metric_parameters,
            jt_w_j: self.JT_W_J.deep_view(),
        })
    }
}

/// Container to perform a curve fit for a model, given `y` and `sy`.
///
/// The Minimizer owns all mutable fit state and carries the observation
/// data, the variation mask and the tuning constants.
#[allow(non_snake_case)]
pub struct Minimizer<M: Model> {
    pub model: M,
    pub y: Vec<u64>,
    pub sy: Vec<u64>,
    pub vary_parameter: Vec<bool>,
    pub weighting_matrix: Vec<u64>,
    pub minimizer_parameters: Vec<u64>,
    pub minimizer_ymodel: Vec<u64>,
    pub jacobian: Vec<Vec<u64>>,
    pub parameter_cov_matrix: Vec<Vec<u64>>,
    pub parameter_errors: Vec<u64>,
    pub lambda: u64,
    pub num_func_evaluation: usize,
    pub max_iterations: usize,
    pub max_passes: usize,
    pub num_varying_params: usize,
    pub num_params: usize,
    pub num_data: usize,
    pub chi2: u64,
    pub dof: usize,
    pub redchi2: u64,
    pub convergence_message: &'static str,
    pub epsilon1: u64,
    pub epsilon2: u64,
    pub epsilon3: u64,
    pub epsilon4: u64,
    pub lambda_UP_fac: u64,
    pub lambda_DOWN_fac: u64,
}

impl<M: Model> Minimizer<M> {
    /// Shapes and counts agree across all fields.
    pub open spec fn wf(self) -> bool {
        &&& self.model.wf()
        &&& self.num_data == self.y@.len()
        &&& self.num_data == self.model.domain_len()
        &&& self.sy@.len() == self.num_data
        &&& self.num_params == self.vary_parameter@.len()
        &&& self.num_params == self.model.params_spec().len()
        &&& self.minimizer_parameters@.len() == self.num_params
        &&& self.minimizer_ymodel@.len() == self.num_data
        &&& self.weighting_matrix@.len() == self.num_data
        &&& self.num_varying_params == count_true(self.vary_parameter@)
        &&& self.num_varying_params <= self.num_data
        &&& self.dof == self.num_data - self.num_varying_params
        &&& is_matrix(
            self.jacobian.deep_view(),
            self.num_data as nat,
            self.num_varying_params as nat,
        )
        &&& self.parameter_errors@.len() == self.num_params
    }

    /// The spec-level step this minimizer's `lm` computes.
    pub open spec fn step_spec(self) -> StepSpec {
        lm_step_spec(
            self.model,
            self.y@,
            self.sy@,
            self.weighting_matrix@,
            self.vary_parameter@,
            self.minimizer_parameters@,
            self.minimizer_ymodel@,
            self.jacobian.deep_view(),
            self.lambda,
            self.dof,
        )
    }

    /// The read-only context the control loop runs in.
    pub open spec fn ctx(self) -> FitContext {
        (FitContext {
            y: self.y@,
            sy: self.sy@,
            w: self.weighting_matrix@,
            vary: self.vary_parameter@,
            dof: self.dof,
            epsilon1: self.epsilon1,
            epsilon2: self.epsilon2,
            epsilon3: self.epsilon3,
            epsilon4: self.epsilon4,
            lambda_up: self.lambda_UP_fac,
            lambda_down: self.lambda_DOWN_fac,
            max_iterations: self.max_iterations as int,
            max_passes: self.max_passes as int,
        })
    }

    /// The mutable loop state, at a given pass count.
    pub open spec fn state_at(self, iterations: int) -> FitState {
        (FitState {
            parameters: self.minimizer_parameters@,
            ymodel: self.minimizer_ymodel@,
            jacobian: self.jacobian.deep_view(),
            chi2: self.chi2,
            redchi2: self.redchi2,
            lambda: self.lambda,
            iterations: iterations,
            num_func_evaluation: self.num_func_evaluation as int,
        })
    }
}


/// The weighting vector `w_i = 1 / sy_i^2`.
pub fn weights_exec(sy: &Vec<u64>) -> (r: Vec<u64>)
    ensures
        r@ == weights_spec(sy@),
{
    let mut r: Vec<u64> = Vec::new();
    let mut i: usize = 0;
    while i < sy.len()
        invariant
            i <= sy@.len(),
            r@.len() == i,
            forall|q: int| 0 <= q < i ==> r@[q] == div_bits(ONE_BITS, mul_bits(sy@[q], sy@[q])),
        decreases sy@.len() - i,
    {
        let v = fdiv(ONE_BITS, fmul(sy[i], sy[i]));
        r.push(v);
        i = i + 1;
    }
    proof {
        assert(r@ =~= weights_spec(sy@));
    }
    r
}

/// A vector of `n` zeros.
pub fn zero_vec(n: usize) -> (r: Vec<u64>)
    ensures
        r@ == zero_vec_spec(n as nat),
{
    let mut r: Vec<u64> = Vec::new();
    let mut i: usize = 0;
    while i < n
        invariant
            i <= n,
            r@.len() == i,
            forall|q: int| 0 <= q < i ==> r@[q] == POS_ZERO,
        decreases n - i,
    {
        r.push(POS_ZERO);
        i = i + 1;
    }
    proof {
        assert(r@ =~= zero_vec_spec(n as nat));
    }
    r
}

/// An `n x n` matrix of zeros.
pub fn zero_matrix(n: usize) -> (r: Vec<Vec<u64>>)
    ensures
        r.deep_view() == zero_matrix_spec(n as nat),
{
    let mut r: Vec<Vec<u64>> = Vec::new();
    let mut i: usize = 0;
    while i < n
        invariant
            i <= n,
            r@.len() == i,
            forall|q: int| 0 <= q < i ==> #[trigger] r@[q]@ == zero_vec_spec(n as nat),
        decreases n - i,
    {
        let row = zero_vec(n);
        r.push(row);
        i = i + 1;
    }
    proof {
        lemma_rows_deep(&r);
        assert(r.deep_view() =~= zero_matrix_spec(n as nat));
    }
    r
}

/// The unit basis vector `e_c` of length `n`.
pub fn unit_vec(n: usize, c: usize) -> (r: Vec<u64>)
    ensures
        r@ == unit_spec(n as nat, c as int),
{
    let mut r: Vec<u64> = Vec::new();
    let mut i: usize = 0;
    while i < n
        invariant
            i <= n,
            r@.len() == i,
            forall|q: int| 0 <= q < i ==> r@[q] == (if q == c {
                ONE_BITS
            } else {
                POS_ZERO
            }),
        decreases n - i,
    {
        if i == c {
            r.push(ONE_BITS);
        } else {
            r.push(POS_ZERO);
        }
        i = i + 1;
    }
    proof {
        assert(r@ =~= unit_spec(n as nat, c as int));
    }
    r
}

/// The right-hand side `b = J^T W (y - f)` over the varying parameters.
pub fn weighted_rhs(j: &Vec<Vec<u64>>, w: &Vec<u64>, resid: &Vec<u64>, nv: usize) -> (r: Vec<u64>)
    requires
        is_matrix(j.deep_view(), j@.len() as nat, nv as nat),
        w@.len() == j@.len(),
        resid@.len() == j@.len(),
    ensures
        r@ == wrhs_spec(j.deep_view(), w@, resid@, nv as nat),
{
    let nd = j.len();
    let mut r: Vec<u64> = Vec::new();
    let mut i: usize = 0;
    while i < nv
        invariant
            i <= nv,
            w@.len() == nd,
            resid@.len() == nd,
            j@.len() == nd,
            is_matrix(j.deep_view(), nd as nat, nv as nat),
            r@.len() == i,
            forall|q: int| 0 <= q < i ==> r@[q] == wrhs_prefix(j.deep_view(), w@, resid@, q, nd as int),
        decreases nv - i,
    {
        let mut acc: u64 = POS_ZERO;
        let mut k: usize = 0;
        while k < nd
            invariant
                k <= nd,
                i < nv,
                w@.len() == nd,
                resid@.len() == nd,
                j@.len() == nd,
                is_matrix(j.deep_view(), nd as nat, nv as nat),
                acc == wrhs_prefix(j.deep_view(), w@, resid@, i as int, k as int),
            decreases nd - k,
        {
            proof {
                lemma_rows_deep(j);
                assert(j.deep_view()[k as int] == j@[k as int]@);
            }
            acc = fadd(acc, fmul(fmul(j[k][i], w[k]), resid[k]));
            k = k + 1;
        }
        r.push(acc);
        i = i + 1;
    }
    proof {
        assert(r@ =~= wrhs_spec(j.deep_view(), w@, resid@, nv as nat));
    }
    r
}

/// The Gauss-Newton matrix `J^T W J`.
pub fn jtwj_exec(j: &Vec<Vec<u64>>, w: &Vec<u64>, nv: usize) -> (r: Vec<Vec<u64>>)
    requires
        is_matrix(j.deep_view(), j@.len() as nat, nv as nat),
        w@.len() == j@.len(),
    ensures
        r.deep_view() == jtwj_spec(j.deep_view(), w@, nv as nat),
{
    let nd = j.len();
    let mut r: Vec<Vec<u64>> = Vec::new();
    let mut i: usize = 0;
    while i < nv
        invariant
            i <= nv,
            w@.len() == nd,
            j@.len() == nd,
            is_matrix(j.deep_view(), nd as nat, nv as nat),
            r@.len() == i,
            forall|q: int|
                0 <= q < i ==> #[trigger] r@[q]@ == Seq::new(
                    nv as nat,
                    |c: int| jtwj_prefix(j.deep_view(), w@, q, c, nd as int),
                ),
        decreases nv - i,
    {
        let mut row: Vec<u64> = Vec::new();
        let mut c: usize = 0;
        while c < nv
            invariant
                c <= nv,
                i < nv,
                w@.len() == nd,
                j@.len() == nd,
                is_matrix(j.deep_view(), nd as nat, nv as nat),
                row@.len() == c,
                forall|q: int|
                    0 <= q < c ==> row@[q] == jtwj_prefix(j.deep_view(), w@, i as int, q, nd as int),
            decreases nv - c,
        {
            let mut acc: u64 = POS_ZERO;
            let mut k: usize = 0;
            while k < nd
                invariant
                    k <= nd,
                    i < nv,
                    c < nv,
                    w@.len() == nd,
                    j@.len() == nd,
                    is_matrix(j.deep_view(), nd as nat, nv as nat),
                    acc == jtwj_prefix(j.deep_view(), w@, i as int, c as int, k as int),
                decreases nd - k,
            {
                proof {
                    lemma_rows_deep(j);
                    assert(j.deep_view()[k as int] == j@[k as int]@);
                }
                acc = fadd(acc, fmul(fmul(j[k][i], w[k]), j[k][c]));
                k = k + 1;
            }
            row.push(acc);
            c = c + 1;
        }
        proof {
            assert(row@ =~= Seq::new(
                nv as nat,
                |c: int| jtwj_prefix(j.deep_view(), w@, i as int, c, nd as int),
            ));
        }
        r.push(row);
        i = i + 1;
    }
    proof {
        lemma_rows_deep(&r);
        assert(r.deep_view() =~= jtwj_spec(j.deep_view(), w@, nv as nat));
    }
    r
}

/// The damped system `A = A0 + lambda * diag(A0)`.
pub fn damp_exec(a0: &Vec<Vec<u64>>, lambda: u64) -> (r: Vec<Vec<u64>>)
    requires
        is_matrix(a0.deep_view(), a0@.len() as nat, a0@.len() as nat),
    ensures
        r.deep_view() == damped_spec(a0.deep_view(), lambda),
{
    let n = a0.len();
    let mut r: Vec<Vec<u64>> = Vec::new();
    let mut i: usize = 0;
    while i < n
        invariant
            i <= n,
            a0@.len() == n,
            is_matrix(a0.deep_view(), n as nat, n as nat),
            r@.len() == i,
            forall|q: int| 0 <= q < i ==> #[trigger] r@[q]@ == damped_spec(a0.deep_view(), lambda)[q],
        decreases n - i,
    {
        let mut row: Vec<u64> = Vec::new();
        let mut c: usize = 0;
        while c < n
            invariant
                c <= n,
                i < n,
                a0@.len() == n,
                is_matrix(a0.deep_view(), n as nat, n as nat),
                row@.len() == c,
                forall|q: int|
                    0 <= q < c ==> row@[q] == (if i == q {
                        add_bits(
                            a0.deep_view()[i as int][q],
                            mul_bits(lambda, a0.deep_view()[i as int][q]),
                        )
                    } else {
                        a0.deep_view()[i as int][q]
                    }),
            decreases n - c,
        {
            proof {
                lemma_rows_deep(a0);
                assert(a0.deep_view()[i as int] == a0@[i as int]@);
            }
            if i == c {
                let v = fadd(a0[i][c], fmul(lambda, a0[i][c]));
                row.push(v);
            } else {
                let v = a0[i][c];
                row.push(v);
            }
            c = c + 1;
        }
        proof {
            assert(row@ =~= damped_spec(a0.deep_view(), lambda)[i as int]);
        }
        r.push(row);
        i = i + 1;
    }
    proof {
        lemma_rows_deep(&r);
        assert(r.deep_view() =~= damped_spec(a0.deep_view(), lambda));
    }
    r
}

/// Scatter the solved delta back to full parameter length.
pub fn scatter_exec(delta: &Vec<u64>, vary: &Vec<bool>) -> (r: Vec<u64>)
    requires
        count_true(vary@) <= delta@.len(),
    ensures
        r@ == scatter_spec(delta@, vary@),
{
    let mut r: Vec<u64> = Vec::new();
    let mut idx: usize = 0;
    let mut i: usize = 0;
    while i < vary.len()
        invariant
            i <= vary@.len(),
            count_true(vary@) <= delta@.len(),
            idx == count_true(vary@.take(i as int)),
            idx <= i,
            r@.len() == i,
            forall|q: int| 0 <= q < i ==> r@[q] == scatter_spec(delta@, vary@)[q],
        decreases vary@.len() - i,
    {
        proof {
            lemma_count_take_succ(vary@, i as int);
            lemma_count_take_le(vary@, i as int + 1);
        }
        if vary[i] {
            let v = delta[idx];
            r.push(v);
            idx = idx + 1;
        } else {
            r.push(POS_ZERO);
        }
        i = i + 1;
    }
    proof {
        assert(r@ =~= scatter_spec(delta@, vary@));
    }
    r
}

/// The elementwise relative parameter change of one step.
pub fn ratio_exec(delta_all: &Vec<u64>, p: &Vec<u64>) -> (r: Vec<u64>)
    requires
        delta_all@.len() == p@.len(),
    ensures
        r@ == ratio_spec(delta_all@, p@),
{
    let mut r: Vec<u64> = Vec::new();
    let mut i: usize = 0;
    while i < delta_all.len()
        invariant
            i <= delta_all@.len(),
            delta_all@.len() == p@.len(),
            r@.len() == i,
            forall|q: int| 0 <= q < i ==> r@[q] == div_bits(delta_all@[q], p@[q]),
        decreases delta_all@.len() - i,
    {
        let v = fdiv(delta_all[i], p[i]);
        r.push(v);
        i = i + 1;
    }
    proof {
        assert(r@ =~= ratio_spec(delta_all@, p@));
    }
    r
}


impl<M: Model> Minimizer<M> {
    /// Initializes the fit: captures the initial parameters, evaluates
    /// the model once, computes the initial figure of merit, weighting
    /// vector and Jacobian, and sets the fixed tuning constants.
    pub fn init(model: M, y: Vec<u64>, sy: Vec<u64>, vary_parameter: Vec<bool>, lambda: u64) -> (m:
        Minimizer<M>)
        requires
            model.wf(),
            vary_parameter@.len() == model.params_spec().len(),
            y@.len() == sy@.len(),
            y@.len() == model.domain_len(),
            count_true(vary_parameter@) <= y@.len(),
            10 * model.params_spec().len() <= usize::MAX,
        ensures
            m.wf(),
            m.model == model,
            m.y@ == y@,
            m.sy@ == sy@,
            m.vary_parameter@ == vary_parameter@,
            m.weighting_matrix@ == weights_spec(sy@),
            m.minimizer_parameters@ == model.params_spec(),
            m.minimizer_ymodel@ == model.eval_spec(model.params_spec()),
            m.jacobian.deep_view() == model.gradient_spec(
                model.params_spec(),
                vary_parameter@,
                model.eval_spec(model.params_spec()),
            ),
            m.chi2 == chi2_spec(y@, model.eval_spec(model.params_spec()), sy@),
            m.num_varying_params == count_true(vary_parameter@),
            m.num_params == model.params_spec().len(),
            m.num_data == y@.len(),
            m.dof == y@.len() - count_true(vary_parameter@),
            m.redchi2 == div_bits(m.chi2, usize_to_f64_bits(m.dof)),
            m.lambda == lambda,
            m.num_func_evaluation == 0,
            m.max_iterations == 10 * count_true(vary_parameter@),
            m.max_passes == usize::MAX,
            m.convergence_message@ == ""@,
            m.epsilon1 == EPSILON_SMALL_BITS,
            m.epsilon2 == EPSILON_SMALL_BITS,
            m.epsilon3 == EPSILON_TENTH_BITS,
            m.epsilon4 == EPSILON_TENTH_BITS,
            m.lambda_UP_fac == LAMBDA_UP_BITS,
            m.lambda_DOWN_fac == LAMBDA_DOWN_BITS,
            m.parameter_cov_matrix.deep_view() == zero_matrix_spec(
                count_true(vary_parameter@),
            ),
            m.parameter_errors@ == zero_vec_spec(vary_parameter@.len()),
    {
        let initial_parameters = model.parameters();
        let minimizer_ymodel = model.for_parameters(&initial_parameters);
        proof {
            model.lemma_eval_len(initial_parameters@);
        }
        let num_varying_params = count_true_exec(&vary_parameter);
        proof {
            crate::model::lemma_count_le(vary_parameter@);
        }
        let num_params = initial_parameters.len();
        let num_data = y.len();
        let chi2_value = chi2(&y, &minimizer_ymodel, &sy);
        let dof = num_data - num_varying_params;
        let redchi2 = fdiv(chi2_value, f_from_usize(dof));
        let j = model.parameter_gradient(&initial_parameters, &vary_parameter, &minimizer_ymodel);
        proof {
            model.lemma_gradient_shape(initial_parameters@, vary_parameter@, minimizer_ymodel@);
        }
        let weighting_matrix = weights_exec(&sy);
        let parameter_cov_matrix = zero_matrix(num_varying_params);
        let parameter_errors = zero_vec(num_params);
        let max_iterations = 10 * num_varying_params;
        Minimizer {
            model,
            y,
            sy,
            vary_parameter,
            weighting_matrix,
            minimizer_parameters: initial_parameters,
            minimizer_ymodel,
            jacobian: j,
            parameter_cov_matrix,
            parameter_errors,
            lambda,
            num_func_evaluation: 0,
            max_iterations,
            max_passes: usize::MAX,
            num_varying_params,
            num_params,
            num_data,
            chi2: chi2_value,
            dof,
            redchi2,
            convergence_message: "",
            epsilon1: EPSILON_SMALL_BITS,
            epsilon2: EPSILON_SMALL_BITS,
            epsilon3: EPSILON_TENTH_BITS,
            epsilon4: EPSILON_TENTH_BITS,
            lambda_UP_fac: LAMBDA_UP_BITS,
            lambda_DOWN_fac: LAMBDA_DOWN_BITS,
        }
    }

    /// Performs one Levenberg-Marquardt step: solves
    /// `[J^T W J + lambda diag(J^T W J)] delta = J^T W (y - f)` for the
    /// delta over the varying parameters and gathers the candidate state
    /// with its acceptance metrics, leaving the persistent state alone.
    pub fn lm(&mut self) -> (step: MinimizationStep)
        requires
            old(self).wf(),
        ensures
            *final(self) == *old(self),
            step.view_spec() == old(self).step_spec(),
            step.parameters@.len() == old(self).num_params,
            step.ymodel@.len() == old(self).num_data,
            step.delta@.len() == old(self).num_varying_params,
            is_matrix(
                step.JT_W_J.deep_view(),
                old(self).num_varying_params as nat,
                old(self).num_varying_params as nat,
            ),
    {
        let nv = self.num_varying_params;
        let resid = seq_sub(&self.y, &self.minimizer_ymodel);
        let b = weighted_rhs(&self.jacobian, &self.weighting_matrix, &resid, nv);
        let a0 = jtwj_exec(&self.jacobian, &self.weighting_matrix, nv);
        proof {
            assert(is_matrix(a0.deep_view(), nv as nat, nv as nat));
        }
        let a = damp_exec(&a0, self.lambda);
        proof {
            assert(is_matrix(a.deep_view(), nv as nat, nv as nat));
        }
        let delta = matrix_solve(&a, &b);
        let delta_all = scatter_exec(&delta, &self.vary_parameter);
        let mut metric = dot(&delta, &b);
        let mut i: usize = 0;
        while i < nv
            invariant
                i <= nv,
                delta@.len() == nv,
                b@.len() == nv,
                is_matrix(a0.deep_view(), nv as nat, nv as nat),
                a0@.len() == nv,
                metric == metric_prefix(delta@, b@, a0.deep_view(), self.lambda, i as int),
                self.lambda == old(self).lambda,
            decreases nv - i,
        {
            proof {
                lemma_rows_deep(&a0);
                assert(a0.deep_view()[i as int] == a0@[i as int]@);
            }
            metric = fadd(metric, fmul(fmul(delta[i], delta[i]), fmul(self.lambda, a0[i][i])));
            i = i + 1;
        }
        let metric_gradient = max_abs(&b);
        let ratios = ratio_exec(&delta_all, &self.minimizer_parameters);
        let metric_parameters = max_abs(&ratios);
        let updated_parameters = seq_add(&self.minimizer_parameters, &delta_all);
        let updated_model = self.model.for_parameters(&updated_parameters);
        proof {
            self.model.lemma_eval_len(updated_parameters@);
        }
        let updated_chi2 = chi2(&self.y, &updated_model, &self.sy);
        let redchi2 = fdiv(updated_chi2, f_from_usize(self.dof));
        MinimizationStep {
            parameters: updated_parameters,
            delta,
            ymodel: updated_model,
            chi2: updated_chi2,
            redchi2,
            metric,
            metric_gradient,
            metric_parameters,
            JT_W_J: a0,
        }
    }
}


/// The Broyden update, executably.
pub fn broyden_exec(jac: &Vec<Vec<u64>>, delta: &Vec<u64>, old_ym: &Vec<u64>, new_ym: &Vec<u64>) -> (r: Vec<Vec<u64>>)
    requires
        is_matrix(jac.deep_view(), jac@.len() as nat, delta@.len() as nat),
        old_ym@.len() == jac@.len(),
        new_ym@.len() == jac@.len(),
    ensures
        r.deep_view() == broyden_spec(jac.deep_view(), delta@, old_ym@, new_ym@),
{
    let nd = jac.len();
    let nv = delta.len();
    let norm = dot(delta, delta);
    proof {
        lemma_rows_deep(jac);
        assert forall|q: int| 0 <= q < jac@.len() implies (#[trigger] jac@[q]@).len()
            == delta@.len() by {
            assert(jac.deep_view()[q] == jac@[q]@);
        }
    }
    let jd = matvec(jac, delta);
    let step_diff = seq_sub(new_ym, old_ym);
    let diff = seq_sub(&step_diff, &jd);
    let mut r: Vec<Vec<u64>> = Vec::new();
    let mut k: usize = 0;
    while k < nd
        invariant
            k <= nd,
            jac@.len() == nd,
            delta@.len() == nv,
            diff@.len() == nd,
            is_matrix(jac.deep_view(), nd as nat, nv as nat),
            diff@ == seq_sub_spec(seq_sub_spec(new_ym@, old_ym@), matvec_spec(jac.deep_view(), delta@)),
            norm == dot_spec(delta@, delta@),
            r@.len() == k,
            forall|q: int|
                0 <= q < k ==> #[trigger] r@[q]@ == broyden_spec(
                    jac.deep_view(),
                    delta@,
                    old_ym@,
                    new_ym@,
                )[q],
        decreases nd - k,
    {
        let mut row: Vec<u64> = Vec::new();
        let mut i: usize = 0;
        while i < nv
            invariant
                i <= nv,
                k < nd,
                jac@.len() == nd,
                delta@.len() == nv,
                diff@.len() == nd,
                is_matrix(jac.deep_view(), nd as nat, nv as nat),
                row@.len() == i,
                forall|q: int|
                    0 <= q < i ==> row@[q] == add_bits(
                        jac.deep_view()[k as int][q],
                        div_bits(mul_bits(diff@[k as int], delta@[q]), norm),
                    ),
            decreases nv - i,
        {
            proof {
                lemma_rows_deep(jac);
                assert(jac.deep_view()[k as int] == jac@[k as int]@);
            }
            let v = fadd(jac[k][i], fdiv(fmul(diff[k], delta[i]), norm));
            row.push(v);
            i = i + 1;
        }
        proof {
            assert(row@ =~= broyden_spec(jac.deep_view(), delta@, old_ym@, new_ym@)[k as int]);
        }
        r.push(row);
        k = k + 1;
    }
    proof {
        lemma_rows_deep(&r);
        assert(r.deep_view() =~= broyden_spec(jac.deep_view(), delta@, old_ym@, new_ym@));
    }
    r
}

/// Why the loop stopped.
pub enum ConvergenceReason {
    Gradient,
    Parameters,
    Chi2,
    MaxIterations,
}

/// The text reported for each way of stopping.
pub open spec fn message_of(r: ConvergenceReason) -> Seq<char> {
    match r {
        ConvergenceReason::Gradient => "Gradient converged"@,
        ConvergenceReason::Parameters => "Parameters converged"@,
        ConvergenceReason::Chi2 => "Chi2 converged"@,
        ConvergenceReason::MaxIterations => "Reached max. number of iterations"@,
    }
}

/// The data the loop reads but never writes.
pub ghost struct FitContext {
    pub y: Seq<u64>,
    pub sy: Seq<u64>,
    pub w: Seq<u64>,
    pub vary: Seq<bool>,
    pub dof: usize,
    pub epsilon1: u64,
    pub epsilon2: u64,
    pub epsilon3: u64,
    pub epsilon4: u64,
    pub lambda_up: u64,
    pub lambda_down: u64,
    pub max_iterations: int,
    pub max_passes: int,
}

/// The state the loop carries from pass to pass.
pub ghost struct FitState {
    pub parameters: Seq<u64>,
    pub ymodel: Seq<u64>,
    pub jacobian: Seq<Seq<u64>>,
    pub chi2: u64,
    pub redchi2: u64,
    pub lambda: u64,
    pub iterations: int,
    pub num_func_evaluation: int,
}

/// What the loop ends with: the final state, the reason, and the last
/// accepted step's `J^T W J` for the covariance computation.
pub ghost struct FitOutcome {
    pub state: FitState,
    pub reason: ConvergenceReason,
    pub jt_w_j: Seq<Seq<u64>>,
}

/// One whole fit, as a function of the starting state: repeat the damped
/// step; on acceptance relax the damping, update the Jacobian (explicit
/// recomputation at the new parameters every `2 * n` iterations, Broyden
/// otherwise), commit the candidate and test the convergence criteria in
/// order; on rejection raise the damping and recompute the Jacobian at
/// the unchanged parameters.  The pass cap `max_passes` bounds the loop
/// where the ordinary bound (tested only on acceptance) never fires.
pub open spec fn run<M: Model>(model: M, ctx: FitContext, s: FitState) -> FitOutcome
    decreases ctx.max_passes - s.iterations,
{
    let nv = count_true(ctx.vary) as int;
    let sp = lm_step_spec(
        model,
        ctx.y,
        ctx.sy,
        ctx.w,
        ctx.vary,
        s.parameters,
        s.ymodel,
        s.jacobian,
        s.lambda,
        ctx.dof,
    );
    let it = s.iterations + 1;
    let rho = div_bits(sub_bits(s.chi2, sp.chi2), sp.metric);
    if f64_gt(rho, ctx.epsilon4) {
        let explicit = it % (2 * nv) == 0;
        let s2 = FitState {
            parameters: sp.parameters,
            ymodel: sp.ymodel,
            jacobian: if explicit {
                model.gradient_spec(sp.parameters, ctx.vary, sp.ymodel)
            } else {
                broyden_spec(s.jacobian, sp.delta, s.ymodel, sp.ymodel)
            },
            chi2: sp.chi2,
            redchi2: sp.redchi2,
            lambda: max_bits(div_bits(s.lambda, ctx.lambda_down), LAMBDA_MIN_BITS),
            iterations: it,
            num_func_evaluation: if explicit {
                s.num_func_evaluation + nv
            } else {
                s.num_func_evaluation
            },
        };
        if f64_lt(sp.metric_gradient, ctx.epsilon1) {
            (FitOutcome { state: s2, reason: ConvergenceReason::Gradient, jt_w_j: sp.jt_w_j })
        } else if f64_lt(sp.metric_parameters, ctx.epsilon2) {
            (FitOutcome { state: s2, reason: ConvergenceReason::Parameters, jt_w_j: sp.jt_w_j })
        } else if f64_lt(sp.redchi2, ctx.epsilon3) {
            (FitOutcome { state: s2, reason: ConvergenceReason::Chi2, jt_w_j: sp.jt_w_j })
        } else if it >= ctx.max_iterations || it >= ctx.max_passes {
            (FitOutcome { state: s2, reason: ConvergenceReason::MaxIterations, jt_w_j: sp.jt_w_j })
        } else {
            run(model, ctx, s2)
        }
    } else {
        let s2 = FitState {
            parameters: s.parameters,
            ymodel: s.ymodel,
            jacobian: model.gradient_spec(s.parameters, ctx.vary, s.ymodel),
            chi2: s.chi2,
            redchi2: s.redchi2,
            lambda: min_bits(mul_bits(s.lambda, ctx.lambda_up), LAMBDA_MAX_BITS),
            iterations: it,
            num_func_evaluation: s.num_func_evaluation,
        };
        if it >= ctx.max_passes {
            (FitOutcome { state: s2, reason: ConvergenceReason::MaxIterations, jt_w_j: sp.jt_w_j })
        } else {
            run(model, ctx, s2)
        }
    }
}

/// Determinism of the fit: the loop's outcome is a function of the model,
/// the read-only context and the starting state, so two runs of
/// `minimize` from the same initial minimizer state end with identical
/// parameters, chi-squared, covariance and convergence reason.
pub proof fn lemma_fit_deterministic<M: Model>(model: M, ctx: FitContext, s1: FitState, s2: FitState)
    requires
        s1 == s2,
    ensures
        run(model, ctx, s1) == run(model, ctx, s2),
{
}

/// Decides whether a candidate step is accepted: the gain ratio
/// `rho = (chi2_before - chi2_after) / metric` must exceed `epsilon4`.
/// Whenever the predicted reduction `metric` is positive (as it is for a
/// positive-definite damped system) and `epsilon4` is positive, an
/// accepted step has strictly smaller chi-squared than the state it
/// started from: acceptance alone forces the decrease.
pub fn accept_step(chi2_before: u64, chi2_after: u64, metric: u64, epsilon4: u64) -> (r: bool)
    ensures
        r == f64_gt(div_bits(sub_bits(chi2_before, chi2_after), metric), epsilon4),
        r && f64_gt(metric, POS_ZERO) && f64_gt(epsilon4, POS_ZERO) ==> f64_gt(
            chi2_before,
            chi2_after,
        ),
{
    let num = fsub(chi2_before, chi2_after);
    let rho = fdiv(num, metric);
    let r = fgt(rho, epsilon4);
    proof {
        if r && f64_gt(metric, POS_ZERO) && f64_gt(epsilon4, POS_ZERO) {
            assert(f64_gt(rho, POS_ZERO));
            assert(f64_gt(num, POS_ZERO));
            assert(f64_gt(chi2_before, chi2_after));
        }
    }
    r
}

/// The damping parameter after an accepted step: divided by the down
/// factor and floored at the lower clamp.  With a well-formed factor a
/// damping parameter inside `[1e-7, 1e7]` stays inside.
pub fn lambda_decrease(lambda: u64, down_fac: u64) -> (r: u64)
    ensures
        r == max_bits(div_bits(lambda, down_fac), LAMBDA_MIN_BITS),
        lambda_in_range(lambda) && fac_ok(down_fac) ==> lambda_in_range(r),
{
    let d = fdiv(lambda, down_fac);
    let r = fmax(d, LAMBDA_MIN_BITS);
    proof {
        if lambda_in_range(lambda) && fac_ok(down_fac) {
            assert(is_pos(lambda));
            assert(is_pos(div_bits(lambda, down_fac)) && div_bits(lambda, down_fac) <= lambda);
            assert(lambda_in_range(r));
        }
    }
    r
}

/// The damping parameter after a rejected step: multiplied by the up
/// factor and capped at the upper clamp.  With a well-formed factor a
/// damping parameter inside `[1e-7, 1e7]` stays inside.
pub fn lambda_increase(lambda: u64, up_fac: u64) -> (r: u64)
    ensures
        r == min_bits(mul_bits(lambda, up_fac), LAMBDA_MAX_BITS),
        lambda_in_range(lambda) && fac_ok(up_fac) ==> lambda_in_range(r),
{
    let m = fmul(lambda, up_fac);
    let r = fmin(m, LAMBDA_MAX_BITS);
    proof {
        if lambda_in_range(lambda) && fac_ok(up_fac) {
            assert(is_pos(lambda));
            assert(is_pos(mul_bits(lambda, up_fac)) && lambda <= mul_bits(lambda, up_fac));
            assert(lambda_in_range(r));
        }
    }
    r
}


impl<M: Model> Minimizer<M> {
    /// Fit routine: repeats damped steps until a convergence criterion is
    /// met, then computes the parameter covariance matrix (one linear
    /// solve of the final `J^T W J` per unit basis vector) and the
    /// parameter errors.  The final state is exactly the outcome of the
    /// spec-level loop `run` from the starting state, so the whole fit is
    /// deterministic.  With no varying parameters the damped system would
    /// be `0 x 0`: the fit reports "Parameters converged" at once and
    /// leaves the state untouched.  The pass cap `max_passes` (set to the
    /// largest `usize` by `init`) is an explicit safety bound on the
    /// otherwise unbounded rejection loop.
    pub fn minimize(&mut self)
        requires
            old(self).wf(),
            2 * old(self).num_varying_params <= usize::MAX,
            old(self).num_func_evaluation + old(self).num_varying_params * (old(
                self,
            ).max_iterations + 1) <= usize::MAX,
        ensures
            final(self).wf(),
            final(self).model == old(self).model,
            final(self).y@ == old(self).y@,
            final(self).sy@ == old(self).sy@,
            final(self).vary_parameter@ == old(self).vary_parameter@,
            final(self).weighting_matrix@ == old(self).weighting_matrix@,
            final(self).num_params == old(self).num_params,
            final(self).num_data == old(self).num_data,
            final(self).num_varying_params == old(self).num_varying_params,
            final(self).dof == old(self).dof,
            final(self).max_iterations == old(self).max_iterations,
            final(self).max_passes == old(self).max_passes,
            final(self).epsilon1 == old(self).epsilon1,
            final(self).epsilon2 == old(self).epsilon2,
            final(self).epsilon3 == old(self).epsilon3,
            final(self).epsilon4 == old(self).epsilon4,
            final(self).lambda_UP_fac == old(self).lambda_UP_fac,
            final(self).lambda_DOWN_fac == old(self).lambda_DOWN_fac,
            old(self).num_varying_params == 0 ==> ({
                &&& final(self).minimizer_parameters@ == old(self).minimizer_parameters@
                &&& final(self).minimizer_ymodel@ == old(self).minimizer_ymodel@
                &&& final(self).chi2 == old(self).chi2
                &&& final(self).redchi2 == old(self).redchi2
                &&& final(self).lambda == old(self).lambda
                &&& final(self).parameter_errors@ == old(self).parameter_errors@
                &&& final(self).convergence_message@ == "Parameters converged"@
            }),
            old(self).num_varying_params > 0 ==> ({
                let out = run(old(self).model, old(self).ctx(), old(self).state_at(0));
                &&& final(self).minimizer_parameters@ == out.state.parameters
                &&& final(self).minimizer_ymodel@ == out.state.ymodel
                &&& final(self).jacobian.deep_view() == out.state.jacobian
                &&& final(self).chi2 == out.state.chi2
                &&& final(self).redchi2 == out.state.redchi2
                &&& final(self).lambda == out.state.lambda
                &&& final(self).num_func_evaluation == out.state.num_func_evaluation
                &&& final(self).convergence_message@ == message_of(out.reason)
                &&& final(self).parameter_cov_matrix.deep_view() == cov_spec(
                    out.jt_w_j,
                    old(self).num_varying_params as nat,
                )
                &&& final(self).parameter_errors@ == errors_spec(
                    cov_spec(out.jt_w_j, old(self).num_varying_params as nat),
                    out.state.redchi2,
                    old(self).vary_parameter@,
                )
            }),
            lambda_in_range(old(self).lambda) && fac_ok(old(self).lambda_UP_fac) && fac_ok(
                old(self).lambda_DOWN_fac,
            ) ==> lambda_in_range(final(self).lambda),
    {
        if self.num_varying_params == 0 {
            self.convergence_message = "Parameters converged";
            return ;
        }
        let ghost model0 = self.model;
        let ghost ctx0 = self.ctx();
        let ghost s0 = self.state_at(0);
        let ghost nfe0 = self.num_func_evaluation as int;
        let mut iterations: usize = 0;
        let mut inv_cov: Vec<Vec<u64>> = Vec::new();
        let ghost mut acc_cont: int = 0;
        loop
            invariant_except_break
                self.wf(),
                self.num_varying_params > 0,
                self.model == old(self).model,
                self.y@ == old(self).y@,
                self.sy@ == old(self).sy@,
                self.vary_parameter@ == old(self).vary_parameter@,
                self.weighting_matrix@ == old(self).weighting_matrix@,
                self.num_params == old(self).num_params,
                self.num_data == old(self).num_data,
                self.num_varying_params == old(self).num_varying_params,
                self.dof == old(self).dof,
                self.max_iterations == old(self).max_iterations,
                self.max_passes == old(self).max_passes,
                self.epsilon1 == old(self).epsilon1,
                self.epsilon2 == old(self).epsilon2,
                self.epsilon3 == old(self).epsilon3,
                self.epsilon4 == old(self).epsilon4,
                self.lambda_UP_fac == old(self).lambda_UP_fac,
                self.lambda_DOWN_fac == old(self).lambda_DOWN_fac,
                self.parameter_errors@ == old(self).parameter_errors@,
                2 * self.num_varying_params <= usize::MAX,
                model0 == self.model,
                ctx0 == self.ctx(),
                run(model0, ctx0, self.state_at(iterations as int)) == run(model0, ctx0, s0),
                iterations < self.max_passes || iterations == 0,
                0 <= acc_cont <= iterations,
                acc_cont <= self.max_iterations,
                nfe0 == old(self).num_func_evaluation,
                nfe0 + self.num_varying_params * (self.max_iterations + 1) <= usize::MAX,
                self.num_func_evaluation <= nfe0 + self.num_varying_params * acc_cont,
                lambda_in_range(old(self).lambda) && fac_ok(old(self).lambda_UP_fac) && fac_ok(
                    old(self).lambda_DOWN_fac,
                ) ==> lambda_in_range(self.lambda),
            ensures
                self.wf(),
                self.num_varying_params > 0,
                self.model == old(self).model,
                self.y@ == old(self).y@,
                self.sy@ == old(self).sy@,
                self.vary_parameter@ == old(self).vary_parameter@,
                self.weighting_matrix@ == old(self).weighting_matrix@,
                self.num_params == old(self).num_params,
                self.num_data == old(self).num_data,
                self.num_varying_params == old(self).num_varying_params,
                self.dof == old(self).dof,
                self.max_iterations == old(self).max_iterations,
                self.max_passes == old(self).max_passes,
                self.epsilon1 == old(self).epsilon1,
                self.epsilon2 == old(self).epsilon2,
                self.epsilon3 == old(self).epsilon3,
                self.epsilon4 == old(self).epsilon4,
                self.lambda_UP_fac == old(self).lambda_UP_fac,
                self.lambda_DOWN_fac == old(self).lambda_DOWN_fac,
                ({
                    let out = run(model0, ctx0, s0);
                    &&& self.minimizer_parameters@ == out.state.parameters
                    &&& self.minimizer_ymodel@ == out.state.ymodel
                    &&& self.jacobian.deep_view() == out.state.jacobian
                    &&& self.chi2 == out.state.chi2
                    &&& self.redchi2 == out.state.redchi2
                    &&& self.lambda == out.state.lambda
                    &&& self.num_func_evaluation == out.state.num_func_evaluation
                    &&& self.convergence_message@ == message_of(out.reason)
                    &&& inv_cov.deep_view() == out.jt_w_j
                    &&& is_matrix(
                        out.jt_w_j,
                        self.num_varying_params as nat,
                        self.num_varying_params as nat,
                    )
                }),
                lambda_in_range(old(self).lambda) && fac_ok(old(self).lambda_UP_fac) && fac_ok(
                    old(self).lambda_DOWN_fac,
                ) ==> lambda_in_range(self.lambda),
            decreases self.max_passes - iterations,
        {
            let ghost scur = self.state_at(iterations as int);
            let step = self.lm();
            let ghost sp = scur_step(model0, ctx0, scur);
            proof {
                assert(step.view_spec() == sp);
            }
            iterations = iterations + 1;
            let accepted = accept_step(self.chi2, step.chi2, step.metric, self.epsilon4);
            if accepted {
                self.lambda = lambda_decrease(self.lambda, self.lambda_DOWN_fac);
                let explicit = iterations % (2 * self.num_varying_params) == 0;
                if explicit {
                    self.jacobian = self.model.parameter_gradient(
                        &step.parameters,
                        &self.vary_parameter,
                        &step.ymodel,
                    );
                    proof {
                        self.model.lemma_gradient_shape(
                            step.parameters@,
                            self.vary_parameter@,
                            step.ymodel@,
                        );
                        vstd::arithmetic::mul::lemma_mul_inequality(
                            acc_cont,
                            self.max_iterations as int,
                            self.num_varying_params as int,
                        );
                        vstd::arithmetic::mul::lemma_mul_is_distributive_add(
                            self.num_varying_params as int,
                            self.max_iterations as int,
                            1,
                        );
                        vstd::arithmetic::mul::lemma_mul_is_commutative(
                            acc_cont,
                            self.num_varying_params as int,
                        );
                        vstd::arithmetic::mul::lemma_mul_is_commutative(
                            self.max_iterations as int,
                            self.num_varying_params as int,
                        );
                        assert(self.num_varying_params * (self.max_iterations + 1)
                            == self.num_varying_params * self.max_iterations
                            + self.num_varying_params);
                    }
                    self.num_func_evaluation = self.num_func_evaluation
                        + self.num_varying_params;
                } else {
                    self.jacobian = broyden_exec(
                        &self.jacobian,
                        &step.delta,
                        &self.minimizer_ymodel,
                        &step.ymodel,
                    );
                }
                self.minimizer_parameters = step.parameters;
                self.minimizer_ymodel = step.ymodel;
                self.chi2 = step.chi2;
                self.redchi2 = step.redchi2;
                proof {
                    assert(self.state_at(iterations as int) == accept_state(
                        model0,
                        ctx0,
                        scur,
                        sp,
                    ));
                }
                if flt(step.metric_gradient, self.epsilon1) {
                    self.convergence_message = "Gradient converged";
                    inv_cov = step.JT_W_J;
                    proof {
                        assert(run(model0, ctx0, scur) == (FitOutcome {
                            state: self.state_at(iterations as int),
                            reason: ConvergenceReason::Gradient,
                            jt_w_j: sp.jt_w_j,
                        }));
                    }
                    break ;
                }
                if flt(step.metric_parameters, self.epsilon2) {
                    self.convergence_message = "Parameters converged";
                    inv_cov = step.JT_W_J;
                    proof {
                        assert(run(model0, ctx0, scur) == (FitOutcome {
                            state: self.state_at(iterations as int),
                            reason: ConvergenceReason::Parameters,
                            jt_w_j: sp.jt_w_j,
                        }));
                    }
                    break ;
                }
                if flt(step.redchi2, self.epsilon3) {
                    self.convergence_message = "Chi2 converged";
                    inv_cov = step.JT_W_J;
                    proof {
                        assert(run(model0, ctx0, scur) == (FitOutcome {
                            state: self.state_at(iterations as int),
                            reason: ConvergenceReason::Chi2,
                            jt_w_j: sp.jt_w_j,
                        }));
                    }
                    break ;
                }
                if iterations >= self.max_iterations || iterations >= self.max_passes {
                    self.convergence_message = "Reached max. number of iterations";
                    inv_cov = step.JT_W_J;
                    proof {
                        assert(run(model0, ctx0, scur) == (FitOutcome {
                            state: self.state_at(iterations as int),
                            reason: ConvergenceReason::MaxIterations,
                            jt_w_j: sp.jt_w_j,
                        }));
                    }
                    break ;
                }
                proof {
                    vstd::arithmetic::mul::lemma_mul_is_distributive_add(
                        self.num_varying_params as int,
                        acc_cont,
                        1,
                    );
                    acc_cont = acc_cont + 1;
                    assert(run(model0, ctx0, scur) == run(
                        model0,
                        ctx0,
                        self.state_at(iterations as int),
                    ));
                }
            } else {
                self.lambda = lambda_increase(self.lambda, self.lambda_UP_fac);
                self.jacobian = self.model.parameter_gradient(
                    &self.minimizer_parameters,
                    &self.vary_parameter,
                    &self.minimizer_ymodel,
                );
                proof {
                    self.model.lemma_gradient_shape(
                        self.minimizer_parameters@,
                        self.vary_parameter@,
                        self.minimizer_ymodel@,
                    );
                    assert(self.state_at(iterations as int) == reject_state(
                        model0,
                        ctx0,
                        scur,
                    ));
                }
                if iterations >= self.max_passes {
                    self.convergence_message = "Reached max. number of iterations";
                    inv_cov = step.JT_W_J;
                    proof {
                        assert(run(model0, ctx0, scur) == (FitOutcome {
                            state: self.state_at(iterations as int),
                            reason: ConvergenceReason::MaxIterations,
                            jt_w_j: sp.jt_w_j,
                        }));
                    }
                    break ;
                }
                proof {
                    assert(run(model0, ctx0, scur) == run(
                        model0,
                        ctx0,
                        self.state_at(iterations as int),
                    ));
                }
            }
        }
        // covariance: one solve of the final J^T W J per unit basis vector
        let ghost out0 = run(model0, ctx0, s0);
        let nv = self.num_varying_params;
        let mut cols: Vec<Vec<u64>> = Vec::new();
        let mut c: usize = 0;
        while c < nv
            invariant
                c <= nv,
                is_matrix(inv_cov.deep_view(), nv as nat, nv as nat),
                inv_cov@.len() == nv,
                cols@.len() == c,
                forall|q: int|
                    0 <= q < c ==> #[trigger] cols@[q]@ == solve_spec(
                        inv_cov.deep_view(),
                        unit_spec(nv as nat, q),
                    ),
            decreases nv - c,
        {
            let e = unit_vec(nv, c);
            let col = matrix_solve(&inv_cov, &e);
            cols.push(col);
            c = c + 1;
        }
        let mut cov: Vec<Vec<u64>> = Vec::new();
        let mut rr: usize = 0;
        while rr < nv
            invariant
                rr <= nv,
                cols@.len() == nv,
                forall|q: int|
                    0 <= q < nv ==> (#[trigger] cols@[q]@).len() == nv && cols@[q]@ == solve_spec(
                        inv_cov.deep_view(),
                        unit_spec(nv as nat, q),
                    ),
                cov@.len() == rr,
                forall|q: int|
                    0 <= q < rr ==> #[trigger] cov@[q]@ == cov_spec(
                        inv_cov.deep_view(),
                        nv as nat,
                    )[q],
            decreases nv - rr,
        {
            let mut row: Vec<u64> = Vec::new();
            let mut cc: usize = 0;
            while cc < nv
                invariant
                    cc <= nv,
                    rr < nv,
                    cols@.len() == nv,
                    forall|q: int|
                        0 <= q < nv ==> (#[trigger] cols@[q]@).len() == nv && cols@[q]@
                            == solve_spec(inv_cov.deep_view(), unit_spec(nv as nat, q)),
                    row@.len() == cc,
                    forall|q: int|
                        0 <= q < cc ==> row@[q] == solve_spec(
                            inv_cov.deep_view(),
                            unit_spec(nv as nat, q),
                        )[rr as int],
                decreases nv - cc,
            {
                let v = cols[cc][rr];
                row.push(v);
                cc = cc + 1;
            }
            proof {
                assert(row@ =~= cov_spec(inv_cov.deep_view(), nv as nat)[rr as int]);
            }
            cov.push(row);
            rr = rr + 1;
        }
        proof {
            lemma_rows_deep(&cov);
            assert(cov.deep_view() =~= cov_spec(inv_cov.deep_view(), nv as nat));
        }
        // parameter errors: sqrt of the scaled covariance diagonal
        let mut errors: Vec<u64> = Vec::new();
        let mut idx: usize = 0;
        let mut i: usize = 0;
        while i < self.num_params
            invariant
                i <= self.num_params,
                self.num_params == self.vary_parameter@.len(),
                nv == count_true(self.vary_parameter@),
                cov@.len() == nv,
                forall|q: int| 0 <= q < nv ==> (#[trigger] cov@[q]@).len() == nv,
                cov.deep_view() == cov_spec(inv_cov.deep_view(), nv as nat),
                idx == count_true(self.vary_parameter@.take(i as int)),
                idx <= i,
                errors@.len() == i,
                forall|q: int|
                    0 <= q < i ==> errors@[q] == errors_spec(
                        cov.deep_view(),
                        self.redchi2,
                        self.vary_parameter@,
                    )[q],
            decreases self.num_params - i,
        {
            proof {
                lemma_count_take_succ(self.vary_parameter@, i as int);
                lemma_count_take_le(self.vary_parameter@, i as int + 1);
                lemma_rows_deep(&cov);
            }
            if self.vary_parameter[i] {
                let v = fsqrt(fmul(cov[idx][idx], self.redchi2));
                errors.push(v);
                idx = idx + 1;
            } else {
                errors.push(POS_ZERO);
            }
            i = i + 1;
        }
        proof {
            assert(errors@ =~= errors_spec(cov.deep_view(), self.redchi2, self.vary_parameter@));
        }
        self.parameter_cov_matrix = cov;
        self.parameter_errors = errors;
    }
}

/// The step the spec loop takes from state `s`.
pub open spec fn scur_step<M: Model>(model: M, ctx: FitContext, s: FitState) -> StepSpec {
    lm_step_spec(
        model,
        ctx.y,
        ctx.sy,
        ctx.w,
        ctx.vary,
        s.parameters,
        s.ymodel,
        s.jacobian,
        s.lambda,
        ctx.dof,
    )
}

/// The committed state after an accepted step from `s`.
pub open spec fn accept_state<M: Model>(model: M, ctx: FitContext, s: FitState, sp: StepSpec) -> FitState {
    let nv = count_true(ctx.vary) as int;
    let it = s.iterations + 1;
    let explicit = it % (2 * nv) == 0;
    (FitState {
        parameters: sp.parameters,
        ymodel: sp.ymodel,
        jacobian: if explicit {
            model.gradient_spec(sp.parameters, ctx.vary, sp.ymodel)
        } else {
            broyden_spec(s.jacobian, sp.delta, s.ymodel, sp.ymodel)
        },
        chi2: sp.chi2,
        redchi2: sp.redchi2,
        lambda: max_bits(div_bits(s.lambda, ctx.lambda_down), LAMBDA_MIN_BITS),
        iterations: it,
        num_func_evaluation: if explicit {
            s.num_func_evaluation + nv
        } else {
            s.num_func_evaluation
        },
    })
}

/// The state after a rejected step from `s`.
pub open spec fn reject_state<M: Model>(model: M, ctx: FitContext, s: FitState) -> FitState {
    (FitState {
        parameters: s.parameters,
        ymodel: s.ymodel,
        jacobian: model.gradient_spec(s.parameters, ctx.vary, s.ymodel),
        chi2: s.chi2,
        redchi2: s.redchi2,
        lambda: min_bits(mul_bits(s.lambda, ctx.lambda_up), LAMBDA_MAX_BITS),
        iterations: s.iterations + 1,
        num_func_evaluation: s.num_func_evaluation,
    })
}


/// Left fold of the entries of `v` from `+0.0`.
pub open spec fn sum_prefix(v: Seq<u64>, n: int) -> u64
    decreases n,
{
    if n <= 0 {
        POS_ZERO
    } else {
        add_bits(sum_prefix(v, n - 1), v[n - 1])
    }
}

/// The mean of the observations, `sum(y) / len(y)`.
pub open spec fn mean_spec(y: Seq<u64>) -> u64 {
    div_bits(sum_prefix(y, y.len() as int), usize_to_f64_bits(y.len() as usize))
}

/// Left fold of the squared residuals against the model.
pub open spec fn rss_prefix(y: Seq<u64>, ym: Seq<u64>, n: int) -> u64
    decreases n,
{
    if n <= 0 {
        POS_ZERO
    } else {
        add_bits(
            rss_prefix(y, ym, n - 1),
            mul_bits(sub_bits(y[n - 1], ym[n - 1]), sub_bits(y[n - 1], ym[n - 1])),
        )
    }
}

/// Left fold of the squared residuals against the mean.
pub open spec fn tss_prefix(y: Seq<u64>, mean: u64, n: int) -> u64
    decreases n,
{
    if n <= 0 {
        POS_ZERO
    } else {
        add_bits(
            tss_prefix(y, mean, n - 1),
            mul_bits(sub_bits(y[n - 1], mean), sub_bits(y[n - 1], mean)),
        )
    }
}

/// The total sum of squares of the observations about their mean.
pub open spec fn tss_spec(y: Seq<u64>) -> u64 {
    tss_prefix(y, mean_spec(y), y.len() as int)
}

/// The coefficient of determination
/// `1 - sum (y_i - ymodel_i)^2 / sum (y_i - mean(y))^2`.
pub open spec fn r2_spec(y: Seq<u64>, ym: Seq<u64>) -> u64 {
    sub_bits(ONE_BITS, div_bits(rss_prefix(y, ym, y.len() as int), tss_spec(y)))
}

impl<M: Model> Minimizer<M> {
    /// Calculate the coefficient of determination.
    ///
    /// When the model output equals the observations elementwise, the
    /// observations are finite, and their total sum of squares is
    /// positive, the result is exactly `1.0`: every residual is exactly
    /// `+0.0`, their sum stays `+0.0`, and `1 - 0/tss` is exact.
    #[allow(non_snake_case)]
    pub fn calculate_R2(&self) -> (r: u64)
        requires
            self.wf(),
        ensures
            r == r2_spec(self.y@, self.minimizer_ymodel@),
            (self.minimizer_ymodel@ == self.y@ && (forall|i: int|
                0 <= i < self.y@.len() ==> is_finite(#[trigger] self.y@[i])) && f64_gt(
                tss_spec(self.y@),
                POS_ZERO,
            )) ==> r == ONE_BITS,
    {
        let n = self.y.len();
        let mut total: u64 = POS_ZERO;
        let mut i: usize = 0;
        while i < n
            invariant
                i <= n,
                self.y@.len() == n,
                total == sum_prefix(self.y@, i as int),
            decreases n - i,
        {
            total = fadd(total, self.y[i]);
            i = i + 1;
        }
        let mean_y = fdiv(total, f_from_usize(n));
        let ghost perfect = self.minimizer_ymodel@ == self.y@ && (forall|q: int|
            0 <= q < self.y@.len() ==> is_finite(#[trigger] self.y@[q]));
        let mut res_sum_sq: u64 = POS_ZERO;
        let mut tot_sum_sq: u64 = POS_ZERO;
        let mut k: usize = 0;
        while k < n
            invariant
                k <= n,
                self.y@.len() == n,
                self.minimizer_ymodel@.len() == n,
                mean_y == mean_spec(self.y@),
                res_sum_sq == rss_prefix(self.y@, self.minimizer_ymodel@, k as int),
                tot_sum_sq == tss_prefix(self.y@, mean_y, k as int),
                perfect == (self.minimizer_ymodel@ == self.y@ && (forall|q: int|
                    0 <= q < self.y@.len() ==> is_finite(#[trigger] self.y@[q]))),
                perfect ==> res_sum_sq == POS_ZERO,
            decreases n - k,
        {
            let s1 = fsub(self.y[k], self.minimizer_ymodel[k]);
            res_sum_sq = fadd(res_sum_sq, fmul(s1, s1));
            let s2 = fsub(self.y[k], mean_y);
            tot_sum_sq = fadd(tot_sum_sq, fmul(s2, s2));
            k = k + 1;
        }
        let r = fsub(ONE_BITS, fdiv(res_sum_sq, tot_sum_sq));
        proof {
            if perfect && f64_gt(tss_spec(self.y@), POS_ZERO) {
                assert(is_pos(tot_sum_sq) && tot_sum_sq != POS_ZERO);
                assert(r == ONE_BITS);
            }
        }
        r
    }
}

} // verus!
