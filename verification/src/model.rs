//! The model evaluator: the function being fitted, with its domain and
//! its parameter gradient.
//!
//! The minimizer sees a model only through this trait.  Each implementor
//! gives its evaluation and gradient as spec functions and proves that
//! the executable methods return exactly those values, so everything the
//! control loop does with a model is pinned down.  A straight line
//! through fixed domain points is provided as a verified implementation.
use vstd::prelude::*;
use crate::fp::{ONE_BITS, add_bits, mul_bits, fadd, fmul};
use crate::linalg::{is_matrix, lemma_rows_deep};

verus! {

/// How many entries of `v` are true.
pub open spec fn count_true(v: Seq<bool>) -> nat
    decreases v.len(),
{
    if v.len() == 0 {
        0
    } else {
        count_true(v.drop_last()) + (if v.last() {
            1nat
        } else {
            0nat
        })
    }
}

pub proof fn lemma_count_take_succ(v: Seq<bool>, i: int)
    requires
        0 <= i < v.len(),
    ensures
        count_true(v.take(i + 1)) == count_true(v.take(i)) + (if v[i] {
            1nat
        } else {
            0nat
        }),
{
    assert(v.take(i + 1).drop_last() =~= v.take(i));
    assert(v.take(i + 1).last() == v[i]);
}

pub proof fn lemma_count_le(v: Seq<bool>)
    ensures
        count_true(v) <= v.len(),
    decreases v.len(),
{
    if v.len() > 0 {
        lemma_count_le(v.drop_last());
    }
}

pub proof fn lemma_count_take_le(v: Seq<bool>, i: int)
    requires
        0 <= i <= v.len(),
    ensures
        count_true(v.take(i)) <= count_true(v),
    decreases v.len() - i,
{
    if i < v.len() {
        lemma_count_take_succ(v, i);
        lemma_count_take_le(v, i + 1);
    } else {
        assert(v.take(i) =~= v);
    }
}

/// How many entries of `v` are true.
pub fn count_true_exec(v: &Vec<bool>) -> (n: usize)
    ensures
        n == count_true(v@),
{
    let mut n: usize = 0;
    let mut i: usize = 0;
    while i < v.len()
        invariant
            i <= v@.len(),
            n == count_true(v@.take(i as int)),
            n <= i,
        decreases v@.len() - i,
    {
        proof {
            lemma_count_take_succ(v@, i as int);
        }
        if v[i] {
            n = n + 1;
        }
        i = i + 1;
    }
    proof {
        assert(v@.take(v@.len() as int) =~= v@);
    }
    n
}

/// A model of one scalar variable: it evaluates itself on a fixed domain
/// for a given parameter vector, and produces the matrix of partial
/// derivatives with respect to the varying parameters.
pub trait Model: Sized {
    /// The implementor's own well-formedness.
    spec fn wf(&self) -> bool;

    /// The initial parameter vector the model was built with.
    spec fn params_spec(&self) -> Seq<u64>;

    /// The number of domain points.
    spec fn domain_len(&self) -> nat;

    /// The model output at each domain point, for the given parameters.
    spec fn eval_spec(&self, params: Seq<u64>) -> Seq<u64>;

    /// The `domain_len x count_true(vary)` matrix of partial derivatives
    /// with respect to the varying parameters, at the given parameters.
    spec fn gradient_spec(&self, params: Seq<u64>, vary: Seq<bool>, ymodel: Seq<u64>) -> Seq<
        Seq<u64>,
    >;

    proof fn lemma_eval_len(&self, params: Seq<u64>)
        requires
            self.wf(),
        ensures
            self.eval_spec(params).len() == self.domain_len(),
    ;

    proof fn lemma_gradient_shape(&self, params: Seq<u64>, vary: Seq<bool>, ymodel: Seq<u64>)
        requires
            self.wf(),
            vary.len() == self.params_spec().len(),
        ensures
            is_matrix(
                self.gradient_spec(params, vary, ymodel),
                self.domain_len(),
                count_true(vary),
            ),
    ;

    /// The initial parameter vector.
    fn parameters(&self) -> (r: Vec<u64>)
        requires
            self.wf(),
        ensures
            r@ == self.params_spec(),
    ;

    /// The number of domain points.
    fn num_domain_points(&self) -> (n: usize)
        requires
            self.wf(),
        ensures
            n == self.domain_len(),
    ;

    /// The model output for the given parameters.
    fn for_parameters(&self, params: &Vec<u64>) -> (r: Vec<u64>)
        requires
            self.wf(),
            params@.len() == self.params_spec().len(),
        ensures
            r@ == self.eval_spec(params@),
    ;

    /// The parameter gradient for the given parameters; `ymodel` is the
    /// model output already computed there, for implementations that
    /// difference against it.
    fn parameter_gradient(&self, params: &Vec<u64>, vary: &Vec<bool>, ymodel: &Vec<u64>) -> (j:
        Vec<Vec<u64>>)
        requires
            self.wf(),
            params@.len() == self.params_spec().len(),
            vary@.len() == params@.len(),
            ymodel@.len() == self.domain_len(),
        ensures
            j.deep_view() == self.gradient_spec(params@, vary@, ymodel@),
    ;
}

/// One gradient row of the straight-line model: the derivative with
/// respect to the intercept is one, with respect to the slope the domain
/// point, kept only for varying parameters.
pub open spec fn line_grad_row(vary: Seq<bool>, xi: u64) -> Seq<u64> {
    if vary.len() < 2 {
        Seq::empty()
    } else if vary[0] && vary[1] {
        seq![ONE_BITS, xi]
    } else if vary[0] {
        seq![ONE_BITS]
    } else if vary[1] {
        seq![xi]
    } else {
        Seq::empty()
    }
}

/// The straight line `p0 + p1 * x` over fixed domain points, with its
/// two parameters and an exact analytic gradient.
pub struct LinearModel {
    pub x: Vec<u64>,
    pub parameters: Vec<u64>,
}

impl Model for LinearModel {
    open spec fn wf(&self) -> bool {
        self.parameters@.len() == 2
    }

    open spec fn params_spec(&self) -> Seq<u64> {
        self.parameters@
    }

    open spec fn domain_len(&self) -> nat {
        self.x@.len()
    }

    open spec fn eval_spec(&self, params: Seq<u64>) -> Seq<u64> {
        Seq::new(self.x@.len(), |i: int| add_bits(params[0], mul_bits(params[1], self.x@[i])))
    }

    open spec fn gradient_spec(&self, params: Seq<u64>, vary: Seq<bool>, ymodel: Seq<u64>) -> Seq<
        Seq<u64>,
    > {
        Seq::new(self.x@.len(), |i: int| line_grad_row(vary, self.x@[i]))
    }

    proof fn lemma_eval_len(&self, params: Seq<u64>) {
    }

    proof fn lemma_gradient_shape(&self, params: Seq<u64>, vary: Seq<bool>, ymodel: Seq<u64>) {
        assert(vary.len() == 2);
        let d = vary.drop_last();
        assert(d.len() == 1 && d[0] == vary[0] && d.last() == vary[0]);
        assert(d.drop_last() =~= Seq::<bool>::empty());
        assert(count_true(d.drop_last()) == 0);
        assert(count_true(d) == (if vary[0] {
            1nat
        } else {
            0nat
        }));
        assert(count_true(vary) == count_true(d) + (if vary[1] {
            1nat
        } else {
            0nat
        }));
        assert(forall|i: int|
            0 <= i < self.x@.len() ==> (#[trigger] line_grad_row(vary, self.x@[i])).len()
                == count_true(vary));
    }

    fn parameters(&self) -> (r: Vec<u64>) {
        crate::linalg::copy_row(&self.parameters)
    }

    fn num_domain_points(&self) -> (n: usize) {
        self.x.len()
    }

    fn for_parameters(&self, params: &Vec<u64>) -> (r: Vec<u64>) {
        let p0 = params[0];
        let p1 = params[1];
        let mut r: Vec<u64> = Vec::new();
        let mut i: usize = 0;
        while i < self.x.len()
            invariant
                i <= self.x@.len(),
                params@.len() == 2,
                p0 == params@[0],
                p1 == params@[1],
                r@.len() == i,
                forall|q: int|
                    0 <= q < i ==> r@[q] == add_bits(params@[0], mul_bits(params@[1], self.x@[q])),
            decreases self.x@.len() - i,
        {
            let v = fadd(p0, fmul(p1, self.x[i]));
            r.push(v);
            i = i + 1;
        }
        proof {
            assert(r@ =~= self.eval_spec(params@));
        }
        r
    }

    fn parameter_gradient(&self, params: &Vec<u64>, vary: &Vec<bool>, ymodel: &Vec<u64>) -> (j:
        Vec<Vec<u64>>) {
        let v0 = vary[0];
        let v1 = vary[1];
        let mut j: Vec<Vec<u64>> = Vec::new();
        let mut i: usize = 0;
        while i < self.x.len()
            invariant
                i <= self.x@.len(),
                vary@.len() == 2,
                v0 == vary@[0],
                v1 == vary@[1],
                j@.len() == i,
                forall|q: int| 0 <= q < i ==> #[trigger] j@[q]@ == line_grad_row(vary@, self.x@[q]),
            decreases self.x@.len() - i,
        {
            let mut row: Vec<u64> = Vec::new();
            if v0 {
                row.push(ONE_BITS);
            }
            if v1 {
                row.push(self.x[i]);
            }
            proof {
                assert(row@ =~= line_grad_row(vary@, self.x@[i as int]));
            }
            j.push(row);
            i = i + 1;
        }
        proof {
            lemma_rows_deep(&j);
            assert(j.deep_view() =~= self.gradient_spec(params@, vary@, ymodel@));
        }
        j
    }
}

} // verus!
