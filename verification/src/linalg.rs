//! Dense vectors and matrices of binary64 bit patterns, with the exact
//! operation-by-operation meaning of every computation as spec functions.
//!
//! All reductions are sequential left folds starting from `+0.0`; the
//! order is part of each contract.  A matrix is a vector of rows.
use vstd::prelude::*;
use vstd::pervasive::VecAdditionalExecFns;
use crate::fp::{
    POS_ZERO, NAN_SEED, add_bits, sub_bits, mul_bits, div_bits, abs_bits, max_bits, f64_gt,
    fadd, fsub, fmul, fdiv, fabs, fmax, fgt,
};

verus! {

/// `m` is a `rows x cols` matrix.
pub open spec fn is_matrix(m: Seq<Seq<u64>>, rows: nat, cols: nat) -> bool {
    m.len() == rows && (forall|i: int| 0 <= i < rows ==> (#[trigger] m[i]).len() == cols)
}

/// Elementwise difference `a - b`.
pub open spec fn seq_sub_spec(a: Seq<u64>, b: Seq<u64>) -> Seq<u64> {
    Seq::new(a.len(), |i: int| sub_bits(a[i], b[i]))
}

/// Elementwise sum `a + b`.
pub open spec fn seq_add_spec(a: Seq<u64>, b: Seq<u64>) -> Seq<u64> {
    Seq::new(a.len(), |i: int| add_bits(a[i], b[i]))
}

/// Left fold of `a[0]*b[0] + ... + a[n-1]*b[n-1]` from `+0.0`.
pub open spec fn dot_prefix(a: Seq<u64>, b: Seq<u64>, n: int) -> u64
    decreases n,
{
    if n <= 0 {
        POS_ZERO
    } else {
        add_bits(dot_prefix(a, b, n - 1), mul_bits(a[n - 1], b[n - 1]))
    }
}

/// The dot product of two equal-length vectors.
pub open spec fn dot_spec(a: Seq<u64>, b: Seq<u64>) -> u64 {
    dot_prefix(a, b, a.len() as int)
}

/// The matrix-vector product, one dot product per row.
pub open spec fn matvec_spec(m: Seq<Seq<u64>>, v: Seq<u64>) -> Seq<u64> {
    Seq::new(m.len(), |k: int| dot_spec(m[k], v))
}

/// Left fold of the NaN-discarding maximum of absolute values, seeded
/// with a NaN (so the seed is discarded at the first real comparison).
pub open spec fn max_abs_prefix(v: Seq<u64>, n: int) -> u64
    decreases n,
{
    if n <= 0 {
        NAN_SEED
    } else {
        max_bits(max_abs_prefix(v, n - 1), abs_bits(v[n - 1]))
    }
}

/// The largest absolute value in `v` (NaN entries are skipped; a NaN
/// results only from an empty `v`).
pub open spec fn max_abs_spec(v: Seq<u64>) -> u64 {
    max_abs_prefix(v, v.len() as int)
}

pub fn seq_sub(a: &Vec<u64>, b: &Vec<u64>) -> (r: Vec<u64>)
    requires
        a@.len() == b@.len(),
    ensures
        r@ == seq_sub_spec(a@, b@),
{
    let mut r: Vec<u64> = Vec::new();
    let mut i: usize = 0;
    while i < a.len()
        invariant
            i <= a@.len(),
            a@.len() == b@.len(),
            r@.len() == i,
            forall|k: int| 0 <= k < i ==> r@[k] == sub_bits(a@[k], b@[k]),
        decreases a@.len() - i,
    {
        let v = fsub(a[i], b[i]);
        r.push(v);
        i = i + 1;
    }
    proof {
        assert(r@ =~= seq_sub_spec(a@, b@));
    }
    r
}

pub fn seq_add(a: &Vec<u64>, b: &Vec<u64>) -> (r: Vec<u64>)
    requires
        a@.len() == b@.len(),
    ensures
        r@ == seq_add_spec(a@, b@),
{
    let mut r: Vec<u64> = Vec::new();
    let mut i: usize = 0;
    while i < a.len()
        invariant
            i <= a@.len(),
            a@.len() == b@.len(),
            r@.len() == i,
            forall|k: int| 0 <= k < i ==> r@[k] == add_bits(a@[k], b@[k]),
        decreases a@.len() - i,
    {
        let v = fadd(a[i], b[i]);
        r.push(v);
        i = i + 1;
    }
    proof {
        assert(r@ =~= seq_add_spec(a@, b@));
    }
    r
}

pub fn dot(a: &Vec<u64>, b: &Vec<u64>) -> (r: u64)
    requires
        a@.len() == b@.len(),
    ensures
        r == dot_spec(a@, b@),
{
    let mut acc: u64 = POS_ZERO;
    let mut i: usize = 0;
    while i < a.len()
        invariant
            i <= a@.len(),
            a@.len() == b@.len(),
            acc == dot_prefix(a@, b@, i as int),
        decreases a@.len() - i,
    {
        acc = fadd(acc, fmul(a[i], b[i]));
        i = i + 1;
    }
    acc
}

pub fn matvec(m: &Vec<Vec<u64>>, v: &Vec<u64>) -> (r: Vec<u64>)
    requires
        forall|k: int| 0 <= k < m@.len() ==> (#[trigger] m@[k]@).len() == v@.len(),
    ensures
        r@ == matvec_spec(m.deep_view(), v@),
{
    let mut r: Vec<u64> = Vec::new();
    let mut k: usize = 0;
    while k < m.len()
        invariant
            k <= m@.len(),
            forall|q: int| 0 <= q < m@.len() ==> (#[trigger] m@[q]@).len() == v@.len(),
            r@.len() == k,
            forall|q: int| 0 <= q < k ==> r@[q] == dot_spec(m.deep_view()[q], v@),
        decreases m@.len() - k,
    {
        let d = dot(&m[k], v);
        proof {
            assert(m@[k as int]@ == m.deep_view()[k as int]);
        }
        r.push(d);
        k = k + 1;
    }
    proof {
        assert(r@ =~= matvec_spec(m.deep_view(), v@));
    }
    r
}

pub fn max_abs(v: &Vec<u64>) -> (r: u64)
    ensures
        r == max_abs_spec(v@),
{
    let mut acc: u64 = NAN_SEED;
    let mut i: usize = 0;
    while i < v.len()
        invariant
            i <= v@.len(),
            acc == max_abs_prefix(v@, i as int),
        decreases v@.len() - i,
    {
        let a = fabs(v[i]);
        acc = fmax(acc, a);
        i = i + 1;
    }
    acc
}


/// Every row of the matrix view is the view of the row vector.
pub proof fn lemma_rows_deep(m: &Vec<Vec<u64>>)
    ensures
        forall|q: int| 0 <= q < m@.len() ==> #[trigger] m.deep_view()[q] == m@[q]@,
{
    assert forall|q: int| 0 <= q < m@.len() implies #[trigger] m.deep_view()[q] == m@[q]@ by {
        assert(m@[q].deep_view() =~= m@[q]@);
    }
}

/// The row index in `[k, i)` whose entry in column `k` has the largest
/// absolute value, scanning upward and keeping the first maximum (a NaN
/// entry never wins a comparison).
pub open spec fn pivot_from(m: Seq<Seq<u64>>, k: int, i: int) -> int
    decreases i,
{
    if i <= k + 1 || k < 0 {
        k
    } else {
        let p = pivot_from(m, k, i - 1);
        if f64_gt(abs_bits(m[i - 1][k]), abs_bits(m[p][k])) {
            i - 1
        } else {
            p
        }
    }
}

/// The pivot row for elimination step `k`: partial (row) pivoting.
pub open spec fn pivot_spec(m: Seq<Seq<u64>>, k: int) -> int {
    pivot_from(m, k, m.len() as int)
}

/// `s` with elements `k` and `p` exchanged.
pub open spec fn swap_spec<A>(s: Seq<A>, k: int, p: int) -> Seq<A> {
    s.update(k, s[p]).update(p, s[k])
}

/// Row `row` after subtracting `f` times row `krow` from it, in columns
/// `k` and beyond.
pub open spec fn elim_row_spec(row: Seq<u64>, krow: Seq<u64>, f: u64, k: int) -> Seq<u64> {
    Seq::new(
        row.len(),
        |c: int| if c < k {
            row[c]
        } else {
            sub_bits(row[c], mul_bits(f, krow[c]))
        },
    )
}

/// Rows `k+1 .. i` of the system eliminated against pivot row `k`, in
/// order, each with the factor `m[r][k] / m[k][k]` taken from the state
/// the row is eliminated in.
pub open spec fn elim_rows(m: Seq<Seq<u64>>, y: Seq<u64>, k: int, i: int) -> (Seq<Seq<u64>>, Seq<u64>)
    decreases i,
{
    if i <= k + 1 || k < 0 {
        (m, y)
    } else {
        let st = elim_rows(m, y, k, i - 1);
        let f = div_bits(st.0[i - 1][k], st.0[k][k]);
        (
            st.0.update(i - 1, elim_row_spec(st.0[i - 1], st.0[k], f, k)),
            st.1.update(i - 1, sub_bits(st.1[i - 1], mul_bits(f, st.1[k]))),
        )
    }
}

/// One full elimination step: pick the pivot row, swap it into place,
/// then eliminate every row below.
pub open spec fn elim_step(m: Seq<Seq<u64>>, y: Seq<u64>, k: int) -> (Seq<Seq<u64>>, Seq<u64>) {
    let p = pivot_spec(m, k);
    let ms = swap_spec(m, k, p);
    let ys = swap_spec(y, k, p);
    elim_rows(ms, ys, k, ms.len() as int)
}

/// The system after elimination steps `0 .. k`.
pub open spec fn elim_upto(m: Seq<Seq<u64>>, y: Seq<u64>, k: int) -> (Seq<Seq<u64>>, Seq<u64>)
    decreases k,
{
    if k <= 0 {
        (m, y)
    } else {
        let st = elim_upto(m, y, k - 1);
        elim_step(st.0, st.1, k - 1)
    }
}

/// The back-substitution sum `m[k][k+1]*x[k+1] + ... + m[k][j-1]*x[j-1]`
/// over the already-solved entries.
pub open spec fn bsum(m: Seq<Seq<u64>>, y: Seq<u64>, k: int, j: int) -> u64
    decreases m.len() - k, j, 0int,
{
    if j <= k + 1 || k < 0 || j > m.len() {
        POS_ZERO
    } else {
        add_bits(bsum(m, y, k, j - 1), mul_bits(m[k][j - 1], x_entry(m, y, j - 1)))
    }
}

/// Entry `k` of the solution of the eliminated (upper-triangular)
/// system, by back substitution.
pub open spec fn x_entry(m: Seq<Seq<u64>>, y: Seq<u64>, k: int) -> u64
    decreases m.len() - k, m.len() + 1, 1int,
{
    if 0 <= k < m.len() {
        div_bits(sub_bits(y[k], bsum(m, y, k, m.len() as int)), m[k][k])
    } else {
        POS_ZERO
    }
}

/// The solution of the square system `m * x = y` by Gaussian elimination
/// with partial pivoting followed by back substitution.  A singular (or
/// nearly singular) system is not detected: a zero pivot propagates as
/// NaN or infinity through the affected entries.
pub open spec fn solve_spec(m: Seq<Seq<u64>>, y: Seq<u64>) -> Seq<u64> {
    let st = elim_upto(m, y, m.len() as int);
    Seq::new(m.len(), |k: int| x_entry(st.0, st.1, k))
}

/// A copy of one row.
pub fn copy_row(row: &Vec<u64>) -> (r: Vec<u64>)
    ensures
        r@ == row@,
{
    let mut r: Vec<u64> = Vec::new();
    let mut i: usize = 0;
    while i < row.len()
        invariant
            i <= row@.len(),
            r@ =~= row@.take(i as int),
        decreases row@.len() - i,
    {
        let v = row[i];
        r.push(v);
        i = i + 1;
        proof {
            assert(r@ =~= row@.take(i as int));
        }
    }
    proof {
        assert(r@ =~= row@);
    }
    r
}

/// Solves the square linear system `a * x = b`.
pub fn matrix_solve(a: &Vec<Vec<u64>>, b: &Vec<u64>) -> (r: Vec<u64>)
    requires
        is_matrix(a.deep_view(), b@.len() as nat, b@.len() as nat),
    ensures
        r@ == solve_spec(a.deep_view(), b@),
{
    let n = b.len();
    let mut m: Vec<Vec<u64>> = Vec::new();
    let mut y: Vec<u64> = Vec::new();
    let mut i: usize = 0;
    while i < n
        invariant
            i <= n,
            b@.len() == n,
            is_matrix(a.deep_view(), n as nat, n as nat),
            m@.len() == i,
            forall|q: int| 0 <= q < i ==> #[trigger] m@[q]@ == a.deep_view()[q],
            y@ =~= b@.take(i as int),
        decreases n - i,
    {
        proof {
            lemma_rows_deep(a);
        }
        let row = copy_row(&a[i]);
        m.push(row);
        let v = b[i];
        y.push(v);
        i = i + 1;
        proof {
            assert(y@ =~= b@.take(i as int));
        }
    }
    proof {
        lemma_rows_deep(&m);
        assert(m.deep_view() =~= a.deep_view());
        assert(y@ =~= b@);
    }
    // forward elimination with partial pivoting
    let mut k: usize = 0;
    while k < n
        invariant
            k <= n,
            b@.len() == n,
            y@.len() == n,
            m@.len() == n,
            is_matrix(a.deep_view(), n as nat, n as nat),
            forall|q: int| 0 <= q < n ==> (#[trigger] m@[q]@).len() == n,
            (m.deep_view(), y@) == elim_upto(a.deep_view(), b@, k as int),
        decreases n - k,
    {
        let ghost m0 = m.deep_view();
        let ghost y0 = y@;
        proof {
            lemma_rows_deep(&m);
        }
        // pivot search
        let mut p: usize = k;
        let mut i2: usize = k + 1;
        while i2 < n
            invariant
                k < n,
                k <= p < i2,
                k + 1 <= i2 <= n,
                m@.len() == n,
                m.deep_view() == m0,
                forall|q: int| 0 <= q < n ==> (#[trigger] m@[q]@).len() == n,
                p == pivot_from(m0, k as int, i2 as int),
            decreases n - i2,
        {
            proof {
                lemma_rows_deep(&m);
            }
            if fgt(fabs(m[i2][k]), fabs(m[p][k])) {
                p = i2;
            }
            i2 = i2 + 1;
        }
        proof {
            assert(p == pivot_spec(m0, k as int));
        }
        // swap rows k and p
        if p != k {
            let rowk = copy_row(&m[k]);
            let rowp = copy_row(&m[p]);
            m.set(k, rowp);
            m.set(p, rowk);
            let yk = y[k];
            let yp = y[p];
            y.set(k, yp);
            y.set(p, yk);
        }
        proof {
            lemma_rows_deep(&m);
            assert(m.deep_view() =~= swap_spec(m0, k as int, pivot_spec(m0, k as int)));
            assert(y@ =~= swap_spec(y0, k as int, pivot_spec(m0, k as int)));
        }
        let ghost ms = m.deep_view();
        let ghost ys = y@;
        // eliminate the rows below k
        let mut i3: usize = k + 1;
        while i3 < n
            invariant
                k < n,
                k + 1 <= i3 <= n,
                y@.len() == n,
                m@.len() == n,
                ms.len() == n,
                ys.len() == n,
                forall|q: int| 0 <= q < n ==> (#[trigger] m@[q]@).len() == n,
                (m.deep_view(), y@) == elim_rows(ms, ys, k as int, i3 as int),
            decreases n - i3,
        {
            let ghost mc = m.deep_view();
            let ghost yc = y@;
            proof {
                lemma_rows_deep(&m);
                assert(mc[i3 as int] == m@[i3 as int]@);
                assert(mc[k as int] == m@[k as int]@);
            }
            let f = fdiv(m[i3][k], m[k][k]);
            let newrow = elim_row(&m[i3], &m[k], f, k);
            m.set(i3, newrow);
            let yv = fsub(y[i3], fmul(f, y[k]));
            y.set(i3, yv);
            i3 = i3 + 1;
            proof {
                lemma_rows_deep(&m);
                assert(m.deep_view() =~= mc.update(
                    i3 - 1,
                    elim_row_spec(mc[i3 - 1], mc[k as int], f, k as int),
                ));
                assert(y@ =~= yc.update(i3 - 1, sub_bits(yc[i3 - 1], mul_bits(f, yc[k as int]))));
                assert((m.deep_view(), y@) == elim_rows(ms, ys, k as int, i3 as int));
            }
        }
        k = k + 1;
        proof {
            assert((m.deep_view(), y@) == elim_step(m0, y0, k as int - 1));
            assert((m.deep_view(), y@) == elim_upto(a.deep_view(), b@, k as int));
        }
    }
    let ghost mf = m.deep_view();
    let ghost yf = y@;
    // back substitution
    let mut x: Vec<u64> = Vec::new();
    let mut i4: usize = 0;
    while i4 < n
        invariant
            i4 <= n,
            x@.len() == i4,
        decreases n - i4,
    {
        x.push(POS_ZERO);
        i4 = i4 + 1;
    }
    let mut k2: usize = n;
    while k2 > 0
        invariant
            k2 <= n,
            x@.len() == n,
            y@.len() == n,
            m@.len() == n,
            m.deep_view() == mf,
            y@ == yf,
            forall|q: int| 0 <= q < n ==> (#[trigger] m@[q]@).len() == n,
            forall|c: int| k2 <= c < n ==> #[trigger] x@[c] == x_entry(mf, yf, c),
        decreases k2,
    {
        k2 = k2 - 1;
        let mut acc: u64 = POS_ZERO;
        let mut j: usize = k2 + 1;
        while j < n
            invariant
                k2 < n,
                k2 + 1 <= j <= n,
                x@.len() == n,
                y@.len() == n,
                m@.len() == n,
                m.deep_view() == mf,
                y@ == yf,
                forall|q: int| 0 <= q < n ==> (#[trigger] m@[q]@).len() == n,
                forall|c: int| k2 < c < n ==> #[trigger] x@[c] == x_entry(mf, yf, c),
                acc == bsum(mf, yf, k2 as int, j as int),
            decreases n - j,
        {
            proof {
                lemma_rows_deep(&m);
                assert(mf[k2 as int] == m@[k2 as int]@);
            }
            acc = fadd(acc, fmul(m[k2][j], x[j]));
            j = j + 1;
        }
        proof {
            lemma_rows_deep(&m);
            assert(mf[k2 as int] == m@[k2 as int]@);
        }
        let xv = fdiv(fsub(y[k2], acc), m[k2][k2]);
        x.set(k2, xv);
    }
    proof {
        assert(x@ =~= solve_spec(a.deep_view(), b@));
    }
    x
}

/// Row `row` minus `f` times row `krow`, from column `k` on.
pub fn elim_row(row: &Vec<u64>, krow: &Vec<u64>, f: u64, k: usize) -> (r: Vec<u64>)
    requires
        row@.len() == krow@.len(),
    ensures
        r@ == elim_row_spec(row@, krow@, f, k as int),
{
    let mut r: Vec<u64> = Vec::new();
    let mut c: usize = 0;
    while c < row.len()
        invariant
            c <= row@.len(),
            row@.len() == krow@.len(),
            r@.len() == c,
            forall|q: int|
                0 <= q < c ==> r@[q] == (if q < k {
                    row@[q]
                } else {
                    sub_bits(row@[q], mul_bits(f, krow@[q]))
                }),
        decreases row@.len() - c,
    {
        if c < k {
            let v = row[c];
            r.push(v);
        } else {
            let v = fsub(row[c], fmul(f, krow[c]));
            r.push(v);
        }
        c = c + 1;
    }
    proof {
        assert(r@ =~= elim_row_spec(row@, krow@, f, k as int));
    }
    r
}

} // verus!
