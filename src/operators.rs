use vstd::prelude::*;
use vstd::arithmetic::div_mod::lemma_fundamental_div_mod_converse;

verus! {

/// Smallest number of points on which the fourth-order upwind operator
/// can place its two boundary closures without them overlapping.
pub const UPWIND4_MIN_POINTS: usize = 8;

/// Number of rows at each end of the line whose stencil differs from the interior one.
pub const UPWIND4_BLOCK: usize = 4;

/// Width of every stencil: the interior one reaches three points to each side.
pub const UPWIND4_WIDTH: usize = 7;

/// Common denominator of the diagonal norm (quadrature) weights.
pub const NORM_DENOM: u64 = 144;

/// Common denominator of the entries of `Q = H D`, the skew part of the
/// central derivative.
pub const Q_DENOM: u64 = 288;

/// Common denominator of the entries of `H S`, the symmetric dissipation
/// that turns the central operator into the upwind one.
pub const DISS_DENOM: u64 = 144;

/// Norm weight of row `r` of the boundary block (counted from the nearest
/// boundary), times `NORM_DENOM`.
pub open spec fn block_weight(r: int) -> int {
    if r == 0 {
        49
    } else if r == 1 {
        183
    } else if r == 2 {
        123
    } else if r == 3 {
        149
    } else {
        144
    }
}

/// Norm weight of node `i` on a line of `n` nodes, times `NORM_DENOM`, in units of
/// the grid spacing.
pub open spec fn norm_weight(n: int, i: int) -> int {
    if i < 4 {
        block_weight(i)
    } else if i >= n - 4 {
        block_weight(n - 1 - i)
    } else {
        144
    }
}

/// Entry `(r, c)` of the left boundary block of `Q`, times `Q_DENOM`.
pub open spec fn block_q(r: int, c: int) -> int {
    if r == 0 {
        if c == 0 { -144 } else if c == 1 { 187 } else if c == 2 { -40 } else if c == 3 { -3 } else { 0 }
    } else if r == 1 {
        if c == 0 { -187 } else if c == 2 { 207 } else if c == 3 { -32 } else if c == 4 { 12 } else { 0 }
    } else if r == 2 {
        if c == 0 { 40 } else if c == 1 { -207 } else if c == 3 { 227 } else if c == 4 { -72 } else if c == 5 { 12 } else { 0 }
    } else {
        if c == 0 { 3 } else if c == 1 { 32 } else if c == 2 { -227 } else if c == 4 { 252 } else if c == 5 { -72 } else if c == 6 { 12 } else { 0 }
    }
}

/// Interior stencil of `Q` at offset `d = j - i`, times `Q_DENOM`.
pub open spec fn interior_q(d: int) -> int {
    if d == -3 {
        -12
    } else if d == -2 {
        72
    } else if d == -1 {
        -252
    } else if d == 1 {
        252
    } else if d == 2 {
        -72
    } else if d == 3 {
        12
    } else {
        0
    }
}

/// Entry `(i, j)` of `Q = H D` on a line of `n` nodes, times `Q_DENOM`.
/// The right boundary block is the left one turned by half a revolution, with
/// its sign flipped.
pub open spec fn q_entry(n: int, i: int, j: int) -> int {
    if i < 4 {
        if 0 <= j < 7 { block_q(i, j) } else { 0 }
    } else if i >= n - 4 {
        if 0 <= n - 1 - j < 7 { -block_q(n - 1 - i, n - 1 - j) } else { 0 }
    } else {
        interior_q(j - i)
    }
}

/// Entry `(r, c)` of the left boundary block of `H S`, times `DISS_DENOM`.
pub open spec fn block_diss(r: int, c: int) -> int {
    if r == 0 {
        if c == 0 { -3 } else if c == 1 { 9 } else if c == 2 { -9 } else if c == 3 { 3 } else { 0 }
    } else if r == 1 {
        if c == 0 { 9 } else if c == 1 { -33 } else if c == 2 { 45 } else if c == 3 { -27 } else if c == 4 { 6 } else { 0 }
    } else if r == 2 {
        if c == 0 { -9 } else if c == 1 { 45 } else if c == 2 { -87 } else if c == 3 { 81 } else if c == 4 { -36 } else if c == 5 { 6 } else { 0 }
    } else {
        if c == 0 { 3 } else if c == 1 { -27 } else if c == 2 { 81 } else if c == 3 { -117 } else if c == 4 { 90 } else if c == 5 { -36 } else if c == 6 { 6 } else { 0 }
    }
}

/// Interior stencil of `H S` at offset `d = j - i`, times `DISS_DENOM`.
pub open spec fn interior_diss(d: int) -> int {
    if d == -3 || d == 3 {
        6
    } else if d == -2 || d == 2 {
        -36
    } else if d == -1 || d == 1 {
        90
    } else if d == 0 {
        -120
    } else {
        0
    }
}

/// Entry `(i, j)` of the dissipation `H S` on a line of `n` nodes, times
/// `DISS_DENOM`. The right boundary block mirrors the left one.
pub open spec fn diss_entry(n: int, i: int, j: int) -> int {
    if i < 4 {
        if 0 <= j < 7 { block_diss(i, j) } else { 0 }
    } else if i >= n - 4 {
        if 0 <= n - 1 - j < 7 { block_diss(n - 1 - i, n - 1 - j) } else { 0 }
    } else {
        interior_diss(j - i)
    }
}

/// Entry `(i, j)` of the boundary matrix `B = diag(-1, 0, ..., 0, 1)`, times `Q_DENOM`.
pub open spec fn boundary_entry(n: int, i: int, j: int) -> int {
    if i == 0 && j == 0 {
        -288
    } else if i == n - 1 && j == n - 1 {
        288
    } else {
        0
    }
}

/// Summation by parts: `Q + Q^T = B`, the discrete form of integration by parts.
pub proof fn lemma_sbp_identity(n: int, i: int, j: int)
    requires
        n >= UPWIND4_MIN_POINTS,
        0 <= i < n,
        0 <= j < n,
    ensures
        q_entry(n, i, j) + q_entry(n, j, i) == boundary_entry(n, i, j),
{
}

/// The dissipation is symmetric: `H S` equals its transpose.
pub proof fn lemma_diss_symmetric(n: int, i: int, j: int)
    requires
        n >= UPWIND4_MIN_POINTS,
        0 <= i < n,
        0 <= j < n,
    ensures
        diss_entry(n, i, j) == diss_entry(n, j, i),
{
}

/// Sum of `norm_weight(n, i)` over `0 <= i < k`.
pub open spec fn norm_sum(n: int, k: int) -> int
    decreases k,
{
    if k <= 0 {
        0
    } else {
        norm_sum(n, k - 1) + norm_weight(n, k - 1)
    }
}

proof fn lemma_norm_sum_interior(n: int, k: int)
    requires
        n >= UPWIND4_MIN_POINTS,
        4 <= k <= n - 4,
    ensures
        norm_sum(n, k) == 504 + 144 * (k - 4),
    decreases k,
{
    if k > 4 {
        lemma_norm_sum_interior(n, k - 1);
    } else {
        reveal_with_fuel(norm_sum, 5);
    }
}

/// Quadrature: every norm weight is positive, and together they give the
/// length of the line, `(n - 1)` spacings, exactly.
pub proof fn lemma_norm_quadrature(n: int)
    requires
        n >= UPWIND4_MIN_POINTS,
    ensures
        forall|i: int| 0 <= i < n ==> norm_weight(n, i) > 0,
        norm_sum(n, n) == NORM_DENOM * (n - 1),
{
    lemma_norm_sum_interior(n, n - 4);
    reveal_with_fuel(norm_sum, 5);
}

/// The two stencil families of the fourth-order upwind operator.
#[derive(Clone, Copy, Debug, PartialEq, Eq, Structural)]
pub enum Stencil {
    /// `Q = H D`, the central derivative weighted by the norm (denominator `Q_DENOM`).
    Skew,
    /// `H S`, the dissipation added for upwinding (denominator `DISS_DENOM`).
    Dissipation,
}

/// Entry `(i, j)` of the chosen stencil matrix on a line of `n` nodes.
pub open spec fn entry(s: Stencil, n: int, i: int, j: int) -> int {
    match s {
        Stencil::Skew => q_entry(n, i, j),
        Stencil::Dissipation => diss_entry(n, i, j),
    }
}

/// `sum_{lo <= j < hi} entry(s, n, i, j) * u[j]`.
pub open spec fn row_dot(s: Stencil, n: int, i: int, u: Seq<i64>, lo: int, hi: int) -> int
    decreases hi - lo,
{
    if hi <= lo {
        0
    } else {
        row_dot(s, n, i, u, lo, hi - 1) + entry(s, n, i, hi - 1) * u[hi - 1]
    }
}

/// `sum_{lo <= j < hi} entry(s, n, i, j)`.
pub open spec fn row_sum(s: Stencil, n: int, i: int, lo: int, hi: int) -> int
    decreases hi - lo,
{
    if hi <= lo {
        0
    } else {
        row_sum(s, n, i, lo, hi - 1) + entry(s, n, i, hi - 1)
    }
}

/// First column that row `i` of either stencil touches.
pub open spec fn span_start(n: int, i: int) -> int {
    if i < 4 {
        0
    } else if i >= n - 4 {
        n - 7
    } else {
        i - 3
    }
}

/// Every entry of row `i` outside `span_start(n, i) .. span_start(n, i) + 7` is zero.
proof fn lemma_span(s: Stencil, n: int, i: int, j: int)
    requires
        n >= UPWIND4_MIN_POINTS,
        0 <= i < n,
        j < span_start(n, i) || j >= span_start(n, i) + 7,
    ensures
        entry(s, n, i, j) == 0,
{
}

proof fn lemma_row_dot_split(s: Stencil, n: int, i: int, u: Seq<i64>, lo: int, mid: int, hi: int)
    requires
        lo <= mid <= hi,
    ensures
        row_dot(s, n, i, u, lo, hi) == row_dot(s, n, i, u, lo, mid) + row_dot(s, n, i, u, mid, hi),
    decreases hi - mid,
{
    if hi > mid {
        lemma_row_dot_split(s, n, i, u, lo, mid, hi - 1);
    }
}

proof fn lemma_row_dot_zero(s: Stencil, n: int, i: int, u: Seq<i64>, lo: int, hi: int)
    requires
        forall|j: int| lo <= j < hi ==> entry(s, n, i, j) == 0,
    ensures
        row_dot(s, n, i, u, lo, hi) == 0,
    decreases hi - lo,
{
    if hi > lo {
        lemma_row_dot_zero(s, n, i, u, lo, hi - 1);
    }
}

/// The full row product equals the product over the row's span.
proof fn lemma_row_dot_span(s: Stencil, n: int, i: int, u: Seq<i64>)
    requires
        n >= UPWIND4_MIN_POINTS,
        0 <= i < n,
    ensures
        row_dot(s, n, i, u, 0, n) == row_dot(s, n, i, u, span_start(n, i), span_start(n, i) + 7),
{
    let lo = span_start(n, i);
    lemma_row_dot_split(s, n, i, u, 0, lo, n);
    lemma_row_dot_split(s, n, i, u, lo, lo + 7, n);
    assert forall|j: int| 0 <= j < lo implies entry(s, n, i, j) == 0 by {
        lemma_span(s, n, i, j);
    }
    assert forall|j: int| lo + 7 <= j < n implies entry(s, n, i, j) == 0 by {
        lemma_span(s, n, i, j);
    }
    lemma_row_dot_zero(s, n, i, u, 0, lo);
    lemma_row_dot_zero(s, n, i, u, lo + 7, n);
}

proof fn lemma_row_dot_constant(s: Stencil, n: int, i: int, u: Seq<i64>, v: int, lo: int, hi: int)
    requires
        0 <= lo,
        hi <= u.len(),
        forall|j: int| 0 <= j < u.len() ==> u[j] == v,
    ensures
        row_dot(s, n, i, u, lo, hi) == v * row_sum(s, n, i, lo, hi),
    decreases hi - lo,
{
    if hi > lo {
        lemma_row_dot_constant(s, n, i, u, v, lo, hi - 1);
        let a = row_sum(s, n, i, lo, hi - 1);
        let b = entry(s, n, i, hi - 1);
        assert(v * a + b * v == v * (a + b)) by (nonlinear_arith);
    }
}

/// Consistency: each stencil maps a constant line to zero, so a uniform
/// state has no spatial derivative and no dissipation.
pub proof fn lemma_constant_annihilated(s: Stencil, n: int, i: int, u: Seq<i64>, v: int)
    requires
        n >= UPWIND4_MIN_POINTS,
        0 <= i < n,
        u.len() == n,
        forall|j: int| 0 <= j < n ==> u[j] == v,
    ensures
        row_dot(s, n, i, u, 0, n) == 0,
{
    let lo = span_start(n, i);
    lemma_row_dot_span(s, n, i, u);
    lemma_row_dot_constant(s, n, i, u, v, lo, lo + 7);
    reveal_with_fuel(row_sum, 8);
    let t = row_sum(s, n, i, lo, lo + 7);
    assert(t == 0);
    assert(v * t == 0) by (nonlinear_arith)
        requires
            t == 0,
    ;
}

/// Largest magnitude of a sample that `Upwind4::apply` takes, so that a
/// row product of seven terms stays well inside `i64`.
pub const MAX_SAMPLE: i64 = 1099511627776;

/// Why an operator could not be built.
#[derive(Clone, Copy, Debug, PartialEq, Eq, Structural)]
pub enum OperatorError {
    /// The line has fewer points than the two boundary closures need.
    TooFewPoints,
}

/// The fourth-order upwind summation-by-parts operator on a line of `n`
/// uniformly spaced points, with all coefficients held exactly as integers over
/// `NORM_DENOM`, `Q_DENOM` and `DISS_DENOM`.
#[derive(Clone, Copy, Debug)]
pub struct Upwind4 {
    n: usize,
}

impl Upwind4 {
    /// Number of points on the line.
    pub closed spec fn points(&self) -> int {
        self.n as int
    }

    pub closed spec fn wf(&self) -> bool {
        self.n >= UPWIND4_MIN_POINTS
    }

    /// Builds the operator for `n` points; fails when `n` is below
    /// `UPWIND4_MIN_POINTS`.
    pub fn new(n: usize) -> (r: Result<Upwind4, OperatorError>)
        ensures
            n >= UPWIND4_MIN_POINTS <==> r is Ok,
            r is Err ==> r == Err::<Upwind4, _>(OperatorError::TooFewPoints),
            r matches Ok(op) ==> op.wf() && op.points() == n,
    {
        if n < UPWIND4_MIN_POINTS {
            Err(OperatorError::TooFewPoints)
        } else {
            Ok(Upwind4 { n })
        }
    }

    pub fn len(&self) -> (r: usize)
        ensures
            r == self.points(),
    {
        self.n
    }

    /// The diagonal norm, one weight per point, times `NORM_DENOM` and in units
    /// of the grid spacing.
    pub fn norm_weights(&self) -> (r: Vec<u64>)
        requires
            self.wf(),
        ensures
            r@.len() == self.points(),
            forall|i: int| 0 <= i < r@.len() ==> r@[i] == norm_weight(self.points(), i),
            forall|i: int| 0 <= i < r@.len() ==> r@[i] > 0,
    {
        proof {
            lemma_norm_quadrature(self.points());
        }
        let n = self.n;
        let mut r: Vec<u64> = Vec::with_capacity(n);
        let mut i: usize = 0;
        while i < n
            invariant
                i <= n,
                n == self.points(),
                n >= UPWIND4_MIN_POINTS,
                r@.len() == i,
                forall|k: int| 0 <= k < i ==> r@[k] == norm_weight(n as int, k),
            decreases n - i,
        {
            let w: u64 = if i < 4 {
                block_weight_exec(i)
            } else if i >= n - 4 {
                block_weight_exec(n - 1 - i)
            } else {
                144
            };
            r.push(w);
            i = i + 1;
        }
        assert forall|k: int| 0 <= k < r@.len() implies r@[k] > 0 by {
            assert(r@[k] == norm_weight(n as int, k));
        }
        r
    }

    /// First column that row `i` of either stencil touches; the row is zero
    /// outside the `UPWIND4_WIDTH` columns from there.
    pub fn span_start(&self, i: usize) -> (r: usize)
        requires
            self.wf(),
            i < self.points(),
        ensures
            r == span_start(self.points(), i as int),
            r + UPWIND4_WIDTH <= self.points(),
    {
        if i < 4 {
            0
        } else if i >= self.n - 4 {
            self.n - 7
        } else {
            i - 3
        }
    }

    /// Entry `(i, j)` of the chosen stencil matrix, times its denominator.
    pub fn coeff(&self, s: Stencil, i: usize, j: usize) -> (r: i64)
        requires
            self.wf(),
            i < self.points(),
            j < self.points(),
        ensures
            r == entry(s, self.points(), i as int, j as int),
    {
        let n = self.n;
        if i < 4 {
            if j < 7 {
                block_coeff(s, i, j)
            } else {
                0
            }
        } else if i >= n - 4 {
            if n - 1 - j < 7 {
                let c = block_coeff(s, n - 1 - i, n - 1 - j);
                match s {
                    Stencil::Skew => -c,
                    Stencil::Dissipation => c,
                }
            } else {
                0
            }
        } else if j >= i && j - i <= 3 {
            interior_coeff(s, 3 + (j - i))
        } else if j < i && i - j <= 3 {
            interior_coeff(s, 3 - (i - j))
        } else {
            0
        }
    }

    /// Applies the chosen stencil matrix to the samples `u`: entry `i` of the
    /// result is `sum_j entry(s, n, i, j) * u[j]`, computed exactly.
    pub fn apply(&self, s: Stencil, u: &Vec<i64>) -> (r: Vec<i64>)
        requires
            self.wf(),
            u@.len() == self.points(),
            forall|k: int| 0 <= k < u@.len() ==> -MAX_SAMPLE <= #[trigger] u@[k] <= MAX_SAMPLE,
        ensures
            r@.len() == self.points(),
            forall|i: int|
                0 <= i < r@.len() ==> r@[i] == row_dot(s, self.points(), i, u@, 0, self.points()),
    {
        let n = self.n;
        let mut r: Vec<i64> = Vec::with_capacity(n);
        let mut i: usize = 0;
        while i < n
            invariant
                i <= n,
                n == self.points(),
                self.wf(),
                u@.len() == n,
                forall|k: int| 0 <= k < u@.len() ==> -MAX_SAMPLE <= #[trigger] u@[k] <= MAX_SAMPLE,
                r@.len() == i,
                forall|k: int| 0 <= k < i ==> r@[k] == row_dot(s, n as int, k, u@, 0, n as int),
            decreases n - i,
        {
            let lo = self.span_start(i);
            let mut acc: i64 = 0;
            let mut j: usize = lo;
            while j < lo + 7
                invariant
                    lo <= j <= lo + 7,
                    lo + 7 <= n,
                    i < n,
                    n == self.points(),
                    self.wf(),
                    u@.len() == n,
                    forall|k: int| 0 <= k < u@.len() ==> -MAX_SAMPLE <= #[trigger] u@[k] <= MAX_SAMPLE,
                    acc == row_dot(s, n as int, i as int, u@, lo as int, j as int),
                    -329853488332800 * (j - lo) <= acc <= 329853488332800 * (j - lo),
                decreases lo + 7 - j,
            {
                let c = self.coeff(s, i, j);
                let x = u[j];
                assert(-300 <= c <= 300);
                assert(-329853488332800 <= c * x <= 329853488332800) by (nonlinear_arith)
                    requires
                        -300 <= c <= 300,
                        -1099511627776 <= x <= 1099511627776,
                ;
                acc = acc + c * x;
                j = j + 1;
            }
            proof {
                lemma_row_dot_span(s, n as int, i as int, u@);
            }
            r.push(acc);
            i = i + 1;
        }
        r
    }
}

/// `sum_{0 <= i < m} g(i)`.
pub open spec fn isum(g: spec_fn(int) -> int, m: int) -> int
    decreases m,
{
    if m <= 0 {
        0
    } else {
        isum(g, m - 1) + g(m - 1)
    }
}

proof fn lemma_isum_add(g: spec_fn(int) -> int, h: spec_fn(int) -> int, m: int)
    ensures
        isum(|i: int| g(i) + h(i), m) == isum(g, m) + isum(h, m),
    decreases m,
{
    if m > 0 {
        lemma_isum_add(g, h, m - 1);
    }
}

proof fn lemma_isum_ext(g: spec_fn(int) -> int, h: spec_fn(int) -> int, m: int)
    requires
        forall|i: int| 0 <= i < m ==> #[trigger] g(i) == h(i),
    ensures
        isum(g, m) == isum(h, m),
    decreases m,
{
    if m > 0 {
        lemma_isum_ext(g, h, m - 1);
    }
}

/// A sum whose terms vanish but at `p` is the term at `p`.
proof fn lemma_isum_single(g: spec_fn(int) -> int, p: int, m: int)
    requires
        0 <= p,
        forall|i: int| 0 <= i < m && i != p ==> #[trigger] g(i) == 0,
    ensures
        isum(g, m) == if p < m { g(p) } else { 0 },
    decreases m,
{
    if m > 0 {
        lemma_isum_single(g, p, m - 1);
    }
}

/// The order of a finite double sum does not matter.
proof fn lemma_isum_swap(f: spec_fn(int, int) -> int, m: int, k: int)
    ensures
        isum(|i: int| isum(|j: int| f(i, j), k), m) == isum(|j: int| isum(|i: int| f(i, j), m), k),
    decreases m,
{
    if m > 0 {
        lemma_isum_swap(f, m - 1, k);
        let a = |j: int| isum(|i: int| f(i, j), m - 1);
        let b = |j: int| f(m - 1, j);
        let g = |j: int| isum(|i: int| f(i, j), m);
        lemma_isum_add(a, b, k);
        assert forall|j: int| 0 <= j < k implies #[trigger] g(j) == a(j) + b(j) by {
            assert(isum(|i: int| f(i, j), m) == isum(|i: int| f(i, j), m - 1) + f(m - 1, j));
        }
        lemma_isum_ext(g, |j: int| a(j) + b(j), k);
        lemma_isum_ext(|j: int| isum(|i: int| f(i, j), m - 1), a, k);
        lemma_isum_ext(|j: int| f(m - 1, j), b, k);
        lemma_isum_ext(|j: int| isum(|i: int| f(i, j), m), g, k);
        let r = |i: int| isum(|j: int| f(i, j), k);
        assert(isum(r, m) == isum(r, m - 1) + r(m - 1));
        lemma_isum_ext(|i: int| isum(|j: int| f(i, j), k), r, m);
        lemma_isum_ext(|i: int| isum(|j: int| f(i, j), k), r, m - 1);
    } else {
        let z = |j: int| isum(|i: int| f(i, j), m);
        lemma_isum_single(z, if k < 0 { 0 } else { k }, k);
        lemma_isum_ext(|j: int| isum(|i: int| f(i, j), m), z, k);
    }
}

/// The row product of the row-recursive form is the plain sum over columns.
proof fn lemma_row_dot_isum(s: Stencil, n: int, i: int, u: Seq<i64>, k: int)
    requires
        0 <= k,
    ensures
        row_dot(s, n, i, u, 0, k) == isum(|j: int| entry(s, n, i, j) * u[j], k),
    decreases k,
{
    if k > 0 {
        lemma_row_dot_isum(s, n, i, u, k - 1);
    }
}

/// `sum_i u[i] * (Q u)[i]`, the rate at which the central derivative changes
/// the discrete energy `u^T H u`, times `Q_DENOM`.
pub open spec fn skew_energy(n: int, u: Seq<i64>) -> int {
    isum(|i: int| u[i] * row_dot(Stencil::Skew, n, i, u, 0, n), n)
}

proof fn lemma_isum_scale(c: int, g: spec_fn(int) -> int, m: int)
    ensures
        c * isum(g, m) == isum(|j: int| c * g(j), m),
    decreases m,
{
    if m > 0 {
        lemma_isum_scale(c, g, m - 1);
        let a = isum(g, m - 1);
        let b = g(m - 1);
        assert(c * (a + b) == c * a + c * b) by (nonlinear_arith);
    }
}

/// Term `(i, j)` of `u^T Q u`, times `Q_DENOM`.
pub open spec fn energy_term(n: int, u: Seq<i64>, i: int, j: int) -> int {
    u[i] * q_entry(n, i, j) * u[j]
}

/// The boundary contribution of row `i` to `u^T (Q + Q^T) u`.
pub open spec fn boundary_term(n: int, u: Seq<i64>, i: int) -> int {
    if i == 0 {
        -288 * (u[0] * u[0])
    } else if i == n - 1 {
        288 * (u[n - 1] * u[n - 1])
    } else {
        0
    }
}

proof fn lemma_energy_row(n: int, u: Seq<i64>, i: int)
    requires
        n >= UPWIND4_MIN_POINTS,
        u.len() == n,
        0 <= i < n,
    ensures
        isum(|j: int| energy_term(n, u, i, j) + energy_term(n, u, j, i), n) == boundary_term(n, u, i),
{
    let g = |j: int| energy_term(n, u, i, j) + energy_term(n, u, j, i);
    assert forall|j: int| 0 <= j < n implies #[trigger] g(j) == u[i] * boundary_entry(n, i, j) * u[j] by {
        lemma_sbp_identity(n, i, j);
        let a = q_entry(n, i, j);
        let b = q_entry(n, j, i);
        let x = u[i] as int;
        let y = u[j] as int;
        assert(x * a * y + y * b * x == x * (a + b) * y) by (nonlinear_arith);
    }
    assert forall|j: int| 0 <= j < n && j != i implies #[trigger] g(j) == 0 by {
        assert(boundary_entry(n, i, j) == 0);
        let x = u[i] as int;
        let y = u[j] as int;
        assert(x * 0 * y == 0) by (nonlinear_arith);
    }
    lemma_isum_single(g, i, n);
    let x = u[i] as int;
    if i == 0 {
        assert(x * -288 * x == -288 * (x * x)) by (nonlinear_arith);
    } else if i == n - 1 {
        assert(x * 288 * x == 288 * (x * x)) by (nonlinear_arith);
    } else {
        assert(x * 0 * x == 0) by (nonlinear_arith);
    }
}

/// Energy estimate: `2 u^T Q u = u[n-1]^2 - u[0]^2`, so the central derivative
/// moves energy only through the two boundaries, which is what the boundary
/// penalties control.
pub proof fn lemma_energy(n: int, u: Seq<i64>)
    requires
        n >= UPWIND4_MIN_POINTS,
        u.len() == n,
    ensures
        2 * skew_energy(n, u) == Q_DENOM * (u[n - 1] * u[n - 1] - u[0] * u[0]),
{
    let rows = |i: int| isum(|j: int| energy_term(n, u, i, j), n);
    let cols = |i: int| isum(|j: int| energy_term(n, u, j, i), n);
    // Each row of the energy is a row of the double sum.
    assert forall|i: int| 0 <= i < n implies u[i] * row_dot(Stencil::Skew, n, i, u, 0, n)
        == #[trigger] rows(i) by {
        lemma_row_dot_isum(Stencil::Skew, n, i, u, n);
        let g = |j: int| entry(Stencil::Skew, n, i, j) * u[j];
        lemma_isum_scale(u[i] as int, g, n);
        assert forall|j: int| 0 <= j < n implies (u[i] as int) * g(j) == energy_term(n, u, i, j) by {
            let x = u[i] as int;
            let q = q_entry(n, i, j);
            let y = u[j] as int;
            assert(x * (q * y) == x * q * y) by (nonlinear_arith);
        }
        lemma_isum_ext(|j: int| (u[i] as int) * g(j), |j: int| energy_term(n, u, i, j), n);
    }
    lemma_isum_ext(|i: int| u[i] * row_dot(Stencil::Skew, n, i, u, 0, n), rows, n);
    // Summing by columns gives the same total.
    let f = |i: int, j: int| energy_term(n, u, i, j);
    lemma_isum_swap(f, n, n);
    assert forall|i: int| 0 <= i < n implies #[trigger] rows(i) == isum(|j: int| f(i, j), n) by {
        lemma_isum_ext(|j: int| energy_term(n, u, i, j), |j: int| f(i, j), n);
    }
    lemma_isum_ext(|i: int| isum(|j: int| f(i, j), n), rows, n);
    assert forall|j: int| 0 <= j < n implies #[trigger] cols(j) == isum(|i: int| f(i, j), n) by {
        lemma_isum_ext(|i: int| energy_term(n, u, i, j), |i: int| f(i, j), n);
    }
    lemma_isum_ext(|j: int| isum(|i: int| f(i, j), n), cols, n);
    // Rows plus columns is the symmetric part, which only the boundary sees.
    lemma_isum_add(rows, cols, n);
    assert forall|i: int| 0 <= i < n implies rows(i) + cols(i) == #[trigger] boundary_term(n, u, i) by {
        let g = |j: int| energy_term(n, u, i, j);
        let h = |j: int| energy_term(n, u, j, i);
        lemma_isum_add(g, h, n);
        lemma_isum_ext(|j: int| g(j) + h(j), |j: int| energy_term(n, u, i, j) + energy_term(n, u, j, i), n);
        lemma_isum_ext(g, |j: int| energy_term(n, u, i, j), n);
        lemma_isum_ext(h, |j: int| energy_term(n, u, j, i), n);
        lemma_energy_row(n, u, i);
    }
    lemma_isum_ext(|i: int| rows(i) + cols(i), |i: int| boundary_term(n, u, i), n);
    let left = |i: int| if i == 0 { boundary_term(n, u, 0) } else { 0 };
    let right = |i: int| if i == n - 1 { boundary_term(n, u, n - 1) } else { 0 };
    lemma_isum_add(left, right, n);
    lemma_isum_ext(|i: int| boundary_term(n, u, i), |i: int| left(i) + right(i), n);
    lemma_isum_single(left, 0, n);
    lemma_isum_single(right, n - 1, n);
}

/// Norm weight of node `k` (row after row) of a mesh with `nx` nodes per
/// row and `ny` rows: the product of the two axes' weights, times
/// `NORM_DENOM * NORM_DENOM`, in units of the cell area.
pub open spec fn weight_2d(nx: int, ny: int, k: int) -> int {
    norm_weight(ny, k / nx) * norm_weight(nx, k % nx)
}

/// Sum of `weight_2d(nx, ny, k)` over `0 <= k < m`.
pub open spec fn weight_2d_sum(nx: int, ny: int, m: int) -> int
    decreases m,
{
    if m <= 0 {
        0
    } else {
        weight_2d_sum(nx, ny, m - 1) + weight_2d(nx, ny, m - 1)
    }
}

proof fn lemma_weight_2d_partial(nx: int, ny: int, r: int, c: int)
    requires
        nx > 0,
        0 <= r,
        0 <= c <= nx,
    ensures
        weight_2d_sum(nx, ny, r * nx + c) == norm_sum(ny, r) * norm_sum(nx, nx) + norm_weight(ny, r)
            * norm_sum(nx, c),
    decreases r, c,
{
    let total = norm_sum(nx, nx);
    if c > 0 {
        assert(r * nx + c - 1 >= 0) by (nonlinear_arith)
            requires
                r >= 0,
                nx > 0,
                c > 0,
        ;
        lemma_weight_2d_partial(nx, ny, r, c - 1);
        lemma_fundamental_div_mod_converse(r * nx + (c - 1), nx, r, c - 1);
        let a = norm_sum(nx, c - 1);
        let b = norm_weight(nx, c - 1);
        let w = norm_weight(ny, r);
        assert(w * a + w * b == w * (a + b)) by (nonlinear_arith);
    } else if r > 0 {
        assert(r * nx + 0 == (r - 1) * nx + nx) by (nonlinear_arith);
        assert((r - 1) * nx + nx >= 0) by (nonlinear_arith)
            requires
                r > 0,
                nx > 0,
        ;
        lemma_weight_2d_partial(nx, ny, r - 1, nx);
        let a = norm_sum(ny, r - 1);
        let w = norm_weight(ny, r - 1);
        assert(a * total + w * total == (a + w) * total) by (nonlinear_arith);
        assert(norm_weight(ny, r) * norm_sum(nx, 0) == 0);
    } else {
        assert(r * nx + c == 0) by (nonlinear_arith)
            requires
                r == 0,
                c == 0,
        ;
        assert(norm_sum(ny, 0) * total == 0);
    }
}

/// Quadrature on the mesh: the two-dimensional weights are positive and add
/// up to the area of the domain, `(nx - 1) * (ny - 1)` cells, exactly.
pub proof fn lemma_weight_2d_area(nx: int, ny: int)
    requires
        nx >= UPWIND4_MIN_POINTS,
        ny >= UPWIND4_MIN_POINTS,
    ensures
        forall|k: int| 0 <= k < nx * ny ==> #[trigger] weight_2d(nx, ny, k) > 0,
        weight_2d_sum(nx, ny, nx * ny) == (NORM_DENOM * (nx - 1)) * (NORM_DENOM * (ny - 1)),
{
    lemma_norm_quadrature(nx);
    lemma_norm_quadrature(ny);
    assert forall|k: int| 0 <= k < nx * ny implies #[trigger] weight_2d(nx, ny, k) > 0 by {
        let a = norm_weight(ny, k / nx);
        let b = norm_weight(nx, k % nx);
        assert(a > 0);
        assert(b > 0);
        assert(a * b > 0) by (nonlinear_arith)
            requires
                a > 0,
                b > 0,
        ;
    }
    assert((ny - 1) * nx + nx == nx * ny) by (nonlinear_arith);
    assert((ny - 1) * nx + nx >= 0) by (nonlinear_arith)
        requires
            ny >= 8,
            nx >= 8,
    ;
    lemma_weight_2d_partial(nx, ny, ny - 1, nx);
    let a = norm_sum(ny, ny - 1);
    let w = norm_weight(ny, ny - 1);
    let t = norm_sum(nx, nx);
    assert(a * t + w * t == (a + w) * t) by (nonlinear_arith);
    assert((a + w) * t == t * (a + w)) by (nonlinear_arith);
}

/// The norm of a mesh with `op_x` along its rows and `op_y` along its
/// columns: one weight per node, row after row, times
/// `NORM_DENOM * NORM_DENOM` and in units of the cell area.
pub fn norm_weights_2d(op_x: &Upwind4, op_y: &Upwind4) -> (r: Vec<u64>)
    requires
        op_x.wf(),
        op_y.wf(),
        op_x.points() * op_y.points() <= usize::MAX,
    ensures
        r@.len() == op_x.points() * op_y.points(),
        forall|k: int|
            0 <= k < r@.len() ==> r@[k] == weight_2d(op_x.points(), op_y.points(), k),
{
    let wx = op_x.norm_weights();
    let wy = op_y.norm_weights();
    let nx = op_x.len();
    let ny = op_y.len();
    let ghost gx = nx as int;
    let ghost gy = ny as int;
    let mut r: Vec<u64> = Vec::new();
    let mut row: usize = 0;
    while row < ny
        invariant
            row <= ny,
            nx == gx,
            ny == gy,
            gx >= UPWIND4_MIN_POINTS,
            gx * gy <= usize::MAX,
            wx@.len() == gx,
            wy@.len() == gy,
            forall|i: int| 0 <= i < gx ==> wx@[i] == norm_weight(gx, i),
            forall|i: int| 0 <= i < gy ==> wy@[i] == norm_weight(gy, i),
            r@.len() == row * gx,
            forall|k: int| 0 <= k < r@.len() ==> r@[k] == weight_2d(gx, gy, k),
        decreases ny - row,
    {
        let mut col: usize = 0;
        while col < nx
            invariant
                row < ny,
                col <= nx,
                nx == gx,
                ny == gy,
                gx >= UPWIND4_MIN_POINTS,
                wx@.len() == gx,
                wy@.len() == gy,
                forall|i: int| 0 <= i < gx ==> wx@[i] == norm_weight(gx, i),
                forall|i: int| 0 <= i < gy ==> wy@[i] == norm_weight(gy, i),
                r@.len() == row * gx + col,
                forall|k: int| 0 <= k < r@.len() ==> r@[k] == weight_2d(gx, gy, k),
            decreases nx - col,
        {
            let a = wy[row];
            let b = wx[col];
            assert(a == norm_weight(gy, row as int));
            assert(b == norm_weight(gx, col as int));
            assert(a <= 183 && b <= 183);
            assert(a * b <= 183 * 183) by (nonlinear_arith)
                requires
                    a <= 183,
                    b <= 183,
            ;
            proof {
                lemma_fundamental_div_mod_converse(row * gx + col, gx, row as int, col as int);
            }
            r.push(a * b);
            col = col + 1;
        }
        assert(row * gx + gx == (row + 1) * gx) by (nonlinear_arith);
        row = row + 1;
    }
    assert(gy * gx == gx * gy) by (nonlinear_arith);
    r
}

fn block_weight_exec(r: usize) -> (w: u64)
    ensures
        w == block_weight(r as int),
{
    if r == 0 {
        49
    } else if r == 1 {
        183
    } else if r == 2 {
        123
    } else if r == 3 {
        149
    } else {
        144
    }
}

/// Entry `(r, c)` of the left boundary block of the chosen stencil.
fn block_coeff(s: Stencil, r: usize, c: usize) -> (v: i64)
    requires
        r < 4,
        c < 7,
    ensures
        v == match s {
            Stencil::Skew => block_q(r as int, c as int),
            Stencil::Dissipation => block_diss(r as int, c as int),
        },
        -300 <= v <= 300,
{
    let (q, d): ([i64; 7], [i64; 7]) = if r == 0 {
        ([-144, 187, -40, -3, 0, 0, 0], [-3, 9, -9, 3, 0, 0, 0])
    } else if r == 1 {
        ([-187, 0, 207, -32, 12, 0, 0], [9, -33, 45, -27, 6, 0, 0])
    } else if r == 2 {
        ([40, -207, 0, 227, -72, 12, 0], [-9, 45, -87, 81, -36, 6, 0])
    } else {
        ([3, 32, -227, 0, 252, -72, 12], [3, -27, 81, -117, 90, -36, 6])
    };
    match s {
        Stencil::Skew => q[c],
        Stencil::Dissipation => d[c],
    }
}

/// Interior stencil of the chosen kind at column offset `k - 3`.
fn interior_coeff(s: Stencil, k: usize) -> (v: i64)
    requires
        k < 7,
    ensures
        v == match s {
            Stencil::Skew => interior_q(k - 3),
            Stencil::Dissipation => interior_diss(k - 3),
        },
        -300 <= v <= 300,
{
    let q: [i64; 7] = [-12, 72, -252, 0, 252, -72, 12];
    let d: [i64; 7] = [6, -36, 90, -120, 90, -36, 6];
    match s {
        Stencil::Skew => q[k],
        Stencil::Dissipation => d[k],
    }
}

} // verus!
