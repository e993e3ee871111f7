use vstd::prelude::*;
use crate::dense_mlpoly::{eq_evals, lemma_eq_evals_len, DensePolynomial, EqPolynomial};
use crate::math::{exact_log_2, is_power_of_two, two_to};
use crate::scalar::{fadd, fmul, Scalar};

verus! {

/// One entry of a matrix that is zero in most places.
#[derive(Clone, Copy, Debug)]
pub struct MatrixEntry {
    pub row: usize,
    pub col: usize,
    pub val: Scalar,
}

/// What an entry of a matrix holds.
pub struct MatrixEntryView {
    pub row: nat,
    pub col: nat,
    pub val: nat,
}

impl View for MatrixEntry {
    type V = MatrixEntryView;

    open spec fn view(&self) -> MatrixEntryView {
        MatrixEntryView { row: self.row as nat, col: self.col as nat, val: self.val@ }
    }
}

impl DeepView for MatrixEntry {
    type V = MatrixEntryView;

    open spec fn deep_view(&self) -> MatrixEntryView {
        self@
    }
}

/// A system of constraints: three matrices `a`, `b` and `c` with a row for
/// each constraint, asking of a vector `z` that in each row the products
/// of `a` and of `b` with `z` multiply to the product of `c` with `z`.
/// The vector `z` holds the variables, then a one, then the inputs.
#[derive(Debug)]
pub struct R1CSInstance {
    num_cons: usize,
    num_vars: usize,
    num_inputs: usize,
    a: Vec<MatrixEntry>,
    b: Vec<MatrixEntry>,
    c: Vec<MatrixEntry>,
}

/// What a system of constraints holds.
pub struct R1CSInstanceView {
    pub num_cons: nat,
    pub num_vars: nat,
    pub num_inputs: nat,
    pub a: Seq<MatrixEntryView>,
    pub b: Seq<MatrixEntryView>,
    pub c: Seq<MatrixEntryView>,
}

impl View for R1CSInstance {
    type V = R1CSInstanceView;

    closed spec fn view(&self) -> R1CSInstanceView {
        R1CSInstanceView {
            num_cons: self.num_cons as nat,
            num_vars: self.num_vars as nat,
            num_inputs: self.num_inputs as nat,
            a: self.a.deep_view(),
            b: self.b.deep_view(),
            c: self.c.deep_view(),
        }
    }
}

/// Whether all entries of a matrix lie within `rows` rows and `cols`
/// columns.
pub open spec fn entries_within(m: Seq<MatrixEntryView>, rows: nat, cols: nat) -> bool {
    forall|i: int| 0 <= i < m.len() ==> (#[trigger] m[i]).row < rows && m[i].col < cols
}

/// Whether the sizes of a system are in order: the numbers of constraints
/// and of variables are powers of two, there are fewer inputs than
/// variables, and the entries lie within the matrices.
pub open spec fn instance_wf(v: R1CSInstanceView) -> bool {
    &&& is_power_of_two(v.num_cons)
    &&& is_power_of_two(v.num_vars)
    &&& v.num_inputs < v.num_vars
    &&& 2 * v.num_vars <= usize::MAX
    &&& entries_within(v.a, v.num_cons, v.num_vars + 1 + v.num_inputs)
    &&& entries_within(v.b, v.num_cons, v.num_vars + 1 + v.num_inputs)
    &&& entries_within(v.c, v.num_cons, v.num_vars + 1 + v.num_inputs)
}

/// The entry in the row `row` of the product of a matrix with a vector.
pub open spec fn mat_vec_row(m: Seq<MatrixEntryView>, z: Seq<nat>, row: nat) -> nat
    decreases m.len(),
{
    if m.len() == 0 {
        0
    } else {
        let prev = mat_vec_row(m.drop_last(), z, row);
        if m.last().row == row {
            fadd(prev, fmul(m.last().val, z[m.last().col as int]))
        } else {
            prev
        }
    }
}

/// The product of a matrix of `rows` rows with a vector.
pub open spec fn mat_vec(m: Seq<MatrixEntryView>, rows: nat, z: Seq<nat>) -> Seq<nat> {
    Seq::new(rows, |i: int| mat_vec_row(m, z, i as nat))
}

/// The entry in the column `col` of the product of a vector with a
/// matrix.
pub open spec fn vec_mat_col(m: Seq<MatrixEntryView>, x: Seq<nat>, col: nat) -> nat
    decreases m.len(),
{
    if m.len() == 0 {
        0
    } else {
        let prev = vec_mat_col(m.drop_last(), x, col);
        if m.last().col == col {
            fadd(prev, fmul(x[m.last().row as int], m.last().val))
        } else {
            prev
        }
    }
}

/// The product of a vector with a matrix of `cols` columns.
pub open spec fn vec_mat(m: Seq<MatrixEntryView>, cols: nat, x: Seq<nat>) -> Seq<nat> {
    Seq::new(cols, |i: int| vec_mat_col(m, x, i as nat))
}

/// The sum over all entries of a matrix of the entry times the weight of
/// its row in `x` and the weight of its column in `y`.
pub open spec fn mat_eval(m: Seq<MatrixEntryView>, x: Seq<nat>, y: Seq<nat>) -> nat
    decreases m.len(),
{
    if m.len() == 0 {
        0
    } else {
        fadd(
            mat_eval(m.drop_last(), x, y),
            fmul(fmul(x[m.last().row as int], y[m.last().col as int]), m.last().val),
        )
    }
}

/// The vector that a system is asked of: the variables, a one, and the
/// inputs.
pub open spec fn assignment(vars: Seq<nat>, input: Seq<nat>) -> Seq<nat> {
    vars.push(1) + input
}

/// Whether an assignment meets all constraints of a system.
pub open spec fn satisfies(v: R1CSInstanceView, vars: Seq<nat>, input: Seq<nat>) -> bool {
    let z = assignment(vars, input);
    forall|i: int|
        0 <= i < v.num_cons ==> fmul(
            #[trigger] mat_vec_row(v.a, z, i as nat),
            mat_vec_row(v.b, z, i as nat),
        ) == mat_vec_row(v.c, z, i as nat)
}

/// As many zeros as asked for.
fn zeros(n: usize) -> (r: Vec<Scalar>)
    ensures
        r@.len() == n,
        forall|i: int| 0 <= i < n ==> r@[i]@ == 0,
{
    let mut out: Vec<Scalar> = Vec::new();
    let mut i: usize = 0;
    while i < n
        invariant
            i <= n,
            out@.len() == i,
            forall|k: int| 0 <= k < i ==> out@[k]@ == 0,
        decreases n - i,
    {
        out.push(Scalar::zero());
        i += 1;
    }
    out
}

/// The product of a matrix with a vector.
fn multiply(m: &Vec<MatrixEntry>, num_rows: usize, z: &[Scalar]) -> (r: Vec<Scalar>)
    requires
        entries_within(m.deep_view(), num_rows as nat, z@.len() as nat),
    ensures
        r@.len() == num_rows,
        r.deep_view() == mat_vec(m.deep_view(), num_rows as nat, z.deep_view()),
{
    let mut out = zeros(num_rows);
    let ghost mv = m.deep_view();
    let ghost zv = z.deep_view();
    let mut i: usize = 0;
    while i < m.len()
        invariant
            i <= m@.len(),
            mv == m.deep_view(),
            zv == z.deep_view(),
            entries_within(mv, num_rows as nat, z@.len() as nat),
            out@.len() == num_rows,
            forall|k: int| 0 <= k < num_rows ==> out@[k]@ == mat_vec_row(mv.take(i as int), zv, k as nat),
        decreases m@.len() - i,
    {
        let e = m[i];
        proof {
            assert(mv[i as int] == e@);
            assert(mv.take(i + 1).drop_last() =~= mv.take(i as int));
            assert(mv.take(i + 1).last() == e@);
        }
        let updated = out[e.row].add(&e.val.mul(&z[e.col]));
        out[e.row] = updated;
        i += 1;
    }
    proof {
        assert(mv.take(m@.len() as int) =~= mv);
        assert(out.deep_view() =~= mat_vec(mv, num_rows as nat, zv));
    }
    out
}

/// The product of a vector with a matrix.
fn multiply_left(m: &Vec<MatrixEntry>, num_cols: usize, x: &[Scalar]) -> (r: Vec<Scalar>)
    requires
        entries_within(m.deep_view(), x@.len() as nat, num_cols as nat),
    ensures
        r@.len() == num_cols,
        r.deep_view() == vec_mat(m.deep_view(), num_cols as nat, x.deep_view()),
{
    let mut out = zeros(num_cols);
    let ghost mv = m.deep_view();
    let ghost xv = x.deep_view();
    let mut i: usize = 0;
    while i < m.len()
        invariant
            i <= m@.len(),
            mv == m.deep_view(),
            xv == x.deep_view(),
            entries_within(mv, x@.len() as nat, num_cols as nat),
            out@.len() == num_cols,
            forall|k: int| 0 <= k < num_cols ==> out@[k]@ == vec_mat_col(mv.take(i as int), xv, k as nat),
        decreases m@.len() - i,
    {
        let e = m[i];
        proof {
            assert(mv[i as int] == e@);
            assert(mv.take(i + 1).drop_last() =~= mv.take(i as int));
            assert(mv.take(i + 1).last() == e@);
        }
        let updated = out[e.col].add(&x[e.row].mul(&e.val));
        out[e.col] = updated;
        i += 1;
    }
    proof {
        assert(mv.take(m@.len() as int) =~= mv);
        assert(out.deep_view() =~= vec_mat(mv, num_cols as nat, xv));
    }
    out
}

/// The sum over all entries of the entry times the weights of its row and
/// of its column.
fn evaluate_with_tables(m: &Vec<MatrixEntry>, x: &Vec<Scalar>, y: &Vec<Scalar>) -> (r: Scalar)
    requires
        entries_within(m.deep_view(), x@.len() as nat, y@.len() as nat),
    ensures
        r@ == mat_eval(m.deep_view(), x.deep_view(), y.deep_view()),
{
    let mut acc = Scalar::zero();
    let ghost mv = m.deep_view();
    let mut i: usize = 0;
    while i < m.len()
        invariant
            i <= m@.len(),
            mv == m.deep_view(),
            entries_within(mv, x@.len() as nat, y@.len() as nat),
            acc@ == mat_eval(mv.take(i as int), x.deep_view(), y.deep_view()),
        decreases m@.len() - i,
    {
        let e = m[i];
        proof {
            assert(mv[i as int] == e@);
            assert(mv.take(i + 1).drop_last() =~= mv.take(i as int));
            assert(mv.take(i + 1).last() == e@);
        }
        acc = acc.add(&x[e.row].mul(&y[e.col]).mul(&e.val));
        i += 1;
    }
    proof {
        assert(mv.take(m@.len() as int) =~= mv);
    }
    acc
}

/// Whether all entries lie within the given numbers of rows and columns.
fn check_entries(m: &Vec<MatrixEntry>, rows: usize, cols: usize) -> (r: bool)
    ensures
        r == entries_within(m.deep_view(), rows as nat, cols as nat),
{
    let ghost mv = m.deep_view();
    let mut i: usize = 0;
    while i < m.len()
        invariant
            i <= m@.len(),
            mv == m.deep_view(),
            forall|k: int| 0 <= k < i ==> (#[trigger] mv[k]).row < rows && mv[k].col < cols,
        decreases m@.len() - i,
    {
        if m[i].row >= rows || m[i].col >= cols {
            proof {
                assert(mv[i as int] == m@[i as int]@);
            }
            return false;
        }
        proof {
            assert(mv[i as int] == m@[i as int]@);
        }
        i += 1;
    }
    true
}

impl R1CSInstance {
    /// Whether the sizes of the system are in order.
    #[verifier::type_invariant]
    pub closed spec fn well_formed(&self) -> bool {
        instance_wf(self@)
    }

    /// A system of the given sizes and matrices, or nothing where the
    /// sizes are not in order.
    pub fn new(
        num_cons: usize,
        num_vars: usize,
        num_inputs: usize,
        a: Vec<MatrixEntry>,
        b: Vec<MatrixEntry>,
        c: Vec<MatrixEntry>,
    ) -> (r: Option<R1CSInstance>)
        ensures
            ({
                let v = R1CSInstanceView {
                    num_cons: num_cons as nat,
                    num_vars: num_vars as nat,
                    num_inputs: num_inputs as nat,
                    a: a.deep_view(),
                    b: b.deep_view(),
                    c: c.deep_view(),
                };
                &&& r is Some <==> instance_wf(v)
                &&& r is Some ==> r.unwrap()@ == v
            }),
    {
        if exact_log_2(num_cons).is_none() || exact_log_2(num_vars).is_none() || num_inputs
            >= num_vars || num_vars > usize::MAX / 2 {
            return None;
        }
        let cols = num_vars + 1 + num_inputs;
        if !check_entries(&a, num_cons, cols) || !check_entries(&b, num_cons, cols)
            || !check_entries(&c, num_cons, cols) {
            return None;
        }
        Some(R1CSInstance { num_cons, num_vars, num_inputs, a, b, c })
    }

    /// The number of variables.
    pub fn get_num_vars(&self) -> (r: usize)
        ensures
            r == self@.num_vars,
            instance_wf(self@),
    {
        proof {
            use_type_invariant(self);
        }
        self.num_vars
    }

    /// The number of constraints.
    pub fn get_num_cons(&self) -> (r: usize)
        ensures
            r == self@.num_cons,
            instance_wf(self@),
    {
        proof {
            use_type_invariant(self);
        }
        self.num_cons
    }

    /// The number of inputs.
    pub fn get_num_inputs(&self) -> (r: usize)
        ensures
            r == self@.num_inputs,
            instance_wf(self@),
    {
        proof {
            use_type_invariant(self);
        }
        self.num_inputs
    }

    /// The products of the three matrices with a vector.
    pub fn multiply_vec(&self, num_rows: usize, num_cols: usize, z: &[Scalar]) -> (r: (
        DensePolynomial,
        DensePolynomial,
        DensePolynomial,
    ))
        requires
            num_rows == self@.num_cons,
            z@.len() == num_cols,
            num_cols >= self@.num_vars + 1 + self@.num_inputs,
        ensures
            r.0@.len() == num_rows,
            r.1@.len() == num_rows,
            r.2@.len() == num_rows,
            r.0@ == mat_vec(self@.a, num_rows as nat, z.deep_view()),
            r.1@ == mat_vec(self@.b, num_rows as nat, z.deep_view()),
            r.2@ == mat_vec(self@.c, num_rows as nat, z.deep_view()),
    {
        proof {
            use_type_invariant(self);
        }
        (
            DensePolynomial::new(multiply(&self.a, num_rows, z)),
            DensePolynomial::new(multiply(&self.b, num_rows, z)),
            DensePolynomial::new(multiply(&self.c, num_rows, z)),
        )
    }

    /// The products of a vector with the three matrices.
    pub fn compute_eval_table_sparse(&self, num_rows: usize, num_cols: usize, evals: &[Scalar])
        -> (r: (Vec<Scalar>, Vec<Scalar>, Vec<Scalar>))
        requires
            num_rows == self@.num_cons,
            evals@.len() == num_rows,
            num_cols >= self@.num_vars + 1 + self@.num_inputs,
        ensures
            r.0@.len() == num_cols,
            r.1@.len() == num_cols,
            r.2@.len() == num_cols,
            r.0.deep_view() == vec_mat(self@.a, num_cols as nat, evals.deep_view()),
            r.1.deep_view() == vec_mat(self@.b, num_cols as nat, evals.deep_view()),
            r.2.deep_view() == vec_mat(self@.c, num_cols as nat, evals.deep_view()),
    {
        proof {
            use_type_invariant(self);
        }
        (
            multiply_left(&self.a, num_cols, evals),
            multiply_left(&self.b, num_cols, evals),
            multiply_left(&self.c, num_cols, evals),
        )
    }

    /// The values at the point `(rx, ry)` of the three polynomials whose
    /// values at the corners of the cube are the entries of the matrices.
    pub fn evaluate(&self, rx: &[Scalar], ry: &[Scalar]) -> (r: (Scalar, Scalar, Scalar))
        requires
            two_to(rx@.len() as nat) == self@.num_cons,
            two_to(ry@.len() as nat) == 2 * self@.num_vars,
        ensures
            r.0@ == mat_eval(self@.a, eq_evals(rx.deep_view()), eq_evals(ry.deep_view())),
            r.1@ == mat_eval(self@.b, eq_evals(rx.deep_view()), eq_evals(ry.deep_view())),
            r.2@ == mat_eval(self@.c, eq_evals(rx.deep_view()), eq_evals(ry.deep_view())),
    {
        proof {
            use_type_invariant(self);
            lemma_eq_evals_len(rx.deep_view());
            lemma_eq_evals_len(ry.deep_view());
        }
        let px = vstd::slice::slice_to_vec(rx);
        let py = vstd::slice::slice_to_vec(ry);
        proof {
            assert(px.deep_view() =~= rx.deep_view());
            assert(py.deep_view() =~= ry.deep_view());
        }
        let x = EqPolynomial::new(px).evals();
        let y = EqPolynomial::new(py).evals();
        (
            evaluate_with_tables(&self.a, &x, &y),
            evaluate_with_tables(&self.b, &x, &y),
            evaluate_with_tables(&self.c, &x, &y),
        )
    }

    /// Whether an assignment meets all constraints.
    pub fn is_sat(&self, vars: &[Scalar], input: &[Scalar]) -> (r: bool)
        requires
            vars@.len() == self@.num_vars,
            input@.len() == self@.num_inputs,
        ensures
            r == satisfies(self@, vars.deep_view(), input.deep_view()),
    {
        proof {
            use_type_invariant(self);
        }
        let mut z = vstd::slice::slice_to_vec(vars);
        z.push(Scalar::one());
        let mut rest = vstd::slice::slice_to_vec(input);
        z.append(&mut rest);
        let zs = z.as_slice();
        proof {
            assert(zs.deep_view() =~= assignment(vars.deep_view(), input.deep_view()));
        }
        let az = multiply(&self.a, self.num_cons, zs);
        let bz = multiply(&self.b, self.num_cons, zs);
        let cz = multiply(&self.c, self.num_cons, zs);
        let ghost zv = zs.deep_view();
        let mut i: usize = 0;
        while i < self.num_cons
            invariant
                i <= self.num_cons,
                az@.len() == self.num_cons,
                bz@.len() == self.num_cons,
                cz@.len() == self.num_cons,
                zv == assignment(vars.deep_view(), input.deep_view()),
                az.deep_view() == mat_vec(self@.a, self.num_cons as nat, zv),
                bz.deep_view() == mat_vec(self@.b, self.num_cons as nat, zv),
                cz.deep_view() == mat_vec(self@.c, self.num_cons as nat, zv),
                forall|k: int|
                    0 <= k < i ==> fmul(
                        #[trigger] mat_vec_row(self@.a, zv, k as nat),
                        mat_vec_row(self@.b, zv, k as nat),
                    ) == mat_vec_row(self@.c, zv, k as nat),
            decreases self.num_cons - i,
        {
            proof {
                assert(az@[i as int]@ == az.deep_view()[i as int]);
                assert(bz@[i as int]@ == bz.deep_view()[i as int]);
                assert(cz@[i as int]@ == cz.deep_view()[i as int]);
            }
            if !az[i].mul(&bz[i]).equals(&cz[i]) {
                return false;
            }
            i += 1;
        }
        true
    }
}

} // verus!
