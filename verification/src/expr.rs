//! Polynomial gate expressions.
//!
//! An expression is a polynomial over the cells of one row: queries of
//! advice columns, fixed columns, and selectors, combined with constants,
//! negation, sums and products. `eval` gives its value in the field for a
//! concrete row assignment; the proving system requires every registered
//! gate to evaluate to zero on every row.

use vstd::prelude::*;
use crate::field::{fadd, fsub, fmul, fneg, fp_add, fp_mul, fp_neg};

verus! {

/// A column of prover-supplied witness values.
#[derive(Clone, Copy, Debug, PartialEq, Eq, Structural)]
pub struct AdviceColumn {
    pub index: usize,
}

/// A column of constants baked into the circuit description.
#[derive(Clone, Copy, Debug, PartialEq, Eq, Structural)]
pub struct FixedColumn {
    pub index: usize,
}

/// A boolean gate-enable signal per row.
#[derive(Clone, Copy, Debug, PartialEq, Eq, Structural)]
pub struct Selector {
    pub index: usize,
}

/// A polynomial expression over the cells of one row.
#[derive(Debug, PartialEq, Eq)]
pub enum Expr {
    /// A constant, reduced into the field when evaluated.
    Constant(u64),
    /// The value of an advice column at the current row.
    Advice(AdviceColumn),
    /// The value of a fixed column at the current row.
    Fixed(FixedColumn),
    /// A selector: evaluates to one where enabled and zero elsewhere.
    Selector(Selector),
    /// Negation in the field.
    Negated(Box<Expr>),
    /// Addition in the field.
    Sum(Box<Expr>, Box<Expr>),
    /// Multiplication in the field.
    Product(Box<Expr>, Box<Expr>),
}

/// The values of one row: one entry per advice column, fixed column and
/// selector of the constraint system.
#[derive(Debug, PartialEq, Eq)]
pub struct RowAssignment {
    pub advice: Vec<u64>,
    pub fixed: Vec<u64>,
    pub selectors: Vec<bool>,
}

/// Every column and selector the expression queries exists in a system
/// with the given counts.
pub open spec fn expr_wf(e: Expr, num_advice: nat, num_fixed: nat, num_selectors: nat) -> bool
    decreases e,
{
    match e {
        Expr::Constant(_) => true,
        Expr::Advice(col) => (col.index as nat) < num_advice,
        Expr::Fixed(col) => (col.index as nat) < num_fixed,
        Expr::Selector(s) => (s.index as nat) < num_selectors,
        Expr::Negated(a) => expr_wf(*a, num_advice, num_fixed, num_selectors),
        Expr::Sum(a, b) => expr_wf(*a, num_advice, num_fixed, num_selectors) && expr_wf(
            *b,
            num_advice,
            num_fixed,
            num_selectors,
        ),
        Expr::Product(a, b) => expr_wf(*a, num_advice, num_fixed, num_selectors) && expr_wf(
            *b,
            num_advice,
            num_fixed,
            num_selectors,
        ),
    }
}

/// The value of the expression at a row, as a residue modulo `p`.
pub open spec fn eval(e: Expr, row: RowAssignment, p: int) -> int
    decreases e,
{
    match e {
        Expr::Constant(c) => (c as int) % p,
        Expr::Advice(col) => (row.advice@[col.index as int] as int) % p,
        Expr::Fixed(col) => (row.fixed@[col.index as int] as int) % p,
        Expr::Selector(s) => if row.selectors@[s.index as int] {
            1int % p
        } else {
            0
        },
        Expr::Negated(a) => fneg(p, eval(*a, row, p)),
        Expr::Sum(a, b) => fadd(p, eval(*a, row, p), eval(*b, row, p)),
        Expr::Product(a, b) => fmul(p, eval(*a, row, p), eval(*b, row, p)),
    }
}

/// An expression always evaluates to a residue in `[0, p)`.
pub proof fn lemma_eval_bounds(e: Expr, row: RowAssignment, p: int)
    requires
        0 < p,
    ensures
        0 <= eval(e, row, p) < p,
    decreases e,
{
    match e {
        Expr::Constant(_) => {},
        Expr::Advice(_) => {},
        Expr::Fixed(_) => {},
        Expr::Selector(_) => {},
        Expr::Negated(a) => {
            lemma_eval_bounds(*a, row, p);
        },
        Expr::Sum(a, b) => {
            lemma_eval_bounds(*a, row, p);
            lemma_eval_bounds(*b, row, p);
        },
        Expr::Product(a, b) => {
            lemma_eval_bounds(*a, row, p);
            lemma_eval_bounds(*b, row, p);
        },
    }
}

/// Well-formedness is preserved when a system grows: an expression over few
/// columns is still an expression over more.
pub proof fn lemma_expr_wf_monotone(
    e: Expr,
    na1: nat,
    nf1: nat,
    ns1: nat,
    na2: nat,
    nf2: nat,
    ns2: nat,
)
    requires
        expr_wf(e, na1, nf1, ns1),
        na1 <= na2,
        nf1 <= nf2,
        ns1 <= ns2,
    ensures
        expr_wf(e, na2, nf2, ns2),
    decreases e,
{
    match e {
        Expr::Negated(a) => {
            lemma_expr_wf_monotone(*a, na1, nf1, ns1, na2, nf2, ns2);
        },
        Expr::Sum(a, b) => {
            lemma_expr_wf_monotone(*a, na1, nf1, ns1, na2, nf2, ns2);
            lemma_expr_wf_monotone(*b, na1, nf1, ns1, na2, nf2, ns2);
        },
        Expr::Product(a, b) => {
            lemma_expr_wf_monotone(*a, na1, nf1, ns1, na2, nf2, ns2);
            lemma_expr_wf_monotone(*b, na1, nf1, ns1, na2, nf2, ns2);
        },
        _ => {},
    }
}

/// The polynomial degree of an expression: queries have degree one,
/// constants degree zero; the degree of a sum is the larger of the two,
/// the degree of a product the sum.
pub open spec fn degree(e: Expr) -> nat
    decreases e,
{
    match e {
        Expr::Constant(_) => 0,
        Expr::Advice(_) => 1,
        Expr::Fixed(_) => 1,
        Expr::Selector(_) => 1,
        Expr::Negated(a) => degree(*a),
        Expr::Sum(a, b) => if degree(*a) >= degree(*b) {
            degree(*a)
        } else {
            degree(*b)
        },
        Expr::Product(a, b) => degree(*a) + degree(*b),
    }
}

/// An exact structural copy of an expression.
pub fn clone_expr(e: &Expr) -> (r: Expr)
    ensures
        r == *e,
    decreases *e,
{
    match e {
        Expr::Constant(c) => Expr::Constant(*c),
        Expr::Advice(col) => Expr::Advice(*col),
        Expr::Fixed(col) => Expr::Fixed(*col),
        Expr::Selector(s) => Expr::Selector(*s),
        Expr::Negated(a) => Expr::Negated(Box::new(clone_expr(&**a))),
        Expr::Sum(a, b) => Expr::Sum(Box::new(clone_expr(&**a)), Box::new(clone_expr(&**b))),
        Expr::Product(a, b) => Expr::Product(
            Box::new(clone_expr(&**a)),
            Box::new(clone_expr(&**b)),
        ),
    }
}

/// Decide well-formedness of an expression against the given counts.
pub fn check_expr_wf(e: &Expr, num_advice: usize, num_fixed: usize, num_selectors: usize) -> (r:
    bool)
    ensures
        r == expr_wf(*e, num_advice as nat, num_fixed as nat, num_selectors as nat),
    decreases *e,
{
    match e {
        Expr::Constant(_) => true,
        Expr::Advice(col) => col.index < num_advice,
        Expr::Fixed(col) => col.index < num_fixed,
        Expr::Selector(s) => s.index < num_selectors,
        Expr::Negated(a) => check_expr_wf(&**a, num_advice, num_fixed, num_selectors),
        Expr::Sum(a, b) => check_expr_wf(&**a, num_advice, num_fixed, num_selectors)
            && check_expr_wf(&**b, num_advice, num_fixed, num_selectors),
        Expr::Product(a, b) => check_expr_wf(&**a, num_advice, num_fixed, num_selectors)
            && check_expr_wf(&**b, num_advice, num_fixed, num_selectors),
    }
}

/// Evaluate the expression at a row.
pub fn eval_expr(e: &Expr, row: &RowAssignment, p: u64) -> (r: u64)
    requires
        1 < p,
        expr_wf(*e, row.advice@.len(), row.fixed@.len(), row.selectors@.len()),
    ensures
        r as int == eval(*e, *row, p as int),
        r < p,
    decreases *e,
{
    match e {
        Expr::Constant(c) => *c % p,
        Expr::Advice(col) => row.advice[col.index] % p,
        Expr::Fixed(col) => row.fixed[col.index] % p,
        Expr::Selector(s) => if row.selectors[s.index] {
            1 % p
        } else {
            0
        },
        Expr::Negated(a) => {
            let x = eval_expr(&**a, row, p);
            fp_neg(p, x)
        },
        Expr::Sum(a, b) => {
            let x = eval_expr(&**a, row, p);
            let y = eval_expr(&**b, row, p);
            fp_add(p, x, y)
        },
        Expr::Product(a, b) => {
            let x = eval_expr(&**a, row, p);
            let y = eval_expr(&**b, row, p);
            fp_mul(p, x, y)
        },
    }
}

} // verus!
