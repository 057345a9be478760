//! The IsZero gadget.
//!
//! Given a `value` expression to be checked for being zero, the gadget
//! witnesses `inv0(value)` in one fresh advice column and registers the constraint
//! `q_enable * value * (1 - value * value_inv) == 0`. The derived indicator
//! `1 - value * value_inv` is one exactly when `value` is zero at any
//! satisfying assignment, and zero otherwise: if `value` is zero the constraint
//! holds for every witness and the indicator reduces to one; if `value` is
//! nonzero the constraint forces the witness to be the true inverse, making the
//! indicator zero. The laws at the end of this module prove exactly that.

use vstd::prelude::*;
use vstd::arithmetic::div_mod::{
    lemma_add_mod_noop_right, lemma_mod_add_multiples_vanish, lemma_small_mod,
};
use vstd::arithmetic::mul::lemma_mul_basics;
use crate::cs::{AssignmentError, ConstraintSystem, Region, has_write};
use crate::expr::{
    AdviceColumn, Expr, RowAssignment, clone_expr, degree, eval, expr_wf, lemma_eval_bounds,
};
use crate::field::{
    fadd, fmul, fneg, fsub, fp_inv0, has_inv, inv0, is_field, is_inv, lemma_inv0_is_inv,
    lemma_inv_unique, lemma_no_zero_divisors,
};

verus! {

/// The indicator expression `1 - value * value_inv`.
pub open spec fn is_zero_expr_spec(value: Expr, value_inv: AdviceColumn) -> Expr {
    Expr::Sum(
        Box::new(Expr::Constant(1)),
        Box::new(
            Expr::Negated(
                Box::new(
                    Expr::Product(Box::new(value), Box::new(Expr::Advice(value_inv))),
                ),
            ),
        ),
    )
}

/// The registered gate polynomial `q_enable * (value * (1 - value * value_inv))`.
pub open spec fn is_zero_gate_spec(q_enable: Expr, value: Expr, value_inv: AdviceColumn) -> Expr {
    Expr::Product(
        Box::new(q_enable),
        Box::new(
            Expr::Product(Box::new(value), Box::new(is_zero_expr_spec(value, value_inv))),
        ),
    )
}

/// The IsZero configuration: the fresh advice column holding the witnessed
/// inverse, and the derived indicator expression, usable inline in further
/// gates.
#[derive(Debug)]
pub struct IsZeroConfig {
    /// Holds `inv0(value)` at each constrained row.
    pub value_inv: AdviceColumn,
    /// `1 - value * value_inv`: at a satisfying assignment, one exactly
    /// when `value` is zero, and zero otherwise.
    pub is_zero_expression: Expr,
}

/// Assignment interface for gadgets that witness `inv0(value)`.
pub trait IsZeroInstruction {
    /// The advice column the gadget writes its witness to.
    spec fn inv_column(&self) -> AdviceColumn;

    /// Witness `inv0(value)` at the given row: exactly one cell write, with
    /// the region otherwise untouched. A structural failure of the write is
    /// propagated unchanged.
    fn assign(&self, region: &mut Region, offset: usize, p: u64, value: u64) -> (r: Result<
        (),
        AssignmentError,
    >)
        requires
            1 < p,
            value < p,
            old(region).wf(),
        ensures
            final(region).wf(),
            final(region).num_rows == old(region).num_rows,
            final(region).fixed_writes@ == old(region).fixed_writes@,
            final(region).enabled_selectors@ == old(region).enabled_selectors@,
            match r {
                Ok(_) => offset < old(region).num_rows && !has_write(
                    old(region).advice_writes@,
                    self.inv_column().index as int,
                    offset as int,
                ) && final(region).advice_writes@ == old(region).advice_writes@.push(
                    (self.inv_column().index, offset, inv0(p as int, value as int) as u64),
                ),
                Err(e) => final(region).advice_writes@ == old(region).advice_writes@ && (if e
                    === AssignmentError::OutOfBounds {
                    offset >= old(region).num_rows
                } else {
                    offset < old(region).num_rows && has_write(
                        old(region).advice_writes@,
                        self.inv_column().index as int,
                        offset as int,
                    )
                }),
            },
    ;
}

/// The IsZero gadget: a thin wrapper bound to one config, exposing the
/// witness assignment.
#[derive(Debug)]
pub struct IsZeroChip {
    config: IsZeroConfig,
}

impl IsZeroChip {
    /// The config the chip is bound to.
    pub closed spec fn spec_config(&self) -> IsZeroConfig {
        self.config
    }

    /// Register the IsZero gate `q_enable * value * (1 - value * value_inv)`
    /// on the constraint system and hand back the config with the derived
    /// indicator expression.
    pub fn configure(
        cs: &mut ConstraintSystem,
        q_enable: Expr,
        value: Expr,
        value_inv: AdviceColumn,
    ) -> (cfg: IsZeroConfig)
        requires
            old(cs).wf(),
            expr_wf(
                q_enable,
                old(cs).num_advice as nat,
                old(cs).num_fixed as nat,
                old(cs).num_selectors as nat,
            ),
            expr_wf(
                value,
                old(cs).num_advice as nat,
                old(cs).num_fixed as nat,
                old(cs).num_selectors as nat,
            ),
            value_inv.index < old(cs).num_advice,
        ensures
            final(cs).wf(),
            cfg.value_inv == value_inv,
            cfg.is_zero_expression == is_zero_expr_spec(value, value_inv),
            final(cs).gates@.len() == old(cs).gates@.len() + 1,
            forall|i: int| 0 <= i < old(cs).gates@.len() ==> final(cs).gates@[i] == old(cs).gates@[i],
            final(cs).gates@.last().poly == is_zero_gate_spec(q_enable, value, value_inv),
            final(cs).num_advice == old(cs).num_advice,
            final(cs).num_fixed == old(cs).num_fixed,
            final(cs).num_selectors == old(cs).num_selectors,
            final(cs).equality_columns@ == old(cs).equality_columns@,
            final(cs).constant_columns@ == old(cs).constant_columns@,
    {
        let value_for_indicator = clone_expr(&value);
        let is_zero_expression = Expr::Sum(
            Box::new(Expr::Constant(1)),
            Box::new(
                Expr::Negated(
                    Box::new(
                        Expr::Product(
                            Box::new(value_for_indicator),
                            Box::new(Expr::Advice(value_inv)),
                        ),
                    ),
                ),
            ),
        );
        let indicator_for_gate = clone_expr(&is_zero_expression);
        let poly = Expr::Product(
            Box::new(q_enable),
            Box::new(Expr::Product(Box::new(value), Box::new(indicator_for_gate))),
        );
        proof {
            reveal_with_fuel(expr_wf, 8);
            assert(expr_wf(
                poly,
                cs.num_advice as nat,
                cs.num_fixed as nat,
                cs.num_selectors as nat,
            ));
        }
        cs.create_gate("is_zero gate", poly);
        IsZeroConfig { value_inv, is_zero_expression }
    }

    /// Construct the chip from a config.
    pub fn construct(config: IsZeroConfig) -> (chip: Self)
        ensures
            chip.spec_config() == config,
            chip.inv_column() == config.value_inv,
    {
        IsZeroChip { config }
    }

    /// The config the chip was built from.
    pub fn config(&self) -> (c: &IsZeroConfig)
        ensures
            *c == self.spec_config(),
    {
        &self.config
    }
}

impl IsZeroInstruction for IsZeroChip {
    closed spec fn inv_column(&self) -> AdviceColumn {
        self.config.value_inv
    }

    fn assign(&self, region: &mut Region, offset: usize, p: u64, value: u64) -> (r: Result<
        (),
        AssignmentError,
    >) {
        let value_inv = fp_inv0(p, value);
        region.assign_advice(self.config.value_inv, offset, value_inv)
    }
}

/// The mathematical gate value `v * (1 - v * w)` in the field, with `v` the
/// checked value and `w` the witnessed inverse candidate.
pub open spec fn is_zero_gate_val(p: int, v: int, w: int) -> int {
    fmul(p, v, fsub(p, 1, fmul(p, v, w)))
}

/// The mathematical indicator value `1 - v * w`.
pub open spec fn is_zero_indicator_val(p: int, v: int, w: int) -> int {
    fsub(p, 1, fmul(p, v, w))
}

/// IsZero completeness: for every field value `v`, witnessing `inv0(v)`
/// satisfies the constraint.
pub proof fn lemma_is_zero_complete(p: int, v: int)
    requires
        is_field(p),
        0 <= v < p,
    ensures
        is_zero_gate_val(p, v, inv0(p, v)) == 0,
{
    lemma_small_mod(0nat, p as nat);
    if v == 0 {
        lemma_mul_basics(inv0(p, 0));
        lemma_mul_basics(fsub(p, 1, fmul(p, 0, inv0(p, 0))));
    } else {
        assert(has_inv(p, v));
        lemma_inv0_is_inv(p, v);
        assert(fmul(p, v, inv0(p, v)) == 1);
        assert(fsub(p, 1, 1) == 0);
        lemma_mul_basics(v);
    }
}

/// IsZero soundness: for nonzero `v`, witnessing anything other than the
/// true inverse violates the constraint.
pub proof fn lemma_is_zero_sound(p: int, v: int, w: int)
    requires
        is_field(p),
        0 < v < p,
        0 <= w < p,
        w != inv0(p, v),
    ensures
        is_zero_gate_val(p, v, w) != 0,
{
    lemma_small_mod(0nat, p as nat);
    let m = fmul(p, v, w);
    let x = is_zero_indicator_val(p, v, w);
    if x == 0 {
        // `(1 - m) % p == 0` with `m` a residue forces `m == 1`
        if m == 0 {
            lemma_small_mod(1nat, p as nat);
            assert(false);
        } else if m != 1 {
            lemma_mod_add_multiples_vanish(1 - m, p);
            lemma_small_mod((p + 1 - m) as nat, p as nat);
            assert(false);
        }
        assert(is_inv(p, v, w));
        assert(has_inv(p, v));
        lemma_inv0_is_inv(p, v);
        lemma_inv_unique(p, v, w, inv0(p, v));
        assert(false);
    }
    lemma_no_zero_divisors(p, v, x);
}

/// IsZero indicator correctness: at any satisfying assignment the indicator
/// is one exactly when `v` is zero, and zero otherwise.
pub proof fn lemma_is_zero_indicator(p: int, v: int, w: int)
    requires
        is_field(p),
        0 <= v < p,
        0 <= w < p,
        is_zero_gate_val(p, v, w) == 0,
    ensures
        is_zero_indicator_val(p, v, w) == (if v == 0 {
            1int
        } else {
            0int
        }),
{
    lemma_small_mod(0nat, p as nat);
    if v == 0 {
        lemma_mul_basics(w);
        lemma_small_mod(1nat, p as nat);
    } else {
        let x = is_zero_indicator_val(p, v, w);
        if x != 0 {
            lemma_no_zero_divisors(p, v, x);
            assert(false);
        }
    }
}

/// Evaluating the registered gate and the indicator at a row gives the
/// mathematical gate and indicator values, with `v` the value expression's
/// evaluation and `w` the witnessed cell's value.
pub proof fn lemma_is_zero_gate_eval(
    q_enable: Expr,
    value: Expr,
    value_inv: AdviceColumn,
    row: RowAssignment,
    p: int,
)
    requires
        1 < p,
    ensures
        eval(is_zero_gate_spec(q_enable, value, value_inv), row, p) == fmul(
            p,
            eval(q_enable, row, p),
            is_zero_gate_val(p, eval(value, row, p), eval(Expr::Advice(value_inv), row, p)),
        ),
        eval(is_zero_expr_spec(value, value_inv), row, p) == is_zero_indicator_val(
            p,
            eval(value, row, p),
            eval(Expr::Advice(value_inv), row, p),
        ),
{
    let v = eval(value, row, p);
    let w = eval(Expr::Advice(value_inv), row, p);
    let m = fmul(p, v, w);
    lemma_small_mod(1nat, p as nat);
    lemma_add_mod_noop_right(1, -m, p);
    let e_prod = Expr::Product(Box::new(value), Box::new(Expr::Advice(value_inv)));
    let e_neg = Expr::Negated(Box::new(e_prod));
    let e_one = Expr::Constant(1);
    let e_ind = Expr::Sum(Box::new(e_one), Box::new(e_neg));
    assert(e_ind == is_zero_expr_spec(value, value_inv));
    assert(eval(e_prod, row, p) == m);
    assert(eval(e_neg, row, p) == fneg(p, m));
    assert(eval(e_one, row, p) == 1);
    assert(eval(e_ind, row, p) == fadd(p, 1, fneg(p, m)));
    assert(fadd(p, 1, fneg(p, m)) == fsub(p, 1, m));
    let e_inner = Expr::Product(Box::new(value), Box::new(e_ind));
    let e_gate = Expr::Product(Box::new(q_enable), Box::new(e_inner));
    assert(e_gate == is_zero_gate_spec(q_enable, value, value_inv));
    assert(eval(e_inner, row, p) == fmul(p, v, fsub(p, 1, m)));
    assert(eval(e_gate, row, p) == fmul(p, eval(q_enable, row, p), fmul(p, v, fsub(p, 1, m))));
}

/// IsZero completeness over the registered gate: when the witnessed cell
/// holds `inv0` of the value expression's evaluation, the constraint evaluates to
/// zero whatever the selector is.
pub proof fn lemma_is_zero_gate_complete(
    q_enable: Expr,
    value: Expr,
    value_inv: AdviceColumn,
    row: RowAssignment,
    p: int,
)
    requires
        is_field(p),
        eval(Expr::Advice(value_inv), row, p) == inv0(p, eval(value, row, p)),
    ensures
        eval(is_zero_gate_spec(q_enable, value, value_inv), row, p) == 0,
{
    lemma_small_mod(0nat, p as nat);
    lemma_eval_bounds(value, row, p);
    lemma_is_zero_gate_eval(q_enable, value, value_inv, row, p);
    lemma_is_zero_complete(p, eval(value, row, p));
    lemma_mul_basics(eval(q_enable, row, p));
}

/// IsZero soundness over the registered gate: with the selector active and
/// the value expression nonzero, a witnessed cell other than the true
/// inverse leaves the constraint unsatisfied.
pub proof fn lemma_is_zero_gate_sound(
    q_enable: Expr,
    value: Expr,
    value_inv: AdviceColumn,
    row: RowAssignment,
    p: int,
)
    requires
        is_field(p),
        eval(q_enable, row, p) != 0,
        eval(value, row, p) != 0,
        eval(Expr::Advice(value_inv), row, p) != inv0(p, eval(value, row, p)),
    ensures
        eval(is_zero_gate_spec(q_enable, value, value_inv), row, p) != 0,
{
    let q = eval(q_enable, row, p);
    let v = eval(value, row, p);
    let w = eval(Expr::Advice(value_inv), row, p);
    lemma_eval_bounds(q_enable, row, p);
    lemma_eval_bounds(value, row, p);
    lemma_eval_bounds(Expr::Advice(value_inv), row, p);
    lemma_is_zero_gate_eval(q_enable, value, value_inv, row, p);
    lemma_is_zero_sound(p, v, w);
    lemma_no_zero_divisors(p, q, is_zero_gate_val(p, v, w));
}

/// IsZero indicator correctness over the derived expression: at any row
/// where the selector is active and the constraint is satisfied, the indicator
/// expression evaluates to one exactly when the value expression evaluates
/// to zero.
pub proof fn lemma_is_zero_expression_indicator(
    q_enable: Expr,
    value: Expr,
    value_inv: AdviceColumn,
    row: RowAssignment,
    p: int,
)
    requires
        is_field(p),
        eval(q_enable, row, p) != 0,
        eval(is_zero_gate_spec(q_enable, value, value_inv), row, p) == 0,
    ensures
        eval(is_zero_expr_spec(value, value_inv), row, p) == (if eval(value, row, p) == 0 {
            1int
        } else {
            0int
        }),
{
    let q = eval(q_enable, row, p);
    let v = eval(value, row, p);
    let w = eval(Expr::Advice(value_inv), row, p);
    lemma_eval_bounds(q_enable, row, p);
    lemma_eval_bounds(value, row, p);
    lemma_eval_bounds(Expr::Advice(value_inv), row, p);
    lemma_is_zero_gate_eval(q_enable, value, value_inv, row, p);
    let inner = is_zero_gate_val(p, v, w);
    if inner != 0 {
        lemma_no_zero_divisors(p, q, inner);
        assert(false);
    }
    lemma_is_zero_indicator(p, v, w);
}


/// Two configure calls on independent constraint systems with the same
/// selector expression, value expression and inverse column register
/// structurally identical gates and yield the same indicator: the constraint
/// depends only on the configure inputs, not on the system's prior state.
pub proof fn lemma_is_zero_configure_deterministic(
    q1: Expr,
    q2: Expr,
    value1: Expr,
    value2: Expr,
    col1: AdviceColumn,
    col2: AdviceColumn,
)
    requires
        q1 == q2,
        value1 == value2,
        col1 == col2,
    ensures
        is_zero_gate_spec(q1, value1, col1) == is_zero_gate_spec(q2, value2, col2),
        is_zero_expr_spec(value1, col1) == is_zero_expr_spec(value2, col2),
{
}

/// The registered gate's polynomial degree: the selector's degree plus
/// twice the value expression's degree plus one. With a plain selector
/// query and a plain column query as the value, the constraint beside the
/// selector has degree three: one extra column and one degree-three gate
/// suffice.
pub proof fn lemma_is_zero_gate_degree(q_enable: Expr, value: Expr, value_inv: AdviceColumn)
    ensures
        degree(is_zero_gate_spec(q_enable, value, value_inv)) == degree(q_enable) + 2 * degree(
            value,
        ) + 1,
{
    let e_prod = Expr::Product(Box::new(value), Box::new(Expr::Advice(value_inv)));
    let e_neg = Expr::Negated(Box::new(e_prod));
    let e_one = Expr::Constant(1);
    let e_ind = Expr::Sum(Box::new(e_one), Box::new(e_neg));
    assert(e_ind == is_zero_expr_spec(value, value_inv));
    assert(degree(Expr::Advice(value_inv)) == 1);
    assert(degree(e_prod) == degree(value) + 1);
    assert(degree(e_neg) == degree(value) + 1);
    assert(degree(e_one) == 0);
    assert(degree(e_ind) == degree(value) + 1);
    let e_inner = Expr::Product(Box::new(value), Box::new(e_ind));
    let e_gate = Expr::Product(Box::new(q_enable), Box::new(e_inner));
    assert(e_gate == is_zero_gate_spec(q_enable, value, value_inv));
    assert(degree(e_inner) == 2 * degree(value) + 1);
    assert(degree(e_gate) == degree(q_enable) + 2 * degree(value) + 1);
}

} // verus!
