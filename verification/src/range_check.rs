//! The RangeCheck gadget.
//!
//! A single advice cell is constrained to hold one of the integers
//! `0, 1, ..., RANGE - 1` by forcing the vanishing polynomial
//! `selector * value * (1 - value) * (2 - value) * ... * (RANGE-1 - value)`
//! to zero when the selector is active; the leading `value` factor covers
//! the root at zero. The constraint degree grows linearly with `RANGE`, so callers
//! must respect the proving system's maximum-degree bound. Assignment
//! writes the original value being range-checked into the constrained cell;
//! the vanishing product is the content of the constraint, evaluated by the
//! proving system from that witness, never a value substituted for it.

use vstd::prelude::*;
use vstd::arithmetic::div_mod::{
    lemma_add_mod_noop, lemma_mod_add_multiples_vanish, lemma_small_mod,
};
use vstd::arithmetic::mul::lemma_mul_basics;
use crate::cs::{AssignmentError, ConstraintSystem, Region, has_enabled, has_write};
use crate::expr::{
    AdviceColumn, Expr, RowAssignment, Selector, eval, expr_wf, lemma_eval_bounds,
};
use crate::field::{fmul, fneg, fsub, is_field, lemma_no_zero_divisors};

verus! {

/// The vanishing chain `value * (1 - value) * ... * (k-1 - value)` as an
/// expression over the constrained column.
pub open spec fn vanishing_expr(k: nat, value: AdviceColumn) -> Expr
    decreases k,
{
    if k <= 1 {
        Expr::Advice(value)
    } else {
        Expr::Product(
            Box::new(vanishing_expr((k - 1) as nat, value)),
            Box::new(
                Expr::Sum(
                    Box::new(Expr::Constant((k - 1) as u64)),
                    Box::new(Expr::Negated(Box::new(Expr::Advice(value)))),
                ),
            ),
        )
    }
}

/// The registered gate polynomial: the selector times the vanishing chain.
pub open spec fn range_gate_spec(k: nat, q: Selector, value: AdviceColumn) -> Expr {
    Expr::Product(Box::new(Expr::Selector(q)), Box::new(vanishing_expr(k, value)))
}

/// The RangeCheck configuration: the constrained advice column, the
/// gate-enable selector, and the bound `range`: the witnessed value must
/// lie in `[0, range)`.
#[derive(Clone, Copy, Debug, PartialEq, Eq, Structural)]
pub struct RangeCheckConfig {
    /// The constrained advice column.
    pub value: AdviceColumn,
    /// The constraint-enable selector.
    pub q_range_check: Selector,
    /// The exclusive upper bound of the permitted range.
    pub range: usize,
}

/// A range-constrained witness cell produced by a successful assignment.
#[derive(Clone, Copy, Debug, PartialEq, Eq, Structural)]
pub struct RangeConstrained {
    /// The column the witness was written to.
    pub column: AdviceColumn,
    /// The row the witness was written at.
    pub offset: usize,
    /// The witnessed value itself.
    pub value: u64,
}

impl RangeCheckConfig {
    /// Allocate the selector and register the vanishing-polynomial gate
    /// against the supplied advice column.
    pub fn configure(cs: &mut ConstraintSystem, value: AdviceColumn, range: usize) -> (cfg: Self)
        requires
            old(cs).wf(),
            range >= 1,
            value.index < old(cs).num_advice,
            old(cs).num_selectors < usize::MAX,
        ensures
            final(cs).wf(),
            cfg.value == value,
            cfg.range == range,
            cfg.q_range_check.index == old(cs).num_selectors,
            final(cs).gates@.len() == old(cs).gates@.len() + 1,
            forall|i: int| 0 <= i < old(cs).gates@.len() ==> final(cs).gates@[i] == old(cs).gates@[i],
            final(cs).gates@.last().poly == range_gate_spec(range as nat, cfg.q_range_check, value),
            final(cs).num_advice == old(cs).num_advice,
            final(cs).num_fixed == old(cs).num_fixed,
            final(cs).num_selectors == old(cs).num_selectors + 1,
            final(cs).equality_columns@ == old(cs).equality_columns@,
            final(cs).constant_columns@ == old(cs).constant_columns@,
    {
        let q_range_check = cs.selector();
        let mut acc = Expr::Advice(value);
        let mut i: usize = 1;
        while i < range
            invariant
                1 <= i <= range,
                acc == vanishing_expr(i as nat, value),
            decreases range - i,
        {
            acc = Expr::Product(
                Box::new(acc),
                Box::new(
                    Expr::Sum(
                        Box::new(Expr::Constant(i as u64)),
                        Box::new(Expr::Negated(Box::new(Expr::Advice(value)))),
                    ),
                ),
            );
            i = i + 1;
        }
        let poly = Expr::Product(Box::new(Expr::Selector(q_range_check)), Box::new(acc));
        proof {
            lemma_vanishing_wf(
                range as nat,
                value,
                cs.num_advice as nat,
                cs.num_fixed as nat,
                cs.num_selectors as nat,
            );
            assert(expr_wf(
                Expr::Selector(q_range_check),
                cs.num_advice as nat,
                cs.num_fixed as nat,
                cs.num_selectors as nat,
            ));
            assert(expr_wf(
                poly,
                cs.num_advice as nat,
                cs.num_fixed as nat,
                cs.num_selectors as nat,
            ));
        }
        cs.create_gate("range check", poly);
        RangeCheckConfig { value, q_range_check, range }
    }

    /// Enable the selector and write the witness: the original value being
    /// range-checked, which the constraint then holds to the vanishing product.
    /// A structural failure is propagated unchanged.
    pub fn assign(&self, region: &mut Region, offset: usize, value_in: u64) -> (r: Result<
        RangeConstrained,
        AssignmentError,
    >)
        requires
            old(region).wf(),
        ensures
            final(region).wf(),
            final(region).num_rows == old(region).num_rows,
            final(region).fixed_writes@ == old(region).fixed_writes@,
            r is Ok <==> (offset < old(region).num_rows && !has_write(
                old(region).advice_writes@,
                self.value.index as int,
                offset as int,
            )),
            r matches Ok(rc) ==> rc.column == self.value && rc.offset == offset && rc.value
                == value_in,
            r is Ok ==> final(region).advice_writes@ == old(region).advice_writes@.push(
                (self.value.index, offset, value_in),
            ),
            r is Ok ==> forall|x: int, y: int|
                has_enabled(final(region).enabled_selectors@, x, y) <==> (has_enabled(
                    old(region).enabled_selectors@,
                    x,
                    y,
                ) || (x == self.q_range_check.index && y == offset)),
    {
        match region.enable_selector(self.q_range_check, offset) {
            Ok(_) => {},
            Err(e) => {
                return Err(e);
            },
        }
        match region.assign_advice(self.value, offset, value_in) {
            Ok(_) => {},
            Err(e) => {
                return Err(e);
            },
        }
        Ok(RangeConstrained { column: self.value, offset, value: value_in })
    }
}

/// The vanishing chain queries only the constrained column, so it is
/// well-formed wherever that column exists.
pub proof fn lemma_vanishing_wf(
    k: nat,
    value: AdviceColumn,
    num_advice: nat,
    num_fixed: nat,
    num_selectors: nat,
)
    requires
        (value.index as nat) < num_advice,
    ensures
        expr_wf(vanishing_expr(k, value), num_advice, num_fixed, num_selectors),
    decreases k,
{
    if k > 1 {
        lemma_vanishing_wf((k - 1) as nat, value, num_advice, num_fixed, num_selectors);
        reveal_with_fuel(expr_wf, 4);
    }
}

/// The vanishing chain's value in the field:
/// `v * (1 - v) * ... * (k-1 - v)` reduced modulo `p`.
pub open spec fn vanish_val(p: int, k: nat, v: int) -> int
    decreases k,
{
    if k <= 1 {
        v % p
    } else {
        fmul(p, vanish_val(p, (k - 1) as nat, v), fsub(p, k - 1, v))
    }
}

/// Evaluating the vanishing chain gives the mathematical vanishing value of
/// the witnessed cell.
pub proof fn lemma_vanishing_eval(k: nat, value: AdviceColumn, row: RowAssignment, p: int)
    requires
        1 < p,
        1 <= k,
        k <= 0xffff_ffff_ffff_ffff,
    ensures
        eval(vanishing_expr(k, value), row, p) == vanish_val(
            p,
            k,
            eval(Expr::Advice(value), row, p),
        ),
    decreases k,
{
    let v = eval(Expr::Advice(value), row, p);
    lemma_eval_bounds(Expr::Advice(value), row, p);
    if k <= 1 {
        lemma_small_mod(v as nat, p as nat);
    } else {
        lemma_vanishing_eval((k - 1) as nat, value, row, p);
        let e_const = Expr::Constant((k - 1) as u64);
        let e_negv = Expr::Negated(Box::new(Expr::Advice(value)));
        let e_factor = Expr::Sum(Box::new(e_const), Box::new(e_negv));
        assert((k - 1) as u64 as int == k - 1);
        assert(eval(e_const, row, p) == (k - 1) % p);
        assert(eval(e_negv, row, p) == fneg(p, v));
        let e_chain = Expr::Product(
            Box::new(vanishing_expr((k - 1) as nat, value)),
            Box::new(e_factor),
        );
        assert(e_chain == vanishing_expr(k, value));
        lemma_add_mod_noop(k - 1, -v, p);
        assert(eval(e_factor, row, p) == fsub(p, k - 1, v));
        assert(eval(e_chain, row, p) == fmul(
            p,
            vanish_val(p, (k - 1) as nat, v),
            fsub(p, k - 1, v),
        ));
    }
}

/// RangeCheck membership: every integer in `[0, k)`, read as a field value,
/// satisfies the vanishing product — some factor has a root there.
pub proof fn lemma_range_membership(p: int, k: nat, v: int)
    requires
        1 < p,
        0 <= v < k,
        k <= p,
    ensures
        vanish_val(p, k, v) == 0,
    decreases k,
{
    lemma_small_mod(0nat, p as nat);
    if k <= 1 {
        // only v == 0 lies below k
    } else {
        if v == k - 1 {
            // the factor `(k-1) - v` vanishes
            lemma_mul_basics(vanish_val(p, (k - 1) as nat, v));
        } else {
            lemma_range_membership(p, (k - 1) as nat, v);
            lemma_mul_basics(fsub(p, k - 1, v));
        }
    }
}

/// RangeCheck boundary soundness: any field value at or above `k` (in
/// particular `k` itself, the value just outside the range) leaves the
/// vanishing product nonzero — every factor is nonzero and a field has no
/// zero divisors.
pub proof fn lemma_range_boundary(p: int, k: nat, v: int)
    requires
        is_field(p),
        1 <= k,
        k <= v < p,
    ensures
        vanish_val(p, k, v) != 0,
    decreases k,
{
    if k <= 1 {
        lemma_small_mod(v as nat, p as nat);
    } else {
        lemma_range_boundary(p, (k - 1) as nat, v);
        // the factor `(k-1) - v` is a nonzero residue: `0 < p + k - 1 - v < p`
        lemma_mod_add_multiples_vanish(k - 1 - v, p);
        lemma_small_mod((p + k - 1 - v) as nat, p as nat);
        assert(fsub(p, k - 1, v) == p + k - 1 - v);
        lemma_no_zero_divisors(p, vanish_val(p, (k - 1) as nat, v), fsub(p, k - 1, v));
    }
}

/// The RangeCheck law over the registered gate: with the selector active,
/// the constraint is satisfied exactly when the witnessed cell's field value lies
/// in `[0, k)`.
pub proof fn lemma_range_gate(k: nat, q: Selector, value: AdviceColumn, row: RowAssignment, p: int)
    requires
        is_field(p),
        1 <= k,
        k <= p,
        k <= 0xffff_ffff_ffff_ffff,
        row.selectors@[q.index as int],
    ensures
        eval(range_gate_spec(k, q, value), row, p) == 0 <==> eval(Expr::Advice(value), row, p) < k,
{
    let v = eval(Expr::Advice(value), row, p);
    lemma_eval_bounds(Expr::Advice(value), row, p);
    lemma_vanishing_eval(k, value, row, p);
    lemma_small_mod(1nat, p as nat);
    let e_sel = Expr::Selector(q);
    let e_gate = Expr::Product(Box::new(e_sel), Box::new(vanishing_expr(k, value)));
    assert(e_gate == range_gate_spec(k, q, value));
    let w = vanish_val(p, k, v);
    lemma_mul_basics(w);
    lemma_vanish_val_bounds(p, k, v);
    lemma_small_mod(w as nat, p as nat);
    assert(eval(e_sel, row, p) == 1);
    assert(eval(e_gate, row, p) == fmul(p, 1, w));
    assert(eval(e_gate, row, p) == w);
    if v < k {
        lemma_range_membership(p, k, v);
    } else {
        lemma_range_boundary(p, k, v);
    }
}

/// The vanishing value is a residue.
pub proof fn lemma_vanish_val_bounds(p: int, k: nat, v: int)
    requires
        0 < p,
    ensures
        0 <= vanish_val(p, k, v) < p,
{
}

/// Two configure calls on independent constraint systems with the same
/// selector count register structurally identical gates against the same
/// column: the constraint depends only on the bound, the column, and the prior
/// selector count.
pub proof fn lemma_range_configure_deterministic(
    k: nat,
    q1: Selector,
    q2: Selector,
    value1: AdviceColumn,
    value2: AdviceColumn,
)
    requires
        q1 == q2,
        value1 == value2,
    ensures
        range_gate_spec(k, q1, value1) == range_gate_spec(k, q2, value2),
{
}

/// The vanishing chain has degree `k`: the constraint degree grows linearly with
/// the bound.
pub proof fn lemma_vanishing_degree(k: nat, value: AdviceColumn)
    requires
        1 <= k,
    ensures
        crate::expr::degree(vanishing_expr(k, value)) == k,
    decreases k,
{
    if k > 1 {
        lemma_vanishing_degree((k - 1) as nat, value);
        reveal_with_fuel(crate::expr::degree, 4);
    }
}


/// The registered gate has degree `k + 1`: the selector contributes one and
/// the vanishing chain `k`, growing linearly with the bound.
pub proof fn lemma_range_gate_degree(k: nat, q: Selector, value: AdviceColumn)
    requires
        1 <= k,
    ensures
        crate::expr::degree(range_gate_spec(k, q, value)) == k + 1,
{
    lemma_vanishing_degree(k, value);
    let e_sel = Expr::Selector(q);
    let e_gate = Expr::Product(Box::new(e_sel), Box::new(vanishing_expr(k, value)));
    assert(e_gate == range_gate_spec(k, q, value));
    assert(crate::expr::degree(e_sel) == 1);
    assert(crate::expr::degree(e_gate) == k + 1);
}

} // verus!
