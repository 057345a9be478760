//! The IsEqual gadget.
//!
//! Two advice cells `a` and `b` on the same row are constrained to be equal
//! whenever the selector is active, anchored through a fixed-zero column
//! rather than a bare subtraction: the constraint is
//! `selector * (a - b - zero) == 0`, with the fixed cell always assigned the
//! additive identity. Routing the comparison through the explicit zero cell
//! keeps the constraint linear and lets the zero constant participate in
//! cross-region equality constraints. The law at the end proves the constraint is
//! satisfied exactly when the two values agree.

use vstd::prelude::*;
use vstd::arithmetic::div_mod::{
    lemma_add_mod_noop_right, lemma_mod_add_multiples_vanish, lemma_small_mod,
};
use vstd::arithmetic::mul::lemma_mul_basics;
use crate::cs::{
    AssignmentError, ConstraintSystem, Region, has_enabled, has_write, lemma_has_write_push,
};
use crate::expr::{
    AdviceColumn, Expr, FixedColumn, RowAssignment, Selector, degree, eval, expr_wf,
    lemma_eval_bounds,
};
use crate::field::{fadd, fneg, fsub};

verus! {

/// The IsEqual configuration: two advice columns compared through a fixed
/// zero anchor, gated by a selector.
#[derive(Clone, Copy, Debug, PartialEq, Eq, Structural)]
pub struct IsEqualConfig {
    /// The first compared advice column.
    pub a: AdviceColumn,
    /// The second compared advice column.
    pub b: AdviceColumn,
    /// The fixed column holding the zero anchor.
    pub zero: FixedColumn,
    /// The constraint-enable selector.
    pub q_enable: Selector,
}

/// The columns `configure` allocates on a system with the given prior
/// counts: the constraint set depends on nothing else of the system's state.
pub open spec fn is_equal_config_of(
    num_advice: usize,
    num_fixed: usize,
    num_selectors: usize,
) -> IsEqualConfig {
    IsEqualConfig {
        a: AdviceColumn { index: num_advice },
        b: AdviceColumn { index: (num_advice + 1) as usize },
        zero: FixedColumn { index: num_fixed },
        q_enable: Selector { index: num_selectors },
    }
}

/// The registered gate polynomial `selector * (a - b - zero)`.
pub open spec fn is_equal_gate_spec(cfg: IsEqualConfig) -> Expr {
    Expr::Product(
        Box::new(Expr::Selector(cfg.q_enable)),
        Box::new(
            Expr::Sum(
                Box::new(
                    Expr::Sum(
                        Box::new(Expr::Advice(cfg.a)),
                        Box::new(Expr::Negated(Box::new(Expr::Advice(cfg.b)))),
                    ),
                ),
                Box::new(Expr::Negated(Box::new(Expr::Fixed(cfg.zero)))),
            ),
        ),
    )
}

/// The IsEqual gadget: a thin wrapper bound to one config, exposing the
/// witness assignment.
#[derive(Debug)]
pub struct IsEqualChip {
    config: IsEqualConfig,
}

impl IsEqualChip {
    /// The config the chip is bound to.
    pub closed spec fn spec_config(&self) -> IsEqualConfig {
        self.config
    }

    /// Allocate the two advice columns, the fixed zero anchor and the
    /// selector, opt the advice columns in to equality-copying and the fixed
    /// column in as a constant anchor, and register the constraint
    /// `selector * (a - b - zero)`.
    pub fn configure(cs: &mut ConstraintSystem) -> (cfg: IsEqualConfig)
        requires
            old(cs).wf(),
            old(cs).num_advice + 2 <= usize::MAX,
            old(cs).num_fixed < usize::MAX,
            old(cs).num_selectors < usize::MAX,
        ensures
            final(cs).wf(),
            cfg == is_equal_config_of(
                old(cs).num_advice,
                old(cs).num_fixed,
                old(cs).num_selectors,
            ),
            final(cs).gates@.len() == old(cs).gates@.len() + 1,
            forall|i: int| 0 <= i < old(cs).gates@.len() ==> final(cs).gates@[i] == old(cs).gates@[i],
            final(cs).gates@.last().poly == is_equal_gate_spec(cfg),
            final(cs).num_advice == old(cs).num_advice + 2,
            final(cs).num_fixed == old(cs).num_fixed + 1,
            final(cs).num_selectors == old(cs).num_selectors + 1,
            forall|c: usize|
                final(cs).equality_set().contains(c) <==> (old(cs).equality_set().contains(c) || c
                    == cfg.a.index || c == cfg.b.index),
            forall|c: usize|
                final(cs).constant_set().contains(c) <==> (old(cs).constant_set().contains(c) || c
                    == cfg.zero.index),
    {
        let selector = cs.selector();
        let a = cs.advice_column();
        let b = cs.advice_column();
        let zero = cs.fixed_column();
        let ghost s0 = *cs;
        cs.enable_equality(a);
        let ghost s1 = *cs;
        cs.enable_equality(b);
        let ghost s2 = *cs;
        cs.enable_constant(zero);
        let ghost s3 = *cs;
        let poly = Expr::Product(
            Box::new(Expr::Selector(selector)),
            Box::new(
                Expr::Sum(
                    Box::new(
                        Expr::Sum(
                            Box::new(Expr::Advice(a)),
                            Box::new(Expr::Negated(Box::new(Expr::Advice(b)))),
                        ),
                    ),
                    Box::new(Expr::Negated(Box::new(Expr::Fixed(zero)))),
                ),
            ),
        );
        proof {
            reveal_with_fuel(expr_wf, 8);
            assert(expr_wf(
                poly,
                cs.num_advice as nat,
                cs.num_fixed as nat,
                cs.num_selectors as nat,
            ));
        }
        cs.create_gate("is_equal gate", poly);
        proof {
            assert forall|c: usize|
                cs.equality_set().contains(c) <==> (old(cs).equality_set().contains(c) || c
                    == a.index || c == b.index) by {
                assert(cs.equality_columns@ == s2.equality_columns@);
                assert(cs.equality_set() == s2.equality_set());
                assert(s2.equality_set().contains(c) <==> (s1.equality_set().contains(c) || c
                    == b.index));
                assert(s1.equality_set().contains(c) <==> (s0.equality_set().contains(c) || c
                    == a.index));
                assert(s0.equality_columns@ == old(cs).equality_columns@);
                assert(s0.equality_set() == old(cs).equality_set());
            }
            assert forall|c: usize|
                cs.constant_set().contains(c) <==> (old(cs).constant_set().contains(c) || c
                    == zero.index) by {
                assert(cs.constant_columns@ == s3.constant_columns@);
                assert(cs.constant_set() == s3.constant_set());
                assert(s3.constant_set().contains(c) <==> (s2.constant_set().contains(c) || c
                    == zero.index));
                assert(s2.constant_columns@ == old(cs).constant_columns@);
                assert(s2.constant_set() == old(cs).constant_set());
            }
        }
        IsEqualConfig { a, b, zero, q_enable: selector }
    }

    /// Construct the chip from a config.
    pub fn construct(config: IsEqualConfig) -> (chip: Self)
        ensures
            chip.spec_config() == config,
    {
        IsEqualChip { config }
    }

    /// The config the chip was built from.
    pub fn config(&self) -> (c: &IsEqualConfig)
        ensures
            *c == self.spec_config(),
    {
        &self.config
    }

    /// Write the two compared values, anchor the fixed cell at zero, and
    /// enable the selector at the row. A structural failure of any write is
    /// propagated unchanged; writes made before the failing one remain.
    pub fn assign(&self, region: &mut Region, offset: usize, a_value: u64, b_value: u64) -> (r:
        Result<(), AssignmentError>)
        requires
            old(region).wf(),
            self.spec_config().a.index != self.spec_config().b.index,
        ensures
            final(region).wf(),
            final(region).num_rows == old(region).num_rows,
            r is Ok <==> (offset < old(region).num_rows && !has_write(
                old(region).advice_writes@,
                self.spec_config().a.index as int,
                offset as int,
            ) && !has_write(
                old(region).advice_writes@,
                self.spec_config().b.index as int,
                offset as int,
            ) && !has_write(
                old(region).fixed_writes@,
                self.spec_config().zero.index as int,
                offset as int,
            )),
            r is Ok ==> final(region).advice_writes@ == old(region).advice_writes@.push(
                (self.spec_config().a.index, offset, a_value),
            ).push((self.spec_config().b.index, offset, b_value)),
            r is Ok ==> final(region).fixed_writes@ == old(region).fixed_writes@.push(
                (self.spec_config().zero.index, offset, 0u64),
            ),
            r is Ok ==> forall|x: int, y: int|
                has_enabled(final(region).enabled_selectors@, x, y) <==> (has_enabled(
                    old(region).enabled_selectors@,
                    x,
                    y,
                ) || (x == self.spec_config().q_enable.index && y == offset)),
    {
        let cfg = self.config;
        match region.assign_advice(cfg.a, offset, a_value) {
            Ok(_) => {},
            Err(e) => {
                return Err(e);
            },
        }
        proof {
            lemma_has_write_push(
                old(region).advice_writes@,
                (cfg.a.index, offset, a_value),
                cfg.b.index as int,
                offset as int,
            );
        }
        match region.assign_advice(cfg.b, offset, b_value) {
            Ok(_) => {},
            Err(e) => {
                return Err(e);
            },
        }
        match region.assign_fixed(cfg.zero, offset, 0) {
            Ok(_) => {},
            Err(e) => {
                return Err(e);
            },
        }
        match region.enable_selector(cfg.q_enable, offset) {
            Ok(_) => {},
            Err(e) => {
                return Err(e);
            },
        }
        Ok(())
    }
}

/// Two configure calls on independent constraint systems in the same state
/// allocate the same columns and register structurally identical gates: the
/// registered gate set depends only on the prior column and selector counts.
pub proof fn lemma_is_equal_configure_deterministic(
    cs1: ConstraintSystem,
    cs2: ConstraintSystem,
    cfg1: IsEqualConfig,
    cfg2: IsEqualConfig,
)
    requires
        cfg1 == is_equal_config_of(cs1.num_advice, cs1.num_fixed, cs1.num_selectors),
        cfg2 == is_equal_config_of(cs2.num_advice, cs2.num_fixed, cs2.num_selectors),
        cs1.num_advice == cs2.num_advice,
        cs1.num_fixed == cs2.num_fixed,
        cs1.num_selectors == cs2.num_selectors,
    ensures
        cfg1 == cfg2,
        is_equal_gate_spec(cfg1) == is_equal_gate_spec(cfg2),
{
}

/// The IsEqual law: with the fixed anchor holding zero, the constraint is
/// satisfied exactly when the selector is off or the two advice values
/// agree. In particular, with the selector active, equal values satisfy the
/// gate and distinct values violate it.
pub proof fn lemma_is_equal_gate(cfg: IsEqualConfig, row: RowAssignment, p: int)
    requires
        1 < p,
        eval(Expr::Fixed(cfg.zero), row, p) == 0,
    ensures
        eval(is_equal_gate_spec(cfg), row, p) == 0 <==> (!row.selectors@[cfg.q_enable.index as int]
            || eval(Expr::Advice(cfg.a), row, p) == eval(Expr::Advice(cfg.b), row, p)),
{
    let a = eval(Expr::Advice(cfg.a), row, p);
    let b = eval(Expr::Advice(cfg.b), row, p);
    lemma_eval_bounds(Expr::Advice(cfg.a), row, p);
    lemma_eval_bounds(Expr::Advice(cfg.b), row, p);
    lemma_small_mod(0nat, p as nat);
    lemma_small_mod(1nat, p as nat);
    let e_negb = Expr::Negated(Box::new(Expr::Advice(cfg.b)));
    let e_ab = Expr::Sum(Box::new(Expr::Advice(cfg.a)), Box::new(e_negb));
    let e_negz = Expr::Negated(Box::new(Expr::Fixed(cfg.zero)));
    let e_inner = Expr::Sum(Box::new(e_ab), Box::new(e_negz));
    let e_gate = Expr::Product(Box::new(Expr::Selector(cfg.q_enable)), Box::new(e_inner));
    assert(e_gate == is_equal_gate_spec(cfg));
    assert(eval(e_negb, row, p) == fneg(p, b));
    lemma_add_mod_noop_right(a, -b, p);
    assert(eval(e_ab, row, p) == fsub(p, a, b));
    assert(eval(e_negz, row, p) == 0);
    let d = fsub(p, a, b);
    lemma_small_mod(d as nat, p as nat);
    assert(eval(e_inner, row, p) == fadd(p, d, 0));
    assert(fadd(p, d, 0) == d);
    // `(a - b) % p` vanishes exactly when the residues agree
    if a != b {
        if a > b {
            lemma_small_mod((a - b) as nat, p as nat);
        } else {
            lemma_mod_add_multiples_vanish(a - b, p);
            lemma_small_mod((p + a - b) as nat, p as nat);
        }
        assert(d != 0);
    }
    if row.selectors@[cfg.q_enable.index as int] {
        assert(eval(Expr::Selector(cfg.q_enable), row, p) == 1);
        lemma_mul_basics(d);
        assert(eval(e_gate, row, p) == d);
    } else {
        assert(eval(Expr::Selector(cfg.q_enable), row, p) == 0);
        lemma_mul_basics(eval(e_inner, row, p));
        assert(eval(e_gate, row, p) == 0);
    }
}


/// The registered gate is linear beside the selector: the whole polynomial
/// has degree two, one from the selector and one from the anchored
/// difference.
pub proof fn lemma_is_equal_gate_degree(cfg: IsEqualConfig)
    ensures
        degree(is_equal_gate_spec(cfg)) == 2,
{
    let e_negb = Expr::Negated(Box::new(Expr::Advice(cfg.b)));
    let e_ab = Expr::Sum(Box::new(Expr::Advice(cfg.a)), Box::new(e_negb));
    let e_negz = Expr::Negated(Box::new(Expr::Fixed(cfg.zero)));
    let e_inner = Expr::Sum(Box::new(e_ab), Box::new(e_negz));
    let e_gate = Expr::Product(Box::new(Expr::Selector(cfg.q_enable)), Box::new(e_inner));
    assert(e_gate == is_equal_gate_spec(cfg));
    assert(degree(Expr::Advice(cfg.a)) == 1);
    assert(degree(Expr::Advice(cfg.b)) == 1);
    assert(degree(Expr::Fixed(cfg.zero)) == 1);
    assert(degree(e_negb) == 1);
    assert(degree(e_ab) == 1);
    assert(degree(e_negz) == 1);
    assert(degree(e_inner) == 1);
    assert(degree(Expr::Selector(cfg.q_enable)) == 1);
    assert(degree(e_gate) == 2);
}

} // verus!
