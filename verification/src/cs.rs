//! The constraint-system builder and the region model.
//!
//! A `ConstraintSystem` is the circuit-build-time record: how many advice
//! columns, fixed columns and selectors exist, which gates were registered,
//! and which columns opted in to equality-copying or constant anchoring. A
//! `Region` is the proving-time record of one gadget's cell writes: each
//! cell is assigned at most once, and a write outside the region's rows is
//! refused. `is_satisfied` decides, for one row, whether every registered
//! gate vanishes — the per-row check the proving system performs.

use vstd::prelude::*;
use crate::expr::{
    AdviceColumn, Expr, FixedColumn, RowAssignment, Selector, eval, eval_expr, expr_wf,
    lemma_expr_wf_monotone,
};

verus! {

/// The columns recorded in a capability list, as a set.
pub open spec fn column_set(cols: Seq<usize>) -> Set<usize> {
    Set::new(|c: usize| cols.contains(c))
}

/// A registered gate: a named polynomial, selector factor included, that
/// must evaluate to zero on every row.
#[derive(Debug, PartialEq, Eq)]
pub struct Gate {
    /// The name under which the constraint was registered.
    pub name: &'static str,
    /// The constraint polynomial.
    pub poly: Expr,
}

/// The circuit-build-time state: column and selector counts, registered
/// gates, and capability flags.
#[derive(Debug)]
pub struct ConstraintSystem {
    /// How many advice columns were allocated.
    pub num_advice: usize,
    /// How many fixed columns were allocated.
    pub num_fixed: usize,
    /// How many selectors were allocated.
    pub num_selectors: usize,
    /// The registered gates, in registration order.
    pub gates: Vec<Gate>,
    /// Advice columns opted in to equality-copying.
    pub equality_columns: Vec<usize>,
    /// Fixed columns opted in as constant anchors.
    pub constant_columns: Vec<usize>,
}

impl ConstraintSystem {
    /// Every registered gate queries only existing columns and selectors,
    /// and the capability flags name existing columns.
    pub open spec fn wf(self) -> bool {
        &&& forall|i: int|
            0 <= i < self.gates@.len() ==> expr_wf(
                #[trigger] self.gates@[i].poly,
                self.num_advice as nat,
                self.num_fixed as nat,
                self.num_selectors as nat,
            )
        &&& forall|i: int|
            0 <= i < self.equality_columns@.len() ==> #[trigger] self.equality_columns@[i]
                < self.num_advice
        &&& forall|i: int|
            0 <= i < self.constant_columns@.len() ==> #[trigger] self.constant_columns@[i]
                < self.num_fixed
    }

    /// The advice columns enabled for equality-copying, as a set: enabling
    /// is idempotent.
    pub open spec fn equality_set(self) -> Set<usize> {
        column_set(self.equality_columns@)
    }

    /// The fixed columns enabled as constant anchors, as a set.
    pub open spec fn constant_set(self) -> Set<usize> {
        column_set(self.constant_columns@)
    }

    /// A fresh, empty constraint system.
    pub fn new() -> (cs: Self)
        ensures
            cs.wf(),
            cs.num_advice == 0,
            cs.num_fixed == 0,
            cs.num_selectors == 0,
            cs.gates@.len() == 0,
            cs.equality_columns@.len() == 0,
            cs.constant_columns@.len() == 0,
    {
        ConstraintSystem {
            num_advice: 0,
            num_fixed: 0,
            num_selectors: 0,
            gates: Vec::new(),
            equality_columns: Vec::new(),
            constant_columns: Vec::new(),
        }
    }

    /// Allocate a fresh advice column.
    pub fn advice_column(&mut self) -> (c: AdviceColumn)
        requires
            old(self).wf(),
            old(self).num_advice < usize::MAX,
        ensures
            final(self).wf(),
            c.index == old(self).num_advice,
            final(self).num_advice == old(self).num_advice + 1,
            final(self).num_fixed == old(self).num_fixed,
            final(self).num_selectors == old(self).num_selectors,
            final(self).gates@ == old(self).gates@,
            final(self).equality_columns@ == old(self).equality_columns@,
            final(self).constant_columns@ == old(self).constant_columns@,
    {
        let index = self.num_advice;
        self.num_advice = self.num_advice + 1;
        proof {
            assert forall|i: int| 0 <= i < self.gates@.len() implies expr_wf(
                #[trigger] self.gates@[i].poly,
                self.num_advice as nat,
                self.num_fixed as nat,
                self.num_selectors as nat,
            ) by {
                lemma_expr_wf_monotone(
                    self.gates@[i].poly,
                    old(self).num_advice as nat,
                    old(self).num_fixed as nat,
                    old(self).num_selectors as nat,
                    self.num_advice as nat,
                    self.num_fixed as nat,
                    self.num_selectors as nat,
                );
            }
        }
        AdviceColumn { index }
    }

    /// Allocate a fresh fixed column.
    pub fn fixed_column(&mut self) -> (c: FixedColumn)
        requires
            old(self).wf(),
            old(self).num_fixed < usize::MAX,
        ensures
            final(self).wf(),
            c.index == old(self).num_fixed,
            final(self).num_fixed == old(self).num_fixed + 1,
            final(self).num_advice == old(self).num_advice,
            final(self).num_selectors == old(self).num_selectors,
            final(self).gates@ == old(self).gates@,
            final(self).equality_columns@ == old(self).equality_columns@,
            final(self).constant_columns@ == old(self).constant_columns@,
    {
        let index = self.num_fixed;
        self.num_fixed = self.num_fixed + 1;
        proof {
            assert forall|i: int| 0 <= i < self.gates@.len() implies expr_wf(
                #[trigger] self.gates@[i].poly,
                self.num_advice as nat,
                self.num_fixed as nat,
                self.num_selectors as nat,
            ) by {
                lemma_expr_wf_monotone(
                    self.gates@[i].poly,
                    old(self).num_advice as nat,
                    old(self).num_fixed as nat,
                    old(self).num_selectors as nat,
                    self.num_advice as nat,
                    self.num_fixed as nat,
                    self.num_selectors as nat,
                );
            }
        }
        FixedColumn { index }
    }

    /// Allocate a fresh selector.
    pub fn selector(&mut self) -> (s: Selector)
        requires
            old(self).wf(),
            old(self).num_selectors < usize::MAX,
        ensures
            final(self).wf(),
            s.index == old(self).num_selectors,
            final(self).num_selectors == old(self).num_selectors + 1,
            final(self).num_advice == old(self).num_advice,
            final(self).num_fixed == old(self).num_fixed,
            final(self).gates@ == old(self).gates@,
            final(self).equality_columns@ == old(self).equality_columns@,
            final(self).constant_columns@ == old(self).constant_columns@,
    {
        let index = self.num_selectors;
        self.num_selectors = self.num_selectors + 1;
        proof {
            assert forall|i: int| 0 <= i < self.gates@.len() implies expr_wf(
                #[trigger] self.gates@[i].poly,
                self.num_advice as nat,
                self.num_fixed as nat,
                self.num_selectors as nat,
            ) by {
                lemma_expr_wf_monotone(
                    self.gates@[i].poly,
                    old(self).num_advice as nat,
                    old(self).num_fixed as nat,
                    old(self).num_selectors as nat,
                    self.num_advice as nat,
                    self.num_fixed as nat,
                    self.num_selectors as nat,
                );
            }
        }
        Selector { index }
    }

    /// Allocate a fresh selector that may appear in arbitrary expressions.
    /// The model draws no distinction beyond allocation, so the contract is
    /// that of `selector`.
    pub fn complex_selector(&mut self) -> (s: Selector)
        requires
            old(self).wf(),
            old(self).num_selectors < usize::MAX,
        ensures
            final(self).wf(),
            s.index == old(self).num_selectors,
            final(self).num_selectors == old(self).num_selectors + 1,
            final(self).num_advice == old(self).num_advice,
            final(self).num_fixed == old(self).num_fixed,
            final(self).gates@ == old(self).gates@,
            final(self).equality_columns@ == old(self).equality_columns@,
            final(self).constant_columns@ == old(self).constant_columns@,
    {
        self.selector()
    }

    /// Register a gate. The polynomial must be well-formed for the current
    /// counts: an ill-formed gate fails the circuit build, so a gadget must
    /// never construct one, and the obligation sits in `requires`.
    pub fn create_gate(&mut self, name: &'static str, poly: Expr)
        requires
            old(self).wf(),
            expr_wf(
                poly,
                old(self).num_advice as nat,
                old(self).num_fixed as nat,
                old(self).num_selectors as nat,
            ),
        ensures
            final(self).wf(),
            final(self).gates@.len() == old(self).gates@.len() + 1,
            forall|i: int|
                0 <= i < old(self).gates@.len() ==> final(self).gates@[i] == old(self).gates@[i],
            final(self).gates@.last().poly == poly,
            final(self).gates@.last().name == name,
            final(self).num_advice == old(self).num_advice,
            final(self).num_fixed == old(self).num_fixed,
            final(self).num_selectors == old(self).num_selectors,
            final(self).equality_columns@ == old(self).equality_columns@,
            final(self).constant_columns@ == old(self).constant_columns@,
    {
        self.gates.push((Gate { name, poly }));
    }

    /// Opt an advice column in to equality-copying. Idempotent: enabling a
    /// column twice leaves one entry.
    pub fn enable_equality(&mut self, col: AdviceColumn)
        requires
            old(self).wf(),
            col.index < old(self).num_advice,
        ensures
            final(self).wf(),
            forall|c: usize|
                final(self).equality_set().contains(c) <==> (old(self).equality_set().contains(c)
                    || c == col.index),
            final(self).num_advice == old(self).num_advice,
            final(self).num_fixed == old(self).num_fixed,
            final(self).num_selectors == old(self).num_selectors,
            final(self).gates@ == old(self).gates@,
            final(self).constant_columns@ == old(self).constant_columns@,
    {
        let ghost pre = *self;
        let mut i: usize = 0;
        while i < self.equality_columns.len()
            invariant
                *self == pre,
                pre == *old(self),
                pre.wf(),
                col.index < pre.num_advice,
                0 <= i <= self.equality_columns@.len(),
                forall|j: int| 0 <= j < i ==> self.equality_columns@[j] != col.index,
            decreases self.equality_columns@.len() - i,
        {
            if self.equality_columns[i] == col.index {
                proof {
                    assert(pre.equality_columns@[i as int] == col.index);
                    assert(pre.equality_columns@.contains(col.index));
                }
                return ;
            }
            i = i + 1;
        }
        self.equality_columns.push(col.index);
        proof {
            assert(self.equality_columns@ == pre.equality_columns@.push(col.index));
            assert forall|c: usize|
                self.equality_set().contains(c) <==> (pre.equality_set().contains(c) || c
                    == col.index) by {
                if self.equality_columns@.contains(c) {
                    let k = choose|k: int|
                        0 <= k < self.equality_columns@.len() && self.equality_columns@[k] == c;
                    if k < pre.equality_columns@.len() {
                        assert(pre.equality_columns@[k] == c);
                    } else {
                        assert(c == col.index);
                    }
                }
                if pre.equality_columns@.contains(c) {
                    let k = choose|k: int|
                        0 <= k < pre.equality_columns@.len() && pre.equality_columns@[k] == c;
                    assert(self.equality_columns@[k] == c);
                }
                if c == col.index {
                    assert(self.equality_columns@.last() == col.index);
                    assert(self.equality_columns@.contains(col.index));
                }
            }
            assert forall|k: int|
                0 <= k < self.equality_columns@.len() implies #[trigger] self.equality_columns@[k]
                < self.num_advice by {
                if k < pre.equality_columns@.len() {
                    assert(pre.equality_columns@[k] < pre.num_advice);
                }
            }
        }
    }


    /// Opt a fixed column in as a constant anchor. Idempotent.
    pub fn enable_constant(&mut self, col: FixedColumn)
        requires
            old(self).wf(),
            col.index < old(self).num_fixed,
        ensures
            final(self).wf(),
            forall|c: usize|
                final(self).constant_set().contains(c) <==> (old(self).constant_set().contains(c)
                    || c == col.index),
            final(self).num_advice == old(self).num_advice,
            final(self).num_fixed == old(self).num_fixed,
            final(self).num_selectors == old(self).num_selectors,
            final(self).gates@ == old(self).gates@,
            final(self).equality_columns@ == old(self).equality_columns@,
    {
        let ghost pre = *self;
        let mut i: usize = 0;
        while i < self.constant_columns.len()
            invariant
                *self == pre,
                pre == *old(self),
                pre.wf(),
                col.index < pre.num_fixed,
                0 <= i <= self.constant_columns@.len(),
                forall|j: int| 0 <= j < i ==> self.constant_columns@[j] != col.index,
            decreases self.constant_columns@.len() - i,
        {
            if self.constant_columns[i] == col.index {
                proof {
                    assert(pre.constant_columns@[i as int] == col.index);
                    assert(pre.constant_columns@.contains(col.index));
                }
                return ;
            }
            i = i + 1;
        }
        self.constant_columns.push(col.index);
        proof {
            assert(self.constant_columns@ == pre.constant_columns@.push(col.index));
            assert forall|c: usize|
                self.constant_set().contains(c) <==> (pre.constant_set().contains(c) || c
                    == col.index) by {
                if self.constant_columns@.contains(c) {
                    let k = choose|k: int|
                        0 <= k < self.constant_columns@.len() && self.constant_columns@[k] == c;
                    if k < pre.constant_columns@.len() {
                        assert(pre.constant_columns@[k] == c);
                    } else {
                        assert(c == col.index);
                    }
                }
                if pre.constant_columns@.contains(c) {
                    let k = choose|k: int|
                        0 <= k < pre.constant_columns@.len() && pre.constant_columns@[k] == c;
                    assert(self.constant_columns@[k] == c);
                }
                if c == col.index {
                    assert(self.constant_columns@.last() == col.index);
                    assert(self.constant_columns@.contains(col.index));
                }
            }
            assert forall|k: int|
                0 <= k < self.constant_columns@.len() implies #[trigger] self.constant_columns@[k]
                < self.num_fixed by {
                if k < pre.constant_columns@.len() {
                    assert(pre.constant_columns@[k] < pre.num_fixed);
                }
            }
        }
    }


    /// Decide whether every registered gate vanishes on the given row: the
    /// per-row satisfaction check of the proving system.
    pub fn is_satisfied(&self, row: &RowAssignment, p: u64) -> (r: bool)
        requires
            self.wf(),
            1 < p,
            row.advice@.len() == self.num_advice,
            row.fixed@.len() == self.num_fixed,
            row.selectors@.len() == self.num_selectors,
        ensures
            r <==> forall|i: int|
                0 <= i < self.gates@.len() ==> eval(#[trigger] self.gates@[i].poly, *row, p as int)
                    == 0,
    {
        let mut i: usize = 0;
        while i < self.gates.len()
            invariant
                self.wf(),
                1 < p,
                row.advice@.len() == self.num_advice,
                row.fixed@.len() == self.num_fixed,
                row.selectors@.len() == self.num_selectors,
                0 <= i <= self.gates@.len(),
                forall|j: int|
                    0 <= j < i ==> eval(#[trigger] self.gates@[j].poly, *row, p as int) == 0,
            decreases self.gates@.len() - i,
        {
            if eval_expr(&self.gates[i].poly, row, p) != 0 {
                return false;
            }
            i = i + 1;
        }
        true
    }
}

/// Why a cell write was refused.
#[derive(Clone, Copy, Debug, PartialEq, Eq, Structural)]
pub enum AssignmentError {
    /// The row offset lies outside the region.
    OutOfBounds,
    /// The cell was already assigned.
    AlreadyAssigned,
}

/// A write of the cell `(col, offset)` is present among the records.
pub open spec fn has_write(writes: Seq<(usize, usize, u64)>, col: int, offset: int) -> bool {
    exists|i: int| 0 <= i < writes.len() && writes[i].0 == col && writes[i].1 == offset
}

/// The recorded value of the cell `(col, offset)`.
pub open spec fn write_value(writes: Seq<(usize, usize, u64)>, col: int, offset: int) -> u64 {
    let i = choose|i: int| 0 <= i < writes.len() && writes[i].0 == col && writes[i].1 == offset;
    writes[i].2
}

/// Appending a write leaves exactly one more cell present.
pub proof fn lemma_has_write_push(
    writes: Seq<(usize, usize, u64)>,
    t: (usize, usize, u64),
    col: int,
    offset: int,
)
    ensures
        has_write(writes.push(t), col, offset) <==> (has_write(writes, col, offset) || (t.0 == col
            && t.1 == offset)),
{
    if has_write(writes.push(t), col, offset) {
        let i = choose|i: int|
            0 <= i < writes.push(t).len() && writes.push(t)[i].0 == col && writes.push(t)[i].1
                == offset;
        if i < writes.len() {
            assert(writes[i].0 == col && writes[i].1 == offset);
        }
    }
    if has_write(writes, col, offset) {
        let i = choose|i: int|
            0 <= i < writes.len() && writes[i].0 == col && writes[i].1 == offset;
        assert(writes.push(t)[i].0 == col && writes.push(t)[i].1 == offset);
    }
    if t.0 == col && t.1 == offset {
        assert(writes.push(t)[writes.len() as int].0 == col);
        assert(writes.push(t)[writes.len() as int].1 == offset);
    }
}

/// The selector `sel` was enabled at `offset`.
pub open spec fn has_enabled(enabled: Seq<(usize, usize)>, sel: int, offset: int) -> bool {
    exists|i: int| 0 <= i < enabled.len() && enabled[i].0 == sel && enabled[i].1 == offset
}

/// A contiguous span of rows at which a gadget lays out its cells. Writes
/// are recorded cell by cell.
#[derive(Debug)]
pub struct Region {
    /// How many rows the region spans.
    pub num_rows: usize,
    /// Advice writes `(column, offset, value)`, in order.
    pub advice_writes: Vec<(usize, usize, u64)>,
    /// Fixed writes `(column, offset, value)`, in order.
    pub fixed_writes: Vec<(usize, usize, u64)>,
    /// Selector activations `(selector, offset)`.
    pub enabled_selectors: Vec<(usize, usize)>,
}

impl Region {
    /// Each advice and fixed cell is assigned at most once.
    pub open spec fn wf(self) -> bool {
        &&& forall|i: int, j: int|
            0 <= i < j < self.advice_writes@.len() ==> !(self.advice_writes@[i].0
                == self.advice_writes@[j].0 && self.advice_writes@[i].1
                == self.advice_writes@[j].1)
        &&& forall|i: int, j: int|
            0 <= i < j < self.fixed_writes@.len() ==> !(self.fixed_writes@[i].0
                == self.fixed_writes@[j].0 && self.fixed_writes@[i].1 == self.fixed_writes@[j].1)
    }

    /// A fresh region spanning the given rows, with no writes yet.
    pub fn new(num_rows: usize) -> (r: Region)
        ensures
            r.wf(),
            r.num_rows == num_rows,
            r.advice_writes@.len() == 0,
            r.fixed_writes@.len() == 0,
            r.enabled_selectors@.len() == 0,
    {
        Region {
            num_rows,
            advice_writes: Vec::new(),
            fixed_writes: Vec::new(),
            enabled_selectors: Vec::new(),
        }
    }

    /// Write a witness value to an advice cell. Exactly one cell write: it
    /// fails if the offset is outside the region or the cell was already
    /// assigned, and the region is then unchanged.
    pub fn assign_advice(&mut self, col: AdviceColumn, offset: usize, value: u64) -> (r: Result<
        (),
        AssignmentError,
    >)
        requires
            old(self).wf(),
        ensures
            final(self).wf(),
            final(self).num_rows == old(self).num_rows,
            final(self).fixed_writes@ == old(self).fixed_writes@,
            final(self).enabled_selectors@ == old(self).enabled_selectors@,
            match r {
                Ok(_) => offset < old(self).num_rows && !has_write(
                    old(self).advice_writes@,
                    col.index as int,
                    offset as int,
                ) && final(self).advice_writes@ == old(self).advice_writes@.push(
                    (col.index, offset, value),
                ),
                Err(e) => final(self).advice_writes@ == old(self).advice_writes@ && (if e
                    === AssignmentError::OutOfBounds {
                    offset >= old(self).num_rows
                } else {
                    offset < old(self).num_rows && has_write(
                        old(self).advice_writes@,
                        col.index as int,
                        offset as int,
                    )
                }),
            },
    {
        if offset >= self.num_rows {
            return Err(AssignmentError::OutOfBounds);
        }
        if lookup_write(&self.advice_writes, col.index, offset).is_some() {
            return Err(AssignmentError::AlreadyAssigned);
        }
        proof {
            assert forall|i: int, j: int|
                0 <= i < j < self.advice_writes@.len() + 1 implies !(self.advice_writes@.push(
                (col.index, offset, value),
            )[i].0 == self.advice_writes@.push((col.index, offset, value))[j].0
                && self.advice_writes@.push((col.index, offset, value))[i].1
                == self.advice_writes@.push((col.index, offset, value))[j].1) by {
                if j == self.advice_writes@.len() {
                    if self.advice_writes@[i].0 == col.index && self.advice_writes@[i].1
                        == offset {
                        assert(has_write(self.advice_writes@, col.index as int, offset as int));
                    }
                }
            }
        }
        self.advice_writes.push((col.index, offset, value));
        Ok(())
    }

    /// Write a constant to a fixed cell, under the same rules as an advice
    /// write.
    pub fn assign_fixed(&mut self, col: FixedColumn, offset: usize, value: u64) -> (r: Result<
        (),
        AssignmentError,
    >)
        requires
            old(self).wf(),
        ensures
            final(self).wf(),
            final(self).num_rows == old(self).num_rows,
            final(self).advice_writes@ == old(self).advice_writes@,
            final(self).enabled_selectors@ == old(self).enabled_selectors@,
            match r {
                Ok(_) => offset < old(self).num_rows && !has_write(
                    old(self).fixed_writes@,
                    col.index as int,
                    offset as int,
                ) && final(self).fixed_writes@ == old(self).fixed_writes@.push(
                    (col.index, offset, value),
                ),
                Err(e) => final(self).fixed_writes@ == old(self).fixed_writes@ && (if e
                    === AssignmentError::OutOfBounds {
                    offset >= old(self).num_rows
                } else {
                    offset < old(self).num_rows && has_write(
                        old(self).fixed_writes@,
                        col.index as int,
                        offset as int,
                    )
                }),
            },
    {
        if offset >= self.num_rows {
            return Err(AssignmentError::OutOfBounds);
        }
        if lookup_write(&self.fixed_writes, col.index, offset).is_some() {
            return Err(AssignmentError::AlreadyAssigned);
        }
        proof {
            assert forall|i: int, j: int|
                0 <= i < j < self.fixed_writes@.len() + 1 implies !(self.fixed_writes@.push(
                (col.index, offset, value),
            )[i].0 == self.fixed_writes@.push((col.index, offset, value))[j].0
                && self.fixed_writes@.push((col.index, offset, value))[i].1
                == self.fixed_writes@.push((col.index, offset, value))[j].1) by {
                if j == self.fixed_writes@.len() {
                    if self.fixed_writes@[i].0 == col.index && self.fixed_writes@[i].1 == offset {
                        assert(has_write(self.fixed_writes@, col.index as int, offset as int));
                    }
                }
            }
        }
        self.fixed_writes.push((col.index, offset, value));
        Ok(())
    }

    /// Turn a selector on at a row. Idempotent; fails only outside the
    /// region.
    pub fn enable_selector(&mut self, s: Selector, offset: usize) -> (r: Result<
        (),
        AssignmentError,
    >)
        requires
            old(self).wf(),
        ensures
            final(self).wf(),
            final(self).num_rows == old(self).num_rows,
            final(self).advice_writes@ == old(self).advice_writes@,
            final(self).fixed_writes@ == old(self).fixed_writes@,
            match r {
                Ok(_) => offset < old(self).num_rows && forall|x: int, y: int|
                    has_enabled(final(self).enabled_selectors@, x, y) <==> (has_enabled(
                        old(self).enabled_selectors@,
                        x,
                        y,
                    ) || (x == s.index && y == offset)),
                Err(e) => e === AssignmentError::OutOfBounds && offset >= old(self).num_rows
                    && final(self).enabled_selectors@ == old(self).enabled_selectors@,
            },
    {
        if offset >= self.num_rows {
            return Err(AssignmentError::OutOfBounds);
        }
        let ghost pre = *self;
        let mut i: usize = 0;
        while i < self.enabled_selectors.len()
            invariant
                *self == pre,
                pre == *old(self),
                pre.wf(),
                offset < pre.num_rows,
                0 <= i <= self.enabled_selectors@.len(),
                forall|j: int|
                    0 <= j < i ==> !(self.enabled_selectors@[j].0 == s.index
                        && self.enabled_selectors@[j].1 == offset),
            decreases self.enabled_selectors@.len() - i,
        {
            let e = self.enabled_selectors[i];
            if e.0 == s.index && e.1 == offset {
                proof {
                    assert(pre.enabled_selectors@[i as int].0 == s.index
                        && pre.enabled_selectors@[i as int].1 == offset);
                    assert(has_enabled(pre.enabled_selectors@, s.index as int, offset as int));
                }
                return Ok(());
            }
            i = i + 1;
        }
        self.enabled_selectors.push((s.index, offset));
        proof {
            assert(self.enabled_selectors@ == pre.enabled_selectors@.push((s.index, offset)));
            assert forall|x: int, y: int|
                has_enabled(self.enabled_selectors@, x, y) <==> (has_enabled(
                    pre.enabled_selectors@,
                    x,
                    y,
                ) || (x == s.index && y == offset)) by {
                if has_enabled(self.enabled_selectors@, x, y) {
                    let k = choose|k: int|
                        0 <= k < self.enabled_selectors@.len() && self.enabled_selectors@[k].0 == x
                            && self.enabled_selectors@[k].1 == y;
                    if k < pre.enabled_selectors@.len() {
                        assert(has_enabled(pre.enabled_selectors@, x, y));
                    }
                }
                if has_enabled(pre.enabled_selectors@, x, y) {
                    let k = choose|k: int|
                        0 <= k < pre.enabled_selectors@.len() && pre.enabled_selectors@[k].0 == x
                            && pre.enabled_selectors@[k].1 == y;
                    assert(self.enabled_selectors@[k].0 == x && self.enabled_selectors@[k].1 == y);
                }
                if x == s.index && y == offset {
                    assert(self.enabled_selectors@.last() == (s.index, offset));
                }
            }
        }
        Ok(())
    }

    /// The value written to an advice cell, if any.
    pub fn advice_value(&self, col: AdviceColumn, offset: usize) -> (r: Option<u64>)
        requires
            self.wf(),
        ensures
            r.is_some() <==> has_write(self.advice_writes@, col.index as int, offset as int),
            r.is_some() ==> r->Some_0 == write_value(
                self.advice_writes@,
                col.index as int,
                offset as int,
            ),
    {
        lookup_write(&self.advice_writes, col.index, offset)
    }

    /// The value written to a fixed cell, if any.
    pub fn fixed_value(&self, col: FixedColumn, offset: usize) -> (r: Option<u64>)
        requires
            self.wf(),
        ensures
            r.is_some() <==> has_write(self.fixed_writes@, col.index as int, offset as int),
            r.is_some() ==> r->Some_0 == write_value(
                self.fixed_writes@,
                col.index as int,
                offset as int,
            ),
    {
        lookup_write(&self.fixed_writes, col.index, offset)
    }

    /// Whether a selector is on at a row.
    pub fn selector_on(&self, s: Selector, offset: usize) -> (r: bool)
        ensures
            r == has_enabled(self.enabled_selectors@, s.index as int, offset as int),
    {
        let mut i: usize = 0;
        while i < self.enabled_selectors.len()
            invariant
                0 <= i <= self.enabled_selectors@.len(),
                forall|j: int|
                    0 <= j < i ==> !(self.enabled_selectors@[j].0 == s.index
                        && self.enabled_selectors@[j].1 == offset),
            decreases self.enabled_selectors@.len() - i,
        {
            let e = self.enabled_selectors[i];
            if e.0 == s.index && e.1 == offset {
                proof {
                    assert(has_enabled(self.enabled_selectors@, s.index as int, offset as int));
                }
                return true;
            }
            i = i + 1;
        }
        false
    }

    /// Collapse the region into the values of one row, reduced into the
    /// field: unwritten cells read as zero.
    pub fn to_row(
        &self,
        num_advice: usize,
        num_fixed: usize,
        num_selectors: usize,
        offset: usize,
        p: u64,
    ) -> (row: RowAssignment)
        requires
            self.wf(),
            1 < p,
        ensures
            row.advice@.len() == num_advice,
            row.fixed@.len() == num_fixed,
            row.selectors@.len() == num_selectors,
            forall|c: int|
                0 <= c < num_advice ==> #[trigger] row.advice@[c] as int == (if has_write(
                    self.advice_writes@,
                    c,
                    offset as int,
                ) {
                    (write_value(self.advice_writes@, c, offset as int) as int) % (p as int)
                } else {
                    0
                }),
            forall|c: int|
                0 <= c < num_fixed ==> #[trigger] row.fixed@[c] as int == (if has_write(
                    self.fixed_writes@,
                    c,
                    offset as int,
                ) {
                    (write_value(self.fixed_writes@, c, offset as int) as int) % (p as int)
                } else {
                    0
                }),
            forall|c: int|
                0 <= c < num_selectors ==> #[trigger] row.selectors@[c] == has_enabled(
                    self.enabled_selectors@,
                    c,
                    offset as int,
                ),
    {
        let mut advice: Vec<u64> = Vec::new();
        let mut c: usize = 0;
        while c < num_advice
            invariant
                self.wf(),
                1 < p,
                advice@.len() == c,
                0 <= c <= num_advice,
                forall|k: int|
                    0 <= k < c ==> #[trigger] advice@[k] as int == (if has_write(
                        self.advice_writes@,
                        k,
                        offset as int,
                    ) {
                        (write_value(self.advice_writes@, k, offset as int) as int) % (p as int)
                    } else {
                        0
                    }),
            decreases num_advice - c,
        {
            let v = match lookup_write(&self.advice_writes, c, offset) {
                Some(v) => v % p,
                None => 0,
            };
            advice.push(v);
            c = c + 1;
        }
        let mut fixed: Vec<u64> = Vec::new();
        let mut c: usize = 0;
        while c < num_fixed
            invariant
                self.wf(),
                1 < p,
                fixed@.len() == c,
                0 <= c <= num_fixed,
                forall|k: int|
                    0 <= k < c ==> #[trigger] fixed@[k] as int == (if has_write(
                        self.fixed_writes@,
                        k,
                        offset as int,
                    ) {
                        (write_value(self.fixed_writes@, k, offset as int) as int) % (p as int)
                    } else {
                        0
                    }),
            decreases num_fixed - c,
        {
            let v = match lookup_write(&self.fixed_writes, c, offset) {
                Some(v) => v % p,
                None => 0,
            };
            fixed.push(v);
            c = c + 1;
        }
        let mut selectors: Vec<bool> = Vec::new();
        let mut c: usize = 0;
        while c < num_selectors
            invariant
                self.wf(),
                selectors@.len() == c,
                0 <= c <= num_selectors,
                forall|k: int|
                    0 <= k < c ==> #[trigger] selectors@[k] == has_enabled(
                        self.enabled_selectors@,
                        k,
                        offset as int,
                    ),
            decreases num_selectors - c,
        {
            let on = self.selector_on(Selector { index: c }, offset);
            selectors.push(on);
            c = c + 1;
        }
        RowAssignment { advice, fixed, selectors }
    }
}

/// Scan the records for the first write of the cell `(col, offset)`.
fn lookup_write(writes: &Vec<(usize, usize, u64)>, col: usize, offset: usize) -> (r: Option<u64>)
    requires
        forall|i: int, j: int|
            0 <= i < j < writes@.len() ==> !(writes@[i].0 == writes@[j].0 && writes@[i].1
                == writes@[j].1),
    ensures
        r.is_some() <==> has_write(writes@, col as int, offset as int),
        r.is_some() ==> r->Some_0 == write_value(writes@, col as int, offset as int),
{
    let mut i: usize = 0;
    while i < writes.len()
        invariant
            forall|a: int, b: int|
                0 <= a < b < writes@.len() ==> !(writes@[a].0 == writes@[b].0 && writes@[a].1
                    == writes@[b].1),
            0 <= i <= writes@.len(),
            forall|j: int| 0 <= j < i ==> !(writes@[j].0 == col && writes@[j].1 == offset),
        decreases writes@.len() - i,
    {
        let w = writes[i];
        if w.0 == col && w.1 == offset {
            proof {
                assert(has_write(writes@, col as int, offset as int));
                let k = choose|k: int|
                    0 <= k < writes@.len() && writes@[k].0 == col && writes@[k].1 == offset;
                if k != i {
                    assert(false);
                }
            }
            return Some(w.2);
        }
        i = i + 1;
    }
    None
}

} // verus!
