//! Arithmetic gadgets for zero-knowledge circuits: an IsZero indicator, an
//! IsEqual comparator, and a RangeCheck membership constraint.
//!
//! Each gadget follows the same two-phase lifecycle: `configure` registers a
//! polynomial gate on a constraint system at circuit-build time, and `assign`
//! writes concrete field-element witnesses into a region at proving time.
//! The constraint system, the constraint expressions, the region, and the prime
//! field are modeled as plain values so that both the gadget code and the
//! soundness and completeness of the registered gates are verified.

use vstd::prelude::*;

pub mod cs;
pub mod is_equal;
pub mod is_zero;
pub mod range_check;
pub mod expr;
pub mod field;

verus! {

} // verus!
