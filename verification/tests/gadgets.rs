use zk_gadgets::cs::{AssignmentError, ConstraintSystem, Region};
use zk_gadgets::expr::{AdviceColumn, Expr, check_expr_wf, eval_expr};
use zk_gadgets::field::{fp_add, fp_from, fp_inv0, fp_is_field, fp_mul, fp_neg, fp_sub};
use zk_gadgets::is_equal::IsEqualChip;
use zk_gadgets::is_zero::{IsZeroChip, IsZeroInstruction};
use zk_gadgets::range_check::RangeCheckConfig;

// A prime field large enough to hold the small integers of these tests
// exactly.
const P: u64 = 17;

fn is_zero_prover(value: u64) -> (bool, u64, u64) {
    let mut cs = ConstraintSystem::new();
    let q_enable = cs.complex_selector();
    let value_col = cs.advice_column();
    let value_inv = cs.advice_column();
    let config = IsZeroChip::configure(
        &mut cs,
        Expr::Selector(q_enable),
        Expr::Advice(value_col),
        value_inv,
    );
    let chip = IsZeroChip::construct(config);
    let mut region = Region::new(2);
    region.enable_selector(q_enable, 0).unwrap();
    region.assign_advice(value_col, 0, value).unwrap();
    chip.assign(&mut region, 0, P, value).unwrap();
    let row = region.to_row(cs.num_advice, cs.num_fixed, cs.num_selectors, 0, P);
    let witnessed = region.advice_value(value_inv, 0).unwrap();
    let indicator = eval_expr(&chip.config().is_zero_expression, &row, P);
    (cs.is_satisfied(&row, P), witnessed, indicator)
}

#[test]
fn row_diff_is_zero() {
    let (ok, witnessed_inv, indicator) = is_zero_prover(0);
    assert!(ok);
    assert_eq!(witnessed_inv, 0);
    assert_eq!(indicator, 1);
}

#[test]
fn is_zero_nonzero_value() {
    let (ok, witnessed_inv, indicator) = is_zero_prover(5);
    assert!(ok);
    assert_eq!(witnessed_inv, 7); // the inverse of 5 modulo 17
    assert_eq!(fp_mul(P, 5, witnessed_inv), 1);
    assert_eq!(indicator, 0);
}

#[test]
fn is_zero_rejects_wrong_witness() {
    // assign the auxiliary witness by hand instead of through the chip
    let mut cs = ConstraintSystem::new();
    let q_enable = cs.complex_selector();
    let value_col = cs.advice_column();
    let value_inv = cs.advice_column();
    let _config = IsZeroChip::configure(
        &mut cs,
        Expr::Selector(q_enable),
        Expr::Advice(value_col),
        value_inv,
    );
    for wrong in [0u64, 3, 8] {
        let mut region = Region::new(1);
        region.enable_selector(q_enable, 0).unwrap();
        region.assign_advice(value_col, 0, 5).unwrap();
        region.assign_advice(value_inv, 0, wrong).unwrap();
        let row = region.to_row(cs.num_advice, cs.num_fixed, cs.num_selectors, 0, P);
        assert!(!cs.is_satisfied(&row, P));
    }
}

fn is_equal_prover(a: u64, b: u64) -> bool {
    let mut cs = ConstraintSystem::new();
    let config = IsEqualChip::configure(&mut cs);
    let chip = IsEqualChip::construct(config);
    let mut region = Region::new(1);
    chip.assign(&mut region, 0, a, b).unwrap();
    let row = region.to_row(cs.num_advice, cs.num_fixed, cs.num_selectors, 0, P);
    cs.is_satisfied(&row, P)
}

#[test]
fn is_equal_gadget() {
    assert!(is_equal_prover(2, 2));
    assert!(is_equal_prover(13, 13));
    assert!(!is_equal_prover(2, 3));
}

fn range_check_prover(range: usize, value: u64) -> bool {
    let mut cs = ConstraintSystem::new();
    let value_col = cs.advice_column();
    let config = RangeCheckConfig::configure(&mut cs, value_col, range);
    let mut region = Region::new(1);
    config.assign(&mut region, 0, value).unwrap();
    let row = region.to_row(cs.num_advice, cs.num_fixed, cs.num_selectors, 0, P);
    cs.is_satisfied(&row, P)
}

#[test]
fn test_range_check_1() {
    const RANGE: usize = 8; // 3-bit value
    for i in 0..RANGE {
        assert!(range_check_prover(RANGE, i as u64));
    }
}

#[test]
fn range_check_boundary_rejected() {
    assert!(!range_check_prover(8, 8));
    assert!(!range_check_prover(8, 12));
}

#[test]
fn range_check_witnesses_raw_value() {
    // the cell holds the original value, not the vanishing product
    let mut cs = ConstraintSystem::new();
    let value_col = cs.advice_column();
    let config = RangeCheckConfig::configure(&mut cs, value_col, 8);
    let mut region = Region::new(1);
    let constrained = config.assign(&mut region, 0, 5).unwrap();
    assert_eq!(region.advice_value(value_col, 0), Some(5));
    assert_eq!(constrained.value, 5);
    assert_eq!(constrained.column, value_col);
}

#[test]
fn configure_is_deterministic() {
    let mut cs1 = ConstraintSystem::new();
    let mut cs2 = ConstraintSystem::new();
    let cfg1 = IsEqualChip::configure(&mut cs1);
    let cfg2 = IsEqualChip::configure(&mut cs2);
    assert_eq!(cfg1, cfg2);
    assert_eq!(cs1.gates, cs2.gates);
    assert_eq!(cs1.num_advice, cs2.num_advice);
    assert_eq!(cs1.num_selectors, cs2.num_selectors);

    let mut cs3 = ConstraintSystem::new();
    let mut cs4 = ConstraintSystem::new();
    let c3 = cs3.advice_column();
    let c4 = cs4.advice_column();
    let r3 = RangeCheckConfig::configure(&mut cs3, c3, 8);
    let r4 = RangeCheckConfig::configure(&mut cs4, c4, 8);
    assert_eq!(r3, r4);
    assert_eq!(cs3.gates, cs4.gates);
}

#[test]
fn field_inverse_values() {
    assert_eq!(fp_inv0(P, 0), 0);
    assert_eq!(fp_inv0(P, 1), 1);
    assert_eq!(fp_inv0(P, 5), 7);
    assert_eq!(fp_inv0(P, 16), 16);
    for v in 1..P {
        assert_eq!(fp_mul(P, v, fp_inv0(P, v)), 1);
    }
}

#[test]
fn field_recognition() {
    assert!(fp_is_field(2));
    assert!(fp_is_field(17));
    assert!(fp_is_field(257));
    assert!(!fp_is_field(0));
    assert!(!fp_is_field(1));
    assert!(!fp_is_field(15));
}

#[test]
fn field_operation_values() {
    assert_eq!(fp_add(P, 9, 12), 4);
    assert_eq!(fp_sub(P, 3, 5), 15);
    assert_eq!(fp_mul(P, 4, 13), 1);
    assert_eq!(fp_neg(P, 1), 16);
    assert_eq!(fp_neg(P, 0), 0);
    assert_eq!(fp_from(P, 40), 6);
}

#[test]
fn assignment_errors() {
    let col = AdviceColumn { index: 0 };
    let mut region = Region::new(1);
    assert_eq!(region.assign_advice(col, 1, 5), Err(AssignmentError::OutOfBounds));
    assert_eq!(region.assign_advice(col, 0, 5), Ok(()));
    assert_eq!(region.assign_advice(col, 0, 6), Err(AssignmentError::AlreadyAssigned));
    assert_eq!(region.advice_value(col, 0), Some(5));
}

#[test]
fn expression_well_formedness() {
    // a query of an unallocated column is ill-formed; an allocated one is fine
    let bound = Expr::Advice(AdviceColumn { index: 1 });
    assert!(check_expr_wf(&bound, 2, 0, 0));
    assert!(!check_expr_wf(&bound, 1, 0, 0));
    let sum = Expr::Sum(Box::new(Expr::Constant(3)), Box::new(bound));
    assert!(check_expr_wf(&sum, 2, 0, 0));
    assert!(!check_expr_wf(&sum, 0, 0, 0));
}
