use plonkish::field::Fp;
use plonkish::expr::{Cell, ColKind, ColumnId, Expr};
use plonkish::circuit::{AssignError, Circuit, StructuralError};
use plonkish::checker::Failure;
use plonkish::region::OpenRegion;

fn fp(x: u64) -> Fp {
    Fp::from_u64(x)
}

#[test]
fn field_reduction_and_ops() {
    assert_eq!(fp(61), fp(0));
    assert_eq!(fp(62), fp(1));
    assert_eq!(fp(5).add(fp(7)), fp(12));
    assert_eq!(fp(60).add(fp(1)), fp(0));
    assert_eq!(fp(3).sub(fp(5)), fp(59));
    assert_eq!(fp(7).mul(fp(9)), fp(2));
    assert_eq!(fp(0).neg(), fp(0));
    assert_eq!(fp(1).neg(), fp(60));
    assert!(fp(0).is_zero());
    assert!(!fp(1).is_zero());
}

#[test]
fn field_inverse() {
    assert_eq!(fp(0).inverse(), fp(0));
    assert_eq!(fp(1).inverse(), fp(1));
    assert_eq!(fp(2).inverse(), fp(31));
    for x in 1..61u64 {
        assert_eq!(fp(x).mul(fp(x).inverse()), fp(1));
    }
}

#[test]
fn read_and_assign() {
    let mut c = Circuit::new();
    let col = c.declare_column(ColKind::Advice);
    assert_eq!(c.read(col, 0), None);
    let cell = c.assign(col, 3, fp(9)).unwrap();
    assert_eq!(cell, Cell { column: col, row: 3 });
    assert_eq!(c.read(col, 3), Some(fp(9)));
    assert_eq!(c.read(col, 2), None);
}

#[test]
fn assign_same_value_is_permitted() {
    let mut c = Circuit::new();
    let col = c.declare_column(ColKind::Fixed);
    c.assign(col, 0, fp(4)).unwrap();
    assert!(c.assign(col, 0, fp(4)).is_ok());
}

#[test]
fn assign_conflicting_value_is_refused() {
    let mut c = Circuit::new();
    let col = c.declare_column(ColKind::Advice);
    c.assign(col, 0, fp(4)).unwrap();
    let err = c.assign(col, 0, fp(5)).unwrap_err();
    assert_eq!(
        err,
        AssignError::AlreadyAssignedDifferentValue { cell: Cell { column: col, row: 0 } }
    );
}

#[test]
fn assign_to_undeclared_or_instance_column_is_refused() {
    let mut c = Circuit::new();
    let ghostly = ColumnId { kind: ColKind::Advice, index: 0 };
    assert_eq!(
        c.assign(ghostly, 0, fp(1)).unwrap_err(),
        AssignError::NotAssignable { column: ghostly }
    );
    let inst = c.declare_instance(vec![fp(1)]);
    assert_eq!(
        c.assign(inst, 0, fp(1)).unwrap_err(),
        AssignError::NotAssignable { column: inst }
    );
}

#[test]
fn missing_public_input_is_refused() {
    let mut c = Circuit::new();
    let inst = c.declare_instance(vec![fp(1)]);
    let adv = c.declare_column(ColKind::Advice);
    let err = c.assign_from_public_input(inst, 5, adv, 0).unwrap_err();
    assert_eq!(err, AssignError::MissingPublicInput { column: inst, index: 5 });
}

#[test]
fn unknown_selector_is_refused() {
    let mut c = Circuit::new();
    assert_eq!(c.enable(0, 0).unwrap_err(), AssignError::UnknownSelector { selector: 0 });
    let s = c.new_selector();
    assert!(c.enable(s, 4).is_ok());
    assert!(c.enable(s, 4).is_ok());
}

#[test]
fn instance_column_carries_public_inputs() {
    let mut c = Circuit::new();
    let inst = c.declare_instance(vec![fp(7), fp(8)]);
    assert_eq!(c.read(inst, 0), Some(fp(7)));
    assert_eq!(c.read(inst, 1), Some(fp(8)));
    assert_eq!(c.read(inst, 2), None);
    let adv = c.declare_column(ColKind::Advice);
    let cell = c.assign_from_public_input(inst, 1, adv, 4).unwrap();
    assert_eq!(c.read(adv, 4), Some(fp(8)));
    assert_eq!(cell, Cell { column: adv, row: 4 });
}

#[test]
fn empty_circuit_passes() {
    let c = Circuit::new();
    let sealed = c.seal();
    assert_eq!(sealed.check().unwrap(), vec![]);
}

#[test]
fn unassigned_cell_under_active_gate_is_structural() {
    let mut c = Circuit::new();
    let col = c.declare_column(ColKind::Advice);
    let s = c.new_selector();
    c.add_gate("lonely".to_string(), s, vec![Expr::var(col, 0)]);
    c.enable(s, 0).unwrap();
    let sealed = c.seal();
    assert_eq!(
        sealed.check().unwrap_err(),
        StructuralError::UnassignedCell { cell: Cell { column: col, row: 0 } }
    );
}

#[test]
fn out_of_bounds_reference_is_structural() {
    let mut c = Circuit::new();
    let col = c.declare_column(ColKind::Advice);
    let s = c.new_selector();
    c.add_gate("lookahead".to_string(), s, vec![Expr::var(col, 2)]);
    c.assign(col, 0, fp(0)).unwrap();
    c.enable(s, 0).unwrap();
    let sealed = c.seal();
    assert_eq!(
        sealed.check().unwrap_err(),
        StructuralError::RowOutOfBounds { column: col, row: 0, offset: 2 }
    );
}

#[test]
fn copy_pair_with_unassigned_cell_is_structural() {
    let mut c = Circuit::new();
    let col = c.declare_column(ColKind::Advice);
    c.assign(col, 0, fp(3)).unwrap();
    c.equate(Cell { column: col, row: 0 }, Cell { column: col, row: 1 });
    let sealed = c.seal();
    assert_eq!(
        sealed.check().unwrap_err(),
        StructuralError::UnassignedCell { cell: Cell { column: col, row: 1 } }
    );
}

#[test]
fn copy_pairs_propagate_equality_transitively() {
    // Chains (A,B) and (B,C) with A = C != B: the class {A, B, C} is not
    // all-equal, so the check must fail even though no declared pair
    // names A and C together.
    let mut c = Circuit::new();
    let col = c.declare_column(ColKind::Advice);
    let a = c.assign(col, 0, fp(5)).unwrap();
    let b = c.assign(col, 1, fp(7)).unwrap();
    let cc = c.assign(col, 2, fp(5)).unwrap();
    c.equate(a, b);
    c.equate(b, cc);
    let failures = c.seal().check().unwrap();
    assert_eq!(failures.len(), 2);
    assert_eq!(failures[0], Failure::CopyConstraintViolated { a, b });
    assert_eq!(failures[1], Failure::CopyConstraintViolated { a: b, b: cc });
}

#[test]
fn copy_pairs_all_equal_pass() {
    let mut c = Circuit::new();
    let col = c.declare_column(ColKind::Advice);
    let a = c.assign(col, 0, fp(5)).unwrap();
    let b = c.assign(col, 1, fp(5)).unwrap();
    let cc = c.assign(col, 2, fp(5)).unwrap();
    c.equate(a, b);
    c.equate(b, cc);
    assert_eq!(c.seal().check().unwrap(), vec![]);
}

#[test]
fn checking_twice_is_idempotent() {
    let mut c = Circuit::new();
    let col = c.declare_column(ColKind::Advice);
    let a = c.assign(col, 0, fp(5)).unwrap();
    let b = c.assign(col, 1, fp(7)).unwrap();
    c.equate(a, b);
    let s = c.new_selector();
    c.add_gate("value".to_string(), s, vec![Expr::var(col, 0)]);
    c.enable(s, 0).unwrap();
    c.enable(s, 1).unwrap();
    let sealed = c.seal();
    let first = sealed.check().unwrap();
    let second = sealed.check().unwrap();
    assert_eq!(first, second);
    assert!(!first.is_empty());
}

#[test]
fn failures_are_ordered_row_gate_constraint_then_copies() {
    let mut c = Circuit::new();
    let col = c.declare_column(ColKind::Advice);
    let s = c.new_selector();
    // Two gates that both demand a zero cell; the witness is nonzero on
    // both rows, and a failing copy pair follows all constraint failures.
    c.add_gate("first".to_string(), s, vec![Expr::var(col, 0)]);
    c.add_gate("second".to_string(), s, vec![Expr::var(col, 0)]);
    let a = c.assign(col, 0, fp(1)).unwrap();
    let b = c.assign(col, 1, fp(2)).unwrap();
    c.enable(s, 0).unwrap();
    c.enable(s, 1).unwrap();
    c.equate(a, b);
    let failures = c.seal().check().unwrap();
    let rows: Vec<(usize, usize)> = failures
        .iter()
        .filter_map(|f| match f {
            Failure::ConstraintNotSatisfied { gate, row, .. } => Some((*row, *gate)),
            _ => None,
        })
        .collect();
    assert_eq!(rows, vec![(0, 0), (0, 1), (1, 0), (1, 1)]);
    assert_eq!(failures.len(), 5);
    assert_eq!(failures[4], Failure::CopyConstraintViolated { a, b });
}

#[test]
fn region_offsets_are_relative_to_the_start_row() {
    let mut c = Circuit::new();
    let col = c.declare_column(ColKind::Advice);
    let s = c.new_selector();
    let mut region = OpenRegion::open("window".to_string(), 7);
    let cell = region.assign(&mut c, col, 0, fp(1)).unwrap();
    assert_eq!(cell, Cell { column: col, row: 7 });
    region.assign(&mut c, col, 2, fp(3)).unwrap();
    region.enable(&mut c, s, 1).unwrap();
    region.close(&mut c);
    assert_eq!(c.read(col, 7), Some(fp(1)));
    assert_eq!(c.read(col, 9), Some(fp(3)));
    assert_eq!(c.read(col, 0), None);
    let sealed = c.seal();
    assert_eq!(sealed.region_name(0).unwrap().as_str(), "window");
    assert_eq!(sealed.region_count(), 1);
}
