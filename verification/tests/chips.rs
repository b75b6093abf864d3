use plonkish::field::Fp;
use plonkish::expr::{Cell, ColKind, Expr};
use plonkish::circuit::Circuit;
use plonkish::checker::Failure;
use plonkish::arithmetic::ArithmeticChip;
use plonkish::is_zero::IsZeroChip;
use plonkish::function::FunctionChip;
use plonkish::fibonacci::FiboChip;
use plonkish::range_check::RangeCheckConfig;
use plonkish::scaled_arithmetic::ScaledArithmeticChip;

fn fp(x: u64) -> Fp {
    Fp::from_u64(x)
}

fn arith_circuit() -> (Circuit, ArithmeticChip) {
    let mut c = Circuit::new();
    let advice = [
        c.declare_column(ColKind::Advice),
        c.declare_column(ColKind::Advice),
        c.declare_column(ColKind::Advice),
    ];
    let instance = c.declare_instance(vec![]);
    let config = ArithmeticChip::configure(&mut c, advice, instance);
    (c, ArithmeticChip::construct(config))
}

#[test]
fn add_gate_passes_on_sum() {
    let (mut c, chip) = arith_circuit();
    chip.assign_add(&mut c, 0, fp(17), fp(25)).unwrap();
    assert_eq!(c.seal().check().unwrap(), vec![]);
}

#[test]
fn add_gate_fails_on_wrong_sum() {
    // The witnessed output is a + b + 1: exactly one failure, at the
    // addition gate's only constraint, row 0.
    let (mut c, chip) = arith_circuit();
    let cfg = chip.config;
    let a = fp(17);
    let b = fp(25);
    c.enable(cfg.s_add, 0).unwrap();
    c.assign(cfg.advice[0], 0, a).unwrap();
    c.assign(cfg.advice[1], 0, b).unwrap();
    c.assign(cfg.advice[2], 0, a.add(b).add(fp(1))).unwrap();
    let sealed = c.seal();
    let failures = sealed.check().unwrap();
    assert_eq!(failures.len(), 1);
    match failures[0] {
        Failure::ConstraintNotSatisfied { gate, constraint, row, .. } => {
            assert_eq!(gate, cfg.gate_add);
            assert_eq!(constraint, 0);
            assert_eq!(row, 0);
            assert_eq!(sealed.gate_name(gate).unwrap().as_str(), "add");
        },
        _ => panic!("expected a gate failure"),
    }
}

#[test]
fn mul_gate_passes_on_product() {
    let (mut c, chip) = arith_circuit();
    chip.assign_mul(&mut c, 0, fp(6), fp(9)).unwrap();
    assert_eq!(c.seal().check().unwrap(), vec![]);
}

#[test]
fn mul_gate_fails_on_wrong_product() {
    let (mut c, chip) = arith_circuit();
    let cfg = chip.config;
    let a = fp(6);
    let b = fp(9);
    c.enable(cfg.s_mul, 0).unwrap();
    c.assign(cfg.advice[0], 0, a).unwrap();
    c.assign(cfg.advice[1], 0, b).unwrap();
    c.assign(cfg.advice[2], 0, a.mul(b).add(fp(1))).unwrap();
    let sealed = c.seal();
    let failures = sealed.check().unwrap();
    assert_eq!(failures.len(), 1);
    match failures[0] {
        Failure::ConstraintNotSatisfied { gate, constraint, row, .. } => {
            assert_eq!(gate, cfg.gate_mul);
            assert_eq!(constraint, 0);
            assert_eq!(row, 0);
            assert_eq!(sealed.gate_name(gate).unwrap().as_str(), "mul");
        },
        _ => panic!("expected a gate failure"),
    }
}

#[test]
fn arithmetic_exposes_public_output() {
    // a = 2, b = 1: c = a + b, out = a * c, with out bound to the
    // public-input cell.
    let mut c = Circuit::new();
    let advice = [
        c.declare_column(ColKind::Advice),
        c.declare_column(ColKind::Advice),
        c.declare_column(ColKind::Advice),
    ];
    let a = fp(2);
    let b = fp(1);
    let out = a.mul(a.add(b));
    let instance = c.declare_instance(vec![out]);
    let config = ArithmeticChip::configure(&mut c, advice, instance);
    let chip = ArithmeticChip::construct(config);
    let (a0, _b0, c0) = chip.assign_add(&mut c, 0, a, b).unwrap();
    let av = c.read(a0.column, a0.row).unwrap();
    let cv = c.read(c0.column, c0.row).unwrap();
    let (_a1, _b1, c1) = chip.assign_mul(&mut c, 1, av, cv).unwrap();
    chip.expose_public(&mut c, c1, 0);
    assert_eq!(c.seal().check().unwrap(), vec![]);
}

#[test]
fn is_zero_gadget_accepts_its_own_witness() {
    for x in [0u64, 1, 5, 60] {
        let mut c = Circuit::new();
        let xcol = c.declare_column(ColKind::Advice);
        let ind = c.declare_column(ColKind::Advice);
        let inv = c.declare_column(ColKind::Advice);
        let s = c.new_selector();
        let config = IsZeroChip::configure(&mut c, s, Expr::var(xcol, 0), ind, inv);
        let chip = IsZeroChip::construct(config);
        c.assign(xcol, 0, fp(x)).unwrap();
        c.enable(s, 0).unwrap();
        chip.assign(&mut c, 0, fp(x)).unwrap();
        assert_eq!(c.seal().check().unwrap(), vec![]);
    }
}

#[test]
fn is_zero_gadget_rejects_wrong_indicator() {
    // x = 5 with indicator witnessed as 1: the product gate
    // indicator * x must fail.
    let mut c = Circuit::new();
    let xcol = c.declare_column(ColKind::Advice);
    let ind = c.declare_column(ColKind::Advice);
    let inv = c.declare_column(ColKind::Advice);
    let s = c.new_selector();
    let config = IsZeroChip::configure(&mut c, s, Expr::var(xcol, 0), ind, inv);
    c.assign(xcol, 0, fp(5)).unwrap();
    c.assign(ind, 0, fp(1)).unwrap();
    c.assign(inv, 0, fp(5).inverse()).unwrap();
    c.enable(s, 0).unwrap();
    let failures = c.seal().check().unwrap();
    assert!(!failures.is_empty());
    assert!(failures.iter().all(|f| matches!(f, Failure::ConstraintNotSatisfied { row: 0, .. })));
}

#[test]
fn is_zero_gadget_rejects_zero_with_zero_indicator() {
    // x = 0 with indicator witnessed as 0: the inverse gate
    // x * inv = 1 - indicator must fail.
    let mut c = Circuit::new();
    let xcol = c.declare_column(ColKind::Advice);
    let ind = c.declare_column(ColKind::Advice);
    let inv = c.declare_column(ColKind::Advice);
    let s = c.new_selector();
    let config = IsZeroChip::configure(&mut c, s, Expr::var(xcol, 0), ind, inv);
    c.assign(xcol, 0, fp(0)).unwrap();
    c.assign(ind, 0, fp(0)).unwrap();
    c.assign(inv, 0, fp(0)).unwrap();
    c.enable(s, 0).unwrap();
    let failures = c.seal().check().unwrap();
    assert_eq!(failures.len(), 1);
    match failures[0] {
        Failure::ConstraintNotSatisfied { gate, row, .. } => {
            assert_eq!(gate, config.gate_inverse);
            assert_eq!(row, 0);
        },
        _ => panic!("expected a gate failure"),
    }
}

#[test]
fn function_chip_selects_c_on_equal_inputs() {
    let mut c = Circuit::new();
    let config = FunctionChip::configure(&mut c);
    let chip = FunctionChip::construct(config);
    chip.assign(&mut c, 0, fp(10), fp(10), fp(15)).unwrap();
    assert_eq!(c.read(config.output, 0), Some(fp(15)));
    assert_eq!(c.seal().check().unwrap(), vec![]);
}

#[test]
fn iszero_example() {
    let mut c = Circuit::new();
    let config = FunctionChip::configure(&mut c);
    let chip = FunctionChip::construct(config);
    chip.assign(&mut c, 0, fp(10), fp(20), fp(15)).unwrap();
    // a != b, so the output is a - b.
    assert_eq!(c.read(config.output, 0), Some(fp(10).sub(fp(20))));
    assert_eq!(c.seal().check().unwrap(), vec![]);
    println!("Hello World");
}

#[test]
fn test_range_check() {
    const RANGE: usize = 8;

    // Successful cases
    for i in 0..RANGE {
        let mut c = Circuit::new();
        let value = c.declare_column(ColKind::Advice);
        let config = RangeCheckConfig::configure(&mut c, value, RANGE);
        config.assign(&mut c, 0, fp(i as u64)).unwrap();
        assert_eq!(c.seal().check().unwrap(), vec![]);
    }
    // Out-of-range `value = 8`
    {
        let mut c = Circuit::new();
        let value = c.declare_column(ColKind::Advice);
        let config = RangeCheckConfig::configure(&mut c, value, RANGE);
        config.assign(&mut c, 0, fp(RANGE as u64)).unwrap();
        let sealed = c.seal();
        let failures = sealed.check().unwrap();
        assert_eq!(failures.len(), 1);
        match failures[0] {
            Failure::ConstraintNotSatisfied { gate, constraint, region, row } => {
                assert_eq!(sealed.gate_name(gate).unwrap().as_str(), "range check");
                assert_eq!(constraint, 0);
                assert_eq!(sealed.region_name(region).unwrap().as_str(), "Assign value");
                assert_eq!(row, 0);
            },
            _ => panic!("expected a gate failure"),
        }
    }
}

#[test]
fn fibonacci_chain_reaches_public_output() {
    let mut c = Circuit::new();
    let advice = c.declare_column(ColKind::Advice);
    let instance = c.declare_instance(vec![fp(1), fp(1), fp(55)]);
    let config = FiboChip::configure(&mut c, advice, instance);
    let chip = FiboChip::construct(config);
    let out_cell = chip.assign(&mut c, 10).unwrap();
    assert_eq!(out_cell, Cell { column: advice, row: 9 });
    assert_eq!(c.read(advice, 9), Some(fp(55)));
    chip.expose_public(&mut c, out_cell, 2);
    assert_eq!(c.seal().check().unwrap(), vec![]);
}

#[test]
fn fibonacci_perturbed_public_output_fails_only_the_copy() {
    // Public inputs [1, 1, 56] with the same witness: every addition
    // gate still passes; only the copy constraint binding the final
    // cell to the third public input fails.
    let mut c = Circuit::new();
    let advice = c.declare_column(ColKind::Advice);
    let instance = c.declare_instance(vec![fp(1), fp(1), fp(56)]);
    let config = FiboChip::configure(&mut c, advice, instance);
    let chip = FiboChip::construct(config);
    let out_cell = chip.assign(&mut c, 10).unwrap();
    chip.expose_public(&mut c, out_cell, 2);
    let failures = c.seal().check().unwrap();
    assert_eq!(failures.len(), 1);
    assert_eq!(
        failures[0],
        Failure::CopyConstraintViolated {
            a: Cell { column: advice, row: 9 },
            b: Cell { column: instance, row: 2 },
        }
    );
}

#[test]
fn scaled_arithmetic_regions_with_copies() {
    // u = 2, v = 3: three multiplication rows (u*u, u*v, t2*3) and three
    // addition rows (t1+t3, t4+v, t5+5), stitched together with copy
    // constraints and exposing t6 as the public output.
    let u = fp(2);
    let v = fp(3);
    let t1 = u.mul(u);
    let t2 = u.mul(v);
    let t3 = t2.mul(fp(3));
    let t4 = t1.add(t3);
    let t5 = t4.add(v);
    let t6 = t5.add(fp(5));

    let mut c = Circuit::new();
    let advice = [
        c.declare_column(ColKind::Advice),
        c.declare_column(ColKind::Advice),
        c.declare_column(ColKind::Advice),
    ];
    let instance = c.declare_instance(vec![t6]);
    let constant = c.declare_column(ColKind::Fixed);
    let config = ScaledArithmeticChip::configure(&mut c, advice, instance, constant);
    let chip = ScaledArithmeticChip::construct(config);

    let (a1, b1, c1) = chip.assign_mul(&mut c, 0, u, u).unwrap();
    let (a2, b2, c2) = chip.assign_mul(&mut c, 1, u, v).unwrap();
    let (a3, c3) = chip.assign_mul_const(&mut c, 2, t2, fp(3)).unwrap();
    let (a4, b4, c4) = chip.assign_add(&mut c, 3, t1, t3).unwrap();
    let (a5, b5, c5) = chip.assign_add(&mut c, 4, t4, v).unwrap();
    let (a6, c6) = chip.assign_add_const(&mut c, 5, t5, fp(5)).unwrap();

    c.equate(a1, a2);
    c.equate(a2, b1);
    c.equate(b2, b5);
    c.equate(a4, c1);
    c.equate(a3, c2);
    c.equate(b4, c3);
    c.equate(a5, c4);
    c.equate(a6, c5);
    c.equate(c6, Cell { column: instance, row: 0 });

    assert_eq!(c.seal().check().unwrap(), vec![]);
}

#[test]
fn scaled_arithmetic_wrong_public_output_fails_only_the_copy() {
    let u = fp(2);
    let v = fp(3);
    let t2 = u.mul(v);
    let t3 = t2.mul(fp(3));
    let t4 = u.mul(u).add(t3);
    let t5 = t4.add(v);
    let t6 = t5.add(fp(5));

    let mut c = Circuit::new();
    let advice = [
        c.declare_column(ColKind::Advice),
        c.declare_column(ColKind::Advice),
        c.declare_column(ColKind::Advice),
    ];
    let instance = c.declare_instance(vec![t6.add(fp(1))]);
    let constant = c.declare_column(ColKind::Fixed);
    let config = ScaledArithmeticChip::configure(&mut c, advice, instance, constant);
    let chip = ScaledArithmeticChip::construct(config);
    let (_a6, c6) = chip.assign_add_const(&mut c, 0, t5, fp(5)).unwrap();
    c.equate(c6, Cell { column: instance, row: 0 });

    let failures = c.seal().check().unwrap();
    assert_eq!(failures.len(), 1);
    assert_eq!(
        failures[0],
        Failure::CopyConstraintViolated { a: c6, b: Cell { column: instance, row: 0 } }
    );
}
