//! The range-check chip: constrain a witnessed value `v` to lie in
//! `[0, range)` by requiring the degree-`range` product
//! `v * (1 - v) * (2 - v) * ... * ((range-1) - v)` to vanish. The
//! polynomial has a root at every integer in the range and nowhere else,
//! so it is exact; its degree grows with the range, which keeps the
//! pattern viable only for small ranges.
//!
//! The range is capped at the field size `P`: a field of `P` elements
//! holds only `P` distinct values, so past that bound the factors start
//! repeating residues and the polynomial can no longer have exactly the
//! integers below the range as its roots.

use vstd::prelude::*;
use vstd::string::StringExecFns;
use crate::field::{
    Fp, f_sub, f_mul, fp_residue, lemma_fp_residue, lemma_fp_ext, lemma_wf_range, lemma_mul_zero,
    P,
};
use crate::expr::{ColumnId, Cell, Expr};
use crate::circuit::{Circuit, AssignError};
use crate::checker::{Failure, lemma_one_row_one_gate_failures};

verus! {

/// The vanishing polynomial `v * (1-v) * ... * ((i-1)-v)` over column
/// `col`, of degree `i`.
pub open spec fn range_poly(col: ColumnId, i: int) -> Expr
    decreases i
    when i >= 1
{
    if i <= 1 {
        Expr::Var(col, 0)
    } else {
        Expr::Mul(
            Box::new(range_poly(col, i - 1)),
            Box::new(
                Expr::Sub(Box::new(Expr::Const(fp_residue(i - 1))), Box::new(Expr::Var(col, 0))),
            ),
        )
    }
}

/// The value the vanishing polynomial takes on a value `v`.
pub open spec fn range_prod(v: int, i: int) -> int
    decreases i
    when i >= 1
{
    if i <= 1 {
        v
    } else {
        f_mul(range_prod(v, i - 1), f_sub(i - 1, v))
    }
}

/// The column, selector and gate the chip configures.
#[derive(Clone, Copy, Debug)]
pub struct RangeCheckConfig {
    pub value: ColumnId,
    pub q_range_check: usize,
    pub gate: usize,
    pub range: usize,
}

impl RangeCheckConfig {
    /// Declare the selector and register the range-check gate for
    /// `[0, range)` over the given column.
    pub fn configure(c: &mut Circuit, value: ColumnId, range: usize) -> (r: RangeCheckConfig)
        requires
            old(c).wf(),
            1 <= range <= P,
        ensures
            final(c).wf(),
            r.value == value,
            r.range == range,
            r.q_range_check == old(c).selectors@.len(),
            final(c).selectors@.len() == old(c).selectors@.len() + 1,
            r.gate == old(c).gates@.len(),
            final(c).gates@.len() == old(c).gates@.len() + 1,
            final(c).gates@[r.gate as int].selector == r.q_range_check,
            final(c).gates@[r.gate as int].constraints@ == seq![range_poly(value, range as int)],
            final(c).gates@[r.gate as int].name@ == "range check"@,
            forall|g: int| 0 <= g < old(c).gates@.len() ==> final(c).gates@[g] == old(c).gates@[g],
            forall|col: ColumnId, rr: int| #[trigger]
                final(c).value_at(col, rr) == old(c).value_at(col, rr),
            forall|s: int, rr: int| #[trigger] final(c).active(s, rr) == old(c).active(s, rr),
            final(c).copies@ == old(c).copies@,
            final(c).regions@ == old(c).regions@,
            final(c).rows == old(c).rows,
            final(c).advice@ == old(c).advice@,
            final(c).fixed@ == old(c).fixed@,
            final(c).instance@ == old(c).instance@,
    {
        let q_range_check = c.new_selector();
        let mut e = Expr::var(value, 0);
        let mut i: usize = 1;
        while i < range
            invariant
                1 <= i <= range,
                range <= P,
                e == range_poly(value, i as int),
                e.wf(),
            decreases range - i,
        {
            let k = Fp::from_u64(i as u64);
            proof {
                lemma_fp_residue(i as int);
                lemma_fp_ext(k, fp_residue(i as int));
            }
            e = e.mul(Expr::constant(k).sub(Expr::var(value, 0)));
            i = i + 1;
        }
        let mut cs: Vec<Expr> = Vec::new();
        cs.push(e);
        let gate = c.add_gate(String::from_str("range check"), q_range_check, cs);
        RangeCheckConfig { value, q_range_check, gate, range }
    }

    /// Witness the value to be range-checked and activate the selector at
    /// its row.
    pub fn assign(&self, c: &mut Circuit, row: usize, value: Fp) -> (r: Result<Cell, AssignError>)
        requires
            old(c).wf(),
            value.wf(),
            row < usize::MAX,
            old(c).writable(self.value),
            self.q_range_check < old(c).selectors@.len(),
            old(c).value_at(self.value, row as int) is None,
        ensures
            final(c).wf(),
            r is Ok,
            final(c).value_at(self.value, row as int) == Some(value),
            forall|col: ColumnId, rr: int| !(col == self.value && rr == row as int)
                ==> #[trigger] final(c).value_at(col, rr) == old(c).value_at(col, rr),
            final(c).active(self.q_range_check as int, row as int),
            forall|s: int, rr: int| !(s == self.q_range_check && rr == row as int)
                ==> #[trigger] final(c).active(s, rr) == old(c).active(s, rr),
            final(c).gates@ == old(c).gates@,
            final(c).copies@ == old(c).copies@,
            final(c).regions@.len() == old(c).regions@.len() + 1,
            forall|i: int| 0 <= i < old(c).regions@.len() ==> final(c).regions@[i]
                == old(c).regions@[i],
            final(c).regions@.last().name@ == "Assign value"@,
            final(c).regions@.last().start == row,
            final(c).regions@.last().len == 1,
            final(c).rows == if row + 1 > old(c).rows {
                row + 1
            } else {
                old(c).rows as int
            },
            final(c).selectors@.len() == old(c).selectors@.len(),
            final(c).advice@.len() == old(c).advice@.len(),
            final(c).fixed@.len() == old(c).fixed@.len(),
            final(c).instance@ == old(c).instance@,
    {
        c.note_region(String::from_str("Assign value"), row, 1);
        let res = c.enable(self.q_range_check, row);
        proof {
            assert(res is Ok);
        }
        match c.assign(self.value, row, value) {
            Ok(cell) => Ok(cell),
            Err(_) => {
                proof {
                    assert(false);
                }
                Err(AssignError::NotAssignable { column: self.value })
            },
        }
    }
}

/// The vanishing polynomial evaluates to `range_prod` of the witnessed
/// value.
proof fn lemma_range_poly_eval(c: Circuit, col: ColumnId, row: int, i: int, v: Fp)
    requires
        c.value_at(col, row) == Some(v),
        1 <= i <= P as int,
    ensures
        c.eval_spec(range_poly(col, i), row) == Some(range_prod(v.val(), i)),
    decreases i,
{
    if i > 1 {
        lemma_range_poly_eval(c, col, row, i - 1, v);
        lemma_fp_residue(i - 1);
        assert(c.eval_spec(Expr::Const(fp_residue(i - 1)), row) == Some(i - 1));
        assert(c.eval_spec(Expr::Var(col, 0), row) == Some(v.val()));
        assert(c.eval_spec(
            Expr::Sub(Box::new(Expr::Const(fp_residue(i - 1))), Box::new(Expr::Var(col, 0))),
            row,
        ) == Some(f_sub(i - 1, v.val())));
    }
}

/// Every value inside the range is a root of the vanishing polynomial.
pub proof fn lemma_range_prod_zero(v: int, i: int)
    requires
        0 <= v < i,
    ensures
        range_prod(v, i) == 0,
    decreases i,
{
    if i <= 1 {
    } else if v == i - 1 {
        assert(f_sub(i - 1, v) == 0);
        lemma_mul_zero(range_prod(v, i - 1));
    } else {
        lemma_range_prod_zero(v, i - 1);
        lemma_mul_zero(f_sub(i - 1, v));
    }
}

/// The value 8 is no root of the degree-8 vanishing polynomial: the
/// product works out to 1 in the field.
pub proof fn lemma_range_prod_eight()
    ensures
        range_prod(8, 8) == 1,
{
    assert(range_prod(8, 1) == 8);
    assert(range_prod(8, 2) == f_mul(range_prod(8, 1), f_sub(1, 8)));
    assert(range_prod(8, 2) == 5);
    assert(range_prod(8, 3) == f_mul(range_prod(8, 2), f_sub(2, 8)));
    assert(range_prod(8, 3) == 31);
    assert(range_prod(8, 4) == f_mul(range_prod(8, 3), f_sub(3, 8)));
    assert(range_prod(8, 4) == 28);
    assert(range_prod(8, 5) == f_mul(range_prod(8, 4), f_sub(4, 8)));
    assert(range_prod(8, 5) == 10);
    assert(range_prod(8, 6) == f_mul(range_prod(8, 5), f_sub(5, 8)));
    assert(range_prod(8, 6) == 31);
    assert(range_prod(8, 7) == f_mul(range_prod(8, 6), f_sub(6, 8)));
    assert(range_prod(8, 7) == 60);
    assert(range_prod(8, 8) == f_mul(range_prod(8, 7), f_sub(7, 8)));
}

/// The verdict of a one-row circuit holding only the range-check gate:
/// it passes exactly when the vanishing product of the witnessed value
/// is zero, and otherwise reports exactly one failure, the range-check
/// constraint at row 0.
pub proof fn lemma_range_check_verdict(c: Circuit, cfg: RangeCheckConfig, v: Fp)
    requires
        c.wf(),
        c.rows == 1,
        c.gates@.len() == 1,
        c.gates@[0].selector == cfg.q_range_check,
        c.gates@[0].constraints@ == seq![range_poly(cfg.value, cfg.range as int)],
        1 <= cfg.range <= P,
        c.active(cfg.q_range_check as int, 0),
        c.value_at(cfg.value, 0) == Some(v),
        v.wf(),
        c.copies@.len() == 0,
    ensures
        c.structurally_ok(),
        range_prod(v.val(), cfg.range as int) == 0 ==> c.spec_failures() =~= Seq::<
            Failure,
        >::empty(),
        range_prod(v.val(), cfg.range as int) != 0 ==> c.spec_failures() =~= seq![
            c.constraint_failure(0, 0, 0),
        ],
{
    lemma_range_poly_eval(c, cfg.value, 0, cfg.range as int, v);
    lemma_one_row_one_gate_failures(c);
}

/// A range check for `[0, 8)` passes every value `0..=7` and reports
/// exactly one failure — the range-check gate at row 0 — for the value
/// 8.
pub proof fn lemma_range_check_eight(c: Circuit, cfg: RangeCheckConfig, v: Fp)
    requires
        c.wf(),
        c.rows == 1,
        c.gates@.len() == 1,
        c.gates@[0].selector == cfg.q_range_check,
        c.gates@[0].constraints@ == seq![range_poly(cfg.value, cfg.range as int)],
        cfg.range == 8,
        c.active(cfg.q_range_check as int, 0),
        c.value_at(cfg.value, 0) == Some(v),
        v.wf(),
        c.copies@.len() == 0,
    ensures
        c.structurally_ok(),
        v.val() < 8 ==> c.spec_failures() =~= Seq::<Failure>::empty(),
        v.val() == 8 ==> c.spec_failures() =~= seq![c.constraint_failure(0, 0, 0)],
{
    lemma_wf_range(v);
    if v.val() < 8 {
        lemma_range_prod_zero(v.val(), 8);
    }
    if v.val() == 8 {
        lemma_range_prod_eight();
    }
    lemma_range_check_verdict(c, cfg, v);
}

} // verus!
