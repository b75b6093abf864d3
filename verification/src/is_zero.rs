//! The is-zero gadget: a witnessed boolean indicator of whether an input
//! expression is zero, proven consistent by an inverse witness.
//!
//! For an input `x` the gadget allocates two advice columns, `indicator`
//! and `inv`, and registers two gates: `x * inv = 1 - indicator` and
//! `indicator * x = 0`. The assignment phase sets `indicator` to 1 and
//! `inv` to 0 when `x = 0`, and `indicator` to 0 and `inv` to the field
//! inverse of `x` otherwise. The indicator is witnessed, not computed by
//! the constraint system: an assignment inconsistent with `x` is caught
//! by the two gates, which is exactly what `lemma_is_zero_determined`
//! proves.

use vstd::prelude::*;
use vstd::string::StringExecFns;
use crate::field::{
    Fp, f_sub, f_mul, f_inv, fp_residue, lemma_fp_residue, lemma_fp_ext, lemma_wf_range,
    lemma_sub_zero_iff_eq, lemma_mul_zero, lemma_mul_comm, lemma_no_zero_divisors,
    lemma_inv_correct, lemma_inv_unique, P,
};
use crate::expr::{ColumnId, Expr};
use crate::circuit::{Circuit, AssignError};

verus! {

/// The `x * inv - (1 - indicator)` polynomial.
pub open spec fn is_zero_inverse_constraint(x: Expr, ind: ColumnId, inv: ColumnId) -> Expr {
    Expr::Sub(
        Box::new(Expr::Mul(Box::new(x), Box::new(Expr::Var(inv, 0)))),
        Box::new(
            Expr::Sub(Box::new(Expr::Const(fp_residue(1))), Box::new(Expr::Var(ind, 0))),
        ),
    )
}

/// The `indicator * x` polynomial.
pub open spec fn is_zero_product_constraint(x: Expr, ind: ColumnId) -> Expr {
    Expr::Mul(Box::new(Expr::Var(ind, 0)), Box::new(x))
}

/// The gadget's columns and gates.
#[derive(Clone, Copy, Debug)]
pub struct IsZeroConfig {
    pub indicator: ColumnId,
    pub inv: ColumnId,
    pub gate_inverse: usize,
    pub gate_product: usize,
}

/// An instance of the gadget: holds only its configuration.
pub struct IsZeroChip {
    pub config: IsZeroConfig,
}

impl IsZeroChip {
    /// Pair a configuration with assignment behaviour.
    pub fn construct(config: IsZeroConfig) -> (r: IsZeroChip)
        ensures
            r.config == config,
    {
        IsZeroChip { config }
    }

    /// Register the two is-zero gates for input `x` under `selector`,
    /// with `indicator` and `inv` as the gadget's helper columns.
    pub fn configure(
        c: &mut Circuit,
        selector: usize,
        x: Expr,
        indicator: ColumnId,
        inv: ColumnId,
    ) -> (r: IsZeroConfig)
        requires
            old(c).wf(),
            x.wf(),
        ensures
            final(c).wf(),
            r.indicator == indicator,
            r.inv == inv,
            r.gate_inverse == old(c).gates@.len(),
            r.gate_product == old(c).gates@.len() + 1,
            final(c).gates@.len() == old(c).gates@.len() + 2,
            final(c).gates@[r.gate_inverse as int].selector == selector,
            final(c).gates@[r.gate_inverse as int].constraints@ == seq![
                is_zero_inverse_constraint(x, indicator, inv),
            ],
            final(c).gates@[r.gate_product as int].selector == selector,
            final(c).gates@[r.gate_product as int].constraints@ == seq![
                is_zero_product_constraint(x, indicator),
            ],
            forall|g: int| 0 <= g < old(c).gates@.len() ==> final(c).gates@[g] == old(c).gates@[g],
            forall|col: ColumnId, rr: int| #[trigger]
                final(c).value_at(col, rr) == old(c).value_at(col, rr),
            forall|s: int, rr: int| #[trigger] final(c).active(s, rr) == old(c).active(s, rr),
            final(c).selectors@ == old(c).selectors@,
            final(c).copies@ == old(c).copies@,
            final(c).regions@ == old(c).regions@,
            final(c).rows == old(c).rows,
            final(c).advice@ == old(c).advice@,
            final(c).fixed@ == old(c).fixed@,
            final(c).instance@ == old(c).instance@,
    {
        let x2 = x.dup();
        let one = Fp::one();
        proof {
            lemma_fp_residue(1);
            lemma_fp_ext(one, fp_residue(1));
        }
        let g1_expr = x.mul(Expr::var(inv, 0)).sub(Expr::constant(one).sub(Expr::var(indicator, 0)));
        let mut g1_cs: Vec<Expr> = Vec::new();
        g1_cs.push(g1_expr);
        let gate_inverse = c.add_gate(String::from_str("is_zero inverse"), selector, g1_cs);
        let g2_expr = Expr::var(indicator, 0).mul(x2);
        let mut g2_cs: Vec<Expr> = Vec::new();
        g2_cs.push(g2_expr);
        let gate_product = c.add_gate(String::from_str("is_zero product"), selector, g2_cs);
        IsZeroConfig { indicator, inv, gate_inverse, gate_product }
    }

    /// Witness the indicator and inverse for a concrete input value: the
    /// indicator is 1 exactly when the input is zero, and `inv` holds the
    /// field inverse of the input (0 for input 0).
    pub fn assign(&self, c: &mut Circuit, row: usize, x_val: Fp) -> (r: Result<(), AssignError>)
        requires
            old(c).wf(),
            x_val.wf(),
            row < usize::MAX,
            old(c).writable(self.config.indicator),
            old(c).writable(self.config.inv),
            self.config.indicator != self.config.inv,
            old(c).value_at(self.config.indicator, row as int) is None,
            old(c).value_at(self.config.inv, row as int) is None,
        ensures
            final(c).wf(),
            r is Ok,
            match final(c).value_at(self.config.indicator, row as int) {
                Some(v) => v.val() == if x_val.val() == 0 {
                    1int
                } else {
                    0int
                },
                None => false,
            },
            match final(c).value_at(self.config.inv, row as int) {
                Some(v) => v.val() == f_inv(x_val.val()),
                None => false,
            },
            forall|col: ColumnId, rr: int|
                !(col == self.config.indicator && rr == row as int) && !(col == self.config.inv
                    && rr == row as int) ==> #[trigger] final(c).value_at(col, rr) == old(
                    c,
                ).value_at(col, rr),
            forall|s: int, rr: int| #[trigger] final(c).active(s, rr) == old(c).active(s, rr),
            final(c).gates@ == old(c).gates@,
            final(c).copies@ == old(c).copies@,
            final(c).regions@ == old(c).regions@,
            final(c).selectors@ == old(c).selectors@,
            final(c).advice@.len() == old(c).advice@.len(),
            final(c).fixed@.len() == old(c).fixed@.len(),
            final(c).instance@ == old(c).instance@,
            final(c).rows == if row + 1 > old(c).rows {
                row + 1
            } else {
                old(c).rows as int
            },
    {
        let indicator = if x_val.is_zero() {
            Fp::one()
        } else {
            Fp::zero()
        };
        let invv = x_val.inverse();
        match c.assign(self.config.indicator, row, indicator) {
            Ok(_) => {},
            Err(_) => {
                proof {
                    assert(false);
                }
            },
        }
        match c.assign(self.config.inv, row, invv) {
            Ok(_) => {},
            Err(_) => {
                proof {
                    assert(false);
                }
            },
        }
        Ok(())
    }
}

/// The values the two is-zero gates take at a row, in terms of the input
/// value and the two witnessed cells.
pub proof fn lemma_is_zero_gate_eval(
    c: Circuit,
    x: Expr,
    ind: ColumnId,
    inv: ColumnId,
    row: int,
    xv: int,
    indv: Fp,
    invv: Fp,
)
    requires
        c.eval_spec(x, row) == Some(xv),
        c.value_at(ind, row) == Some(indv),
        c.value_at(inv, row) == Some(invv),
    ensures
        c.eval_spec(is_zero_inverse_constraint(x, ind, inv), row) == Some(
            f_sub(f_mul(xv, invv.val()), f_sub(1, indv.val())),
        ),
        c.eval_spec(is_zero_product_constraint(x, ind), row) == Some(f_mul(indv.val(), xv)),
{
    lemma_fp_residue(1);
    assert(c.eval_spec(Expr::Var(inv, 0), row) == Some(invv.val()));
    assert(c.eval_spec(Expr::Var(ind, 0), row) == Some(indv.val()));
    assert(c.eval_spec(Expr::Const(fp_residue(1)), row) == Some(1int));
    assert(c.eval_spec(Expr::Mul(Box::new(x), Box::new(Expr::Var(inv, 0))), row) == Some(
        f_mul(xv, invv.val()),
    ));
    assert(c.eval_spec(
        Expr::Sub(Box::new(Expr::Const(fp_residue(1))), Box::new(Expr::Var(ind, 0))),
        row,
    ) == Some(f_sub(1, indv.val())));
}

/// The indicator is uniquely determined by the input: both gates vanish
/// exactly when the witness is the intended one — indicator 1 for a zero
/// input, and indicator 0 with `inv` the field inverse for a nonzero
/// input. Any other indicator value fails at least one gate.
pub proof fn lemma_is_zero_witness_unique(xv: int, indv: int, invv: int)
    requires
        0 <= xv < P as int,
        0 <= indv < P as int,
        0 <= invv < P as int,
    ensures
        (f_sub(f_mul(xv, invv), f_sub(1, indv)) == 0 && f_mul(indv, xv) == 0) <==> (if xv == 0 {
            indv == 1
        } else {
            indv == 0 && invv == f_inv(xv)
        }),
{
    let p = P as int;
    assert(0 <= f_sub(1, indv) < p) by {
        assert(0 <= (1 - indv) % p < p);
    }
    assert(0 <= f_mul(xv, invv) < p) by {
        assert(0 <= (xv * invv) % p < p);
    }
    if xv == 0 {
        lemma_mul_zero(invv);
        lemma_mul_zero(indv);
        lemma_sub_zero_iff_eq(0, f_sub(1, indv));
        lemma_sub_zero_iff_eq(1, indv);
    } else {
        if indv == 0 && invv == f_inv(xv) {
            lemma_inv_correct(xv);
            lemma_mul_zero(xv);
            lemma_sub_zero_iff_eq(f_mul(xv, invv), f_sub(1, 0));
        }
        if f_sub(f_mul(xv, invv), f_sub(1, indv)) == 0 && f_mul(indv, xv) == 0 {
            lemma_mul_comm(indv, xv);
            lemma_no_zero_divisors(xv, indv);
            lemma_sub_zero_iff_eq(f_mul(xv, invv), f_sub(1, indv));
            lemma_mul_zero(xv);
            lemma_inv_unique(xv, invv);
        }
    }
}

/// The two is-zero gates, evaluated on the table, pin the witnessed
/// indicator: they both vanish at a row exactly when the indicator cell
/// is 1 for a zero input, or the indicator is 0 and the inverse cell
/// holds the input's field inverse for a nonzero input.
pub proof fn lemma_is_zero_determined(
    c: Circuit,
    x: Expr,
    ind: ColumnId,
    inv: ColumnId,
    row: int,
    xv: int,
    indv: Fp,
    invv: Fp,
)
    requires
        c.eval_spec(x, row) == Some(xv),
        c.value_at(ind, row) == Some(indv),
        c.value_at(inv, row) == Some(invv),
        0 <= xv < P as int,
        indv.wf(),
        invv.wf(),
    ensures
        (c.eval_spec(is_zero_inverse_constraint(x, ind, inv), row) == Some(0int) && c.eval_spec(
            is_zero_product_constraint(x, ind),
            row,
        ) == Some(0int)) <==> (if xv == 0 {
            indv.val() == 1
        } else {
            indv.val() == 0 && invv.val() == f_inv(xv)
        }),
{
    lemma_is_zero_gate_eval(c, x, ind, inv, row, xv, indv, invv);
    lemma_wf_range(indv);
    lemma_wf_range(invv);
    lemma_is_zero_witness_unique(xv, indv.val(), invv.val());
}

} // verus!
