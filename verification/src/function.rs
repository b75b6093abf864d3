//! The conditional-output chip: one row computing
//! `f(a, b, c) = if a == b { c } else { a - b }`, with the branch decided
//! by the is-zero gadget applied to `a - b`.

use vstd::prelude::*;
use vstd::string::StringExecFns;
use crate::field::{Fp, f_sub, f_mul, f_inv, fp_residue};
use crate::expr::{ColKind, ColumnId, Expr};
use crate::circuit::{Circuit, AssignError};
use crate::is_zero::{
    IsZeroChip, IsZeroConfig, is_zero_inverse_constraint, is_zero_product_constraint,
};

verus! {

/// The `indicator * (output - c)` polynomial: where `a = b`, the output
/// must be `c`.
pub open spec fn output_equal_constraint(ind: ColumnId, out: ColumnId, cc: ColumnId) -> Expr {
    Expr::Mul(
        Box::new(Expr::Var(ind, 0)),
        Box::new(Expr::Sub(Box::new(Expr::Var(out, 0)), Box::new(Expr::Var(cc, 0)))),
    )
}

/// The `(1 - indicator) * (output - (a - b))` polynomial: where `a != b`,
/// the output must be `a - b`.
pub open spec fn output_diff_constraint(
    ind: ColumnId,
    out: ColumnId,
    a: ColumnId,
    b: ColumnId,
) -> Expr {
    Expr::Mul(
        Box::new(
            Expr::Sub(Box::new(Expr::Const(fp_residue(1))), Box::new(Expr::Var(ind, 0))),
        ),
        Box::new(
            Expr::Sub(
                Box::new(Expr::Var(out, 0)),
                Box::new(Expr::Sub(Box::new(Expr::Var(a, 0)), Box::new(Expr::Var(b, 0)))),
            ),
        ),
    )
}

/// The columns, selector and gates the chip configures.
#[derive(Clone, Copy, Debug)]
pub struct FunctionConfig {
    pub selector: usize,
    pub a: ColumnId,
    pub b: ColumnId,
    pub c: ColumnId,
    pub output: ColumnId,
    pub a_equals_b: IsZeroConfig,
    pub gate_output: usize,
}

/// An instance of the chip: holds only its configuration.
pub struct FunctionChip {
    pub config: FunctionConfig,
}

impl FunctionChip {
    /// Pair a configuration with assignment behaviour.
    pub fn construct(config: FunctionConfig) -> (r: FunctionChip)
        ensures
            r.config == config,
    {
        FunctionChip { config }
    }

    /// Declare the chip's columns and selector, configure the is-zero
    /// gadget on `a - b`, and register the output-selection gate.
    pub fn configure(c: &mut Circuit) -> (r: FunctionConfig)
        requires
            old(c).wf(),
        ensures
            final(c).wf(),
            r.a.kind == ColKind::Advice,
            r.b.kind == ColKind::Advice,
            r.c.kind == ColKind::Advice,
            r.output.kind == ColKind::Advice,
            r.a_equals_b.indicator.kind == ColKind::Advice,
            r.a_equals_b.inv.kind == ColKind::Advice,
            r.a != r.b && r.a != r.c && r.a != r.output && r.b != r.c && r.b != r.output && r.c
                != r.output,
            r.a_equals_b.indicator != r.a_equals_b.inv,
            r.a_equals_b.indicator != r.a && r.a_equals_b.indicator != r.b
                && r.a_equals_b.indicator != r.c && r.a_equals_b.indicator != r.output,
            r.a_equals_b.inv != r.a && r.a_equals_b.inv != r.b && r.a_equals_b.inv != r.c
                && r.a_equals_b.inv != r.output,
            final(c).writable(r.a) && final(c).writable(r.b) && final(c).writable(r.c) && final(c).writable(r.output) && final(c).writable(r.a_equals_b.indicator) && final(c).writable(r.a_equals_b.inv),
            r.a.index == old(c).advice@.len(),
            r.b.index == old(c).advice@.len() + 1,
            r.c.index == old(c).advice@.len() + 2,
            r.output.index == old(c).advice@.len() + 3,
            r.a_equals_b.indicator.index == old(c).advice@.len() + 4,
            r.a_equals_b.inv.index == old(c).advice@.len() + 5,
            final(c).advice@.len() == old(c).advice@.len() + 6,
            final(c).fixed@ == old(c).fixed@,
            final(c).instance@ == old(c).instance@,
            r.selector == old(c).selectors@.len(),
            final(c).selectors@.len() == old(c).selectors@.len() + 1,
            r.a_equals_b.gate_inverse == old(c).gates@.len(),
            r.a_equals_b.gate_product == old(c).gates@.len() + 1,
            final(c).gates@.len() == old(c).gates@.len() + 3,
            forall|g: int| 0 <= g < old(c).gates@.len() ==> final(c).gates@[g] == old(c).gates@[g],
            final(c).gates@[r.a_equals_b.gate_inverse as int].selector == r.selector,
            final(c).gates@[r.a_equals_b.gate_inverse as int].constraints@ == seq![
                is_zero_inverse_constraint(
                    Expr::Sub(Box::new(Expr::Var(r.a, 0)), Box::new(Expr::Var(r.b, 0))),
                    r.a_equals_b.indicator,
                    r.a_equals_b.inv,
                ),
            ],
            final(c).gates@[r.a_equals_b.gate_product as int].selector == r.selector,
            final(c).gates@[r.a_equals_b.gate_product as int].constraints@ == seq![
                is_zero_product_constraint(
                    Expr::Sub(Box::new(Expr::Var(r.a, 0)), Box::new(Expr::Var(r.b, 0))),
                    r.a_equals_b.indicator,
                ),
            ],
            r.gate_output == old(c).gates@.len() + 2,
            final(c).gates@[r.gate_output as int].selector == r.selector,
            final(c).gates@[r.gate_output as int].constraints@ == seq![
                output_equal_constraint(r.a_equals_b.indicator, r.output, r.c),
                output_diff_constraint(r.a_equals_b.indicator, r.output, r.a, r.b),
            ],
            forall|col: ColumnId, rr: int| #[trigger]
                final(c).value_at(col, rr) == old(c).value_at(col, rr),
            forall|s: int, rr: int| #[trigger] final(c).active(s, rr) == old(c).active(s, rr),
            final(c).copies@ == old(c).copies@,
            final(c).regions@ == old(c).regions@,
            final(c).rows == old(c).rows,
    {
        let selector = c.new_selector();
        let a = c.declare_column(ColKind::Advice);
        let b = c.declare_column(ColKind::Advice);
        let cc = c.declare_column(ColKind::Advice);
        let output = c.declare_column(ColKind::Advice);
        let indicator = c.declare_column(ColKind::Advice);
        let inv = c.declare_column(ColKind::Advice);
        let x = Expr::var(a, 0).sub(Expr::var(b, 0));
        let a_equals_b = IsZeroChip::configure(c, selector, x, indicator, inv);
        let one = Fp::one();
        proof {
            crate::field::lemma_fp_residue(1);
            crate::field::lemma_fp_ext(one, fp_residue(1));
        }
        let mut out_cs: Vec<Expr> = Vec::new();
        out_cs.push(
            Expr::var(indicator, 0).mul(Expr::var(output, 0).sub(Expr::var(cc, 0))),
        );
        out_cs.push(
            Expr::constant(one).sub(Expr::var(indicator, 0)).mul(
                Expr::var(output, 0).sub(Expr::var(a, 0).sub(Expr::var(b, 0))),
            ),
        );
        let gate_output = c.add_gate(
            String::from_str("f(a, b, c) = if a == b {c} else {a-b}"),
            selector,
            out_cs,
        );
        FunctionConfig { selector, a, b, c: cc, output, a_equals_b, gate_output }
    }

    /// Fill the chip's row: witness `a`, `b` and `c`, the is-zero cells
    /// for `a - b`, and the selected output, and activate the selector.
    pub fn assign(&self, c: &mut Circuit, row: usize, a: Fp, b: Fp, cv: Fp) -> (r: Result<
        (),
        AssignError,
    >)
        requires
            old(c).wf(),
            a.wf(),
            b.wf(),
            cv.wf(),
            row < usize::MAX,
            old(c).writable(self.config.a),
            old(c).writable(self.config.b),
            old(c).writable(self.config.c),
            old(c).writable(self.config.output),
            old(c).writable(self.config.a_equals_b.indicator),
            old(c).writable(self.config.a_equals_b.inv),
            self.config.a != self.config.b && self.config.a != self.config.c && self.config.a
                != self.config.output && self.config.b != self.config.c && self.config.b
                != self.config.output && self.config.c != self.config.output,
            self.config.a_equals_b.indicator != self.config.a_equals_b.inv,
            self.config.a_equals_b.indicator != self.config.a && self.config.a_equals_b.indicator
                != self.config.b && self.config.a_equals_b.indicator != self.config.c
                && self.config.a_equals_b.indicator != self.config.output,
            self.config.a_equals_b.inv != self.config.a && self.config.a_equals_b.inv
                != self.config.b && self.config.a_equals_b.inv != self.config.c
                && self.config.a_equals_b.inv != self.config.output,
            self.config.selector < old(c).selectors@.len(),
            old(c).value_at(self.config.a, row as int) is None,
            old(c).value_at(self.config.b, row as int) is None,
            old(c).value_at(self.config.c, row as int) is None,
            old(c).value_at(self.config.output, row as int) is None,
            old(c).value_at(self.config.a_equals_b.indicator, row as int) is None,
            old(c).value_at(self.config.a_equals_b.inv, row as int) is None,
        ensures
            final(c).wf(),
            r is Ok,
            final(c).value_at(self.config.a, row as int) == Some(a),
            final(c).value_at(self.config.b, row as int) == Some(b),
            final(c).value_at(self.config.c, row as int) == Some(cv),
            match final(c).value_at(self.config.output, row as int) {
                Some(v) => v.val() == if a.val() == b.val() {
                    cv.val()
                } else {
                    f_sub(a.val(), b.val())
                },
                None => false,
            },
            match final(c).value_at(self.config.a_equals_b.indicator, row as int) {
                Some(v) => v.val() == if a.val() == b.val() {
                    1int
                } else {
                    0int
                },
                None => false,
            },
            match final(c).value_at(self.config.a_equals_b.inv, row as int) {
                Some(v) => v.val() == f_inv(f_sub(a.val(), b.val())),
                None => false,
            },
            final(c).active(self.config.selector as int, row as int),
            forall|s: int, rr: int| !(s == self.config.selector && rr == row as int)
                ==> #[trigger] final(c).active(s, rr) == old(c).active(s, rr),
            forall|col: ColumnId, rr: int|
                !(col == self.config.a && rr == row as int) && !(col == self.config.b && rr
                    == row as int) && !(col == self.config.c && rr == row as int) && !(col
                    == self.config.output && rr == row as int) && !(col
                    == self.config.a_equals_b.indicator && rr == row as int) && !(col
                    == self.config.a_equals_b.inv && rr == row as int)
                    ==> #[trigger] final(c).value_at(col, rr) == old(c).value_at(col, rr),
            final(c).gates@ == old(c).gates@,
            final(c).copies@ == old(c).copies@,
            final(c).regions@.len() == old(c).regions@.len() + 1,
            forall|i: int| 0 <= i < old(c).regions@.len() ==> final(c).regions@[i]
                == old(c).regions@[i],
            final(c).regions@.last().name@ == "f(a,b,c) = if a == b {c} else {a-b}"@,
            final(c).regions@.last().start == row,
            final(c).regions@.last().len == 1,
            final(c).rows == if row + 1 > old(c).rows {
                row + 1
            } else {
                old(c).rows as int
            },
            final(c).selectors@.len() == old(c).selectors@.len(),
            final(c).advice@.len() == old(c).advice@.len(),
            final(c).fixed@.len() == old(c).fixed@.len(),
            final(c).instance@ == old(c).instance@,
    {
        c.note_region(
            String::from_str("f(a,b,c) = if a == b {c} else {a-b}"),
            row,
            1,
        );
        let res = c.enable(self.config.selector, row);
        proof {
            assert(res is Ok);
        }
        match c.assign(self.config.a, row, a) {
            Ok(_) => {},
            Err(_) => {
                proof {
                    assert(false);
                }
            },
        }
        match c.assign(self.config.b, row, b) {
            Ok(_) => {},
            Err(_) => {
                proof {
                    assert(false);
                }
            },
        }
        match c.assign(self.config.c, row, cv) {
            Ok(_) => {},
            Err(_) => {
                proof {
                    assert(false);
                }
            },
        }
        let diff = a.sub(b);
        let is_zero_chip = IsZeroChip::construct(self.config.a_equals_b);
        let res2 = is_zero_chip.assign(c, row, diff);
        proof {
            assert(res2 is Ok);
            crate::field::lemma_wf_range(a);
            crate::field::lemma_wf_range(b);
            crate::field::lemma_sub_zero_iff_eq(a.val(), b.val());
        }
        proof {
            if a.val() == b.val() {
                crate::field::lemma_fp_ext(a, b);
            }
        }
        let output = if a == b {
            cv
        } else {
            diff
        };
        match c.assign(self.config.output, row, output) {
            Ok(_) => {},
            Err(_) => {
                proof {
                    assert(false);
                }
            },
        }
        Ok(())
    }
}

/// A one-row circuit holding exactly the chip's three gates and the
/// witness its assignment writes — `a`, `b`, `c`, the selected output,
/// and the is-zero cells for `a - b` — satisfies every gate, so the
/// check passes with an empty failure list.
pub proof fn lemma_function_row_passes(
    c: Circuit,
    cfg: FunctionConfig,
    av: Fp,
    bv: Fp,
    cvv: Fp,
    ov: Fp,
    indv: Fp,
    invv: Fp,
)
    requires
        c.wf(),
        c.rows == 1,
        c.copies@.len() == 0,
        c.gates@.len() == 3,
        cfg.a_equals_b.gate_inverse == 0,
        cfg.a_equals_b.gate_product == 1,
        cfg.gate_output == 2,
        c.gates@[0].selector == cfg.selector,
        c.gates@[0].constraints@ == seq![
            is_zero_inverse_constraint(
                Expr::Sub(Box::new(Expr::Var(cfg.a, 0)), Box::new(Expr::Var(cfg.b, 0))),
                cfg.a_equals_b.indicator,
                cfg.a_equals_b.inv,
            ),
        ],
        c.gates@[1].selector == cfg.selector,
        c.gates@[1].constraints@ == seq![
            is_zero_product_constraint(
                Expr::Sub(Box::new(Expr::Var(cfg.a, 0)), Box::new(Expr::Var(cfg.b, 0))),
                cfg.a_equals_b.indicator,
            ),
        ],
        c.gates@[2].selector == cfg.selector,
        c.gates@[2].constraints@ == seq![
            output_equal_constraint(cfg.a_equals_b.indicator, cfg.output, cfg.c),
            output_diff_constraint(cfg.a_equals_b.indicator, cfg.output, cfg.a, cfg.b),
        ],
        c.value_at(cfg.a, 0) == Some(av),
        c.value_at(cfg.b, 0) == Some(bv),
        c.value_at(cfg.c, 0) == Some(cvv),
        c.value_at(cfg.output, 0) == Some(ov),
        c.value_at(cfg.a_equals_b.indicator, 0) == Some(indv),
        c.value_at(cfg.a_equals_b.inv, 0) == Some(invv),
        av.wf(),
        bv.wf(),
        cvv.wf(),
        ov.wf(),
        indv.wf(),
        invv.wf(),
        ov.val() == if av.val() == bv.val() {
            cvv.val()
        } else {
            f_sub(av.val(), bv.val())
        },
        indv.val() == if av.val() == bv.val() {
            1int
        } else {
            0int
        },
        invv.val() == f_inv(f_sub(av.val(), bv.val())),
    ensures
        c.structurally_ok(),
        c.spec_failures().len() == 0,
{
    let x = Expr::Sub(Box::new(Expr::Var(cfg.a, 0)), Box::new(Expr::Var(cfg.b, 0)));
    let xv = f_sub(av.val(), bv.val());
    crate::field::lemma_wf_range(av);
    crate::field::lemma_wf_range(bv);
    crate::field::lemma_wf_range(ov);
    crate::field::lemma_wf_range(cvv);
    crate::field::lemma_wf_range(indv);
    crate::field::lemma_sub_zero_iff_eq(av.val(), bv.val());
    assert(0 <= xv < crate::field::P as int);
    assert(c.eval_spec(Expr::Var(cfg.a, 0), 0) == Some(av.val()));
    assert(c.eval_spec(Expr::Var(cfg.b, 0), 0) == Some(bv.val()));
    assert(c.eval_spec(x, 0) == Some(xv));
    crate::is_zero::lemma_is_zero_determined(c, x, cfg.a_equals_b.indicator, cfg.a_equals_b.inv, 0, xv, indv, invv);
    if xv == 0 {
        crate::field::lemma_zero_has_no_inverse();
    }
    assert(c.eval_spec(c.gates@[0].constraints@[0], 0) == Some(0int));
    assert(c.eval_spec(c.gates@[1].constraints@[0], 0) == Some(0int));
    crate::field::lemma_fp_residue(1);
    assert(c.eval_spec(Expr::Var(cfg.output, 0), 0) == Some(ov.val()));
    assert(c.eval_spec(Expr::Var(cfg.c, 0), 0) == Some(cvv.val()));
    assert(c.eval_spec(Expr::Var(cfg.a_equals_b.indicator, 0), 0) == Some(indv.val()));
    assert(c.eval_spec(
        Expr::Sub(Box::new(Expr::Var(cfg.output, 0)), Box::new(Expr::Var(cfg.c, 0))),
        0,
    ) == Some(f_sub(ov.val(), cvv.val())));
    assert(c.eval_spec(c.gates@[2].constraints@[0], 0) == Some(
        f_mul(indv.val(), f_sub(ov.val(), cvv.val())),
    ));
    assert(c.eval_spec(Expr::Const(fp_residue(1)), 0) == Some(1int));
    assert(c.eval_spec(
        Expr::Sub(
            Box::new(Expr::Const(fp_residue(1))),
            Box::new(Expr::Var(cfg.a_equals_b.indicator, 0)),
        ),
        0,
    ) == Some(f_sub(1, indv.val())));
    assert(c.eval_spec(Expr::Sub(Box::new(Expr::Var(cfg.output, 0)), Box::new(x)), 0) == Some(
        f_sub(ov.val(), xv),
    ));
    assert(c.eval_spec(c.gates@[2].constraints@[1], 0) == Some(
        f_mul(f_sub(1, indv.val()), f_sub(ov.val(), f_sub(av.val(), bv.val()))),
    ));
    if av.val() == bv.val() {
        crate::field::lemma_sub_zero_iff_eq(ov.val(), cvv.val());
        crate::field::lemma_mul_zero(indv.val());
        crate::field::lemma_sub_zero_iff_eq(1, indv.val());
        crate::field::lemma_mul_zero(f_sub(ov.val(), f_sub(av.val(), bv.val())));
    } else {
        crate::field::lemma_mul_zero(f_sub(ov.val(), cvv.val()));
        crate::field::lemma_sub_zero_iff_eq(ov.val(), f_sub(av.val(), bv.val()));
        crate::field::lemma_mul_zero(f_sub(1, indv.val()));
    }
    assert(c.eval_spec(c.gates@[2].constraints@[0], 0) == Some(0int));
    assert(c.eval_spec(c.gates@[2].constraints@[1], 0) == Some(0int));
    assert forall|g: int, i: int, row: int|
        0 <= g < c.gates@.len() && 0 <= i < c.gates@[g].constraints@.len() && 0 <= row < c.rows
            && c.active(c.gates@[g].selector as int, row) implies (#[trigger] c.eval_spec(
        c.gates@[g].constraints@[i],
        row,
    )) == Some(0int) by {
        assert(row == 0);
        assert(g == 0 || g == 1 || g == 2);
    }
    assert(c.gates_satisfied());
    assert(c.structurally_ok());
    assert(c.copies_satisfied());
    crate::checker::lemma_pass_iff_satisfied(c);
}

} // verus!
