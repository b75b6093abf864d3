//! A chip of two one-row gates: addition (`a + b = c`) and multiplication
//! (`a * b = c`) over three advice columns, with an instance column for
//! exposing a result as a public output.

use vstd::prelude::*;
use vstd::string::StringExecFns;
use crate::field::{Fp, f_add, f_sub, f_mul, lemma_sub_zero_iff_eq};
use crate::expr::{ColumnId, Cell, Expr};
use crate::circuit::{Circuit, AssignError};
use crate::checker::Failure;

verus! {

/// The `a + b - c` polynomial of the addition gate.
pub open spec fn add_constraint(a0: ColumnId, a1: ColumnId, a2: ColumnId) -> Expr {
    Expr::Sub(
        Box::new(Expr::Add(Box::new(Expr::Var(a0, 0)), Box::new(Expr::Var(a1, 0)))),
        Box::new(Expr::Var(a2, 0)),
    )
}

/// The `a * b - c` polynomial of the multiplication gate.
pub open spec fn mul_constraint(a0: ColumnId, a1: ColumnId, a2: ColumnId) -> Expr {
    Expr::Sub(
        Box::new(Expr::Mul(Box::new(Expr::Var(a0, 0)), Box::new(Expr::Var(a1, 0)))),
        Box::new(Expr::Var(a2, 0)),
    )
}

/// The columns, selectors and gates the chip configures.
#[derive(Clone, Copy, Debug)]
pub struct ArithmeticConfig {
    pub advice: [ColumnId; 3],
    pub instance: ColumnId,
    pub s_add: usize,
    pub s_mul: usize,
    pub gate_add: usize,
    pub gate_mul: usize,
}

/// An instance of the chip: holds only its configuration.
pub struct ArithmeticChip {
    pub config: ArithmeticConfig,
}

impl ArithmeticChip {
    /// Pair a configuration with assignment behaviour.
    pub fn construct(config: ArithmeticConfig) -> (r: ArithmeticChip)
        ensures
            r.config == config,
    {
        ArithmeticChip { config }
    }

    /// Declare the two selectors and register the addition and
    /// multiplication gates over the given columns.
    pub fn configure(c: &mut Circuit, advice: [ColumnId; 3], instance: ColumnId) -> (r:
        ArithmeticConfig)
        requires
            old(c).wf(),
        ensures
            final(c).wf(),
            r.advice == advice,
            r.instance == instance,
            r.s_add == old(c).selectors@.len(),
            r.s_mul == old(c).selectors@.len() + 1,
            final(c).selectors@.len() == old(c).selectors@.len() + 2,
            r.gate_add == old(c).gates@.len(),
            r.gate_mul == old(c).gates@.len() + 1,
            final(c).gates@.len() == old(c).gates@.len() + 2,
            final(c).gates@[r.gate_add as int].selector == r.s_add,
            final(c).gates@[r.gate_add as int].constraints@ == seq![
                add_constraint(advice[0], advice[1], advice[2]),
            ],
            final(c).gates@[r.gate_add as int].name@ == "add"@,
            final(c).gates@[r.gate_mul as int].selector == r.s_mul,
            final(c).gates@[r.gate_mul as int].constraints@ == seq![
                mul_constraint(advice[0], advice[1], advice[2]),
            ],
            final(c).gates@[r.gate_mul as int].name@ == "mul"@,
            forall|g: int| 0 <= g < old(c).gates@.len() ==> final(c).gates@[g] == old(c).gates@[g],
            forall|col: ColumnId, rr: int| #[trigger]
                final(c).value_at(col, rr) == old(c).value_at(col, rr),
            forall|s: int, rr: int| #[trigger] final(c).active(s, rr) == old(c).active(s, rr),
            final(c).advice@ == old(c).advice@,
            final(c).fixed@ == old(c).fixed@,
            final(c).instance@ == old(c).instance@,
            final(c).copies@ == old(c).copies@,
            final(c).regions@ == old(c).regions@,
            final(c).rows == old(c).rows,
    {
        let s_add = c.new_selector();
        let s_mul = c.new_selector();
        let lhs = Expr::var(advice[0], 0);
        let rhs = Expr::var(advice[1], 0);
        let out = Expr::var(advice[2], 0);
        let mut add_cs: Vec<Expr> = Vec::new();
        add_cs.push(lhs.add(rhs).sub(out));
        let gate_add = c.add_gate(String::from_str("add"), s_add, add_cs);
        let lhs2 = Expr::var(advice[0], 0);
        let rhs2 = Expr::var(advice[1], 0);
        let out2 = Expr::var(advice[2], 0);
        let mut mul_cs: Vec<Expr> = Vec::new();
        mul_cs.push(lhs2.mul(rhs2).sub(out2));
        let gate_mul = c.add_gate(String::from_str("mul"), s_mul, mul_cs);
        ArithmeticConfig { advice, instance, s_add, s_mul, gate_add, gate_mul }
    }

    /// Fill one addition row: witness `a` and `b`, compute `a + b` into
    /// the output cell, and activate the addition selector there.
    pub fn assign_add(&self, c: &mut Circuit, row: usize, a: Fp, b: Fp) -> (r: Result<
        (Cell, Cell, Cell),
        AssignError,
    >)
        requires
            old(c).wf(),
            a.wf(),
            b.wf(),
            row < usize::MAX,
            old(c).writable(self.config.advice[0]),
            old(c).writable(self.config.advice[1]),
            old(c).writable(self.config.advice[2]),
            self.config.advice[0] != self.config.advice[1],
            self.config.advice[0] != self.config.advice[2],
            self.config.advice[1] != self.config.advice[2],
            self.config.s_add < old(c).selectors@.len(),
            old(c).value_at(self.config.advice[0], row as int) is None,
            old(c).value_at(self.config.advice[1], row as int) is None,
            old(c).value_at(self.config.advice[2], row as int) is None,
        ensures
            final(c).wf(),
            r is Ok,
            match r {
                Ok((ca, cb, cc)) => {
                    &&& ca == (Cell { column: self.config.advice[0], row })
                    &&& cb == (Cell { column: self.config.advice[1], row })
                    &&& cc == (Cell { column: self.config.advice[2], row })
                    &&& final(c).value_at(self.config.advice[0], row as int) == Some(a)
                    &&& final(c).value_at(self.config.advice[1], row as int) == Some(b)
                    &&& match final(c).value_at(self.config.advice[2], row as int) {
                        Some(v) => v.val() == f_add(a.val(), b.val()),
                        None => false,
                    }
                    &&& final(c).active(self.config.s_add as int, row as int)
                    &&& forall|s: int, rr: int| !(s == self.config.s_add && rr == row as int)
                        ==> #[trigger] final(c).active(s, rr) == old(c).active(s, rr)
                    &&& forall|col: ColumnId, rr: int|
                        !(col == self.config.advice[0] && rr == row as int) && !(col
                            == self.config.advice[1] && rr == row as int) && !(col
                            == self.config.advice[2] && rr == row as int) ==> #[trigger] final(c).value_at(col, rr) == old(c).value_at(col, rr)
                    &&& final(c).gates@ == old(c).gates@
                    &&& final(c).copies@ == old(c).copies@
                    &&& final(c).regions@.len() == old(c).regions@.len() + 1
                    &&& forall|i: int| 0 <= i < old(c).regions@.len() ==> final(c).regions@[i]
                        == old(c).regions@[i]
                    &&& final(c).regions@.last().name@ == "add"@
                    &&& final(c).regions@.last().start == row
                    &&& final(c).regions@.last().len == 1
                    &&& final(c).rows == if row + 1 > old(c).rows {
                        row + 1
                    } else {
                        old(c).rows as int
                    }
                    &&& final(c).selectors@.len() == old(c).selectors@.len()
                    &&& final(c).advice@.len() == old(c).advice@.len()
                    &&& final(c).fixed@.len() == old(c).fixed@.len()
                    &&& final(c).instance@ == old(c).instance@
                },
                Err(_) => false,
            },
    {
        c.note_region(String::from_str("add"), row, 1);
        let res = c.enable(self.config.s_add, row);
        proof {
            assert(res is Ok);
        }
        let ca = match c.assign(self.config.advice[0], row, a) {
            Ok(cell) => cell,
            Err(e) => {
                return Err(e);
            },
        };
        let cb = match c.assign(self.config.advice[1], row, b) {
            Ok(cell) => cell,
            Err(e) => {
                return Err(e);
            },
        };
        let cc = match c.assign(self.config.advice[2], row, a.add(b)) {
            Ok(cell) => cell,
            Err(e) => {
                return Err(e);
            },
        };
        Ok((ca, cb, cc))
    }

    /// Fill one multiplication row: witness `a` and `b`, compute `a * b`
    /// into the output cell, and activate the multiplication selector
    /// there.
    pub fn assign_mul(&self, c: &mut Circuit, row: usize, a: Fp, b: Fp) -> (r: Result<
        (Cell, Cell, Cell),
        AssignError,
    >)
        requires
            old(c).wf(),
            a.wf(),
            b.wf(),
            row < usize::MAX,
            old(c).writable(self.config.advice[0]),
            old(c).writable(self.config.advice[1]),
            old(c).writable(self.config.advice[2]),
            self.config.advice[0] != self.config.advice[1],
            self.config.advice[0] != self.config.advice[2],
            self.config.advice[1] != self.config.advice[2],
            self.config.s_mul < old(c).selectors@.len(),
            old(c).value_at(self.config.advice[0], row as int) is None,
            old(c).value_at(self.config.advice[1], row as int) is None,
            old(c).value_at(self.config.advice[2], row as int) is None,
        ensures
            final(c).wf(),
            r is Ok,
            match r {
                Ok((ca, cb, cc)) => {
                    &&& ca == (Cell { column: self.config.advice[0], row })
                    &&& cb == (Cell { column: self.config.advice[1], row })
                    &&& cc == (Cell { column: self.config.advice[2], row })
                    &&& final(c).value_at(self.config.advice[0], row as int) == Some(a)
                    &&& final(c).value_at(self.config.advice[1], row as int) == Some(b)
                    &&& match final(c).value_at(self.config.advice[2], row as int) {
                        Some(v) => v.val() == f_mul(a.val(), b.val()),
                        None => false,
                    }
                    &&& final(c).active(self.config.s_mul as int, row as int)
                    &&& forall|s: int, rr: int| !(s == self.config.s_mul && rr == row as int)
                        ==> #[trigger] final(c).active(s, rr) == old(c).active(s, rr)
                    &&& forall|col: ColumnId, rr: int|
                        !(col == self.config.advice[0] && rr == row as int) && !(col
                            == self.config.advice[1] && rr == row as int) && !(col
                            == self.config.advice[2] && rr == row as int) ==> #[trigger] final(c).value_at(col, rr) == old(c).value_at(col, rr)
                    &&& final(c).gates@ == old(c).gates@
                    &&& final(c).copies@ == old(c).copies@
                    &&& final(c).regions@.len() == old(c).regions@.len() + 1
                    &&& forall|i: int| 0 <= i < old(c).regions@.len() ==> final(c).regions@[i]
                        == old(c).regions@[i]
                    &&& final(c).regions@.last().name@ == "mul"@
                    &&& final(c).regions@.last().start == row
                    &&& final(c).regions@.last().len == 1
                    &&& final(c).rows == if row + 1 > old(c).rows {
                        row + 1
                    } else {
                        old(c).rows as int
                    }
                    &&& final(c).selectors@.len() == old(c).selectors@.len()
                    &&& final(c).advice@.len() == old(c).advice@.len()
                    &&& final(c).fixed@.len() == old(c).fixed@.len()
                    &&& final(c).instance@ == old(c).instance@
                },
                Err(_) => false,
            },
    {
        c.note_region(String::from_str("mul"), row, 1);
        let res = c.enable(self.config.s_mul, row);
        proof {
            assert(res is Ok);
        }
        let ca = match c.assign(self.config.advice[0], row, a) {
            Ok(cell) => cell,
            Err(e) => {
                return Err(e);
            },
        };
        let cb = match c.assign(self.config.advice[1], row, b) {
            Ok(cell) => cell,
            Err(e) => {
                return Err(e);
            },
        };
        let cc = match c.assign(self.config.advice[2], row, a.mul(b)) {
            Ok(cell) => cell,
            Err(e) => {
                return Err(e);
            },
        };
        Ok((ca, cb, cc))
    }

    /// Bind a computed cell to a public-input cell of the instance
    /// column, asserting the result as a public output.
    pub fn expose_public(&self, c: &mut Circuit, cell: Cell, row: usize)
        requires
            old(c).wf(),
        ensures
            final(c).wf(),
            final(c).copies@ == old(c).copies@.push(
                (cell, Cell { column: self.config.instance, row }),
            ),
            final(c).gates@ == old(c).gates@,
            final(c).regions@ == old(c).regions@,
            final(c).rows == old(c).rows,
            final(c).selectors@ == old(c).selectors@,
            forall|col: ColumnId, rr: int| #[trigger]
                final(c).value_at(col, rr) == old(c).value_at(col, rr),
    {
        c.equate(cell, Cell { column: self.config.instance, row });
    }
}

/// The addition gate constrains exactly the sum: at a row holding
/// `(x, y, z)` the constraint vanishes if and only if `z = x + y` in the
/// field.
pub proof fn lemma_add_gate_exact(
    c: Circuit,
    g: int,
    row: int,
    a0: ColumnId,
    a1: ColumnId,
    a2: ColumnId,
    x: Fp,
    y: Fp,
    z: Fp,
)
    requires
        0 <= g < c.gates@.len(),
        c.gates@[g].constraints@ == seq![add_constraint(a0, a1, a2)],
        c.active(c.gates@[g].selector as int, row),
        c.value_at(a0, row) == Some(x),
        c.value_at(a1, row) == Some(y),
        c.value_at(a2, row) == Some(z),
        x.wf(),
        y.wf(),
        z.wf(),
    ensures
        c.eval_spec(c.gates@[g].constraints@[0], row) == Some(
            f_sub(f_add(x.val(), y.val()), z.val()),
        ),
        c.constraint_fails(g, 0, row) <==> z.val() != f_add(x.val(), y.val()),
{
    let e = c.gates@[g].constraints@[0];
    assert(e == add_constraint(a0, a1, a2));
    assert(c.eval_spec(Expr::Var(a0, 0), row) == Some(x.val()));
    assert(c.eval_spec(Expr::Var(a1, 0), row) == Some(y.val()));
    assert(c.eval_spec(Expr::Var(a2, 0), row) == Some(z.val()));
    assert(c.eval_spec(
        Expr::Add(Box::new(Expr::Var(a0, 0)), Box::new(Expr::Var(a1, 0))),
        row,
    ) == Some(f_add(x.val(), y.val())));
    assert(c.eval_spec(e, row) == Some(f_sub(f_add(x.val(), y.val()), z.val())));
    crate::field::lemma_wf_range(z);
    lemma_sub_zero_iff_eq(f_add(x.val(), y.val()), z.val());
}

/// The multiplication gate constrains exactly the product.
pub proof fn lemma_mul_gate_exact(
    c: Circuit,
    g: int,
    row: int,
    a0: ColumnId,
    a1: ColumnId,
    a2: ColumnId,
    x: Fp,
    y: Fp,
    z: Fp,
)
    requires
        0 <= g < c.gates@.len(),
        c.gates@[g].constraints@ == seq![mul_constraint(a0, a1, a2)],
        c.active(c.gates@[g].selector as int, row),
        c.value_at(a0, row) == Some(x),
        c.value_at(a1, row) == Some(y),
        c.value_at(a2, row) == Some(z),
        x.wf(),
        y.wf(),
        z.wf(),
    ensures
        c.eval_spec(c.gates@[g].constraints@[0], row) == Some(
            f_sub(f_mul(x.val(), y.val()), z.val()),
        ),
        c.constraint_fails(g, 0, row) <==> z.val() != f_mul(x.val(), y.val()),
{
    let e = c.gates@[g].constraints@[0];
    assert(e == mul_constraint(a0, a1, a2));
    assert(c.eval_spec(Expr::Var(a0, 0), row) == Some(x.val()));
    assert(c.eval_spec(Expr::Var(a1, 0), row) == Some(y.val()));
    assert(c.eval_spec(Expr::Var(a2, 0), row) == Some(z.val()));
    assert(c.eval_spec(
        Expr::Mul(Box::new(Expr::Var(a0, 0)), Box::new(Expr::Var(a1, 0))),
        row,
    ) == Some(f_mul(x.val(), y.val())));
    assert(c.eval_spec(e, row) == Some(f_sub(f_mul(x.val(), y.val()), z.val())));
    crate::field::lemma_wf_range(z);
    lemma_sub_zero_iff_eq(f_mul(x.val(), y.val()), z.val());
}

/// A one-row circuit holding only the two arithmetic gates, cells
/// `(x, y, z)` and an active addition selector passes exactly when
/// `z = x + y` in the field; for any other `z` — such as `x + y + 1` —
/// the checker reports exactly one failure, the addition constraint at
/// that row.
pub proof fn lemma_add_row_verdict(c: Circuit, cfg: ArithmeticConfig, x: Fp, y: Fp, z: Fp)
    requires
        c.wf(),
        c.rows == 1,
        c.gates@.len() == 2,
        c.gates@[0].selector == cfg.s_add,
        c.gates@[0].constraints@ == seq![
            add_constraint(cfg.advice[0], cfg.advice[1], cfg.advice[2]),
        ],
        c.gates@[1].selector == cfg.s_mul,
        c.gates@[1].constraints@ == seq![
            mul_constraint(cfg.advice[0], cfg.advice[1], cfg.advice[2]),
        ],
        c.active(cfg.s_add as int, 0),
        !c.active(cfg.s_mul as int, 0),
        c.value_at(cfg.advice[0], 0) == Some(x),
        c.value_at(cfg.advice[1], 0) == Some(y),
        c.value_at(cfg.advice[2], 0) == Some(z),
        x.wf(),
        y.wf(),
        z.wf(),
        c.copies@.len() == 0,
    ensures
        c.structurally_ok(),
        z.val() == f_add(x.val(), y.val()) ==> c.spec_failures() =~= Seq::<Failure>::empty(),
        z.val() != f_add(x.val(), y.val()) ==> c.spec_failures() =~= seq![
            c.constraint_failure(0, 0, 0),
        ],
{
    lemma_add_gate_exact(c, 0, 0, cfg.advice[0], cfg.advice[1], cfg.advice[2], x, y, z);
    crate::checker::lemma_one_row_two_gate_failures(c);
}

/// A one-row circuit holding only the two arithmetic gates, cells
/// `(x, y, z)` and an active multiplication selector passes exactly when
/// `z = x * y` in the field; for any other `z` the checker reports
/// exactly one failure, the multiplication constraint at that row.
pub proof fn lemma_mul_row_verdict(c: Circuit, cfg: ArithmeticConfig, x: Fp, y: Fp, z: Fp)
    requires
        c.wf(),
        c.rows == 1,
        c.gates@.len() == 2,
        c.gates@[0].selector == cfg.s_add,
        c.gates@[0].constraints@ == seq![
            add_constraint(cfg.advice[0], cfg.advice[1], cfg.advice[2]),
        ],
        c.gates@[1].selector == cfg.s_mul,
        c.gates@[1].constraints@ == seq![
            mul_constraint(cfg.advice[0], cfg.advice[1], cfg.advice[2]),
        ],
        !c.active(cfg.s_add as int, 0),
        c.active(cfg.s_mul as int, 0),
        c.value_at(cfg.advice[0], 0) == Some(x),
        c.value_at(cfg.advice[1], 0) == Some(y),
        c.value_at(cfg.advice[2], 0) == Some(z),
        x.wf(),
        y.wf(),
        z.wf(),
        c.copies@.len() == 0,
    ensures
        c.structurally_ok(),
        z.val() == f_mul(x.val(), y.val()) ==> c.spec_failures() =~= Seq::<Failure>::empty(),
        z.val() != f_mul(x.val(), y.val()) ==> c.spec_failures() =~= seq![
            c.constraint_failure(1, 0, 0),
        ],
{
    lemma_mul_gate_exact(c, 1, 0, cfg.advice[0], cfg.advice[1], cfg.advice[2], x, y, z);
    crate::checker::lemma_one_row_two_gate_failures(c);
}

} // verus!
