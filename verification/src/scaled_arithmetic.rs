//! An arithmetic chip with fixed-column constants: besides the addition
//! and multiplication gates over three advice columns, it offers
//! addition and multiplication against a constant held in a fixed
//! column, so a circuit can fold in configure-time values without
//! spending an advice cell on them.

use vstd::prelude::*;
use vstd::string::StringExecFns;
use crate::field::{Fp, f_add, f_mul};
use crate::expr::{ColumnId, Cell, Expr};
use crate::circuit::{Circuit, AssignError};

verus! {

/// The `a + k - out` polynomial over an advice, a fixed and an advice
/// column.
pub open spec fn add_const_constraint(a0: ColumnId, k: ColumnId, a2: ColumnId) -> Expr {
    Expr::Sub(
        Box::new(Expr::Add(Box::new(Expr::Var(a0, 0)), Box::new(Expr::Var(k, 0)))),
        Box::new(Expr::Var(a2, 0)),
    )
}

/// The `a * k - out` polynomial over an advice, a fixed and an advice
/// column.
pub open spec fn mul_const_constraint(a0: ColumnId, k: ColumnId, a2: ColumnId) -> Expr {
    Expr::Sub(
        Box::new(Expr::Mul(Box::new(Expr::Var(a0, 0)), Box::new(Expr::Var(k, 0)))),
        Box::new(Expr::Var(a2, 0)),
    )
}

/// The columns, selectors and gates the chip configures.
#[derive(Clone, Copy, Debug)]
pub struct ScaledArithmeticConfig {
    pub advice: [ColumnId; 3],
    pub instance: ColumnId,
    pub constant: ColumnId,
    pub s_add: usize,
    pub s_mul: usize,
    pub s_add_c: usize,
    pub s_mul_c: usize,
    pub gate_add: usize,
    pub gate_mul: usize,
    pub gate_add_c: usize,
    pub gate_mul_c: usize,
}

/// An instance of the chip: holds only its configuration.
pub struct ScaledArithmeticChip {
    pub config: ScaledArithmeticConfig,
}

impl ScaledArithmeticChip {
    /// Pair a configuration with assignment behaviour.
    pub fn construct(config: ScaledArithmeticConfig) -> (r: ScaledArithmeticChip)
        ensures
            r.config == config,
    {
        ScaledArithmeticChip { config }
    }

    /// Declare the four selectors and register the four gates: addition
    /// and multiplication over the advice columns, and addition and
    /// multiplication against the fixed column.
    pub fn configure(
        c: &mut Circuit,
        advice: [ColumnId; 3],
        instance: ColumnId,
        constant: ColumnId,
    ) -> (r: ScaledArithmeticConfig)
        requires
            old(c).wf(),
        ensures
            final(c).wf(),
            r.advice == advice,
            r.instance == instance,
            r.constant == constant,
            r.s_add == old(c).selectors@.len(),
            r.s_mul == old(c).selectors@.len() + 1,
            r.s_add_c == old(c).selectors@.len() + 2,
            r.s_mul_c == old(c).selectors@.len() + 3,
            final(c).selectors@.len() == old(c).selectors@.len() + 4,
            r.gate_add == old(c).gates@.len(),
            r.gate_mul == old(c).gates@.len() + 1,
            r.gate_add_c == old(c).gates@.len() + 2,
            r.gate_mul_c == old(c).gates@.len() + 3,
            final(c).gates@.len() == old(c).gates@.len() + 4,
            final(c).gates@[r.gate_add as int].selector == r.s_add,
            final(c).gates@[r.gate_add as int].constraints@ == seq![
                crate::arithmetic::add_constraint(advice[0], advice[1], advice[2]),
            ],
            final(c).gates@[r.gate_mul as int].selector == r.s_mul,
            final(c).gates@[r.gate_mul as int].constraints@ == seq![
                crate::arithmetic::mul_constraint(advice[0], advice[1], advice[2]),
            ],
            final(c).gates@[r.gate_add_c as int].selector == r.s_add_c,
            final(c).gates@[r.gate_add_c as int].constraints@ == seq![
                add_const_constraint(advice[0], constant, advice[2]),
            ],
            final(c).gates@[r.gate_mul_c as int].selector == r.s_mul_c,
            final(c).gates@[r.gate_mul_c as int].constraints@ == seq![
                mul_const_constraint(advice[0], constant, advice[2]),
            ],
            forall|g: int| 0 <= g < old(c).gates@.len() ==> final(c).gates@[g] == old(c).gates@[g],
            forall|col: ColumnId, rr: int| #[trigger]
                final(c).value_at(col, rr) == old(c).value_at(col, rr),
            forall|s: int, rr: int| #[trigger] final(c).active(s, rr) == old(c).active(s, rr),
            final(c).copies@ == old(c).copies@,
            final(c).regions@ == old(c).regions@,
            final(c).rows == old(c).rows,
            final(c).advice@ == old(c).advice@,
            final(c).fixed@ == old(c).fixed@,
            final(c).instance@ == old(c).instance@,
    {
        let s_add = c.new_selector();
        let s_mul = c.new_selector();
        let s_add_c = c.new_selector();
        let s_mul_c = c.new_selector();
        let mut add_cs: Vec<Expr> = Vec::new();
        add_cs.push(Expr::var(advice[0], 0).add(Expr::var(advice[1], 0)).sub(Expr::var(advice[2], 0)));
        let gate_add = c.add_gate(String::from_str("add"), s_add, add_cs);
        let mut mul_cs: Vec<Expr> = Vec::new();
        mul_cs.push(Expr::var(advice[0], 0).mul(Expr::var(advice[1], 0)).sub(Expr::var(advice[2], 0)));
        let gate_mul = c.add_gate(String::from_str("mul"), s_mul, mul_cs);
        let mut addc_cs: Vec<Expr> = Vec::new();
        addc_cs.push(Expr::var(advice[0], 0).add(Expr::var(constant, 0)).sub(Expr::var(advice[2], 0)));
        let gate_add_c = c.add_gate(String::from_str("add with constant"), s_add_c, addc_cs);
        let mut mulc_cs: Vec<Expr> = Vec::new();
        mulc_cs.push(Expr::var(advice[0], 0).mul(Expr::var(constant, 0)).sub(Expr::var(advice[2], 0)));
        let gate_mul_c = c.add_gate(String::from_str("mul with constant"), s_mul_c, mulc_cs);
        ScaledArithmeticConfig {
            advice,
            instance,
            constant,
            s_add,
            s_mul,
            s_add_c,
            s_mul_c,
            gate_add,
            gate_mul,
            gate_add_c,
            gate_mul_c,
        }
    }

    /// Fill one addition row: witness `a` and `b`, compute `a + b` into
    /// the output cell, and activate the addition selector there.
    pub fn assign_add(&self, c: &mut Circuit, row: usize, a: Fp, b: Fp) -> (r: Result<
        (Cell, Cell, Cell),
        AssignError,
    >)
        requires
            old(c).wf(),
            a.wf(),
            b.wf(),
            row < usize::MAX,
            old(c).writable(self.config.advice[0]),
            old(c).writable(self.config.advice[1]),
            old(c).writable(self.config.advice[2]),
            self.config.advice[0] != self.config.advice[1],
            self.config.advice[0] != self.config.advice[2],
            self.config.advice[1] != self.config.advice[2],
            self.config.s_add < old(c).selectors@.len(),
            old(c).value_at(self.config.advice[0], row as int) is None,
            old(c).value_at(self.config.advice[1], row as int) is None,
            old(c).value_at(self.config.advice[2], row as int) is None,
        ensures
            final(c).wf(),
            r is Ok,
            match r {
                Ok((ca, cb, cc)) => {
                    &&& ca == (Cell { column: self.config.advice[0], row })
                    &&& cb == (Cell { column: self.config.advice[1], row })
                    &&& cc == (Cell { column: self.config.advice[2], row })
                    &&& final(c).value_at(self.config.advice[0], row as int) == Some(a)
                    &&& final(c).value_at(self.config.advice[1], row as int) == Some(b)
                    &&& match final(c).value_at(self.config.advice[2], row as int) {
                        Some(v) => v.val() == f_add(a.val(), b.val()),
                        None => false,
                    }
                    &&& final(c).active(self.config.s_add as int, row as int)
                    &&& forall|s: int, rr: int| !(s == self.config.s_add && rr == row as int)
                        ==> #[trigger] final(c).active(s, rr) == old(c).active(s, rr)
                    &&& forall|col: ColumnId, rr: int|
                        !(col == self.config.advice[0] && rr == row as int) && !(col
                            == self.config.advice[1] && rr == row as int) && !(col
                            == self.config.advice[2] && rr == row as int) ==> #[trigger] final(c).value_at(col, rr) == old(c).value_at(col, rr)
                    &&& final(c).gates@ == old(c).gates@
                    &&& final(c).copies@ == old(c).copies@
                    &&& final(c).regions@.len() == old(c).regions@.len() + 1
                    &&& forall|i: int| 0 <= i < old(c).regions@.len() ==> final(c).regions@[i]
                        == old(c).regions@[i]
                    &&& final(c).regions@.last().name@ == "add"@
                    &&& final(c).regions@.last().start == row
                    &&& final(c).regions@.last().len == 1
                    &&& final(c).selectors@.len() == old(c).selectors@.len()
                    &&& final(c).advice@.len() == old(c).advice@.len()
                    &&& final(c).fixed@.len() == old(c).fixed@.len()
                    &&& final(c).instance@ == old(c).instance@
                },
                Err(_) => false,
            },
    {
        c.note_region(String::from_str("add"), row, 1);
        let res = c.enable(self.config.s_add, row);
        proof {
            assert(res is Ok);
        }
        let ca = match c.assign(self.config.advice[0], row, a) {
            Ok(cell) => cell,
            Err(e) => {
                return Err(e);
            },
        };
        let cb = match c.assign(self.config.advice[1], row, b) {
            Ok(cell) => cell,
            Err(e) => {
                return Err(e);
            },
        };
        let cc = match c.assign(self.config.advice[2], row, a.add(b)) {
            Ok(cell) => cell,
            Err(e) => {
                return Err(e);
            },
        };
        Ok((ca, cb, cc))
    }

    /// Fill one multiplication row: witness `a` and `b`, compute `a * b`
    /// into the output cell, and activate the multiplication selector
    /// there.
    pub fn assign_mul(&self, c: &mut Circuit, row: usize, a: Fp, b: Fp) -> (r: Result<
        (Cell, Cell, Cell),
        AssignError,
    >)
        requires
            old(c).wf(),
            a.wf(),
            b.wf(),
            row < usize::MAX,
            old(c).writable(self.config.advice[0]),
            old(c).writable(self.config.advice[1]),
            old(c).writable(self.config.advice[2]),
            self.config.advice[0] != self.config.advice[1],
            self.config.advice[0] != self.config.advice[2],
            self.config.advice[1] != self.config.advice[2],
            self.config.s_mul < old(c).selectors@.len(),
            old(c).value_at(self.config.advice[0], row as int) is None,
            old(c).value_at(self.config.advice[1], row as int) is None,
            old(c).value_at(self.config.advice[2], row as int) is None,
        ensures
            final(c).wf(),
            r is Ok,
            match r {
                Ok((ca, cb, cc)) => {
                    &&& ca == (Cell { column: self.config.advice[0], row })
                    &&& cb == (Cell { column: self.config.advice[1], row })
                    &&& cc == (Cell { column: self.config.advice[2], row })
                    &&& final(c).value_at(self.config.advice[0], row as int) == Some(a)
                    &&& final(c).value_at(self.config.advice[1], row as int) == Some(b)
                    &&& match final(c).value_at(self.config.advice[2], row as int) {
                        Some(v) => v.val() == f_mul(a.val(), b.val()),
                        None => false,
                    }
                    &&& final(c).active(self.config.s_mul as int, row as int)
                    &&& forall|s: int, rr: int| !(s == self.config.s_mul && rr == row as int)
                        ==> #[trigger] final(c).active(s, rr) == old(c).active(s, rr)
                    &&& forall|col: ColumnId, rr: int|
                        !(col == self.config.advice[0] && rr == row as int) && !(col
                            == self.config.advice[1] && rr == row as int) && !(col
                            == self.config.advice[2] && rr == row as int) ==> #[trigger] final(c).value_at(col, rr) == old(c).value_at(col, rr)
                    &&& final(c).gates@ == old(c).gates@
                    &&& final(c).copies@ == old(c).copies@
                    &&& final(c).regions@.len() == old(c).regions@.len() + 1
                    &&& forall|i: int| 0 <= i < old(c).regions@.len() ==> final(c).regions@[i]
                        == old(c).regions@[i]
                    &&& final(c).regions@.last().name@ == "mul"@
                    &&& final(c).regions@.last().start == row
                    &&& final(c).regions@.last().len == 1
                    &&& final(c).selectors@.len() == old(c).selectors@.len()
                    &&& final(c).advice@.len() == old(c).advice@.len()
                    &&& final(c).fixed@.len() == old(c).fixed@.len()
                    &&& final(c).instance@ == old(c).instance@
                },
                Err(_) => false,
            },
    {
        c.note_region(String::from_str("mul"), row, 1);
        let res = c.enable(self.config.s_mul, row);
        proof {
            assert(res is Ok);
        }
        let ca = match c.assign(self.config.advice[0], row, a) {
            Ok(cell) => cell,
            Err(e) => {
                return Err(e);
            },
        };
        let cb = match c.assign(self.config.advice[1], row, b) {
            Ok(cell) => cell,
            Err(e) => {
                return Err(e);
            },
        };
        let cc = match c.assign(self.config.advice[2], row, a.mul(b)) {
            Ok(cell) => cell,
            Err(e) => {
                return Err(e);
            },
        };
        Ok((ca, cb, cc))
    }

    /// Fill one addition-with-constant row: witness `a` in the first
    /// advice column, fix `k` in the fixed column, compute `a + k` into
    /// the output cell, and activate its selector there.
    pub fn assign_add_const(&self, c: &mut Circuit, row: usize, a: Fp, k: Fp) -> (r: Result<
        (Cell, Cell),
        AssignError,
    >)
        requires
            old(c).wf(),
            a.wf(),
            k.wf(),
            row < usize::MAX,
            old(c).writable(self.config.advice[0]),
            old(c).writable(self.config.advice[2]),
            old(c).writable(self.config.constant),
            self.config.advice[0] != self.config.advice[2],
            self.config.advice[0] != self.config.constant,
            self.config.advice[2] != self.config.constant,
            self.config.s_add_c < old(c).selectors@.len(),
            old(c).value_at(self.config.advice[0], row as int) is None,
            old(c).value_at(self.config.advice[2], row as int) is None,
            old(c).value_at(self.config.constant, row as int) is None,
        ensures
            final(c).wf(),
            r is Ok,
            match r {
                Ok((ca, cc)) => {
                    &&& ca == (Cell { column: self.config.advice[0], row })
                    &&& cc == (Cell { column: self.config.advice[2], row })
                    &&& final(c).value_at(self.config.advice[0], row as int) == Some(a)
                    &&& final(c).value_at(self.config.constant, row as int) == Some(k)
                    &&& match final(c).value_at(self.config.advice[2], row as int) {
                        Some(v) => v.val() == f_add(a.val(), k.val()),
                        None => false,
                    }
                    &&& final(c).active(self.config.s_add_c as int, row as int)
                    &&& forall|s: int, rr: int| !(s == self.config.s_add_c && rr == row as int)
                        ==> #[trigger] final(c).active(s, rr) == old(c).active(s, rr)
                    &&& forall|col: ColumnId, rr: int|
                        !(col == self.config.advice[0] && rr == row as int) && !(col
                            == self.config.advice[2] && rr == row as int) && !(col
                            == self.config.constant && rr == row as int) ==> #[trigger] final(c).value_at(col, rr) == old(c).value_at(col, rr)
                    &&& final(c).gates@ == old(c).gates@
                    &&& final(c).copies@ == old(c).copies@
                    &&& final(c).regions@.len() == old(c).regions@.len() + 1
                    &&& forall|i: int| 0 <= i < old(c).regions@.len() ==> final(c).regions@[i]
                        == old(c).regions@[i]
                    &&& final(c).regions@.last().name@ == "add with constant"@
                    &&& final(c).regions@.last().start == row
                    &&& final(c).regions@.last().len == 1
                    &&& final(c).selectors@.len() == old(c).selectors@.len()
                    &&& final(c).advice@.len() == old(c).advice@.len()
                    &&& final(c).fixed@.len() == old(c).fixed@.len()
                    &&& final(c).instance@ == old(c).instance@
                },
                Err(_) => false,
            },
    {
        c.note_region(String::from_str("add with constant"), row, 1);
        let res = c.enable(self.config.s_add_c, row);
        proof {
            assert(res is Ok);
        }
        let ca = match c.assign(self.config.advice[0], row, a) {
            Ok(cell) => cell,
            Err(e) => {
                return Err(e);
            },
        };
        match c.assign(self.config.constant, row, k) {
            Ok(_) => {},
            Err(_) => {
                proof {
                    assert(false);
                }
            },
        }
        let cc = match c.assign(self.config.advice[2], row, a.add(k)) {
            Ok(cell) => cell,
            Err(e) => {
                return Err(e);
            },
        };
        Ok((ca, cc))
    }

    /// Fill one multiplication-with-constant row: witness `a`, fix `k`,
    /// compute `a * k` into the output cell, and activate its selector
    /// there.
    pub fn assign_mul_const(&self, c: &mut Circuit, row: usize, a: Fp, k: Fp) -> (r: Result<
        (Cell, Cell),
        AssignError,
    >)
        requires
            old(c).wf(),
            a.wf(),
            k.wf(),
            row < usize::MAX,
            old(c).writable(self.config.advice[0]),
            old(c).writable(self.config.advice[2]),
            old(c).writable(self.config.constant),
            self.config.advice[0] != self.config.advice[2],
            self.config.advice[0] != self.config.constant,
            self.config.advice[2] != self.config.constant,
            self.config.s_mul_c < old(c).selectors@.len(),
            old(c).value_at(self.config.advice[0], row as int) is None,
            old(c).value_at(self.config.advice[2], row as int) is None,
            old(c).value_at(self.config.constant, row as int) is None,
        ensures
            final(c).wf(),
            r is Ok,
            match r {
                Ok((ca, cc)) => {
                    &&& ca == (Cell { column: self.config.advice[0], row })
                    &&& cc == (Cell { column: self.config.advice[2], row })
                    &&& final(c).value_at(self.config.advice[0], row as int) == Some(a)
                    &&& final(c).value_at(self.config.constant, row as int) == Some(k)
                    &&& match final(c).value_at(self.config.advice[2], row as int) {
                        Some(v) => v.val() == f_mul(a.val(), k.val()),
                        None => false,
                    }
                    &&& final(c).active(self.config.s_mul_c as int, row as int)
                    &&& forall|s: int, rr: int| !(s == self.config.s_mul_c && rr == row as int)
                        ==> #[trigger] final(c).active(s, rr) == old(c).active(s, rr)
                    &&& forall|col: ColumnId, rr: int|
                        !(col == self.config.advice[0] && rr == row as int) && !(col
                            == self.config.advice[2] && rr == row as int) && !(col
                            == self.config.constant && rr == row as int) ==> #[trigger] final(c).value_at(col, rr) == old(c).value_at(col, rr)
                    &&& final(c).gates@ == old(c).gates@
                    &&& final(c).copies@ == old(c).copies@
                    &&& final(c).regions@.len() == old(c).regions@.len() + 1
                    &&& forall|i: int| 0 <= i < old(c).regions@.len() ==> final(c).regions@[i]
                        == old(c).regions@[i]
                    &&& final(c).regions@.last().name@ == "mul with constant"@
                    &&& final(c).regions@.last().start == row
                    &&& final(c).regions@.last().len == 1
                    &&& final(c).selectors@.len() == old(c).selectors@.len()
                    &&& final(c).advice@.len() == old(c).advice@.len()
                    &&& final(c).fixed@.len() == old(c).fixed@.len()
                    &&& final(c).instance@ == old(c).instance@
                },
                Err(_) => false,
            },
    {
        c.note_region(String::from_str("mul with constant"), row, 1);
        let res = c.enable(self.config.s_mul_c, row);
        proof {
            assert(res is Ok);
        }
        let ca = match c.assign(self.config.advice[0], row, a) {
            Ok(cell) => cell,
            Err(e) => {
                return Err(e);
            },
        };
        match c.assign(self.config.constant, row, k) {
            Ok(_) => {},
            Err(_) => {
                proof {
                    assert(false);
                }
            },
        }
        let cc = match c.assign(self.config.advice[2], row, a.mul(k)) {
            Ok(cell) => cell,
            Err(e) => {
                return Err(e);
            },
        };
        Ok((ca, cc))
    }
}

} // verus!
