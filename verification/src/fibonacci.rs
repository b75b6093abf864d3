//! The chained-addition chip: one advice column whose rows satisfy
//! `a[r] + a[r+1] = a[r+2]`, seeded from the first two public inputs and
//! exposing the final cell as a public output through a copy constraint.
//!
//! The selector stays off for the last two rows: a gate at row `r`
//! reaches rows `r + 1` and `r + 2`, so the last row with an active
//! selector is `nrows - 3`. The final addition step is therefore left
//! unconstrained, deliberately; the copy constraint against
//! the instance column is what pins the final cell.

use vstd::prelude::*;
use vstd::string::StringExecFns;
use crate::field::{Fp, f_add};
use crate::expr::{ColKind, ColumnId, Cell, Expr};
use crate::circuit::{Circuit, AssignError};

verus! {

/// The `a[r] + a[r+1] - a[r+2]` polynomial of the chained addition gate.
pub open spec fn chain_constraint(advice: ColumnId) -> Expr {
    Expr::Sub(
        Box::new(Expr::Add(Box::new(Expr::Var(advice, 0)), Box::new(Expr::Var(advice, 1)))),
        Box::new(Expr::Var(advice, 2)),
    )
}

/// The value at position `n` of the chained addition sequence seeded by
/// `a` and `b`.
pub open spec fn fib_val(a: int, b: int, n: int) -> int
    decreases n
    when n >= 0
{
    if n <= 0 {
        a
    } else if n == 1 {
        b
    } else {
        f_add(fib_val(a, b, n - 2), fib_val(a, b, n - 1))
    }
}

/// The column, selector and gate the chip configures.
#[derive(Clone, Copy, Debug)]
pub struct FiboConfig {
    pub advice: ColumnId,
    pub selector: usize,
    pub instance: ColumnId,
    pub gate: usize,
}

/// An instance of the chip: holds only its configuration.
pub struct FiboChip {
    pub config: FiboConfig,
}

impl FiboChip {
    /// Pair a configuration with assignment behaviour.
    pub fn construct(config: FiboConfig) -> (r: FiboChip)
        ensures
            r.config == config,
    {
        FiboChip { config }
    }

    /// Declare the selector and register the chained addition gate.
    pub fn configure(c: &mut Circuit, advice: ColumnId, instance: ColumnId) -> (r: FiboConfig)
        requires
            old(c).wf(),
        ensures
            final(c).wf(),
            r.advice == advice,
            r.instance == instance,
            r.selector == old(c).selectors@.len(),
            final(c).selectors@.len() == old(c).selectors@.len() + 1,
            r.gate == old(c).gates@.len(),
            final(c).gates@.len() == old(c).gates@.len() + 1,
            final(c).gates@[r.gate as int].selector == r.selector,
            final(c).gates@[r.gate as int].constraints@ == seq![chain_constraint(advice)],
            final(c).gates@[r.gate as int].name@ == "add"@,
            forall|g: int| 0 <= g < old(c).gates@.len() ==> final(c).gates@[g] == old(c).gates@[g],
            forall|col: ColumnId, rr: int| #[trigger]
                final(c).value_at(col, rr) == old(c).value_at(col, rr),
            forall|s: int, rr: int| #[trigger] final(c).active(s, rr) == old(c).active(s, rr),
            final(c).copies@ == old(c).copies@,
            final(c).regions@ == old(c).regions@,
            final(c).rows == old(c).rows,
            final(c).advice@ == old(c).advice@,
            final(c).fixed@ == old(c).fixed@,
            final(c).instance@ == old(c).instance@,
    {
        let selector = c.new_selector();
        let e = Expr::var(advice, 0).add(Expr::var(advice, 1)).sub(Expr::var(advice, 2));
        let mut cs: Vec<Expr> = Vec::new();
        cs.push(e);
        let gate = c.add_gate(String::from_str("add"), selector, cs);
        FiboConfig { advice, selector, instance, gate }
    }

    /// Fill the whole table: copy the first two public inputs into rows 0
    /// and 1 (binding them by copy constraints), chain additions through
    /// row `nrows - 1`, and activate the selector on every row up to
    /// `nrows - 3`. Returns the final cell.
    pub fn assign(&self, c: &mut Circuit, nrows: usize) -> (r: Result<Cell, AssignError>)
        requires
            old(c).wf(),
            3 <= nrows < usize::MAX,
            old(c).writable(self.config.advice),
            self.config.instance.kind == ColKind::Instance,
            self.config.selector < old(c).selectors@.len(),
            old(c).value_at(self.config.instance, 0) is Some,
            old(c).value_at(self.config.instance, 1) is Some,
            forall|rr: int| 0 <= rr < nrows ==> old(c).value_at(self.config.advice, rr) is None,
            forall|rr: int| !old(c).active(self.config.selector as int, rr),
        ensures
            final(c).wf(),
            r is Ok,
            r matches Ok(cell) ==> cell == (Cell { column: self.config.advice, row: (nrows - 1) as usize }),
            forall|rr: int| 0 <= rr < nrows ==> match #[trigger] final(c).value_at(
                self.config.advice,
                rr,
            ) {
                Some(v) => v.val() == fib_val(
                    old(c).value_at(self.config.instance, 0)->0.val(),
                    old(c).value_at(self.config.instance, 1)->0.val(),
                    rr,
                ),
                None => false,
            },
            forall|rr: int| rr < 0 || rr >= nrows ==> #[trigger] final(c).value_at(
                self.config.advice,
                rr,
            ) == old(c).value_at(self.config.advice, rr),
            forall|col: ColumnId, rr: int| col != self.config.advice ==> #[trigger] final(c).value_at(col, rr) == old(c).value_at(col, rr),
            forall|rr: int| #[trigger]
                final(c).active(self.config.selector as int, rr) <==> 0 <= rr < nrows - 2,
            forall|s: int, rr: int| s != self.config.selector ==> #[trigger] final(c).active(
                s,
                rr,
            ) == old(c).active(s, rr),
            final(c).copies@ == old(c).copies@.push(
                (
                    Cell { column: self.config.advice, row: 0 },
                    Cell { column: self.config.instance, row: 0 },
                ),
            ).push(
                (
                    Cell { column: self.config.advice, row: 1 },
                    Cell { column: self.config.instance, row: 1 },
                ),
            ),
            final(c).gates@ == old(c).gates@,
            final(c).regions@.len() == old(c).regions@.len() + 1,
            forall|i: int| 0 <= i < old(c).regions@.len() ==> final(c).regions@[i]
                == old(c).regions@[i],
            final(c).regions@.last().name@ == "entire table"@,
            final(c).regions@.last().start == 0,
            final(c).regions@.last().len == nrows,
            final(c).selectors@.len() == old(c).selectors@.len(),
            final(c).advice@.len() == old(c).advice@.len(),
            final(c).fixed@.len() == old(c).fixed@.len(),
            final(c).instance@ == old(c).instance@,
            final(c).rows == if nrows > old(c).rows {
                nrows as int
            } else {
                old(c).rows as int
            },
    {
        let ghost i0: int = old(c).value_at(self.config.instance, 0)->0.val();
        let ghost i1: int = old(c).value_at(self.config.instance, 1)->0.val();
        c.note_region(String::from_str("entire table"), 0, nrows);
        let mut srow: usize = 0;
        while srow < nrows - 2
            invariant
                c.wf(),
                3 <= nrows < usize::MAX,
                0 <= srow <= nrows - 2,
                self.config.selector < c.selectors@.len(),
                c.selectors@.len() == old(c).selectors@.len(),
                c.writable(self.config.advice),
                forall|rr: int| #[trigger] c.active(self.config.selector as int, rr) <==> 0 <= rr
                    < srow,
                forall|s: int, rr: int| s != self.config.selector ==> #[trigger] c.active(s, rr)
                    == old(c).active(s, rr),
                forall|col: ColumnId, rr: int| #[trigger] c.value_at(col, rr) == old(c).value_at(col, rr),
                c.gates@ == old(c).gates@,
                c.copies@ == old(c).copies@,
                c.regions@.len() == old(c).regions@.len() + 1,
                forall|i: int| 0 <= i < old(c).regions@.len() ==> c.regions@[i]
                    == old(c).regions@[i],
                c.regions@.last().name@ == "entire table"@,
                c.regions@.last().start == 0,
                c.regions@.last().len == nrows,
                c.advice@.len() == old(c).advice@.len(),
                c.fixed@.len() == old(c).fixed@.len(),
                c.instance@ == old(c).instance@,
                old(c).rows <= c.rows,
                c.rows <= if nrows > old(c).rows {
                    nrows as int
                } else {
                    old(c).rows as int
                },
            decreases nrows - 2 - srow,
        {
            let res = c.enable(self.config.selector, srow);
            proof {
                assert(res is Ok);
            }
            srow = srow + 1;
        }
        let a_cell = match c.assign_from_public_input(
            self.config.instance,
            0,
            self.config.advice,
            0,
        ) {
            Ok(cell) => cell,
            Err(_) => {
                proof {
                    assert(false);
                }
                return Err(AssignError::NotAssignable { column: self.config.advice });
            },
        };
        let b_cell = match c.assign_from_public_input(
            self.config.instance,
            1,
            self.config.advice,
            1,
        ) {
            Ok(cell) => cell,
            Err(_) => {
                proof {
                    assert(false);
                }
                return Err(AssignError::NotAssignable { column: self.config.advice });
            },
        };
        let mut va = match c.read(self.config.advice, 0) {
            Some(v) => v,
            None => {
                proof {
                    assert(false);
                }
                return Err(AssignError::NotAssignable { column: self.config.advice });
            },
        };
        let mut vb = match c.read(self.config.advice, 1) {
            Some(v) => v,
            None => {
                proof {
                    assert(false);
                }
                return Err(AssignError::NotAssignable { column: self.config.advice });
            },
        };
        let mut row: usize = 2;
        let mut last = b_cell;
        while row < nrows
            invariant
                c.wf(),
                3 <= nrows < usize::MAX,
                2 <= row <= nrows,
                self.config.instance.kind == ColKind::Instance,
                c.writable(self.config.advice),
                c.selectors@.len() == old(c).selectors@.len(),
                va.wf(),
                vb.wf(),
                va.val() == fib_val(i0, i1, row - 2),
                vb.val() == fib_val(i0, i1, row - 1),
                last == (Cell { column: self.config.advice, row: (row - 1) as usize }),
                forall|rr: int| 0 <= rr < row ==> match #[trigger] c.value_at(
                    self.config.advice,
                    rr,
                ) {
                    Some(v) => v.wf() && v.val() == fib_val(i0, i1, rr),
                    None => false,
                },
                forall|rr: int| row <= rr < nrows ==> #[trigger] c.value_at(
                    self.config.advice,
                    rr,
                ) is None,
                forall|rr: int| rr < 0 || rr >= nrows ==> #[trigger] c.value_at(
                    self.config.advice,
                    rr,
                ) == old(c).value_at(self.config.advice, rr),
                forall|col: ColumnId, rr: int| col != self.config.advice ==> #[trigger]
                    c.value_at(col, rr) == old(c).value_at(col, rr),
                forall|rr: int| #[trigger] c.active(self.config.selector as int, rr) <==> 0 <= rr
                    < nrows - 2,
                forall|s: int, rr: int| s != self.config.selector ==> #[trigger] c.active(s, rr)
                    == old(c).active(s, rr),
                c.gates@ == old(c).gates@,
                c.copies@ == old(c).copies@.push(
                    (
                        Cell { column: self.config.advice, row: 0 },
                        Cell { column: self.config.instance, row: 0 },
                    ),
                ).push(
                    (
                        Cell { column: self.config.advice, row: 1 },
                        Cell { column: self.config.instance, row: 1 },
                    ),
                ),
                c.regions@.len() == old(c).regions@.len() + 1,
                forall|i: int| 0 <= i < old(c).regions@.len() ==> c.regions@[i]
                    == old(c).regions@[i],
                c.regions@.last().name@ == "entire table"@,
                c.regions@.last().start == 0,
                c.regions@.last().len == nrows,
                c.advice@.len() == old(c).advice@.len(),
                c.fixed@.len() == old(c).fixed@.len(),
                c.instance@ == old(c).instance@,
                old(c).rows <= c.rows,
                row > 2 ==> c.rows >= row,
                c.rows <= if nrows > old(c).rows {
                    nrows as int
                } else {
                    old(c).rows as int
                },
            decreases nrows - row,
        {
            let cv = va.add(vb);
            let cell = match c.assign(self.config.advice, row, cv) {
                Ok(cell) => cell,
                Err(_) => {
                    proof {
                        assert(false);
                    }
                    return Err(AssignError::NotAssignable { column: self.config.advice });
                },
            };
            va = vb;
            vb = cv;
            last = cell;
            row = row + 1;
        }
        Ok(last)
    }

    /// Bind a computed cell to a public-input cell of the instance
    /// column, asserting the result as a public output.
    pub fn expose_public(&self, c: &mut Circuit, cell: Cell, row: usize)
        requires
            old(c).wf(),
        ensures
            final(c).wf(),
            final(c).copies@ == old(c).copies@.push(
                (cell, Cell { column: self.config.instance, row }),
            ),
            final(c).gates@ == old(c).gates@,
            final(c).regions@ == old(c).regions@,
            final(c).rows == old(c).rows,
            final(c).selectors@ == old(c).selectors@,
            forall|col: ColumnId, rr: int| #[trigger]
                final(c).value_at(col, rr) == old(c).value_at(col, rr),
            forall|s: int, rr: int| #[trigger] final(c).active(s, rr) == old(c).active(s, rr),
    {
        c.equate(cell, Cell { column: self.config.instance, row });
    }
}

} // verus!
