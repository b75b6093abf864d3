//! The circuit under construction: column storage, selectors, gates, copy
//! constraints, regions and public inputs.
//!
//! A `Circuit` is populated in one pass — declare columns, selectors and
//! gates, then assign values and enable selectors — and is then sealed for
//! checking. A cell may be written at most once: writing a different value
//! to an already-assigned cell is a configuration error, writing the same
//! value again is permitted.

use vstd::prelude::*;
use crate::field::{Fp, f_add, f_sub, f_mul, f_neg};
use crate::expr::{ColKind, ColumnId, Cell, Expr};

verus! {

/// A named list of polynomial constraints, applied wherever its selector
/// is active.
#[derive(Debug)]
pub struct Gate {
    pub name: String,
    pub selector: usize,
    pub constraints: Vec<Expr>,
}

/// A named, bounded span of rows; purely reporting metadata.
#[derive(Clone, Debug)]
pub struct Region {
    pub name: String,
    pub start: usize,
    pub len: usize,
}

/// An error of circuit construction: a malformed write, not a failing
/// witness.
#[derive(Clone, Copy, PartialEq, Eq, Structural, Debug)]
pub enum AssignError {
    /// The cell already holds a different value.
    AlreadyAssignedDifferentValue { cell: Cell },
    /// The column is not a declared advice or fixed column.
    NotAssignable { column: ColumnId },
    /// The public-input vector has no entry at the requested index.
    MissingPublicInput { column: ColumnId, index: usize },
    /// The selector was never declared.
    UnknownSelector { selector: usize },
}

/// A structural fault found while evaluating: a malformed circuit, not a
/// failing witness.
#[derive(Clone, Copy, PartialEq, Eq, Structural, Debug)]
pub enum StructuralError {
    /// A gate reference resolved to a row beyond the table bounds.
    RowOutOfBounds { column: ColumnId, row: usize, offset: usize },
    /// A cell was read that no assignment ever wrote.
    UnassignedCell { cell: Cell },
}

/// The witness/fixed/public storage together with the declared selectors,
/// gates, copy constraints and regions.
pub struct Circuit {
    pub advice: Vec<Vec<Option<Fp>>>,
    pub fixed: Vec<Vec<Option<Fp>>>,
    pub instance: Vec<Vec<Fp>>,
    pub selectors: Vec<Vec<bool>>,
    pub gates: Vec<Gate>,
    pub copies: Vec<(Cell, Cell)>,
    pub regions: Vec<Region>,
    /// One past the last row any assignment or selector touched.
    pub rows: usize,
}

impl Circuit {
    /// The value a cell holds, or `None` where nothing was ever assigned
    /// (an undeclared column and an out-of-range row hold nothing).
    pub open spec fn value_at(self, col: ColumnId, row: int) -> Option<Fp> {
        match col.kind {
            ColKind::Advice => if 0 <= row && col.index < self.advice@.len()
                && row < self.advice@[col.index as int]@.len() {
                self.advice@[col.index as int]@[row]
            } else {
                None
            },
            ColKind::Fixed => if 0 <= row && col.index < self.fixed@.len()
                && row < self.fixed@[col.index as int]@.len() {
                self.fixed@[col.index as int]@[row]
            } else {
                None
            },
            ColKind::Instance => if 0 <= row && col.index < self.instance@.len()
                && row < self.instance@[col.index as int]@.len() {
                Some(self.instance@[col.index as int]@[row])
            } else {
                None
            },
        }
    }

    /// Whether a selector flag is set at a row; an undeclared selector is
    /// never active.
    pub open spec fn active(self, sel: int, row: int) -> bool {
        0 <= sel < self.selectors@.len() && 0 <= row < self.selectors@[sel]@.len()
            && self.selectors@[sel]@[row]
    }

    /// The column may be written: a declared advice or fixed column.
    pub open spec fn writable(self, col: ColumnId) -> bool {
        match col.kind {
            ColKind::Advice => col.index < self.advice@.len(),
            ColKind::Fixed => col.index < self.fixed@.len(),
            ColKind::Instance => false,
        }
    }

    /// No column or selector storage reaches past `rows`.
    pub open spec fn lens_ok(self) -> bool {
        &&& forall|i: int| 0 <= i < self.advice@.len() ==> (#[trigger] self.advice@[i])@.len()
            <= self.rows
        &&& forall|i: int| 0 <= i < self.fixed@.len() ==> (#[trigger] self.fixed@[i])@.len()
            <= self.rows
        &&& forall|i: int| 0 <= i < self.instance@.len() ==> (#[trigger] self.instance@[i])@.len()
            <= self.rows
        &&& forall|i: int| 0 <= i < self.selectors@.len() ==> (#[trigger] self.selectors@[i])@.len()
            <= self.rows
    }

    /// Every stored value is a reduced residue.
    pub open spec fn values_wf(self) -> bool {
        forall|col: ColumnId, row: int| match #[trigger] self.value_at(col, row) {
            Some(v) => v.wf(),
            None => true,
        }
    }

    /// Every gate constraint is a well-formed expression.
    pub open spec fn gates_wf(self) -> bool {
        forall|g: int, c: int| 0 <= g < self.gates@.len()
            && 0 <= c < self.gates@[g].constraints@.len()
            ==> (#[trigger] self.gates@[g].constraints@[c]).wf()
    }

    /// Internal consistency of the whole circuit.
    pub open spec fn wf(self) -> bool {
        self.lens_ok() && self.values_wf() && self.gates_wf()
    }

    /// The value a gate expression takes at a row, or `None` on a
    /// structural fault (an unassigned or out-of-bounds reference).
    pub open spec fn eval_spec(self, e: Expr, row: int) -> Option<int>
        decreases e,
    {
        match e {
            Expr::Const(k) => Some(k.val()),
            Expr::Var(col, off) => match self.value_at(col, row + off as int) {
                Some(v) => Some(v.val()),
                None => None,
            },
            Expr::Neg(a) => match self.eval_spec(*a, row) {
                Some(v) => Some(f_neg(v)),
                None => None,
            },
            Expr::Add(a, b) => match (self.eval_spec(*a, row), self.eval_spec(*b, row)) {
                (Some(x), Some(y)) => Some(f_add(x, y)),
                _ => None,
            },
            Expr::Sub(a, b) => match (self.eval_spec(*a, row), self.eval_spec(*b, row)) {
                (Some(x), Some(y)) => Some(f_sub(x, y)),
                _ => None,
            },
            Expr::Mul(a, b) => match (self.eval_spec(*a, row), self.eval_spec(*b, row)) {
                (Some(x), Some(y)) => Some(f_mul(x, y)),
                _ => None,
            },
        }
    }

    /// The reported structural fault names a real one.
    pub open spec fn genuine_structural(self, e: StructuralError) -> bool {
        match e {
            StructuralError::RowOutOfBounds { column, row, offset } => row + offset >= self.rows,
            StructuralError::UnassignedCell { cell } => self.value_at(cell.column, cell.row as int)
                is None,
        }
    }

    /// An empty circuit: no columns, selectors, gates, copies or regions.
    pub fn new() -> (r: Circuit)
        ensures
            r.wf(),
            r.advice@.len() == 0,
            r.fixed@.len() == 0,
            r.instance@.len() == 0,
            r.selectors@.len() == 0,
            r.gates@.len() == 0,
            r.copies@.len() == 0,
            r.regions@.len() == 0,
            r.rows == 0,
    {
        Circuit {
            advice: Vec::new(),
            fixed: Vec::new(),
            instance: Vec::new(),
            selectors: Vec::new(),
            gates: Vec::new(),
            copies: Vec::new(),
            regions: Vec::new(),
            rows: 0,
        }
    }

    /// Declare a fresh advice or fixed column; an instance column is
    /// declared together with its public-input vector by
    /// `declare_instance`.
    pub fn declare_column(&mut self, kind: ColKind) -> (r: ColumnId)
        requires
            old(self).wf(),
            kind != ColKind::Instance,
        ensures
            final(self).wf(),
            r.kind == kind,
            kind == ColKind::Advice ==> r.index == old(self).advice@.len()
                && final(self).advice@.len() == old(self).advice@.len() + 1
                && final(self).fixed@ == old(self).fixed@,
            kind == ColKind::Fixed ==> r.index == old(self).fixed@.len()
                && final(self).fixed@.len() == old(self).fixed@.len() + 1
                && final(self).advice@ == old(self).advice@,
            final(self).instance@ == old(self).instance@,
            final(self).selectors@ == old(self).selectors@,
            final(self).gates@ == old(self).gates@,
            final(self).copies@ == old(self).copies@,
            final(self).regions@ == old(self).regions@,
            final(self).rows == old(self).rows,
            forall|c: ColumnId, rr: int| #[trigger] final(self).value_at(c, rr) == old(self).value_at(c, rr),
            forall|s: int, rr: int| #[trigger] final(self).active(s, rr) == old(self).active(s, rr),
    {
        match kind {
            ColKind::Advice => {
                let idx = self.advice.len();
                self.advice.push(Vec::new());
                proof {
                    lemma_active_congr(*self, *old(self));
                    assert forall|c: ColumnId, rr: int|
                        #[trigger] self.value_at(c, rr) == old(self).value_at(c, rr) by {
                        if c.kind == ColKind::Advice && c.index == idx {
                            assert(self.advice@[c.index as int]@.len() == 0);
                        }
                    }
                }
                ColumnId { kind, index: idx }
            },
            _ => {
                let idx = self.fixed.len();
                self.fixed.push(Vec::new());
                proof {
                    lemma_active_congr(*self, *old(self));
                    assert forall|c: ColumnId, rr: int|
                        #[trigger] self.value_at(c, rr) == old(self).value_at(c, rr) by {
                        if c.kind == ColKind::Fixed && c.index == idx {
                            assert(self.fixed@[c.index as int]@.len() == 0);
                        }
                    }
                }
                ColumnId { kind, index: idx }
            },
        }
    }

    /// Declare a fresh instance column carrying the externally supplied
    /// public-input vector.
    pub fn declare_instance(&mut self, values: Vec<Fp>) -> (r: ColumnId)
        requires
            old(self).wf(),
            forall|i: int| 0 <= i < values@.len() ==> (#[trigger] values@[i]).wf(),
        ensures
            final(self).wf(),
            r.kind == ColKind::Instance,
            r.index == old(self).instance@.len(),
            final(self).instance@.len() == old(self).instance@.len() + 1,
            forall|rr: int| 0 <= rr < values@.len() ==> final(self).value_at(r, rr) == Some(
                values@[rr],
            ),
            forall|rr: int| rr < 0 || rr >= values@.len() ==> final(self).value_at(r, rr) is None,
            forall|c: ColumnId, rr: int| c != r ==> #[trigger] final(self).value_at(c, rr) == old(self).value_at(c, rr),
            final(self).advice@ == old(self).advice@,
            final(self).fixed@ == old(self).fixed@,
            final(self).selectors@ == old(self).selectors@,
            final(self).gates@ == old(self).gates@,
            final(self).copies@ == old(self).copies@,
            final(self).regions@ == old(self).regions@,
            final(self).rows == if values@.len() > old(self).rows {
                values@.len() as int
            } else {
                old(self).rows as int
            },
            forall|s: int, rr: int| #[trigger] final(self).active(s, rr) == old(self).active(s, rr),
    {
        let idx = self.instance.len();
        let n = values.len();
        self.instance.push(values);
        if n > self.rows {
            self.rows = n;
        }
        proof {
            lemma_active_congr(*self, *old(self));
            let r = ColumnId { kind: ColKind::Instance, index: idx };
            assert forall|c: ColumnId, rr: int| c != r implies
                #[trigger] self.value_at(c, rr) == old(self).value_at(c, rr) by {
                if c.kind == ColKind::Instance && c.index > idx {
                    assert(!(c.index < self.instance@.len()));
                }
            }
        }
        ColumnId { kind: ColKind::Instance, index: idx }
    }

    /// Declare a fresh selector, active nowhere.
    pub fn new_selector(&mut self) -> (r: usize)
        requires
            old(self).wf(),
        ensures
            final(self).wf(),
            r == old(self).selectors@.len(),
            final(self).selectors@.len() == old(self).selectors@.len() + 1,
            forall|s: int, rr: int| #[trigger] final(self).active(s, rr) == old(self).active(s, rr),
            final(self).advice@ == old(self).advice@,
            final(self).fixed@ == old(self).fixed@,
            final(self).instance@ == old(self).instance@,
            final(self).gates@ == old(self).gates@,
            final(self).copies@ == old(self).copies@,
            final(self).regions@ == old(self).regions@,
            final(self).rows == old(self).rows,
            forall|c: ColumnId, rr: int| #[trigger] final(self).value_at(c, rr) == old(self).value_at(c, rr),
    {
        let idx = self.selectors.len();
        self.selectors.push(Vec::new());
        proof {
            lemma_value_at_congr(*self, *old(self));
            assert forall|s: int, rr: int|
                #[trigger] self.active(s, rr) == old(self).active(s, rr) by {
                if s == idx {
                    assert(self.selectors@[s]@.len() == 0);
                }
            }
        }
        idx
    }

    /// Register a gate: a named constraint list applied wherever
    /// `selector` is active.
    pub fn add_gate(&mut self, name: String, selector: usize, constraints: Vec<Expr>) -> (r: usize)
        requires
            old(self).wf(),
            forall|i: int| 0 <= i < constraints@.len() ==> (#[trigger] constraints@[i]).wf(),
        ensures
            final(self).wf(),
            r == old(self).gates@.len(),
            final(self).gates@ == old(self).gates@.push(
                Gate { name, selector, constraints },
            ),
            final(self).advice@ == old(self).advice@,
            final(self).fixed@ == old(self).fixed@,
            final(self).instance@ == old(self).instance@,
            final(self).selectors@ == old(self).selectors@,
            final(self).copies@ == old(self).copies@,
            final(self).regions@ == old(self).regions@,
            final(self).rows == old(self).rows,
            forall|c: ColumnId, rr: int| #[trigger] final(self).value_at(c, rr) == old(self).value_at(c, rr),
            forall|s: int, rr: int| #[trigger] final(self).active(s, rr) == old(self).active(s, rr),
    {
        let idx = self.gates.len();
        self.gates.push(Gate { name, selector, constraints });
        proof {
            lemma_value_at_congr(*self, *old(self));
            lemma_active_congr(*self, *old(self));
        }
        idx
    }

    /// Whether a selector flag is set at a row.
    pub fn is_active(&self, sel: usize, row: usize) -> (r: bool)
        ensures
            r == self.active(sel as int, row as int),
    {
        if sel < self.selectors.len() {
            let selv = &self.selectors[sel];
            row < selv.len() && selv[row]
        } else {
            false
        }
    }

    /// Evaluate a gate expression at an absolute row, failing fast on a
    /// structural fault: a reference past the table bounds or to a cell
    /// that was never assigned.
    pub fn eval(&self, e: &Expr, row: usize) -> (r: Result<Fp, StructuralError>)
        requires
            self.wf(),
            e.wf(),
        ensures
            match r {
                Ok(v) => v.wf() && self.eval_spec(*e, row as int) == Some(v.val()),
                Err(er) => self.eval_spec(*e, row as int) is None && self.genuine_structural(er),
            },
        decreases *e,
    {
        match e {
            Expr::Const(k) => Ok(*k),
            Expr::Var(col, off) => {
                if *off >= self.rows || row >= self.rows - *off {
                    return Err(
                        StructuralError::RowOutOfBounds { column: *col, row, offset: *off },
                    );
                }
                let abs = row + *off;
                match self.read(*col, abs) {
                    Some(v) => Ok(v),
                    None => Err(
                        StructuralError::UnassignedCell { cell: Cell { column: *col, row: abs } },
                    ),
                }
            },
            Expr::Neg(a) => match self.eval(&*a, row) {
                Ok(v) => Ok(v.neg()),
                Err(er) => Err(er),
            },
            Expr::Add(a, b) => match self.eval(&*a, row) {
                Ok(x) => match self.eval(&*b, row) {
                    Ok(y) => Ok(x.add(y)),
                    Err(er) => Err(er),
                },
                Err(er) => Err(er),
            },
            Expr::Sub(a, b) => match self.eval(&*a, row) {
                Ok(x) => match self.eval(&*b, row) {
                    Ok(y) => Ok(x.sub(y)),
                    Err(er) => Err(er),
                },
                Err(er) => Err(er),
            },
            Expr::Mul(a, b) => match self.eval(&*a, row) {
                Ok(x) => match self.eval(&*b, row) {
                    Ok(y) => Ok(x.mul(y)),
                    Err(er) => Err(er),
                },
                Err(er) => Err(er),
            },
        }
    }

    /// Read a cell.
    pub fn read(&self, col: ColumnId, row: usize) -> (r: Option<Fp>)
        ensures
            r == self.value_at(col, row as int),
    {
        match col.kind {
            ColKind::Advice => {
                if col.index < self.advice.len() {
                    let colv = &self.advice[col.index];
                    if row < colv.len() {
                        colv[row]
                    } else {
                        None
                    }
                } else {
                    None
                }
            },
            ColKind::Fixed => {
                if col.index < self.fixed.len() {
                    let colv = &self.fixed[col.index];
                    if row < colv.len() {
                        colv[row]
                    } else {
                        None
                    }
                } else {
                    None
                }
            },
            ColKind::Instance => {
                if col.index < self.instance.len() {
                    let colv = &self.instance[col.index];
                    if row < colv.len() {
                        Some(colv[row])
                    } else {
                        None
                    }
                } else {
                    None
                }
            },
        }
    }

    /// Write `value` into a cell. Writing a cell twice is permitted only
    /// with the same value; instance and undeclared columns cannot be
    /// written.
    pub fn assign(&mut self, column: ColumnId, row: usize, value: Fp) -> (r: Result<
        Cell,
        AssignError,
    >)
        requires
            old(self).wf(),
            value.wf(),
            row < usize::MAX,
        ensures
            final(self).wf(),
            match r {
                Ok(cell) => {
                    &&& cell == (Cell { column, row })
                    &&& old(self).writable(column)
                    &&& old(self).value_at(column, row as int) is None || old(self).value_at(column, row as int) == Some(value)
                    &&& final(self).value_at(column, row as int) == Some(value)
                    &&& forall|c: ColumnId, rr: int| !(c == column && rr == row as int)
                        ==> #[trigger] final(self).value_at(c, rr) == old(self).value_at(c, rr)
                    &&& final(self).rows == if row + 1 > old(self).rows {
                        row + 1
                    } else {
                        old(self).rows as int
                    }
                    &&& final(self).advice@.len() == old(self).advice@.len()
                    &&& final(self).fixed@.len() == old(self).fixed@.len()
                    &&& final(self).instance@ == old(self).instance@
                    &&& final(self).selectors@ == old(self).selectors@
                    &&& forall|s: int, rr: int| #[trigger] final(self).active(s, rr) == old(self).active(s, rr)
                    &&& final(self).gates@ == old(self).gates@
                    &&& final(self).copies@ == old(self).copies@
                    &&& final(self).regions@ == old(self).regions@
                },
                Err(e) => {
                    &&& *final(self) == *old(self)
                    &&& match e {
                        AssignError::NotAssignable { column: c } => c == column && !old(self).writable(column),
                        AssignError::AlreadyAssignedDifferentValue { cell } => {
                            &&& cell == (Cell { column, row })
                            &&& old(self).writable(column)
                            &&& old(self).value_at(column, row as int) is Some
                            &&& old(self).value_at(column, row as int) != Some(value)
                        },
                        _ => false,
                    }
                },
            },
    {
        if matches!(column.kind, ColKind::Instance) {
            return Err(AssignError::NotAssignable { column });
        }
        let declared = match column.kind {
            ColKind::Advice => column.index < self.advice.len(),
            ColKind::Fixed => column.index < self.fixed.len(),
            ColKind::Instance => false,
        };
        if !declared {
            return Err(AssignError::NotAssignable { column });
        }
        match self.read(column, row) {
            Some(v) => {
                if v != value {
                    return Err(AssignError::AlreadyAssignedDifferentValue {
                        cell: Cell { column, row },
                    });
                }
            },
            None => {},
        }
        match column.kind {
            ColKind::Advice => {
                let colv = &mut self.advice[column.index];
                store(colv, row, value);
            },
            _ => {
                let colv = &mut self.fixed[column.index];
                store(colv, row, value);
            },
        }
        if row + 1 > self.rows {
            self.rows = row + 1;
        }
        proof {
            lemma_active_congr(*self, *old(self));
            assert forall|c: ColumnId, rr: int| !(c == column && rr == row as int) implies
                #[trigger] self.value_at(c, rr) == old(self).value_at(c, rr) by {
            }
            assert(self.value_at(column, row as int) == Some(value));
            assert forall|c: ColumnId, rr: int| match #[trigger] self.value_at(c, rr) {
                Some(v) => v.wf(),
                None => true,
            } by {
                if !(c == column && rr == row as int) {
                    assert(self.value_at(c, rr) == old(self).value_at(c, rr));
                }
            }
        }
        Ok(Cell { column, row })
    }

    /// Set a selector flag at a row; enabling an enabled flag again is
    /// harmless.
    pub fn enable(&mut self, selector: usize, row: usize) -> (r: Result<(), AssignError>)
        requires
            old(self).wf(),
            row < usize::MAX,
        ensures
            final(self).wf(),
            match r {
                Ok(()) => {
                    &&& selector < old(self).selectors@.len()
                    &&& final(self).active(selector as int, row as int)
                    &&& forall|s: int, rr: int| !(s == selector && rr == row as int)
                        ==> #[trigger] final(self).active(s, rr) == old(self).active(s, rr)
                    &&& final(self).rows == if row + 1 > old(self).rows {
                        row + 1
                    } else {
                        old(self).rows as int
                    }
                    &&& final(self).selectors@.len() == old(self).selectors@.len()
                    &&& forall|c: ColumnId, rr: int| #[trigger] final(self).value_at(c, rr) == old(self).value_at(c, rr)
                    &&& final(self).advice@ == old(self).advice@
                    &&& final(self).fixed@ == old(self).fixed@
                    &&& final(self).instance@ == old(self).instance@
                    &&& final(self).gates@ == old(self).gates@
                    &&& final(self).copies@ == old(self).copies@
                    &&& final(self).regions@ == old(self).regions@
                },
                Err(e) => {
                    &&& *final(self) == *old(self)
                    &&& e == (AssignError::UnknownSelector { selector })
                    &&& selector >= old(self).selectors@.len()
                },
            },
    {
        if selector >= self.selectors.len() {
            return Err(AssignError::UnknownSelector { selector });
        }
        let selv = &mut self.selectors[selector];
        store_flag(selv, row);
        if row + 1 > self.rows {
            self.rows = row + 1;
        }
        proof {
            lemma_value_at_congr(*self, *old(self));
            assert forall|s: int, rr: int| !(s == selector && rr == row as int) implies
                #[trigger] self.active(s, rr) == old(self).active(s, rr) by {
            }
        }
        Ok(())
    }

    /// Declare two cells equal; the checker later requires every declared
    /// pair (and so every chain of pairs) to hold equal values.
    pub fn equate(&mut self, a: Cell, b: Cell)
        requires
            old(self).wf(),
        ensures
            final(self).wf(),
            final(self).copies@ == old(self).copies@.push((a, b)),
            final(self).advice@ == old(self).advice@,
            final(self).fixed@ == old(self).fixed@,
            final(self).instance@ == old(self).instance@,
            final(self).selectors@ == old(self).selectors@,
            final(self).gates@ == old(self).gates@,
            final(self).regions@ == old(self).regions@,
            final(self).rows == old(self).rows,
            forall|c: ColumnId, rr: int| #[trigger] final(self).value_at(c, rr) == old(self).value_at(c, rr),
            forall|s: int, rr: int| #[trigger] final(self).active(s, rr) == old(self).active(s, rr),
    {
        self.copies.push((a, b));
        proof {
            lemma_value_at_congr(*self, *old(self));
            lemma_active_congr(*self, *old(self));
        }
    }

    /// Copy a public input into a writable cell and bind the two by a copy
    /// constraint; this is how a public value enters the witness.
    pub fn assign_from_public_input(
        &mut self,
        instance: ColumnId,
        index: usize,
        column: ColumnId,
        row: usize,
    ) -> (r: Result<Cell, AssignError>)
        requires
            old(self).wf(),
            instance.kind == ColKind::Instance,
            row < usize::MAX,
        ensures
            final(self).wf(),
            match r {
                Ok(cell) => {
                    &&& cell == (Cell { column, row })
                    &&& old(self).value_at(instance, index as int) is Some
                    &&& old(self).writable(column)
                    &&& final(self).value_at(column, row as int) == old(self).value_at(instance, index as int)
                    &&& old(self).value_at(column, row as int) is None || old(self).value_at(column, row as int) == old(self).value_at(instance, index as int)
                    &&& forall|c: ColumnId, rr: int| !(c == column && rr == row as int)
                        ==> #[trigger] final(self).value_at(c, rr) == old(self).value_at(c, rr)
                    &&& final(self).copies@ == old(self).copies@.push(
                        (cell, Cell { column: instance, row: index }),
                    )
                    &&& final(self).rows == if row + 1 > old(self).rows {
                        row + 1
                    } else {
                        old(self).rows as int
                    }
                    &&& final(self).advice@.len() == old(self).advice@.len()
                    &&& final(self).fixed@.len() == old(self).fixed@.len()
                    &&& final(self).instance@ == old(self).instance@
                    &&& final(self).selectors@ == old(self).selectors@
                    &&& forall|s: int, rr: int| #[trigger] final(self).active(s, rr) == old(self).active(s, rr)
                    &&& final(self).gates@ == old(self).gates@
                    &&& final(self).regions@ == old(self).regions@
                },
                Err(e) => {
                    &&& *final(self) == *old(self)
                    &&& match e {
                        AssignError::MissingPublicInput { column: c, index: i } => c == instance
                            && i == index && old(self).value_at(instance, index as int) is None,
                        AssignError::NotAssignable { column: c } => c == column && !old(self).writable(column),
                        AssignError::AlreadyAssignedDifferentValue { cell } => {
                            &&& cell == (Cell { column, row })
                            &&& old(self).writable(column)
                            &&& old(self).value_at(instance, index as int) is Some
                            &&& old(self).value_at(column, row as int) is Some
                            &&& old(self).value_at(column, row as int) != old(self).value_at(instance, index as int)
                        },
                        _ => false,
                    }
                },
            },
    {
        let v = match self.read(instance, index) {
            Some(v) => v,
            None => {
                return Err(AssignError::MissingPublicInput { column: instance, index });
            },
        };
        let cell = match self.assign(column, row, v) {
            Ok(cell) => cell,
            Err(e) => {
                return Err(e);
            },
        };
        self.equate(cell, Cell { column: instance, row: index });
        Ok(cell)
    }

    /// Record a named row span for failure reporting; evaluation semantics
    /// are unaffected.
    pub fn note_region(&mut self, name: String, start: usize, len: usize)
        requires
            old(self).wf(),
        ensures
            final(self).wf(),
            final(self).regions@ == old(self).regions@.push(Region { name, start, len }),
            final(self).advice@ == old(self).advice@,
            final(self).fixed@ == old(self).fixed@,
            final(self).instance@ == old(self).instance@,
            final(self).selectors@ == old(self).selectors@,
            final(self).gates@ == old(self).gates@,
            final(self).copies@ == old(self).copies@,
            final(self).rows == old(self).rows,
            forall|c: ColumnId, rr: int| #[trigger] final(self).value_at(c, rr) == old(self).value_at(c, rr),
            forall|s: int, rr: int| #[trigger] final(self).active(s, rr) == old(self).active(s, rr),
    {
        self.regions.push(Region { name, start, len });
        proof {
            lemma_value_at_congr(*self, *old(self));
            lemma_active_congr(*self, *old(self));
        }
    }
}

/// Two circuits with the same selector storage agree on every flag.
proof fn lemma_active_congr(a: Circuit, b: Circuit)
    requires
        a.selectors@ == b.selectors@,
    ensures
        forall|s: int, rr: int| #[trigger] a.active(s, rr) == b.active(s, rr),
{
}

/// Two circuits with the same column storage hold the same cell values.
proof fn lemma_value_at_congr(a: Circuit, b: Circuit)
    requires
        a.advice@ == b.advice@,
        a.fixed@ == b.fixed@,
        a.instance@ == b.instance@,
    ensures
        forall|c: ColumnId, rr: int| #[trigger] a.value_at(c, rr) == b.value_at(c, rr),
{
}

/// Grow a column to cover `row` and write `value` there; every other slot
/// keeps its value and new slots hold nothing.
fn store(colv: &mut Vec<Option<Fp>>, row: usize, value: Fp)
    requires
        row < usize::MAX,
    ensures
        final(colv)@.len() == if row + 1 > old(colv)@.len() {
            row + 1
        } else {
            old(colv)@.len() as int
        },
        final(colv)@[row as int] == Some(value),
        forall|r: int| 0 <= r < old(colv)@.len() && r != row as int
            ==> final(colv)@[r] == old(colv)@[r],
        forall|r: int| old(colv)@.len() <= r < final(colv)@.len() && r != row as int
            ==> final(colv)@[r] is None,
{
    while colv.len() <= row
        invariant
            row < usize::MAX,
            forall|r: int| 0 <= r < old(colv)@.len() ==> colv@[r] == old(colv)@[r],
            forall|r: int| old(colv)@.len() <= r < colv@.len() ==> colv@[r] is None,
            colv@.len() == old(colv)@.len() || (old(colv)@.len() < colv@.len() <= row + 1),
        decreases row + 1 - colv@.len(),
    {
        colv.push(None);
    }
    colv[row] = Some(value);
}

/// Grow a selector column to cover `row` and set the flag there; every
/// other flag keeps its value and new flags are clear.
fn store_flag(selv: &mut Vec<bool>, row: usize)
    requires
        row < usize::MAX,
    ensures
        final(selv)@.len() == if row + 1 > old(selv)@.len() {
            row + 1
        } else {
            old(selv)@.len() as int
        },
        final(selv)@[row as int] == true,
        forall|r: int| 0 <= r < old(selv)@.len() && r != row as int
            ==> final(selv)@[r] == old(selv)@[r],
        forall|r: int| old(selv)@.len() <= r < final(selv)@.len() && r != row as int
            ==> final(selv)@[r] == false,
{
    while selv.len() <= row
        invariant
            row < usize::MAX,
            forall|r: int| 0 <= r < old(selv)@.len() ==> selv@[r] == old(selv)@[r],
            forall|r: int| old(selv)@.len() <= r < selv@.len() ==> selv@[r] == false,
            selv@.len() == old(selv)@.len() || (old(selv)@.len() < selv@.len() <= row + 1),
        decreases row + 1 - selv@.len(),
    {
        selv.push(false);
    }
    selv[row] = true;
}

} // verus!
