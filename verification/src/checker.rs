//! The satisfiability checker.
//!
//! A populated `Circuit` is sealed into an immutable snapshot and then
//! checked: every constraint of every gate is evaluated at every row where
//! its selector is active, and every declared copy pair is compared.
//! The checker accumulates every failure rather than stopping at the first,
//! and reports them in a fixed order: gate failures sorted by (row, gate,
//! constraint), then copy failures in declaration order. A structural fault
//! (an unassigned or out-of-bounds read) aborts the run instead.

use vstd::prelude::*;
use crate::expr::{Cell, ColumnId, Expr};
use crate::circuit::{Circuit, Region, StructuralError};

verus! {

/// One failing constraint or copy pair; the expected output of checking a
/// deliberately invalid witness.
#[derive(Clone, Copy, PartialEq, Eq, Structural, Debug)]
pub enum Failure {
    /// An active gate constraint did not evaluate to the additive
    /// identity. `region` indexes the sealed circuit's region list
    /// (`region_count` when no recorded region covers the row).
    ConstraintNotSatisfied { gate: usize, constraint: usize, region: usize, row: usize },
    /// Two cells declared equal hold different values.
    CopyConstraintViolated { a: Cell, b: Cell },
}

/// The first recorded region whose span covers `row`, scanning from `i`;
/// `regions.len()` when none does.
pub open spec fn region_index_from(regions: Seq<Region>, row: int, i: int) -> int
    decreases regions.len() - i
    when 0 <= i <= regions.len()
{
    if i >= regions.len() {
        regions.len() as int
    } else if regions[i].start <= row < regions[i].start + regions[i].len {
        i
    } else {
        region_index_from(regions, row, i + 1)
    }
}

/// The region a row is reported under.
pub open spec fn region_index(regions: Seq<Region>, row: int) -> int {
    region_index_from(regions, row, 0)
}

impl Circuit {
    /// Constraint `i` of gate `g` fails at `row`: its selector is active
    /// there and the constraint evaluates to a nonzero value.
    pub open spec fn constraint_fails(self, g: int, i: int, row: int) -> bool {
        self.active(self.gates@[g].selector as int, row) && match self.eval_spec(
            self.gates@[g].constraints@[i],
            row,
        ) {
            Some(v) => v != 0,
            None => false,
        }
    }

    /// The failure record a failing constraint is reported as.
    pub open spec fn constraint_failure(self, g: int, i: int, row: int) -> Failure {
        Failure::ConstraintNotSatisfied {
            gate: g as usize,
            constraint: i as usize,
            region: region_index(self.regions@, row) as usize,
            row: row as usize,
        }
    }

    /// Failures of the first `i` constraints of gate `g` at `row`.
    pub open spec fn gate_row_failures(self, row: int, g: int, i: int) -> Seq<Failure>
        decreases i
        when i >= 0
    {
        if i <= 0 {
            Seq::empty()
        } else {
            self.gate_row_failures(row, g, i - 1) + if self.constraint_fails(g, i - 1, row) {
                seq![self.constraint_failure(g, i - 1, row)]
            } else {
                Seq::empty()
            }
        }
    }

    /// Failures of the first `g` gates at `row`.
    pub open spec fn row_failures(self, row: int, g: int) -> Seq<Failure>
        decreases g
        when g >= 0
    {
        if g <= 0 {
            Seq::empty()
        } else {
            self.row_failures(row, g - 1) + self.gate_row_failures(
                row,
                g - 1,
                self.gates@[g - 1].constraints@.len() as int,
            )
        }
    }

    /// Gate failures of the first `r` rows, in (row, gate, constraint)
    /// order.
    pub open spec fn gate_failures(self, r: int) -> Seq<Failure>
        decreases r
        when r >= 0
    {
        if r <= 0 {
            Seq::empty()
        } else {
            self.gate_failures(r - 1) + self.row_failures(r - 1, self.gates@.len() as int)
        }
    }

    /// Copy pair `k` fails: both cells are assigned and hold different
    /// values.
    pub open spec fn copy_fails(self, k: int) -> bool {
        match (
            self.value_at(self.copies@[k].0.column, self.copies@[k].0.row as int),
            self.value_at(self.copies@[k].1.column, self.copies@[k].1.row as int),
        ) {
            (Some(va), Some(vb)) => va != vb,
            _ => false,
        }
    }

    /// Failures of the first `k` copy pairs, in declaration order.
    pub open spec fn copy_failures(self, k: int) -> Seq<Failure>
        decreases k
        when k >= 0
    {
        if k <= 0 {
            Seq::empty()
        } else {
            self.copy_failures(k - 1) + if self.copy_fails(k - 1) {
                seq![
                    Failure::CopyConstraintViolated {
                        a: self.copies@[k - 1].0,
                        b: self.copies@[k - 1].1,
                    },
                ]
            } else {
                Seq::empty()
            }
        }
    }

    /// The full, order-stable failure list of the circuit.
    pub open spec fn spec_failures(self) -> Seq<Failure> {
        self.gate_failures(self.rows as int) + self.copy_failures(self.copies@.len() as int)
    }

    /// No active constraint reads an unassigned or out-of-bounds cell, and
    /// no copy pair names an unassigned cell.
    pub open spec fn structurally_ok(self) -> bool {
        &&& forall|g: int, i: int, row: int|
            0 <= g < self.gates@.len() && 0 <= i < self.gates@[g].constraints@.len() && 0 <= row
                < self.rows && self.active(self.gates@[g].selector as int, row)
                ==> (#[trigger] self.eval_spec(self.gates@[g].constraints@[i], row)) is Some
        &&& forall|k: int| 0 <= k < self.copies@.len()
            ==> self.value_at(
                (#[trigger] self.copies@[k]).0.column,
                self.copies@[k].0.row as int,
            ) is Some && self.value_at(self.copies@[k].1.column, self.copies@[k].1.row as int)
                is Some
    }

    /// Every active constraint evaluates to the additive identity.
    pub open spec fn gates_satisfied(self) -> bool {
        forall|g: int, i: int, row: int|
            0 <= g < self.gates@.len() && 0 <= i < self.gates@[g].constraints@.len() && 0 <= row
                < self.rows && self.active(self.gates@[g].selector as int, row)
                ==> (#[trigger] self.eval_spec(self.gates@[g].constraints@[i], row)) == Some(0int)
    }

    /// No declared copy pair holds two different values.
    pub open spec fn copies_satisfied(self) -> bool {
        forall|k: int| 0 <= k < self.copies@.len() ==> !(#[trigger] self.copy_fails(k))
    }

    /// The witness satisfies every gate and every copy constraint.
    pub open spec fn satisfied(self) -> bool {
        self.gates_satisfied() && self.copies_satisfied()
    }

    /// The first recorded region covering `row`, or the region count when
    /// none does.
    pub fn region_index_of(&self, row: usize) -> (r: usize)
        ensures
            r == region_index(self.regions@, row as int),
    {
        let mut i: usize = 0;
        while i < self.regions.len()
            invariant
                0 <= i <= self.regions@.len(),
                region_index_from(self.regions@, row as int, 0) == region_index_from(
                    self.regions@,
                    row as int,
                    i as int,
                ),
            decreases self.regions@.len() - i,
        {
            let reg = &self.regions[i];
            if reg.start <= row && row - reg.start < reg.len {
                return i;
            }
            i = i + 1;
        }
        i
    }

    /// Freeze the circuit for checking; nothing can mutate it afterwards.
    pub fn seal(self) -> (r: Sealed)
        requires
            self.wf(),
        ensures
            r.snapshot() == self,
    {
        Sealed { c: self }
    }
}

/// An immutable snapshot of a fully populated circuit, ready for
/// checking.
pub struct Sealed {
    c: Circuit,
}

impl Sealed {
    /// The frozen circuit this snapshot holds.
    pub closed spec fn snapshot(self) -> Circuit {
        self.c
    }

    #[verifier::type_invariant]
    spec fn type_inv(self) -> bool {
        self.c.wf()
    }

    /// Read a cell of the sealed circuit.
    pub fn read(&self, col: crate::expr::ColumnId, row: usize) -> (r: Option<crate::field::Fp>)
        ensures
            r == self.snapshot().value_at(col, row as int),
    {
        self.c.read(col, row)
    }

    /// The name of a gate, by index.
    pub fn gate_name(&self, g: usize) -> (r: Option<&String>)
        ensures
            match r {
                Some(n) => g < self.snapshot().gates@.len() && n@ == self.snapshot().gates@[
                    g as int
                ].name@,
                None => g >= self.snapshot().gates@.len(),
            },
    {
        if g < self.c.gates.len() {
            Some(&self.c.gates[g].name)
        } else {
            None
        }
    }

    /// The name of a recorded region, by index.
    pub fn region_name(&self, i: usize) -> (r: Option<&String>)
        ensures
            match r {
                Some(n) => i < self.snapshot().regions@.len() && n@ == self.snapshot().regions@[
                    i as int
                ].name@,
                None => i >= self.snapshot().regions@.len(),
            },
    {
        if i < self.c.regions.len() {
            Some(&self.c.regions[i].name)
        } else {
            None
        }
    }

    /// The number of recorded regions; a failure whose `region` field
    /// equals it lies outside every recorded region.
    pub fn region_count(&self) -> (r: usize)
        ensures
            r == self.snapshot().regions@.len(),
    {
        self.c.regions.len()
    }

    /// Evaluate every gate at every active row and compare every copy
    /// pair, returning the full failure list in (row, gate, constraint)
    /// order followed by copy failures in declaration order; an empty list
    /// is a pass. A malformed circuit — an active constraint or a copy
    /// pair reaching an unassigned or out-of-bounds cell — aborts with a
    /// structural error instead.
    pub fn check(&self) -> (r: Result<Vec<Failure>, StructuralError>)
        ensures
            match r {
                Ok(fs) => self.snapshot().structurally_ok() && fs@
                    == self.snapshot().spec_failures(),
                Err(e) => !self.snapshot().structurally_ok() && self.snapshot().genuine_structural(
                    e,
                ),
            },
    {
        proof {
            use_type_invariant(self);
        }
        let c = &self.c;
        let mut failures: Vec<Failure> = Vec::new();
        let mut row: usize = 0;
        while row < c.rows
            invariant
                c.wf(),
                c == self.snapshot(),
                0 <= row <= c.rows,
                failures@ == c.gate_failures(row as int),
                forall|g2: int, i2: int, r2: int|
                    0 <= g2 < c.gates@.len() && 0 <= i2 < c.gates@[g2].constraints@.len() && 0 <= r2
                        < row && c.active(c.gates@[g2].selector as int, r2)
                        ==> (#[trigger] c.eval_spec(c.gates@[g2].constraints@[i2], r2)) is Some,
            decreases c.rows - row,
        {
            let mut g: usize = 0;
            while g < c.gates.len()
                invariant
                    c.wf(),
                    c == self.snapshot(),
                    0 <= row < c.rows,
                    0 <= g <= c.gates@.len(),
                    failures@ == c.gate_failures(row as int) + c.row_failures(row as int, g as int),
                    forall|g2: int, i2: int, r2: int|
                        0 <= g2 < c.gates@.len() && 0 <= i2 < c.gates@[g2].constraints@.len() && 0
                            <= r2 < row && c.active(c.gates@[g2].selector as int, r2)
                            ==> (#[trigger] c.eval_spec(c.gates@[g2].constraints@[i2], r2))
                            is Some,
                    forall|g2: int, i2: int|
                        0 <= g2 < g && 0 <= i2 < c.gates@[g2].constraints@.len() && c.active(
                            c.gates@[g2].selector as int,
                            row as int,
                        ) ==> (#[trigger] c.eval_spec(c.gates@[g2].constraints@[i2], row as int))
                            is Some,
                decreases c.gates@.len() - g,
            {
                let act = c.is_active(c.gates[g].selector, row);
                if act {
                    let mut i: usize = 0;
                    while i < c.gates[g].constraints.len()
                        invariant
                            c.wf(),
                            c == self.snapshot(),
                            0 <= row < c.rows,
                            0 <= g < c.gates@.len(),
                            0 <= i <= c.gates@[g as int].constraints@.len(),
                            c.active(c.gates@[g as int].selector as int, row as int),
                            failures@ == c.gate_failures(row as int) + c.row_failures(
                                row as int,
                                g as int,
                            ) + c.gate_row_failures(row as int, g as int, i as int),
                            forall|g2: int, i2: int, r2: int|
                                0 <= g2 < c.gates@.len() && 0 <= i2 < c.gates@[
                                    g2
                                ].constraints@.len() && 0 <= r2 < row && c.active(
                                    c.gates@[g2].selector as int,
                                    r2,
                                ) ==> (#[trigger] c.eval_spec(c.gates@[g2].constraints@[i2], r2))
                                    is Some,
                            forall|g2: int, i2: int|
                                0 <= g2 < g && 0 <= i2 < c.gates@[g2].constraints@.len()
                                    && c.active(c.gates@[g2].selector as int, row as int)
                                    ==> (#[trigger] c.eval_spec(
                                    c.gates@[g2].constraints@[i2],
                                    row as int,
                                )) is Some,
                            forall|i2: int|
                                0 <= i2 < i ==> (#[trigger] c.eval_spec(
                                    c.gates@[g as int].constraints@[i2],
                                    row as int,
                                )) is Some,
                        decreases c.gates@[g as int].constraints@.len() - i,
                    {
                        match c.eval(&c.gates[g].constraints[i], row) {
                            Ok(v) => {
                                if !v.is_zero() {
                                    let reg = c.region_index_of(row);
                                    failures.push(
                                        Failure::ConstraintNotSatisfied {
                                            gate: g,
                                            constraint: i,
                                            region: reg,
                                            row,
                                        },
                                    );
                                }
                            },
                            Err(e) => {
                                proof {
                                    assert(!c.structurally_ok());
                                }
                                return Err(e);
                            },
                        }
                        i = i + 1;
                    }
                } else {
                    proof {
                        lemma_gate_row_failures_inactive(
                            *c,
                            row as int,
                            g as int,
                            c.gates@[g as int].constraints@.len() as int,
                        );
                        assert(c.gate_row_failures(
                            row as int,
                            g as int,
                            c.gates@[g as int].constraints@.len() as int,
                        ) =~= Seq::<Failure>::empty());
                        assert(failures@ =~= c.gate_failures(row as int) + c.row_failures(
                            row as int,
                            g as int,
                        ) + c.gate_row_failures(
                            row as int,
                            g as int,
                            c.gates@[g as int].constraints@.len() as int,
                        ));
                    }
                }
                g = g + 1;
            }
            row = row + 1;
        }
        let mut k: usize = 0;
        while k < c.copies.len()
            invariant
                c.wf(),
                c == self.snapshot(),
                0 <= k <= c.copies@.len(),
                failures@ == c.gate_failures(c.rows as int) + c.copy_failures(k as int),
                forall|g2: int, i2: int, r2: int|
                    0 <= g2 < c.gates@.len() && 0 <= i2 < c.gates@[g2].constraints@.len() && 0 <= r2
                        < c.rows && c.active(c.gates@[g2].selector as int, r2)
                        ==> (#[trigger] c.eval_spec(c.gates@[g2].constraints@[i2], r2)) is Some,
                forall|k2: int| 0 <= k2 < k ==> c.value_at(
                    (#[trigger] c.copies@[k2]).0.column,
                    c.copies@[k2].0.row as int,
                ) is Some && c.value_at(c.copies@[k2].1.column, c.copies@[k2].1.row as int)
                    is Some,
            decreases c.copies@.len() - k,
        {
            let (a, b) = c.copies[k];
            let va = match c.read(a.column, a.row) {
                Some(v) => v,
                None => {
                    proof {
                        assert(!c.structurally_ok());
                    }
                    return Err(StructuralError::UnassignedCell { cell: a });
                },
            };
            let vb = match c.read(b.column, b.row) {
                Some(v) => v,
                None => {
                    proof {
                        assert(!c.structurally_ok());
                    }
                    return Err(StructuralError::UnassignedCell { cell: b });
                },
            };
            if va != vb {
                failures.push(Failure::CopyConstraintViolated { a, b });
            }
            k = k + 1;
        }
        Ok(failures)
    }
}

/// A gate contributes no failure at a row where its selector is off.
proof fn lemma_gate_row_failures_inactive(c: Circuit, row: int, g: int, i: int)
    requires
        i >= 0,
        !c.active(c.gates@[g].selector as int, row),
    ensures
        c.gate_row_failures(row, g, i).len() == 0,
    decreases i,
{
    if i > 0 {
        lemma_gate_row_failures_inactive(c, row, g, i - 1);
    }
}

proof fn lemma_gate_row_failures_iff(c: Circuit, row: int, g: int, i: int)
    requires
        i >= 0,
    ensures
        c.gate_row_failures(row, g, i).len() == 0 <==> forall|i2: int|
            0 <= i2 < i ==> !(#[trigger] c.constraint_fails(g, i2, row)),
    decreases i,
{
    if i > 0 {
        lemma_gate_row_failures_iff(c, row, g, i - 1);
    }
}

proof fn lemma_row_failures_iff(c: Circuit, row: int, g: int)
    requires
        g >= 0,
    ensures
        c.row_failures(row, g).len() == 0 <==> forall|g2: int, i2: int|
            0 <= g2 < g && 0 <= i2 < c.gates@[g2].constraints@.len()
                ==> !(#[trigger] c.constraint_fails(g2, i2, row)),
    decreases g,
{
    if g > 0 {
        lemma_row_failures_iff(c, row, g - 1);
        lemma_gate_row_failures_iff(c, row, g - 1, c.gates@[g - 1].constraints@.len() as int);
    }
}

proof fn lemma_gate_failures_iff(c: Circuit, r: int)
    requires
        r >= 0,
    ensures
        c.gate_failures(r).len() == 0 <==> forall|g2: int, i2: int, r2: int|
            0 <= g2 < c.gates@.len() && 0 <= i2 < c.gates@[g2].constraints@.len() && 0 <= r2 < r
                ==> !(#[trigger] c.constraint_fails(g2, i2, r2)),
    decreases r,
{
    if r > 0 {
        lemma_gate_failures_iff(c, r - 1);
        lemma_row_failures_iff(c, r - 1, c.gates@.len() as int);
    }
}

proof fn lemma_copy_failures_iff(c: Circuit, k: int)
    requires
        k >= 0,
    ensures
        c.copy_failures(k).len() == 0 <==> forall|k2: int|
            0 <= k2 < k ==> !(#[trigger] c.copy_fails(k2)),
    decreases k,
{
    if k > 0 {
        lemma_copy_failures_iff(c, k - 1);
    }
}

/// An empty failure list means exactly that the witness satisfies every
/// active gate constraint and every copy constraint: the checker passes a
/// structurally sound circuit if and only if it is satisfied.
pub proof fn lemma_pass_iff_satisfied(c: Circuit)
    requires
        c.structurally_ok(),
    ensures
        c.spec_failures().len() == 0 <==> c.satisfied(),
{
    lemma_gate_failures_iff(c, c.rows as int);
    lemma_copy_failures_iff(c, c.copies@.len() as int);
    if c.spec_failures().len() == 0 {
        assert(c.gate_failures(c.rows as int).len() == 0);
        assert(c.copy_failures(c.copies@.len() as int).len() == 0);
        assert forall|g: int, i: int, row: int|
            0 <= g < c.gates@.len() && 0 <= i < c.gates@[g].constraints@.len() && 0 <= row < c.rows
                && c.active(c.gates@[g].selector as int, row) implies (#[trigger] c.eval_spec(
            c.gates@[g].constraints@[i],
            row,
        )) == Some(0int) by {
            assert(!c.constraint_fails(g, i, row));
            assert(c.eval_spec(c.gates@[g].constraints@[i], row) is Some);
        }
    }
    if c.satisfied() {
        assert forall|g2: int, i2: int, r2: int|
            0 <= g2 < c.gates@.len() && 0 <= i2 < c.gates@[g2].constraints@.len() && 0 <= r2
                < c.rows implies !(#[trigger] c.constraint_fails(g2, i2, r2)) by {
            if c.active(c.gates@[g2].selector as int, r2) {
                assert(c.eval_spec(c.gates@[g2].constraints@[i2], r2) == Some(0int));
            }
        }
    }
}

/// The verdict is a function of the sealed snapshot alone: checking the
/// same sealed circuit twice yields identical, order-stable failure
/// lists.
pub proof fn lemma_check_deterministic(s: Sealed, first: Seq<Failure>, second: Seq<Failure>)
    requires
        first == s.snapshot().spec_failures(),
        second == s.snapshot().spec_failures(),
    ensures
        first == second,
{
}

/// A row covered by the first recorded region is reported under it.
pub proof fn lemma_region_index_first(regions: Seq<Region>, row: int)
    requires
        regions.len() >= 1,
        regions[0].start <= row < regions[0].start + regions[0].len,
    ensures
        region_index(regions, row) == 0,
{
}

/// The exact verdict of a one-row circuit of a single one-constraint
/// gate and no copy constraints.
pub proof fn lemma_one_row_one_gate_failures(c: Circuit)
    requires
        c.rows == 1,
        c.gates@.len() == 1,
        c.gates@[0].constraints@.len() == 1,
        c.copies@.len() == 0,
        c.active(c.gates@[0].selector as int, 0) ==> c.eval_spec(c.gates@[0].constraints@[0], 0)
            is Some,
    ensures
        c.structurally_ok(),
        !c.constraint_fails(0, 0, 0) ==> c.spec_failures() =~= Seq::<Failure>::empty(),
        c.constraint_fails(0, 0, 0) ==> c.spec_failures() =~= seq![c.constraint_failure(0, 0, 0)],
{
    assert forall|g: int, i: int, row: int|
        0 <= g < c.gates@.len() && 0 <= i < c.gates@[g].constraints@.len() && 0 <= row < c.rows
            && c.active(c.gates@[g].selector as int, row) implies (#[trigger] c.eval_spec(
        c.gates@[g].constraints@[i],
        row,
    )) is Some by {
        assert(row == 0 && i == 0 && g == 0);
    }
    assert(c.copy_failures(0) =~= Seq::<Failure>::empty());
    assert(c.gate_failures(0) =~= Seq::<Failure>::empty());
    assert(c.row_failures(0, 0) =~= Seq::<Failure>::empty());
    assert(c.gate_row_failures(0, 0, 0) =~= Seq::<Failure>::empty());
    assert(c.gate_failures(1) =~= c.row_failures(0, 1));
    assert(c.row_failures(0, 1) =~= c.gate_row_failures(0, 0, 1));
    assert(c.spec_failures() =~= c.gate_row_failures(0, 0, 1));
}

/// The exact verdict of a one-row circuit of two single-constraint gates
/// and no copy constraints, spelt out case by case.
pub proof fn lemma_one_row_two_gate_failures(c: Circuit)
    requires
        c.rows == 1,
        c.gates@.len() == 2,
        c.gates@[0].constraints@.len() == 1,
        c.gates@[1].constraints@.len() == 1,
        c.copies@.len() == 0,
        c.active(c.gates@[0].selector as int, 0) ==> c.eval_spec(c.gates@[0].constraints@[0], 0)
            is Some,
        c.active(c.gates@[1].selector as int, 0) ==> c.eval_spec(c.gates@[1].constraints@[0], 0)
            is Some,
    ensures
        c.structurally_ok(),
        !c.constraint_fails(0, 0, 0) && !c.constraint_fails(1, 0, 0) ==> c.spec_failures()
            =~= Seq::<Failure>::empty(),
        c.constraint_fails(0, 0, 0) && !c.constraint_fails(1, 0, 0) ==> c.spec_failures() =~= seq![
            c.constraint_failure(0, 0, 0),
        ],
        !c.constraint_fails(0, 0, 0) && c.constraint_fails(1, 0, 0) ==> c.spec_failures() =~= seq![
            c.constraint_failure(1, 0, 0),
        ],
        c.constraint_fails(0, 0, 0) && c.constraint_fails(1, 0, 0) ==> c.spec_failures() =~= seq![
            c.constraint_failure(0, 0, 0),
            c.constraint_failure(1, 0, 0),
        ],
{
    assert forall|g: int, i: int, row: int|
        0 <= g < c.gates@.len() && 0 <= i < c.gates@[g].constraints@.len() && 0 <= row < c.rows
            && c.active(c.gates@[g].selector as int, row) implies (#[trigger] c.eval_spec(
        c.gates@[g].constraints@[i],
        row,
    )) is Some by {
        assert(row == 0 && i == 0);
        assert(g == 0 || g == 1);
    }
    assert(c.copy_failures(0) =~= Seq::<Failure>::empty());
    assert(c.gate_failures(0) =~= Seq::<Failure>::empty());
    assert(c.row_failures(0, 0) =~= Seq::<Failure>::empty());
    assert(c.gate_row_failures(0, 0, 0) =~= Seq::<Failure>::empty());
    assert(c.gate_row_failures(0, 1, 0) =~= Seq::<Failure>::empty());
    assert(c.gate_failures(1) =~= c.row_failures(0, 2));
    assert(c.row_failures(0, 2) =~= c.row_failures(0, 1) + c.gate_row_failures(0, 1, 1));
    assert(c.row_failures(0, 1) =~= c.gate_row_failures(0, 0, 1));
    assert(c.spec_failures() =~= c.gate_row_failures(0, 0, 1) + c.gate_row_failures(0, 1, 1));
}

/// The two circuits agree on everything the checker reads: cell values,
/// selector flags, gate shapes, copy pairs, row count and region spans.
pub open spec fn same_observables(c1: Circuit, c2: Circuit) -> bool {
    &&& c1.rows == c2.rows
    &&& c1.gates@.len() == c2.gates@.len()
    &&& forall|g: int| 0 <= g < c1.gates@.len() ==> (#[trigger] c1.gates@[g]).selector
        == c2.gates@[g].selector && c1.gates@[g].constraints@ == c2.gates@[g].constraints@
    &&& forall|col: ColumnId, rr: int| #[trigger] c1.value_at(col, rr) == c2.value_at(col, rr)
    &&& forall|s: int, rr: int| #[trigger] c1.active(s, rr) == c2.active(s, rr)
    &&& c1.copies@ == c2.copies@
    &&& c1.regions@.len() == c2.regions@.len()
    &&& forall|i: int| 0 <= i < c1.regions@.len() ==> (#[trigger] c1.regions@[i]).start
        == c2.regions@[i].start && c1.regions@[i].len == c2.regions@[i].len
}

proof fn lemma_eval_congruent(c1: Circuit, c2: Circuit, e: Expr, row: int)
    requires
        forall|col: ColumnId, rr: int| #[trigger] c1.value_at(col, rr) == c2.value_at(col, rr),
    ensures
        c1.eval_spec(e, row) == c2.eval_spec(e, row),
    decreases e,
{
    match e {
        Expr::Const(_) => {},
        Expr::Var(_, _) => {},
        Expr::Neg(a) => {
            lemma_eval_congruent(c1, c2, *a, row);
        },
        Expr::Add(a, b) => {
            lemma_eval_congruent(c1, c2, *a, row);
            lemma_eval_congruent(c1, c2, *b, row);
        },
        Expr::Sub(a, b) => {
            lemma_eval_congruent(c1, c2, *a, row);
            lemma_eval_congruent(c1, c2, *b, row);
        },
        Expr::Mul(a, b) => {
            lemma_eval_congruent(c1, c2, *a, row);
            lemma_eval_congruent(c1, c2, *b, row);
        },
    }
}

proof fn lemma_region_index_congruent(r1: Seq<Region>, r2: Seq<Region>, row: int, i: int)
    requires
        r1.len() == r2.len(),
        forall|j: int| 0 <= j < r1.len() ==> (#[trigger] r1[j]).start == r2[j].start && r1[j].len
            == r2[j].len,
        0 <= i <= r1.len(),
    ensures
        region_index_from(r1, row, i) == region_index_from(r2, row, i),
    decreases r1.len() - i,
{
    if i < r1.len() {
        lemma_region_index_congruent(r1, r2, row, i + 1);
    }
}

proof fn lemma_gate_row_failures_congruent(c1: Circuit, c2: Circuit, row: int, g: int, i: int)
    requires
        same_observables(c1, c2),
        0 <= g < c1.gates@.len(),
        i >= 0,
    ensures
        c1.gate_row_failures(row, g, i) == c2.gate_row_failures(row, g, i),
    decreases i,
{
    if i > 0 {
        lemma_gate_row_failures_congruent(c1, c2, row, g, i - 1);
        lemma_eval_congruent(c1, c2, c1.gates@[g].constraints@[i - 1], row);
        lemma_region_index_congruent(c1.regions@, c2.regions@, row, 0);
    }
}

proof fn lemma_row_failures_congruent(c1: Circuit, c2: Circuit, row: int, g: int)
    requires
        same_observables(c1, c2),
        0 <= g <= c1.gates@.len(),
    ensures
        c1.row_failures(row, g) == c2.row_failures(row, g),
    decreases g,
{
    if g > 0 {
        lemma_row_failures_congruent(c1, c2, row, g - 1);
        lemma_gate_row_failures_congruent(
            c1,
            c2,
            row,
            g - 1,
            c1.gates@[g - 1].constraints@.len() as int,
        );
    }
}

proof fn lemma_gate_failures_congruent(c1: Circuit, c2: Circuit, r: int)
    requires
        same_observables(c1, c2),
        r >= 0,
    ensures
        c1.gate_failures(r) == c2.gate_failures(r),
    decreases r,
{
    if r > 0 {
        lemma_gate_failures_congruent(c1, c2, r - 1);
        lemma_row_failures_congruent(c1, c2, r - 1, c1.gates@.len() as int);
    }
}

proof fn lemma_copy_failures_congruent(c1: Circuit, c2: Circuit, k: int)
    requires
        same_observables(c1, c2),
        k >= 0,
        k <= c1.copies@.len(),
    ensures
        c1.copy_failures(k) == c2.copy_failures(k),
    decreases k,
{
    if k > 0 {
        lemma_copy_failures_congruent(c1, c2, k - 1);
    }
}

/// The verdict reads nothing else: two circuits that agree on every
/// observable component — however they were built — have the same
/// failure list and the same structural soundness, so rebuilding a
/// circuit the same way and checking it again yields the identical
/// verdict.
pub proof fn lemma_verdict_congruent(c1: Circuit, c2: Circuit)
    requires
        same_observables(c1, c2),
    ensures
        c1.spec_failures() == c2.spec_failures(),
        c1.structurally_ok() == c2.structurally_ok(),
{
    lemma_gate_failures_congruent(c1, c2, c1.rows as int);
    lemma_copy_failures_congruent(c1, c2, c1.copies@.len() as int);
    assert forall|g: int, i: int, row: int|
        0 <= g < c1.gates@.len() && 0 <= i < c1.gates@[g].constraints@.len() && 0 <= row < c1.rows
            && c1.active(c1.gates@[g].selector as int, row) implies ((#[trigger] c1.eval_spec(
        c1.gates@[g].constraints@[i],
        row,
    )) is Some <==> c2.eval_spec(c2.gates@[g].constraints@[i], row) is Some) by {
        lemma_eval_congruent(c1, c2, c1.gates@[g].constraints@[i], row);
    }
    assert forall|g: int, i: int, row: int|
        0 <= g < c2.gates@.len() && 0 <= i < c2.gates@[g].constraints@.len() && 0 <= row < c2.rows
            && c2.active(c2.gates@[g].selector as int, row) implies ((#[trigger] c2.eval_spec(
        c2.gates@[g].constraints@[i],
        row,
    )) is Some <==> c1.eval_spec(c1.gates@[g].constraints@[i], row) is Some) by {
        lemma_eval_congruent(c1, c2, c1.gates@[g].constraints@[i], row);
    }
}

/// Some declared pair links the two cells, in either order.
pub open spec fn cells_linked(c: Circuit, x: Cell, y: Cell) -> bool {
    exists|k: int|
        0 <= k < c.copies@.len() && ((#[trigger] c.copies@[k]) == (x, y) || c.copies@[k] == (
        y,
        x,
        ))
}

/// `p` walks from `x` to `y` along declared pairs.
pub open spec fn path_connects(c: Circuit, p: Seq<Cell>, x: Cell, y: Cell) -> bool {
    &&& p.len() >= 1
    &&& p[0] == x
    &&& p[p.len() - 1] == y
    &&& forall|j: int| 0 <= j < p.len() - 1 ==> cells_linked(c, #[trigger] p[j], p[j + 1])
}

/// The two cells lie in one equivalence class of the declared pairs.
pub open spec fn cells_connected(c: Circuit, x: Cell, y: Cell) -> bool {
    exists|p: Seq<Cell>| path_connects(c, p, x, y)
}

proof fn lemma_path_values(c: Circuit, p: Seq<Cell>, x: Cell, y: Cell)
    requires
        c.structurally_ok(),
        c.copies_satisfied(),
        path_connects(c, p, x, y),
    ensures
        c.value_at(x.column, x.row as int) == c.value_at(y.column, y.row as int),
    decreases p.len(),
{
    if p.len() > 1 {
        assert(cells_linked(c, p[0], p[1]));
        let k = choose|k: int|
            0 <= k < c.copies@.len() && ((#[trigger] c.copies@[k]) == (p[0], p[1]) || c.copies@[k]
                == (p[1], p[0]));
        assert(!c.copy_fails(k));
        assert(c.value_at(p[0].column, p[0].row as int) == c.value_at(
            p[1].column,
            p[1].row as int,
        ));
        let tail = p.subrange(1, p.len() as int);
        assert forall|j: int| 0 <= j < tail.len() - 1 implies cells_linked(
            c,
            #[trigger] tail[j],
            tail[j + 1],
        ) by {
            assert(tail[j] == p[j + 1]);
            assert(tail[j + 1] == p[j + 2]);
            assert(cells_linked(c, p[j + 1], p[j + 2]));
        }
        lemma_path_values(c, tail, p[1], y);
    }
}

/// Copy constraints are transitive: in a passing circuit, any two cells
/// joined by a chain of declared pairs hold equal values, whether or not
/// any single pair names them both.
pub proof fn lemma_copy_transitive(c: Circuit, x: Cell, y: Cell)
    requires
        c.structurally_ok(),
        c.copies_satisfied(),
        cells_connected(c, x, y),
    ensures
        c.value_at(x.column, x.row as int) == c.value_at(y.column, y.row as int),
{
    let p = choose|p: Seq<Cell>| path_connects(c, p, x, y);
    lemma_path_values(c, p, x, y);
}

} // verus!
