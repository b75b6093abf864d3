//! An open region: a named span of rows a chip assigns into through
//! region-relative offsets.
//!
//! The starting row is recorded once, when the region is opened; every
//! assignment and selector call then addresses `start + offset`. Closing
//! the region records its name and extent for failure reporting; rows
//! and evaluation semantics are global to the table throughout.

use vstd::prelude::*;
use crate::field::Fp;
use crate::expr::{ColumnId, Cell};
use crate::circuit::{Circuit, AssignError};

verus! {

/// A region that is still being written: its name, fixed starting row,
/// and the extent used so far.
pub struct OpenRegion {
    pub name: String,
    pub start: usize,
    pub used: usize,
}

impl OpenRegion {
    /// Open a region at `start`; nothing is recorded until it is closed.
    pub fn open(name: String, start: usize) -> (r: OpenRegion)
        ensures
            r.name == name,
            r.start == start,
            r.used == 0,
    {
        OpenRegion { name, start, used: 0 }
    }

    /// Write a value at a region-relative offset: the absolute row is
    /// `start + offset`.
    pub fn assign(&mut self, c: &mut Circuit, column: ColumnId, offset: usize, value: Fp) -> (r:
        Result<Cell, AssignError>)
        requires
            old(c).wf(),
            value.wf(),
            old(self).start + offset < usize::MAX,
        ensures
            final(c).wf(),
            final(self).name == old(self).name,
            final(self).start == old(self).start,
            final(self).used == if offset + 1 > old(self).used {
                offset + 1
            } else {
                old(self).used as int
            },
            ({
                let row = (old(self).start + offset) as usize;
                match r {
                    Ok(cell) => {
                        &&& cell == (Cell { column, row })
                        &&& old(c).writable(column)
                        &&& old(c).value_at(column, row as int) is None || old(c).value_at(
                            column,
                            row as int,
                        ) == Some(value)
                        &&& final(c).value_at(column, row as int) == Some(value)
                        &&& forall|c2: ColumnId, rr: int| !(c2 == column && rr == row as int)
                            ==> #[trigger] final(c).value_at(c2, rr) == old(c).value_at(c2, rr)
                        &&& forall|s: int, rr: int| #[trigger] final(c).active(s, rr) == old(
                            c,
                        ).active(s, rr)
                        &&& final(c).gates@ == old(c).gates@
                        &&& final(c).copies@ == old(c).copies@
                        &&& final(c).regions@ == old(c).regions@
                        &&& final(c).rows == if row + 1 > old(c).rows {
                            row + 1
                        } else {
                            old(c).rows as int
                        }
                        &&& final(c).selectors@ == old(c).selectors@
                    },
                    Err(_) => *final(c) == *old(c),
                }
            }),
    {
        let row = self.start + offset;
        if offset + 1 > self.used {
            self.used = offset + 1;
        }
        c.assign(column, row, value)
    }

    /// Set a selector flag at a region-relative offset.
    pub fn enable(&mut self, c: &mut Circuit, selector: usize, offset: usize) -> (r: Result<
        (),
        AssignError,
    >)
        requires
            old(c).wf(),
            old(self).start + offset < usize::MAX,
        ensures
            final(c).wf(),
            final(self).name == old(self).name,
            final(self).start == old(self).start,
            final(self).used == if offset + 1 > old(self).used {
                offset + 1
            } else {
                old(self).used as int
            },
            ({
                let row = (old(self).start + offset) as usize;
                match r {
                    Ok(()) => {
                        &&& selector < old(c).selectors@.len()
                        &&& final(c).active(selector as int, row as int)
                        &&& forall|s: int, rr: int| !(s == selector && rr == row as int)
                            ==> #[trigger] final(c).active(s, rr) == old(c).active(s, rr)
                        &&& forall|c2: ColumnId, rr: int| #[trigger] final(c).value_at(c2, rr)
                            == old(c).value_at(c2, rr)
                        &&& final(c).gates@ == old(c).gates@
                        &&& final(c).copies@ == old(c).copies@
                        &&& final(c).regions@ == old(c).regions@
                        &&& final(c).rows == if row + 1 > old(c).rows {
                            row + 1
                        } else {
                            old(c).rows as int
                        }
                        &&& final(c).selectors@.len() == old(c).selectors@.len()
                    },
                    Err(_) => *final(c) == *old(c) && selector >= old(c).selectors@.len(),
                }
            }),
    {
        let row = self.start + offset;
        if offset + 1 > self.used {
            self.used = offset + 1;
        }
        c.enable(selector, row)
    }

    /// Close the region, recording its name and extent for failure
    /// reporting.
    pub fn close(self, c: &mut Circuit)
        requires
            old(c).wf(),
        ensures
            final(c).wf(),
            final(c).regions@ == old(c).regions@.push(
                crate::circuit::Region { name: self.name, start: self.start, len: self.used },
            ),
            forall|c2: ColumnId, rr: int| #[trigger] final(c).value_at(c2, rr) == old(c).value_at(
                c2,
                rr,
            ),
            forall|s: int, rr: int| #[trigger] final(c).active(s, rr) == old(c).active(s, rr),
            final(c).gates@ == old(c).gates@,
            final(c).copies@ == old(c).copies@,
            final(c).selectors@ == old(c).selectors@,
            final(c).rows == old(c).rows,
            final(c).advice@ == old(c).advice@,
            final(c).fixed@ == old(c).fixed@,
            final(c).instance@ == old(c).instance@,
    {
        let OpenRegion { name, start, used } = self;
        c.note_region(name, start, used);
    }
}

} // verus!
