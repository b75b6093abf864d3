//! Columns, cells and symbolic gate expressions.
//!
//! A gate's polynomial is an expression tree over constants and
//! column-at-offset references; the circuit evaluates it per row, resolving
//! a reference `(column, offset)` at absolute row `row + offset`.

use vstd::prelude::*;
use crate::field::Fp;

verus! {

/// The three kinds of column a table holds.
#[derive(Clone, Copy, PartialEq, Eq, Structural, Debug)]
pub enum ColKind {
    /// Witness values, filled per instance.
    Advice,
    /// Constants, filled when the circuit is built.
    Fixed,
    /// Public inputs, supplied externally.
    Instance,
}

/// A column, identified by kind and index within that kind.
#[derive(Clone, Copy, PartialEq, Eq, Structural, Debug)]
pub struct ColumnId {
    pub kind: ColKind,
    pub index: usize,
}

/// A (column, row) pair: the addressable unit of assignment and of copy
/// constraints.
#[derive(Clone, Copy, PartialEq, Eq, Structural, Debug)]
pub struct Cell {
    pub column: ColumnId,
    pub row: usize,
}

/// A symbolic polynomial over column-at-offset references and constants.
#[derive(Debug)]
pub enum Expr {
    /// A constant field element.
    Const(Fp),
    /// The value of a column at the active row plus a relative offset.
    Var(ColumnId, usize),
    /// Additive inverse of a subexpression.
    Neg(Box<Expr>),
    /// Sum of two subexpressions.
    Add(Box<Expr>, Box<Expr>),
    /// Difference of two subexpressions.
    Sub(Box<Expr>, Box<Expr>),
    /// Product of two subexpressions.
    Mul(Box<Expr>, Box<Expr>),
}

impl Expr {
    /// Every constant in the tree is a reduced residue.
    pub open spec fn wf(self) -> bool
        decreases self,
    {
        match self {
            Expr::Const(k) => k.wf(),
            Expr::Var(_, _) => true,
            Expr::Neg(a) => a.wf(),
            Expr::Add(a, b) => a.wf() && b.wf(),
            Expr::Sub(a, b) => a.wf() && b.wf(),
            Expr::Mul(a, b) => a.wf() && b.wf(),
        }
    }

    /// A constant expression.
    pub fn constant(k: Fp) -> (r: Expr)
        requires
            k.wf(),
        ensures
            r == Expr::Const(k),
            r.wf(),
    {
        Expr::Const(k)
    }

    /// A reference to `column` at the active row plus `offset`.
    pub fn var(column: ColumnId, offset: usize) -> (r: Expr)
        ensures
            r == Expr::Var(column, offset),
            r.wf(),
    {
        Expr::Var(column, offset)
    }

    /// Negation of `self`.
    pub fn neg(self) -> (r: Expr)
        ensures
            r == Expr::Neg(Box::new(self)),
            self.wf() ==> r.wf(),
    {
        Expr::Neg(Box::new(self))
    }

    /// Sum of `self` and `o`.
    pub fn add(self, o: Expr) -> (r: Expr)
        ensures
            r == Expr::Add(Box::new(self), Box::new(o)),
            self.wf() && o.wf() ==> r.wf(),
    {
        Expr::Add(Box::new(self), Box::new(o))
    }

    /// Difference of `self` and `o`.
    pub fn sub(self, o: Expr) -> (r: Expr)
        ensures
            r == Expr::Sub(Box::new(self), Box::new(o)),
            self.wf() && o.wf() ==> r.wf(),
    {
        Expr::Sub(Box::new(self), Box::new(o))
    }

    /// Product of `self` and `o`.
    pub fn mul(self, o: Expr) -> (r: Expr)
        ensures
            r == Expr::Mul(Box::new(self), Box::new(o)),
            self.wf() && o.wf() ==> r.wf(),
    {
        Expr::Mul(Box::new(self), Box::new(o))
    }

    /// A structurally identical copy of the tree.
    pub fn dup(&self) -> (r: Expr)
        ensures
            r == *self,
        decreases *self,
    {
        match self {
            Expr::Const(k) => Expr::Const(*k),
            Expr::Var(c, o) => Expr::Var(*c, *o),
            Expr::Neg(a) => Expr::Neg(Box::new(a.dup())),
            Expr::Add(a, b) => Expr::Add(Box::new(a.dup()), Box::new(b.dup())),
            Expr::Sub(a, b) => Expr::Sub(Box::new(a.dup()), Box::new(b.dup())),
            Expr::Mul(a, b) => Expr::Mul(Box::new(a.dup()), Box::new(b.dup())),
        }
    }
}

} // verus!
