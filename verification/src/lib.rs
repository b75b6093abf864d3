//! A small PLONKish arithmetic-constraint engine: a column/row witness table,
//! polynomial gates conditioned on per-row selectors, copy constraints between
//! cells, public inputs through instance columns, and a satisfiability checker
//! that reports every failing constraint and cell.
//!
//! `field` holds the scalar type, a small prime field. `expr` gives the
//! column, cell and expression vocabulary; `circuit` the mutable table a
//! circuit is built into; `region` the relative-offset assignment helper;
//! `checker` the sealed snapshot, the checker and its laws. The remaining
//! modules are reusable chips: plain and constant-folding arithmetic rows,
//! the is-zero indicator gadget, a conditional-output row, a bounded range
//! check, and a chained-addition column seeded from public inputs.

pub mod field;
pub mod expr;
pub mod circuit;
pub mod region;
pub mod checker;
pub mod arithmetic;
pub mod is_zero;
pub mod function;
pub mod range_check;
pub mod fibonacci;
pub mod scaled_arithmetic;
