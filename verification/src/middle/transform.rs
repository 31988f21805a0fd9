//! Analyses and transforms on the mid-level IR.

pub mod load_elim;
