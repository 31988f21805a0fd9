//! The mid-level, SSA-form IR the backend consumes, with the analyses and
//! transforms that run on it before lowering.

pub mod mir;
pub mod effect;
pub mod printer;
pub mod memory_ssa;
pub mod transform;
