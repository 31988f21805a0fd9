//! A compiler backend that lowers an SSA-form mid-level IR of a C-like
//! language into a RISC-V-like target representation.
//!
//! The crate covers instruction selection and lowering (address computation,
//! call ABI materialization, PHI elimination, constant materialization),
//! per-function layout finalization (stack-slot reallocation, label
//! uniquification, terminator tightening), and a MemorySSA-based memory
//! analysis used by load elimination.

pub mod backend;
pub mod error;
pub mod frontend;
pub mod middle;
pub mod textfmt;
