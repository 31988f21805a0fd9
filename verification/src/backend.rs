//! The target-side representation: operands, instructions, blocks, functions,
//! structural checkers, and the lowering from the mid-level IR.

pub mod reg;
pub mod stack;
pub mod operand;
pub mod inst;
pub mod block;
pub mod checker;
pub mod tight_term;
pub mod func;
pub mod maps;
pub mod builder;
pub mod gep;
pub mod module;
pub mod call;
pub mod from_mir;
pub mod passes;
