//! The lowered program: modules of functions plus global data, including the
//! float-literal pool synthesized during lowering.

use vstd::prelude::*;

use crate::backend::func::Func;
use crate::backend::maps::FloatVar;

verus! {

/// An integer global variable.
#[derive(Debug, PartialEq)]
pub struct GlobalVar {
    pub name: String,
    /// Flattened integer initializer words.
    pub init: Vec<i32>,
}

/// A global datum: an integer global or a float-literal pool entry.
#[derive(Debug, PartialEq)]
pub enum Var {
    Prim(GlobalVar),
    Float(FloatVar),
}

/// A lowered module.
#[derive(Debug)]
pub struct Module {
    pub name: String,
    pub entry: Option<String>,
    pub global: Vec<Var>,
    pub funcs: Vec<Func>,
}

/// A lowered program.
#[derive(Debug)]
pub struct Program {
    pub entry: Option<String>,
    pub modules: Vec<Module>,
}

} // verus!
