//! Front-end surface: a program is carried as source text; parsing wraps
//! the text and the front-end optimization hook leaves it unchanged.

use vstd::prelude::*;

verus! {

/// Errors the front end can report.
#[derive(Debug, Clone, Copy, PartialEq, Eq)]
pub enum FrontEndError {
    ParseError,
}

/// A parsed source program: the source text as given.
pub struct Program {
    pub content: String,
}

/// Wraps source text into a `Program`; the text is kept as is.
pub fn parse(src: &str) -> (r: Result<Program, FrontEndError>)
    ensures
        r is Ok,
        r matches Ok(p) ==> p.content@ == src@,
{
    Ok(Program { content: src.to_owned() })
}

/// Front-end optimization hook; leaves the program unchanged.
pub fn optimize(program: &mut Program)
    ensures
        final(program).content@ == old(program).content@,
{
}

} // verus!
