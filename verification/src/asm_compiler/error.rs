//! The ways in which lowering an assembly source can fail.

use vstd::prelude::*;
use vstd::string::*;

verus! {

/// Why a source was rejected. Every error ends the compilation; no partial output is
/// produced.
#[derive(Clone, Copy, Debug, PartialEq, Eq)]
pub enum CompileError {
    /// An unsupported form: an expression that is not affine, a product of two
    /// non-constants, an implicit assignment register, a selector on the left of a lookup
    /// in an instruction body, a degree that is not a power of two or comes late, a second
    /// program counter, a repeated declaration, an unsupported parameter.
    Shape,
    /// A name that is not known: an instruction, a register, a label, a program column.
    Name,
    /// An instruction called with the wrong number or kind of arguments.
    Arity,
    /// Two outputs through one assignment register in a line, literal arguments on a line
    /// without instruction, or a functional call whose instruction does not end in the
    /// matching output parameter.
    Invariant,
}

/// The diagnostic text of an error.
pub open spec fn diagnostic_text(error: CompileError) -> Seq<char> {
    match error {
        CompileError::Shape => "unsupported form in the assembly source"@,
        CompileError::Name => "unknown name in the assembly source"@,
        CompileError::Arity => "wrong number or kind of arguments in an instruction call"@,
        CompileError::Invariant => "conflicting bindings in an instruction call"@,
    }
}

impl CompileError {
    /// The diagnostic text of the error.
    pub fn diagnostic(&self) -> (r: String)
        ensures
            r@ == diagnostic_text(*self),
    {
        match self {
            CompileError::Shape => String::from_str("unsupported form in the assembly source"),
            CompileError::Name => String::from_str("unknown name in the assembly source"),
            CompileError::Arity => String::from_str(
                "wrong number or kind of arguments in an instruction call",
            ),
            CompileError::Invariant => String::from_str(
                "conflicting bindings in an instruction call",
            ),
        }
    }
}

/// What is reported of a source that is rejected: why, where, and in words.
#[derive(Debug, PartialEq, Eq)]
pub struct Diagnostic {
    pub error: CompileError,
    /// The position in the source text of the statement that is rejected; none where the
    /// source is rejected as a whole, once all of its statements are read.
    pub location: Option<usize>,
    pub message: String,
}

impl Diagnostic {
    /// The report of an error at a location, with the diagnostic text of the error.
    pub fn new(error: CompileError, location: Option<usize>) -> (r: Diagnostic)
        ensures
            r.error == error,
            r.location == location,
            r.message@ == diagnostic_text(error),
    {
        Diagnostic { error, location, message: error.diagnostic() }
    }
}

/// The view of a fallible result: the view of the value, or the error.
pub open spec fn outcome<T: DeepView>(r: Result<T, CompileError>) -> Result<T::V, CompileError> {
    match r {
        Ok(v) => Ok(v.deep_view()),
        Err(e) => Err(e),
    }
}

/// The view of a fallible step on a state: the state reached, or the error.
pub open spec fn stepped<S>(r: Result<(), CompileError>, reached: S) -> Result<S, CompileError> {
    match r {
        Ok(_) => Ok(reached),
        Err(e) => Err(e),
    }
}

} // verus!
