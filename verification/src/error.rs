//! Errors raised while lowering a module.
//!
//! Lowering is all-or-nothing: any error aborts the current module and is
//! surfaced to the caller together with the function index and instruction
//! position at which it arose, when those are known.

use vstd::prelude::*;

verus! {

/// The abstract kind of a lowering failure.
#[derive(Clone, Copy, PartialEq, Eq, Structural, Debug)]
pub enum ErrorKind {
    /// The incoming instruction stream is ill-typed.
    TypeCheck,
    /// The input uses a feature outside the supported WebAssembly MVP subset
    /// (multi-value results, named locals, a non-zero table or memory index,
    /// a structured instruction inside an unreachable tail, an out-of-range
    /// memory offset).
    Unsupported,
    /// An internal expectation was broken (a value missing from the
    /// expression stack, a nesting inconsistency, a counter overflow).
    Invariant,
    /// Two functions of the module produce the same identifier.
    NameClash,
}

/// A lowering failure, with the position that caused it when known.
#[derive(Clone, Copy, PartialEq, Eq, Debug)]
pub struct Error {
    pub kind: ErrorKind,
    /// Index of the function being lowered, filled in by the module driver.
    pub func: Option<u32>,
    /// Index of the offending instruction within the function body.
    pub pos: Option<usize>,
}

impl Error {
    /// An error of the given kind at the given instruction position.
    pub open spec fn spec_at(kind: ErrorKind, pos: usize) -> Error {
        Error { kind, func: None, pos: Some(pos) }
    }

    /// An error of the given kind with no position information.
    pub open spec fn spec_plain(kind: ErrorKind) -> Error {
        Error { kind, func: None, pos: None }
    }

    pub fn at(kind: ErrorKind, pos: usize) -> (r: Error)
        ensures
            r == Error::spec_at(kind, pos),
    {
        Error { kind, func: None, pos: Some(pos) }
    }

    pub fn plain(kind: ErrorKind) -> (r: Error)
        ensures
            r == Error::spec_plain(kind),
    {
        Error { kind, func: None, pos: None }
    }

    /// A short human-readable description of the error kind; the `func` and
    /// `pos` fields locate it.
    pub fn message(&self) -> (r: &'static str)
        ensures
            r@ == self.spec_message(),
    {
        match self.kind {
            ErrorKind::TypeCheck => "ill-typed instruction stream",
            ErrorKind::Unsupported => "instruction outside the supported WebAssembly MVP subset",
            ErrorKind::Invariant => "internal lowering invariant broken",
            ErrorKind::NameClash => "two functions produce the same identifier",
        }
    }

    pub open spec fn spec_message(&self) -> Seq<char> {
        match self.kind {
            ErrorKind::TypeCheck => "ill-typed instruction stream"@,
            ErrorKind::Unsupported => "instruction outside the supported WebAssembly MVP subset"@,
            ErrorKind::Invariant => "internal lowering invariant broken"@,
            ErrorKind::NameClash => "two functions produce the same identifier"@,
        }
    }
}

} // verus!
