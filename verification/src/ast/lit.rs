//! Literal values written in source.

use vstd::prelude::*;

verus! {

/// A literal value written directly in source code.
///
/// A fractional number keeps the exact decimal text it was written with
/// (`"3.5"`): the library never computes with it, and consumers that need the
/// binary value convert the text themselves.
#[derive(Debug, Clone, PartialEq, Eq)]
pub enum Literal {
    /// Integer literal (an `i64`; a larger literal is a lexing error).
    Int(i64),
    /// Fractional literal, as the decimal text of the source (`digits.digits`).
    Float(String),
    /// String literal (escapes already decoded).
    String(String),
    /// Boolean literal.
    Bool(bool),
    /// `null`.
    Null,
    /// The value of a bare `return;`.
    Undefined,
}

} // verus!
