//! Multi-error diagnostics: parsing with recovery.
//!
//! The strict parser stops at the first error, which is right for the
//! compiler pipeline (one error means no artifact). A tool should report all
//! of the user's mistakes in one pass: a failed statement of a component body
//! is recorded and parsing resumes at the next statement boundary; a failed
//! top-level declaration is recorded and parsing resumes at the next
//! declaration keyword. On a source without errors the result is exactly the
//! strict parser's program.

use vstd::prelude::*;
use crate::ast::program::Program;
use crate::ast::wf::{default_root, wf_decls, wf_program};
use crate::parser::error::ParseError;
use crate::parser::lexer::error_positioned;
use crate::parser::parse;
use crate::parser::parser::Parser;
use crate::text::{chars_of, owned};

verus! {

/// The result of a recovering parse: a program (partial when an error was
/// found) and every error found along the way.
pub struct Recovered {
    pub program: Program,
    pub errors: Vec<ParseError>,
}

impl Recovered {
    /// Whether any error was found.
    pub fn has_errors(&self) -> (r: bool)
        ensures r == (self.errors@.len() > 0),
    {
        self.errors.len() > 0
    }
}

/// Parse `src`, collecting every recoverable error instead of stopping at the
/// first. A source the strict parser accepts comes back as the strict
/// parser's program with no error. Lexical failures (an unterminated string
/// or comment, a stray character) are fatal: there is no sane place to resume
/// tokenizing.
pub fn parse_with_recovery(src: &str) -> (r: Result<Recovered, ParseError>)
    ensures
        r matches Ok(rec) ==> {
            &&& wf_decls(rec.program.decls@)
            &&& rec.program.root == default_root(rec.program.decls@)
            &&& forall|i: int| 0 <= i < rec.errors@.len() ==> #[trigger] error_positioned(rec.errors@[i], src@)
            &&& (rec.errors@.len() == 0 ==> wf_program(rec.program))
        },
        r matches Err(e) ==> error_positioned(e, src@),
{
    recover_from(src, parse(src))
}

/// The recovering parse of `src`, given the strict parser's result on it
/// (`strict`): where the strict parse succeeded, its program, unchanged and
/// with no error; otherwise the program and errors of parsing with recovery.
pub fn recover_from(src: &str, strict: Result<Program, ParseError>) -> (r: Result<Recovered, ParseError>)
    requires
        strict matches Ok(p) ==> wf_program(p),
        strict matches Err(e) ==> error_positioned(e, src@),
    ensures
        strict matches Ok(p) ==> (r matches Ok(rec) && rec.program == p && rec.errors@.len() == 0),
        r matches Ok(rec) ==> {
            &&& wf_decls(rec.program.decls@)
            &&& rec.program.root == default_root(rec.program.decls@)
            &&& forall|i: int| 0 <= i < rec.errors@.len() ==> #[trigger] error_positioned(rec.errors@[i], src@)
            &&& (rec.errors@.len() == 0 ==> wf_program(rec.program))
        },
        r matches Err(e) ==> error_positioned(e, src@),
{
    match strict {
        Ok(program) => {
            return Ok(Recovered { program, errors: Vec::new() });
        },
        Err(_) => {},
    }
    let chars = chars_of(src);
    if chars.len() > usize::MAX / 8 {
        let e = ParseError::new(1, 1, owned("source text too large"));
        proof {
            assert(crate::parser::lexer::line_at(src@, 0) == 1);
            assert(crate::parser::lexer::col_at(src@, 0) == 0);
        }
        return Err(e);
    }
    let mut p = Parser::new(chars.as_slice())?;
    let mut errors: Vec<ParseError> = Vec::new();
    let program = p.recover_program(&mut errors)?;
    Ok(Recovered { program, errors })
}

} // verus!
