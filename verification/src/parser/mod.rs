//! The R2N lexer and recursive-descent parser.

pub mod error;
pub mod lexer;
pub mod parser;
pub mod recovery;

use vstd::prelude::*;
use crate::ast::program::Program;
use crate::ast::wf::wf_program;
use crate::parser::error::ParseError;
use crate::parser::lexer::error_positioned;
use crate::parser::parser::Parser;
use crate::text::{chars_of, owned};

verus! {

/// Parse a complete R2N source program into its AST. On success the program
/// is well formed and its root is the last `export default`; an error
/// carries a position inside the source.
pub fn parse(src: &str) -> (r: Result<Program, ParseError>)
    ensures
        r matches Ok(p) ==> wf_program(p),
        r matches Err(e) ==> error_positioned(e, src@),
{
    let chars = chars_of(src);
    if chars.len() > usize::MAX / 8 {
        let e = ParseError::new(1, 1, owned("source text too large"));
        proof {
            assert(crate::parser::lexer::line_at(src@, 0) == 1);
            assert(crate::parser::lexer::col_at(src@, 0) == 0);
        }
        return Err(e);
    }
    let mut p = Parser::new(chars.as_slice())?;
    p.parse_program()
}

} // verus!
