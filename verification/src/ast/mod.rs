//! Source-level AST for the R2N language subset: the output of the parser and
//! the input of the later passes. Only the supported subset is modelled, so an
//! unsupported program is a parse error rather than a runtime surprise.

pub mod expr;
pub mod lit;
pub mod op;
pub mod program;
pub mod render;
pub mod wf;
pub mod copy;
pub mod debug;
