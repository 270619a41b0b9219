//! The intermediate representations the source program lowers into (the JS
//! IR, the React IR and the runtime artifact) and the lowering from the AST:
//! expressions and statements, elements, declarations, whole programs.

pub mod copy;
pub mod decls;
pub mod element;
pub mod free;
pub mod js;
pub mod lower;
pub mod lowering;
pub mod react;
pub mod runtime;
pub mod shape;
pub mod strict;
pub mod subst;
pub mod template;
