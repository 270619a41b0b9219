//! The runtime artifact: its component table, functions, identifiers and
//! version stamps.

use vstd::prelude::*;
use crate::ir::js::{JsAsyncSegment, JsExpr};
use crate::ir::react::ReactNode;

verus! {

/// Compile-time identity of a node within a template: stable across renders,
/// used as the reconciliation key within a component instance.
#[derive(Debug, Clone, Copy, PartialEq, Eq, Hash, Structural)]
pub struct TemplateNodeId(pub u32);

/// Artifact format version. A runtime that receives an artifact with another
/// major version must reject it.
pub const ARTIFACT_FORMAT_VERSION: u32 = 1;

/// Version stamps every compiled artifact carries.
#[derive(Debug, Clone, Copy, PartialEq, Eq)]
pub struct ArtifactManifest {
    /// Serialization format major version (see `ARTIFACT_FORMAT_VERSION`).
    pub format_version: u32,
    /// Version of the compiler that produced the artifact.
    pub compiler_version: (u32, u32, u32),
}

impl Default for ArtifactManifest {
    /// The unstamped manifest: every version is zero.
    fn default() -> (r: ArtifactManifest)
        ensures r.format_version == 0, r.compiler_version == (0u32, 0u32, 0u32),
    {
        ArtifactManifest { format_version: 0, compiler_version: (0, 0, 0) }
    }
}

/// Version of this compiler, stamped into every artifact it produces.
pub const COMPILER_VERSION: (u32, u32, u32) = (0, 1, 0);

/// A method of a class: its parameter names and its body (a block).
#[derive(Debug)]
pub struct ClassMethod {
    pub params: Vec<String>,
    pub body: JsExpr,
}

/// What a class contributes besides its render body: the initial state and
/// the methods by name.
#[derive(Debug)]
pub struct ClassInfo {
    pub state: Option<JsExpr>,
    pub methods: Vec<(String, ClassMethod)>,
}

/// A component of the runtime IR: its name, parameter names, the names it
/// captures from its surroundings, the bindings its body establishes (in
/// order, evaluated at render time) and the node it renders.
#[derive(Debug)]
pub struct RuntimeComponent {
    pub name: String,
    pub params: Vec<String>,
    pub captures: Vec<String>,
    pub bindings: Vec<(String, JsExpr)>,
    pub body: ReactNode,
    pub class: Option<ClassInfo>,
}

/// A plain function: parameter names and a block body.
#[derive(Debug)]
pub struct FuncIr {
    pub name: String,
    pub params: Vec<String>,
    pub body: JsExpr,
}

/// A generator function as the segments between its suspensions.
#[derive(Debug)]
pub struct GeneratorIr {
    pub name: String,
    pub params: Vec<String>,
    pub segments: Vec<JsAsyncSegment>,
}

/// A compiled program: the component table with the index of the root, the
/// module-level functions and values, the version stamps, and whether it is a
/// development build (StrictMode kept, effects double-invoked).
#[derive(Debug)]
pub struct RuntimeTemplate {
    pub strict_mode: bool,
    pub components: Vec<RuntimeComponent>,
    pub root: usize,
    pub generators: Vec<GeneratorIr>,
    pub functions: Vec<FuncIr>,
    pub top_levels: Vec<(String, JsExpr)>,
    /// The linked modules in discovery order (empty for a single-file build).
    pub modules: Vec<ModuleIr>,
    pub manifest: ArtifactManifest,
}

/// A linked module: its canonical id and its component exports with their
/// global indices, ascending by exported name.
#[derive(Debug)]
pub struct ModuleIr {
    pub id: String,
    pub exports: Vec<(String, usize)>,
}

impl RuntimeTemplate {
    /// The manifest of an artifact built by this compiler.
    pub fn stamp() -> (r: ArtifactManifest)
        ensures r.format_version == ARTIFACT_FORMAT_VERSION, r.compiler_version == COMPILER_VERSION,
    {
        ArtifactManifest { format_version: ARTIFACT_FORMAT_VERSION, compiler_version: COMPILER_VERSION }
    }

    /// The root component.
    pub fn root_component(&self) -> (r: &RuntimeComponent)
        requires self.root < self.components@.len(),
        ensures *r == self.components@[self.root as int],
    {
        &self.components[self.root]
    }
}

} // verus!
