//! Assembling the linked artifact: each module of a link plan lowers with
//! its own names (its declarations and the components it imports, each
//! bound to a global slot) into one component table; the root and the
//! module list come from the plan.

use vstd::prelude::*;
use crate::ast::program::{Decl, ExportDecl, Program};
use crate::compiler::assoc::{assoc_find, assoc_get};
use crate::compiler::link::{LinkError, ModuleResolver};
use crate::compiler::plan::{bound_below, names_in_table, plan_link, planned, LinkPlan};
use crate::ir::decls::{lower_class, lower_component, lower_func_decl, lower_generator_fn, lower_top_level};
use crate::ir::js::JsExpr;
use crate::ir::lower::{component_fn_of, lower_error_text, LowerError};
use crate::ir::lowering::lower_expr;
use crate::ir::runtime::{
    FuncIr, GeneratorIr, ModuleIr, RuntimeComponent, RuntimeTemplate, ARTIFACT_FORMAT_VERSION, COMPILER_VERSION};
use crate::ir::strict::stripped;
use crate::ir::template::{decl_ok, finish, placeholder, slot_name, strict_free};
use crate::text::owned;

verus! {

/// A declaration of a linked module lowers with the module's names: a
/// component-shaped one finds its slot among them, and it lowers.
pub open spec fn module_decl_ok(d: Decl, names: Seq<(String, usize)>) -> bool {
    &&& match slot_name(d) {
        Some(n) => assoc_get(names, n@) is Some,
        None => true,
    }
    &&& decl_ok(d, names)
}

/// Every declaration of a module lowers with its names.
pub open spec fn module_lowers(decls: Seq<Decl>, names: Seq<(String, usize)>) -> bool {
    forall|i: int| 0 <= i < decls.len() ==> #[trigger] module_decl_ok(decls[i], names)
}

/// Every module of the plan lowers with the names its layout gives it.
pub open spec fn plan_lowers(p: LinkPlan) -> bool {
    forall|i: int| 0 <= i < p.modules@.len() ==> module_lowers(
        (#[trigger] p.modules@[i]).program.decls@,
        p.layouts@[i].names@,
    )
}

/// `t` is the artifact of plan `p`: one component per slot of the table,
/// the plan's root, the plan's modules in order with their component exports,
/// this compiler's stamps, and the build mode.
pub open spec fn assembled(t: RuntimeTemplate, p: LinkPlan, dev: bool) -> bool {
    &&& t.root == p.root
    &&& t.components@.len() == p.component_count
    &&& t.strict_mode == dev
    &&& t.modules@.len() == p.modules@.len()
    &&& forall|i: int| 0 <= i < t.modules@.len() ==> (#[trigger] t.modules@[i]).id@ == p.modules@[i].id@
        && t.modules@[i].exports@ == p.layouts@[i].exports@
    &&& t.manifest.format_version == ARTIFACT_FORMAT_VERSION
    &&& t.manifest.compiler_version == COMPILER_VERSION
    &&& !dev ==> strict_free(t)
}

/// The slot a module binds `x` to.
fn bound_slot(names: &Vec<(String, usize)>, x: &String) -> (r: Result<usize, LowerError>)
    ensures
        r matches Ok(v) ==> assoc_get(names@, x@) == Some(v),
        r is Err <==> assoc_get(names@, x@) is None,
{
    match assoc_find(names, x.as_str()) {
        Some(j) => Ok(names[j].1),
        None => Err(LowerError::UnknownComponent(x.clone())),
    }
}

/// A copy of a list of named slots.
fn copy_pairs(v: &Vec<(String, usize)>) -> (r: Vec<(String, usize)>)
    ensures r@ == v@,
{
    let mut out: Vec<(String, usize)> = Vec::new();
    let n = v.len();
    for i in 0..n
        invariant
            n == v@.len(),
            out@ == v@.take(i as int),
    {
        out.push((v[i].0.clone(), v[i].1));
        assert(out@ =~= v@.take(i + 1));
    }
    assert(v@.take(n as int) =~= v@);
    out
}

/// Lower one module's declarations with its names into the global table
/// `comps` and the module-level lists.
#[verifier::loop_isolation(false)]
#[verifier::rlimit(50)]
fn lower_module(program: &Program, names: &Vec<(String, usize)>, comps: &mut Vec<RuntimeComponent>,
    generators: &mut Vec<GeneratorIr>, functions: &mut Vec<FuncIr>, top_levels: &mut Vec<(String, JsExpr)>,
    fresh: &mut u64, dev: bool) -> (r: Result<(), LowerError>)
    requires
        bound_below(names@, old(comps)@.len() as int),
        !dev ==> forall|k: int| 0 <= k < old(comps)@.len() ==> stripped(#[trigger] old(comps)@[k].body,
            old(comps)@[k].body),
    ensures
        final(comps)@.len() == old(comps)@.len(),
        !dev ==> forall|k: int| 0 <= k < final(comps)@.len() ==> stripped(#[trigger] final(comps)@[k].body,
            final(comps)@[k].body),
        r is Err <==> !module_lowers(program.decls@, names@),
{
    let ds = &program.decls;
    let n = ds.len();
    for i in 0..n
        invariant
            n == ds@.len(),
            comps@.len() == old(comps)@.len(),
            !dev ==> forall|k: int| 0 <= k < comps@.len() ==> stripped(#[trigger] comps@[k].body, comps@[k].body),
            forall|j: int| 0 <= j < i ==> #[trigger] module_decl_ok(ds@[j], names@),
    {
        match &ds[i] {
            Decl::Component(c) => {
                let idx = match bound_slot(names, &c.name) {
                    Ok(v) => v,
                    Err(e) => {
                        assert(!module_decl_ok(ds@[i as int], names@));
                        return Err(e);
                    },
                };
                match lower_component(&c.name, &c.params, &c.body, names, fresh) {
                    Ok(rc) => comps.set(idx, finish(rc, dev)),
                    Err(e) => {
                        assert(!module_decl_ok(ds@[i as int], names@));
                        return Err(e);
                    },
                }
            },
            Decl::Class(c) => {
                let idx = match bound_slot(names, &c.name) {
                    Ok(v) => v,
                    Err(e) => {
                        assert(!module_decl_ok(ds@[i as int], names@));
                        return Err(e);
                    },
                };
                match lower_class(c, names, fresh) {
                    Ok(rc) => comps.set(idx, finish(rc, dev)),
                    Err(e) => {
                        assert(!module_decl_ok(ds@[i as int], names@));
                        return Err(e);
                    },
                }
            },
            Decl::GeneratorFn(g) => {
                match lower_generator_fn(&g.name, &g.params, &g.body, names, fresh) {
                    Ok(x) => generators.push(x),
                    Err(e) => {
                        assert(!module_decl_ok(ds@[i as int], names@));
                        return Err(e);
                    },
                }
            },
            Decl::FuncDecl(f) => {
                match lower_func_decl(&f.name, &f.params, &f.body, names, fresh) {
                    Ok(x) => functions.push(x),
                    Err(e) => {
                        assert(!module_decl_ok(ds@[i as int], names@));
                        return Err(e);
                    },
                }
            },
            Decl::TopLevel { pattern, value, .. } => {
                match lower_top_level(pattern, value, names, top_levels, fresh) {
                    Ok(()) => {},
                    Err(e) => {
                        assert(!module_decl_ok(ds@[i as int], names@));
                        return Err(e);
                    },
                }
            },
            Decl::ExportDecl(ExportDecl::Function(f)) => {
                let idx = match bound_slot(names, &f.name) {
                    Ok(v) => v,
                    Err(e) => {
                        assert(!module_decl_ok(ds@[i as int], names@));
                        return Err(e);
                    },
                };
                match lower_component(&f.name, &f.params, &f.body, names, fresh) {
                    Ok(rc) => comps.set(idx, finish(rc, dev)),
                    Err(e) => {
                        assert(!module_decl_ok(ds@[i as int], names@));
                        return Err(e);
                    },
                }
            },
            Decl::ExportDecl(ExportDecl::Const { name, value }) => {
                match component_fn_of(value) {
                    Some((ps, b)) => {
                        let idx = match bound_slot(names, name) {
                            Ok(v) => v,
                            Err(e) => {
                                assert(!module_decl_ok(ds@[i as int], names@));
                                return Err(e);
                            },
                        };
                        match lower_component(name, ps, b, names, fresh) {
                            Ok(rc) => comps.set(idx, finish(rc, dev)),
                            Err(e) => {
                                assert(!module_decl_ok(ds@[i as int], names@));
                                return Err(e);
                            },
                        }
                    },
                    None => {
                        match lower_expr(value, names, fresh) {
                            Ok(x) => top_levels.push((name.clone(), x)),
                            Err(e) => {
                                assert(!module_decl_ok(ds@[i as int], names@));
                                return Err(e);
                            },
                        }
                    },
                }
            },
            _ => {},
        }
    }
    Ok(())
}

/// Lower every module of a link plan into one artifact, in the given build
/// mode. A module that fails to lower is the error, with the lowering
/// error's text.
pub fn assemble(plan: &LinkPlan, dev: bool) -> (r: Result<RuntimeTemplate, LinkError>)
    requires
        plan.layouts@.len() == plan.modules@.len(),
        names_in_table(plan.layouts@, plan.component_count as int),
    ensures
        r is Err <==> !plan_lowers(*plan),
        r matches Err(e) ==> (e matches LinkError::Lower(m) && exists|le: LowerError| #![trigger lower_error_text(le)]
            m@ == lower_error_text(le)),
        r matches Ok(t) ==> assembled(t, *plan, dev),
{
    let total = plan.component_count;
    let mut comps: Vec<RuntimeComponent> = Vec::new();
    let blank = owned("");
    for k in 0..total
        invariant
            comps@.len() == k,
            forall|j: int| 0 <= j < comps@.len() ==> stripped(#[trigger] comps@[j].body, comps@[j].body),
    {
        comps.push(placeholder(&blank));
    }
    let mut generators: Vec<GeneratorIr> = Vec::new();
    let mut functions: Vec<FuncIr> = Vec::new();
    let mut top_levels: Vec<(String, JsExpr)> = Vec::new();
    let mut modules: Vec<ModuleIr> = Vec::new();
    let mut fresh: u64 = 0;
    let n = plan.modules.len();
    for i in 0..n
        invariant
            n == plan.modules@.len(),
            plan.layouts@.len() == n,
            names_in_table(plan.layouts@, total as int),
            total == plan.component_count,
            comps@.len() == total,
            !dev ==> forall|k: int| 0 <= k < comps@.len() ==> stripped(#[trigger] comps@[k].body, comps@[k].body),
            modules@.len() == i,
            forall|j: int| 0 <= j < i ==> module_lowers(
                (#[trigger] plan.modules@[j]).program.decls@,
                plan.layouts@[j].names@,
            ),
            forall|j: int| 0 <= j < i ==> (#[trigger] modules@[j]).id@ == plan.modules@[j].id@
                && modules@[j].exports@ == plan.layouts@[j].exports@,
    {
        assert(bound_below(plan.layouts@[i as int].names@, total as int));
        match lower_module(&plan.modules[i].program, &plan.layouts[i].names, &mut comps, &mut generators,
            &mut functions, &mut top_levels, &mut fresh, dev) {
            Ok(()) => {},
            Err(e) => {
                let m = e.to_string();
                assert(!module_lowers(plan.modules@[i as int].program.decls@, plan.layouts@[i as int].names@));
                return Err(LinkError::Lower(m));
            },
        }
        modules.push(ModuleIr { id: plan.modules[i].id.clone(), exports: copy_pairs(&plan.layouts[i].exports) });
    }
    let manifest = RuntimeTemplate::stamp();
    Ok(RuntimeTemplate {
        strict_mode: dev,
        components: comps,
        root: plan.root,
        generators,
        functions,
        top_levels,
        modules,
        manifest,
    })
}

/// `r`, where it is an artifact, is the artifact of a plan of entry
/// `entry`'s module graph in which every module lowers. (An error may come
/// from the plan, from the resolver, or from lowering a module.)
pub open spec fn linked(r: Result<RuntimeTemplate, LinkError>, entry: Seq<char>, dev: bool) -> bool {
    match r {
        Ok(t) => exists|p: LinkPlan| #[trigger] planned(p, entry) && plan_lowers(p) && assembled(t, p, dev),
        Err(_) => true,
    }
}

/// Link an entry source and every module it imports into one artifact:
/// plan the link, then lower each module into the global table.
pub fn link_source_mode<R: ModuleResolver>(entry_source: &str, entry_id: &str, resolver: &R, dev: bool)
    -> (r: Result<RuntimeTemplate, LinkError>)
    ensures
        linked(r, entry_id@, dev),
        r matches Err(LinkError::ImportCycle(path)) ==> {
            &&& path@.len() >= 2
            &&& path@[0]@ == path@.last()@
            &&& crate::compiler::graph::distinct_strings(path@.drop_last())
        },
        r matches Err(LinkError::NoDefault(m)) ==> m@ == entry_id@,
{
    let plan = plan_link(entry_source, entry_id, resolver)?;
    let r = assemble(&plan, dev);
    assert(planned(plan, entry_id@));
    r
}

/// Link for production: StrictMode wrappers become fragments.
pub fn link_source<R: ModuleResolver>(entry_source: &str, entry_id: &str, resolver: &R)
    -> (r: Result<RuntimeTemplate, LinkError>)
    ensures
        linked(r, entry_id@, false),
        r matches Err(LinkError::NoDefault(m)) ==> m@ == entry_id@,
{
    link_source_mode(entry_source, entry_id, resolver, false)
}

/// Link for development: StrictMode wrappers stay and the artifact is
/// marked.
pub fn link_source_dev<R: ModuleResolver>(entry_source: &str, entry_id: &str, resolver: &R)
    -> (r: Result<RuntimeTemplate, LinkError>)
    ensures
        linked(r, entry_id@, true),
        r matches Err(LinkError::NoDefault(m)) ==> m@ == entry_id@,
{
    link_source_mode(entry_source, entry_id, resolver, true)
}

} // verus!
