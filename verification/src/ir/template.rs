//! Lowering a whole program to a runtime template.
//!
//! Each component-like declaration (a component, a class, an exported
//! function, an exported `const` bound to a component function) takes a slot
//! of the component table, in declaration order; a name refers to the last
//! slot declared under it. The root is the slot of `export default`. Each
//! declaration then lowers with that table; a production build replaces
//! every `<StrictMode>` wrapper by a fragment, a development build keeps them
//! and marks the template.

use vstd::prelude::*;
use crate::ast::program::{Decl, ExportDecl, Program};
use crate::compiler::assoc::{assoc_find, assoc_get};
use crate::ir::decls::{class_ok, component_ok, func_ok, generator_ok, lower_class, lower_component,
    lower_func_decl, lower_generator_fn, lower_top_level, top_level_ok};
use crate::ir::js::JsExpr;
use crate::ir::lower::{component_fn_of, component_fn_spec, LowerError};
use crate::ir::lowering::{lower_expr, lowerable};
use crate::ir::react::ReactNode;
use crate::ir::runtime::{
    FuncIr, GeneratorIr, RuntimeComponent, RuntimeTemplate, ARTIFACT_FORMAT_VERSION, COMPILER_VERSION};
use crate::ir::strict::{lemma_strip_idempotent, strip_strict, stripped};
use crate::text::owned;

verus! {

/// The name under which a declaration takes a slot of the component table.
pub open spec fn slot_name(d: Decl) -> Option<String> {
    match d {
        Decl::Component(c) => Some(c.name),
        Decl::Class(c) => Some(c.name),
        Decl::ExportDecl(ExportDecl::Function(f)) => Some(f.name),
        Decl::ExportDecl(ExportDecl::Const { name, value }) => if component_fn_spec(value) is Some {
            Some(name)
        } else {
            None
        },
        _ => None,
    }
}

/// The names of the table's slots, in declaration order.
pub open spec fn slot_names(ds: Seq<Decl>) -> Seq<String>
    decreases ds.len(),
{
    if ds.len() == 0 {
        Seq::empty()
    } else {
        slot_names(ds.drop_last()) + match slot_name(ds.last()) {
            Some(n) => seq![n],
            None => Seq::empty(),
        }
    }
}

/// The table's index: each slot's name with its position, the last slot
/// first, so that a name finds the last slot declared under it.
pub open spec fn slot_index(names: Seq<String>) -> Seq<(String, usize)> {
    Seq::new(names.len(), |j: int| (names[names.len() - 1 - j], (names.len() - 1 - j) as usize))
}

/// The index of a program's component table.
pub open spec fn program_index(p: Program) -> Seq<(String, usize)> {
    slot_index(slot_names(p.decls@))
}

/// The slot of the program's root, if it names one.
pub open spec fn root_slot(p: Program) -> Option<usize> {
    match p.root {
        Some(r) => assoc_get(program_index(p), r@),
        None => None,
    }
}

/// The name of the program's root; empty without one.
pub open spec fn root_text(p: Program) -> Seq<char> {
    match p.root {
        Some(r) => r@,
        None => Seq::empty(),
    }
}

/// A declaration lowers with the table `index`.
pub open spec fn decl_ok(d: Decl, index: Seq<(String, usize)>) -> bool {
    match d {
        Decl::Component(c) => component_ok(c.params@, c.body@, index),
        Decl::Class(c) => class_ok(c, index),
        Decl::GeneratorFn(g) => generator_ok(g.body@),
        Decl::FuncDecl(f) => func_ok(f.params@, f.body@),
        Decl::TopLevel { pattern, value, .. } => top_level_ok(pattern, value),
        Decl::ExportDecl(ExportDecl::Function(f)) => component_ok(f.params@, f.body@, index),
        Decl::ExportDecl(ExportDecl::Const { value, .. }) => match component_fn_spec(value) {
            Some((ps, b)) => component_ok(ps@, b@, index),
            None => lowerable(value),
        },
        _ => true,
    }
}

/// A program lowers: its root names a slot and every declaration lowers.
pub open spec fn program_lowers(p: Program) -> bool {
    &&& root_slot(p) is Some
    &&& forall|i: int| 0 <= i < p.decls@.len() ==> #[trigger] decl_ok(p.decls@[i], program_index(p))
}

/// `t` is laid out as `p`'s table says: one component per slot, named as
/// the slot, the root at the root's slot, and this compiler's stamps.
pub open spec fn template_of(t: RuntimeTemplate, p: Program) -> bool {
    &&& root_slot(p) == Some(t.root)
    &&& t.components@.len() == slot_names(p.decls@).len()
    &&& forall|k: int| 0 <= k < t.components@.len() ==> #[trigger] t.components@[k].name@ == slot_names(p.decls@)[k]@
    &&& t.manifest.format_version == ARTIFACT_FORMAT_VERSION
    &&& t.manifest.compiler_version == COMPILER_VERSION
}

/// A declaration that takes a slot finds it among the slot names.
proof fn lemma_slot_listed(ds: Seq<Decl>, i: int, x: String)
    requires
        0 <= i < ds.len(),
        slot_name(ds[i]) == Some(x),
    ensures
        exists|k: int| 0 <= k < slot_names(ds).len() && #[trigger] slot_names(ds)[k] == x,
    decreases ds.len(),
{
    if i == ds.len() - 1 {
        let k = slot_names(ds.drop_last()).len() as int;
        assert(slot_names(ds)[k] == x);
    } else {
        lemma_slot_listed(ds.drop_last(), i, x);
        let k = choose|k: int| 0 <= k < slot_names(ds.drop_last()).len() && #[trigger] slot_names(ds.drop_last())[k] == x;
        assert(slot_names(ds)[k] == x);
    }
}

/// A key that an entry holds is found.
proof fn lemma_assoc_found(m: Seq<(String, usize)>, k: Seq<char>, j: int)
    requires
        0 <= j < m.len(),
        m[j].0@ == k,
    ensures
        assoc_get(m, k) is Some,
    decreases m.len(),
{
    if m[0].0@ != k {
        lemma_assoc_found(m.drop_first(), k, j - 1);
    }
}

/// The slot a declared name refers to.
fn slot_of(index: &Vec<(String, usize)>, names: Ghost<Seq<String>>, x: &String) -> (r: usize)
    requires
        index@ == slot_index(names@),
        exists|k: int| 0 <= k < names@.len() && #[trigger] names@[k] == *x,
    ensures
        r < names@.len(),
        names@[r as int]@ == x@,
        assoc_get(index@, x@) == Some(r),
{
    let ghost k = choose|k: int| 0 <= k < names@.len() && #[trigger] names@[k] == *x;
    let ghost n = names@.len();
    proof {
        let j = n - 1 - k;
        assert(index@[j].0 == names@[k]);
        lemma_assoc_found(index@, x@, j);
    }
    match assoc_find(index, x.as_str()) {
        Some(j) => {
            let len = index.len();
            assert(len as int == n);
            assert(index@[j as int] == (names@[n - 1 - j], (n - 1 - j) as usize));
            let v = index[j].1;
            assert(v as int == n - 1 - j);
            assert(names@[v as int] == index@[j as int].0);
            v
        },
        None => {
            assert(false);
            0
        },
    }
}

/// The slot name of a declaration.
pub(crate) fn decl_slot(d: &Decl) -> (r: Option<&String>)
    ensures
        match r {
            Some(x) => slot_name(*d) == Some(*x),
            None => slot_name(*d) is None,
        },
{
    match d {
        Decl::Component(c) => Some(&c.name),
        Decl::Class(c) => Some(&c.name),
        Decl::ExportDecl(ExportDecl::Function(f)) => Some(&f.name),
        Decl::ExportDecl(ExportDecl::Const { name, value }) => {
            if component_fn_of(value).is_some() {
                Some(name)
            } else {
                None
            }
        },
        _ => None,
    }
}

/// A component's body as the build mode wants it: StrictMode wrappers
/// replaced by fragments in production, kept in development.
pub(crate) fn finish(c: RuntimeComponent, strict_mode: bool) -> (r: RuntimeComponent)
    ensures
        r.name == c.name,
        !strict_mode ==> stripped(r.body, r.body),
{
    if strict_mode {
        c
    } else {
        let RuntimeComponent { name, params, captures, bindings, body, class } = c;
        let ghost b = body;
        let s = strip_strict(body);
        proof { lemma_strip_idempotent(b, s); }
        RuntimeComponent { name, params, captures, bindings, body: s, class }
    }
}

/// No component of `t` renders a `<StrictMode>` wrapper: each body is its
/// own strip.
pub open spec fn strict_free(t: RuntimeTemplate) -> bool {
    forall|k: int| 0 <= k < t.components@.len() ==> stripped(#[trigger] t.components@[k].body, t.components@[k].body)
}

/// The table entry a slot holds before its declaration lowers.
pub(crate) fn placeholder(name: &String) -> (r: RuntimeComponent)
    ensures r.name@ == name@, stripped(r.body, r.body),
{
    RuntimeComponent {
        name: name.clone(),
        params: Vec::new(),
        captures: Vec::new(),
        bindings: Vec::new(),
        body: ReactNode::Text(JsExpr::Lit(crate::ast::lit::Literal::Null)),
        class: None,
    }
}

/// Lower a program in the given build mode.
#[verifier::loop_isolation(false)]
#[verifier::rlimit(50)]
fn lower_with(program: &Program, strict_mode: bool) -> (r: Result<RuntimeTemplate, LowerError>)
    ensures
        r is Err <==> !program_lowers(*program),
        root_slot(*program) is None ==> (r matches Err(LowerError::UnknownComponent(n)) && n@ == root_text(
            *program)),
        r matches Ok(t) ==> template_of(t, *program) && t.strict_mode == strict_mode
            && (!strict_mode ==> strict_free(t)),
{
    let ds = &program.decls;
    let n = ds.len();
    let mut names: Vec<String> = Vec::new();
    let mut comps: Vec<RuntimeComponent> = Vec::new();
    for i in 0..n
        invariant
            n == ds@.len(),
            names@ == slot_names(ds@.take(i as int)),
            comps@.len() == names@.len(),
            forall|k: int| 0 <= k < comps@.len() ==> #[trigger] comps@[k].name@ == names@[k]@,
            forall|k: int| 0 <= k < comps@.len() ==> stripped(#[trigger] comps@[k].body, comps@[k].body),
    {
        assert(ds@.take(i + 1).drop_last() =~= ds@.take(i as int));
        assert(ds@.take(i + 1).last() == ds@[i as int]);
        match decl_slot(&ds[i]) {
            Some(x) => {
                names.push(x.clone());
                comps.push(placeholder(x));
            },
            None => {},
        }
        assert(names@ =~= slot_names(ds@.take(i + 1)));
    }
    assert(ds@.take(n as int) =~= ds@);
    let m = names.len();
    let mut index: Vec<(String, usize)> = Vec::new();
    let mut k = m;
    while k > 0
        invariant
            k <= m,
            m == names@.len(),
            index@.len() == m - k,
            forall|j: int| 0 <= j < m - k ==> #[trigger] index@[j] == (names@[m - 1 - j], (m - 1 - j) as usize),
        decreases k,
    {
        k = k - 1;
        index.push((names[k].clone(), k));
    }
    assert(index@ =~= slot_index(names@));
    let root = match &program.root {
        Some(r) => match assoc_find(&index, r.as_str()) {
            Some(j) => {
                assert(index@[j as int] == (names@[m - 1 - j], (m - 1 - j) as usize));
                index[j].1
            },
            None => {
                return Err(LowerError::UnknownComponent(r.clone()));
            },
        },
        None => {
            proof { reveal_strlit(""); }
            return Err(LowerError::UnknownComponent(owned("")));
        },
    };
    let mut generators: Vec<GeneratorIr> = Vec::new();
    let mut functions: Vec<FuncIr> = Vec::new();
    let mut top_levels: Vec<(String, JsExpr)> = Vec::new();
    let mut fresh: u64 = 0;
    for i in 0..n
        invariant
            n == ds@.len(),
            names@ == slot_names(ds@),
            index@ == slot_index(names@),
            comps@.len() == m,
            forall|k: int| 0 <= k < comps@.len() ==> #[trigger] comps@[k].name@ == names@[k]@,
            !strict_mode ==> forall|k: int| 0 <= k < comps@.len() ==> stripped(#[trigger] comps@[k].body,
                comps@[k].body),
            forall|j: int| 0 <= j < i ==> #[trigger] decl_ok(ds@[j], index@),
    {
        match &ds[i] {
            Decl::Component(c) => {
                proof { lemma_slot_listed(ds@, i as int, c.name); }
                let idx = slot_of(&index, Ghost(names@), &c.name);
                match lower_component(&c.name, &c.params, &c.body, &index, &mut fresh) {
                    Ok(rc) => comps.set(idx, finish(rc, strict_mode)),
                    Err(e) => {
                        assert(!decl_ok(ds@[i as int], index@));
                        return Err(e);
                    },
                }
            },
            Decl::Class(c) => {
                proof { lemma_slot_listed(ds@, i as int, c.name); }
                let idx = slot_of(&index, Ghost(names@), &c.name);
                match lower_class(c, &index, &mut fresh) {
                    Ok(rc) => comps.set(idx, finish(rc, strict_mode)),
                    Err(e) => {
                        assert(!decl_ok(ds@[i as int], index@));
                        return Err(e);
                    },
                }
            },
            Decl::GeneratorFn(g) => {
                match lower_generator_fn(&g.name, &g.params, &g.body, &index, &mut fresh) {
                    Ok(x) => generators.push(x),
                    Err(e) => {
                        assert(!decl_ok(ds@[i as int], index@));
                        return Err(e);
                    },
                }
            },
            Decl::FuncDecl(f) => {
                match lower_func_decl(&f.name, &f.params, &f.body, &index, &mut fresh) {
                    Ok(x) => functions.push(x),
                    Err(e) => {
                        assert(!decl_ok(ds@[i as int], index@));
                        return Err(e);
                    },
                }
            },
            Decl::TopLevel { pattern, value, .. } => {
                match lower_top_level(pattern, value, &index, &mut top_levels, &mut fresh) {
                    Ok(()) => {},
                    Err(e) => {
                        assert(!decl_ok(ds@[i as int], index@));
                        return Err(e);
                    },
                }
            },
            Decl::ExportDecl(ExportDecl::Function(f)) => {
                proof { lemma_slot_listed(ds@, i as int, f.name); }
                let idx = slot_of(&index, Ghost(names@), &f.name);
                match lower_component(&f.name, &f.params, &f.body, &index, &mut fresh) {
                    Ok(rc) => comps.set(idx, finish(rc, strict_mode)),
                    Err(e) => {
                        assert(!decl_ok(ds@[i as int], index@));
                        return Err(e);
                    },
                }
            },
            Decl::ExportDecl(ExportDecl::Const { name, value }) => {
                match component_fn_of(value) {
                    Some((ps, b)) => {
                        proof { lemma_slot_listed(ds@, i as int, *name); }
                        let idx = slot_of(&index, Ghost(names@), name);
                        match lower_component(name, ps, b, &index, &mut fresh) {
                            Ok(rc) => comps.set(idx, finish(rc, strict_mode)),
                            Err(e) => {
                                assert(!decl_ok(ds@[i as int], index@));
                                return Err(e);
                            },
                        }
                    },
                    None => {
                        match lower_expr(value, &index, &mut fresh) {
                            Ok(x) => top_levels.push((name.clone(), x)),
                            Err(e) => {
                                assert(!decl_ok(ds@[i as int], index@));
                                return Err(e);
                            },
                        }
                    },
                }
            },
            _ => {},
        }
    }
    let manifest = RuntimeTemplate::stamp();
    Ok(RuntimeTemplate {
        strict_mode,
        components: comps,
        root,
        generators,
        functions,
        top_levels,
        modules: Vec::new(),
        manifest,
    })
}

/// Lower a program for production: `<StrictMode>` wrappers become plain
/// fragments and the template is not marked for development.
pub fn lower(program: &Program) -> (r: Result<RuntimeTemplate, LowerError>)
    ensures
        r is Err <==> !program_lowers(*program),
        root_slot(*program) is None ==> (r matches Err(LowerError::UnknownComponent(n)) && n@ == root_text(
            *program)),
        r matches Ok(t) ==> template_of(t, *program) && !t.strict_mode && strict_free(t),
{
    lower_with(program, false)
}

/// Lower a program for development: `<StrictMode>` wrappers stay and the
/// template is marked, so effects inside them run twice.
pub fn lower_dev(program: &Program) -> (r: Result<RuntimeTemplate, LowerError>)
    ensures
        r is Err <==> !program_lowers(*program),
        root_slot(*program) is None ==> (r matches Err(LowerError::UnknownComponent(n)) && n@ == root_text(
            *program)),
        r matches Ok(t) ==> template_of(t, *program) && t.strict_mode,
{
    lower_with(program, true)
}

} // verus!
