//! Link planning: the global component table layout of a module graph, each
//! module's export surface, the component bindings its imports bring in, and
//! the root component of the entry.

use vstd::prelude::*;
use crate::ast::program::{Decl, ExportDecl, Import, Pattern, Program};
use crate::ast::wf::default_root;
use crate::compiler::assoc::{assoc_find, assoc_get, assoc_insert, lemma_assoc_get_push};
use crate::compiler::dfs::depth_first_order;
use crate::compiler::graph::{closed_graph, contains_string, graph_of, discover_modules, discovery_ordered, distinct_strings, module_ids, modules_wf, GraphModule};
use crate::compiler::link::{
    component_decl_names, external_spec, is_external_specifier, sole_component_spec, sole_entry_component, LinkError,
    ModuleResolver,
};
use crate::ir::lower::{binding_names, component_fn_of, component_fn_spec, pattern_names_of};
use crate::compiler::link::views;
use crate::text::{lemma_text_lt_total, lemma_text_lt_transitive, owned, sorted_names, text_less, text_lt};

verus! {

/// How a module-level declaration is used.
#[derive(Debug, Clone, Copy, PartialEq, Eq, Structural)]
pub enum ExportKind {
    Component,
    Generator,
    /// A plain function, a constant or a top-level binding: a module value.
    Value,
}

/// A module-level declaration as another module sees it: its kind and, for
/// a component, its global index in the component table.
#[derive(Debug, Clone, Copy, PartialEq, Eq, Structural)]
pub struct Export {
    pub kind: ExportKind,
    pub index: usize,
}

/// The global slot of name `n` among `names` laid out from `base`: the
/// position of its last occurrence.
pub open spec fn slot_of(names: Seq<Seq<char>>, base: int, n: Seq<char>) -> Option<int>
    decreases names.len(),
{
    if names.len() == 0 {
        None
    } else if names.last() == n {
        Some(base + names.len() - 1)
    } else {
        slot_of(names.drop_last(), base, n)
    }
}

/// `own` binds exactly the names laid out from `base`, each to its slot.
pub open spec fn slots_match(own: Seq<(String, usize)>, names: Seq<Seq<char>>, base: int) -> bool {
    forall|n: Seq<char>| #[trigger] slot_of(names, base, n) == (match assoc_get(own, n) {
        Some(v) => Some(v as int),
        None => None,
    })
}

proof fn lemma_slot_of_range(names: Seq<Seq<char>>, base: int, n: Seq<char>)
    ensures slot_of(names, base, n) matches Some(s) ==> base <= s < base + names.len(),
    decreases names.len(),
{
    if names.len() > 0 {
        lemma_slot_of_range(names.drop_last(), base, n);
    }
}

/// The component slots of one module: its component-shaped declarations,
/// in order, from global index `base`; a later declaration of a name takes
/// the name over.
pub fn component_slots(program: &Program, base: usize) -> (r: Result<(Vec<(String, usize)>, usize), LinkError>)
    ensures
        r matches Ok((own, next)) ==> next == base + component_decl_names(program.decls@).len()
            && slots_match(own@, component_decl_names(program.decls@), base as int),
        r matches Err(e) ==> e is Lower,
{
    let mut own: Vec<(String, usize)> = Vec::new();
    let mut next = base;
    let n = program.decls.len();
    for i in 0..n
        invariant
            n == program.decls@.len(),
            next == base + component_decl_names(program.decls@.take(i as int)).len(),
            slots_match(own@, component_decl_names(program.decls@.take(i as int)), base as int),
    {
        let ghost pre = program.decls@.take(i as int);
        assert(program.decls@.take(i + 1).drop_last() =~= pre);
        assert(program.decls@.take(i + 1).last() == program.decls@[i as int]);
        let name: Option<&String> = match &program.decls[i] {
            Decl::Component(c) => Some(&c.name),
            Decl::Class(c) => Some(&c.name),
            Decl::ExportDecl(ExportDecl::Function(f)) => Some(&f.name),
            Decl::ExportDecl(ExportDecl::Const { name, value }) => {
                if component_fn_of(value).is_some() { Some(name) } else { None }
            },
            _ => None,
        };
        let ghost names_pre = component_decl_names(pre);
        match name {
            Some(nm) => {
                assert(component_decl_names(program.decls@.take(i + 1)) =~= names_pre.push(nm@));
                if next == usize::MAX {
                    return Err(LinkError::Lower(owned("component table too large")));
                }
                let ghost own_before = own@;
                assoc_insert(&mut own, nm.clone(), next);
                proof {
                    assert forall|q: Seq<char>| #[trigger] slot_of(names_pre.push(nm@), base as int, q)
                        == (match assoc_get(own@, q) {
                            Some(v) => Some(v as int),
                            None => None,
                        }) by {
                        assert(names_pre.push(nm@).drop_last() =~= names_pre);
                        assert(slot_of(names_pre, base as int, q) == (match assoc_get(own_before, q) {
                            Some(v) => Some(v as int),
                            None => None,
                        }));
                    }
                }
                next = next + 1;
            },
            None => {
                assert(component_decl_names(program.decls@.take(i + 1)) =~= names_pre);
            },
        }
    }
    assert(program.decls@.take(n as int) =~= program.decls@);
    Ok((own, next))
}

/// The index `own` binds `n` to (zero when it binds nothing).
pub open spec fn own_index(own: Seq<(String, usize)>, n: Seq<char>) -> usize {
    match assoc_get(own, n) {
        Some(i) => i,
        None => 0,
    }
}

/// Bind every name of `names` to a module value.
pub open spec fn insert_values(m: Map<Seq<char>, Export>, names: Seq<String>) -> Map<Seq<char>, Export>
    decreases names.len(),
{
    if names.len() == 0 {
        m
    } else {
        insert_values(m, names.drop_last()).insert(names.last()@, Export { kind: ExportKind::Value, index: usize::MAX })
    }
}

/// Every module-level declaration of a module by name: components (their
/// slots), generators, and module values; a later declaration of a name
/// replaces an earlier one.
pub open spec fn decl_surface(decls: Seq<Decl>, own: Seq<(String, usize)>) -> Map<Seq<char>, Export>
    decreases decls.len(),
{
    if decls.len() == 0 {
        Map::empty()
    } else {
        let m = decl_surface(decls.drop_last(), own);
        match decls.last() {
            Decl::Component(c) => m.insert(c.name@, Export { kind: ExportKind::Component, index: own_index(own, c.name@) }),
            Decl::Class(c) => m.insert(c.name@, Export { kind: ExportKind::Component, index: own_index(own, c.name@) }),
            Decl::GeneratorFn(g) => m.insert(g.name@, Export { kind: ExportKind::Generator, index: usize::MAX }),
            Decl::FuncDecl(f) => m.insert(f.name@, Export { kind: ExportKind::Value, index: usize::MAX }),
            Decl::TopLevel { pattern, .. } => insert_values(m, pattern_names_of(pattern)),
            Decl::ExportDecl(ExportDecl::Function(f)) =>
                m.insert(f.name@, Export { kind: ExportKind::Component, index: own_index(own, f.name@) }),
            Decl::ExportDecl(ExportDecl::Const { name, .. }) => match assoc_get(own, name@) {
                Some(i) => m.insert(name@, Export { kind: ExportKind::Component, index: i }),
                None => m.insert(name@, Export { kind: ExportKind::Value, index: usize::MAX }),
            },
            _ => m,
        }
    }
}

/// `m` with `name` bound to the declaration `local` names, if any.
pub open spec fn export_as(m: Map<Seq<char>, Export>, dm: Map<Seq<char>, Export>, local: Seq<char>, name: Seq<char>)
    -> Map<Seq<char>, Export> {
    if dm.contains_key(local) { m.insert(name, dm[local]) } else { m }
}

/// `export { local as exported, ... }` applied in order.
pub open spec fn export_pairs(m: Map<Seq<char>, Export>, dm: Map<Seq<char>, Export>, pairs: Seq<(String, String)>)
    -> Map<Seq<char>, Export>
    decreases pairs.len(),
{
    if pairs.len() == 0 {
        m
    } else {
        export_as(export_pairs(m, dm, pairs.drop_last()), dm, pairs.last().0@, pairs.last().1@)
    }
}

/// A module's export surface: only what it exports explicitly, by exported
/// name (`default` for `export default`), among its declarations `dm`.
pub open spec fn export_surface(decls: Seq<Decl>, dm: Map<Seq<char>, Export>) -> Map<Seq<char>, Export>
    decreases decls.len(),
{
    if decls.len() == 0 {
        Map::empty()
    } else {
        let m = export_surface(decls.drop_last(), dm);
        match decls.last() {
            Decl::ExportDefault(name) => export_as(m, dm, name@, "default"@),
            Decl::ExportNamed(names) => export_pairs(m, dm, names.names@),
            Decl::ExportDecl(ExportDecl::Function(f)) => export_as(m, dm, f.name@, f.name@),
            Decl::ExportDecl(ExportDecl::Const { name, .. }) => export_as(m, dm, name@, name@),
            _ => m,
        }
    }
}

/// `a` models the map `m`.
pub open spec fn models(a: Seq<(String, Export)>, m: Map<Seq<char>, Export>) -> bool {
    forall|q: Seq<char>| #[trigger] assoc_get(a, q) == (if m.contains_key(q) { Some(m[q]) } else { None })
}

fn put(a: &mut Vec<(String, Export)>, k: String, v: Export, m: Ghost<Map<Seq<char>, Export>>)
    requires models(old(a)@, m@),
    ensures models(final(a)@, m@.insert(k@, v)),
{
    assoc_insert(a, k, v);
    assert forall|q: Seq<char>| #[trigger] assoc_get(a@, q)
        == (if m@.insert(k@, v).contains_key(q) { Some(m@.insert(k@, v)[q]) } else { None }) by {}
}

fn lookup_export(a: &Vec<(String, Export)>, k: &str, m: Ghost<Map<Seq<char>, Export>>) -> (r: Option<Export>)
    requires models(a@, m@),
    ensures r == (if m@.contains_key(k@) { Some(m@[k@]) } else { None }),
{
    match assoc_find(a, k) {
        Some(i) => Some(a[i].1),
        None => None,
    }
}

/// Every module-level declaration of a module by name.
fn declarations_of(program: &Program, own: &Vec<(String, usize)>) -> (r: Vec<(String, Export)>)
    ensures models(r@, decl_surface(program.decls@, own@)),
{
    let mut dm: Vec<(String, Export)> = Vec::new();
    let n = program.decls.len();
    assert(models(dm@, Map::empty()));
    for i in 0..n
        invariant
            n == program.decls@.len(),
            models(dm@, decl_surface(program.decls@.take(i as int), own@)),
    {
        let ghost pre = program.decls@.take(i as int);
        let ghost m = decl_surface(pre, own@);
        assert(program.decls@.take(i + 1).drop_last() =~= pre);
        assert(program.decls@.take(i + 1).last() == program.decls@[i as int]);
        match &program.decls[i] {
            Decl::Component(c) => {
                let idx = match assoc_find(own, c.name.as_str()) {
                    Some(j) => own[j].1,
                    None => 0,
                };
                put(&mut dm, c.name.clone(), Export { kind: ExportKind::Component, index: idx }, Ghost(m));
            },
            Decl::Class(c) => {
                let idx = match assoc_find(own, c.name.as_str()) {
                    Some(j) => own[j].1,
                    None => 0,
                };
                put(&mut dm, c.name.clone(), Export { kind: ExportKind::Component, index: idx }, Ghost(m));
            },
            Decl::GeneratorFn(g) => {
                put(&mut dm, g.name.clone(), Export { kind: ExportKind::Generator, index: usize::MAX }, Ghost(m));
            },
            Decl::FuncDecl(f) => {
                put(&mut dm, f.name.clone(), Export { kind: ExportKind::Value, index: usize::MAX }, Ghost(m));
            },
            Decl::TopLevel { pattern, .. } => {
                let names = binding_names(pattern);
                let k = names.len();
                for j in 0..k
                    invariant
                        k == names@.len(),
                        names@ == pattern_names_of(*pattern),
                        models(dm@, insert_values(m, names@.take(j as int))),
                {
                    assert(names@.take(j + 1).drop_last() =~= names@.take(j as int));
                    assert(names@.take(j + 1).last() == names@[j as int]);
                    put(&mut dm, names[j].clone(), Export { kind: ExportKind::Value, index: usize::MAX },
                        Ghost(insert_values(m, names@.take(j as int))));
                }
                assert(names@.take(k as int) =~= names@);
            },
            Decl::ExportDecl(ExportDecl::Function(f)) => {
                let idx = match assoc_find(own, f.name.as_str()) {
                    Some(j) => own[j].1,
                    None => 0,
                };
                put(&mut dm, f.name.clone(), Export { kind: ExportKind::Component, index: idx }, Ghost(m));
            },
            Decl::ExportDecl(ExportDecl::Const { name, .. }) => {
                match assoc_find(own, name.as_str()) {
                    Some(j) => {
                        let idx = own[j].1;
                        put(&mut dm, name.clone(), Export { kind: ExportKind::Component, index: idx }, Ghost(m));
                    },
                    None => {
                        put(&mut dm, name.clone(), Export { kind: ExportKind::Value, index: usize::MAX }, Ghost(m));
                    },
                }
            },
            _ => {},
        }
    }
    assert(program.decls@.take(n as int) =~= program.decls@);
    dm
}

fn export_if(out: &mut Vec<(String, Export)>, dm: &Vec<(String, Export)>, local: &str, name: String,
    m: Ghost<Map<Seq<char>, Export>>, d: Ghost<Map<Seq<char>, Export>>)
    requires models(old(out)@, m@), models(dm@, d@),
    ensures models(final(out)@, export_as(m@, d@, local@, name@)),
{
    match lookup_export(dm, local, d) {
        Some(e) => put(out, name, e, m),
        None => {},
    }
}

/// A module's export surface.
fn exports_of(program: &Program, dm: &Vec<(String, Export)>, d: Ghost<Map<Seq<char>, Export>>) -> (r: Vec<(String, Export)>)
    requires models(dm@, d@),
    ensures models(r@, export_surface(program.decls@, d@)),
{
    let mut out: Vec<(String, Export)> = Vec::new();
    let n = program.decls.len();
    assert(models(out@, Map::empty()));
    for i in 0..n
        invariant
            n == program.decls@.len(),
            models(dm@, d@),
            models(out@, export_surface(program.decls@.take(i as int), d@)),
    {
        let ghost pre = program.decls@.take(i as int);
        let ghost m = export_surface(pre, d@);
        assert(program.decls@.take(i + 1).drop_last() =~= pre);
        assert(program.decls@.take(i + 1).last() == program.decls@[i as int]);
        match &program.decls[i] {
            Decl::ExportDefault(name) => {
                proof { reveal_strlit("default"); }
                export_if(&mut out, dm, name.as_str(), owned("default"), Ghost(m), d);
            },
            Decl::ExportNamed(en) => {
                let k = en.names.len();
                for j in 0..k
                    invariant
                        k == en.names@.len(),
                        models(dm@, d@),
                        models(out@, export_pairs(m, d@, en.names@.take(j as int))),
                {
                    assert(en.names@.take(j + 1).drop_last() =~= en.names@.take(j as int));
                    assert(en.names@.take(j + 1).last() == en.names@[j as int]);
                    export_if(&mut out, dm, en.names[j].0.as_str(), en.names[j].1.clone(),
                        Ghost(export_pairs(m, d@, en.names@.take(j as int))), d);
                }
                assert(en.names@.take(k as int) =~= en.names@);
            },
            Decl::ExportDecl(ExportDecl::Function(f)) => {
                export_if(&mut out, dm, f.name.as_str(), f.name.clone(), Ghost(m), d);
            },
            Decl::ExportDecl(ExportDecl::Const { name, .. }) => {
                export_if(&mut out, dm, name.as_str(), name.clone(), Ghost(m), d);
            },
            _ => {},
        }
    }
    assert(program.decls@.take(n as int) =~= program.decls@);
    out
}

/// The first name an import asks of a module that the module does not
/// export: `default` for a default import, then each named import in order.
pub open spec fn first_missing(import: Import, ex: Map<Seq<char>, Export>) -> Option<Seq<char>> {
    if import.default_ is Some && !ex.contains_key("default"@) {
        Some("default"@)
    } else {
        missing_named(import.named@, ex)
    }
}

/// The first imported name of `named` that `ex` does not export.
pub open spec fn missing_named(named: Seq<(String, String)>, ex: Map<Seq<char>, Export>) -> Option<Seq<char>>
    decreases named.len(),
{
    if named.len() == 0 {
        None
    } else {
        match missing_named(named.drop_last(), ex) {
            Some(m) => Some(m),
            None => if ex.contains_key(named.last().0@) { None } else { Some(named.last().0@) },
        }
    }
}

/// The component bindings of named imports: each local name bound to the
/// global index of the component it imports (other imports bind no
/// component).
pub open spec fn named_bindings(named: Seq<(String, String)>, ex: Map<Seq<char>, Export>) -> Seq<(Seq<char>, usize)>
    decreases named.len(),
{
    if named.len() == 0 {
        Seq::empty()
    } else {
        let (imported, local) = named.last();
        named_bindings(named.drop_last(), ex) + if ex.contains_key(imported@) && ex[imported@].kind == ExportKind::Component {
            seq![(local@, ex[imported@].index)]
        } else {
            Seq::empty()
        }
    }
}

/// The component bindings of an import: the default import's (when the
/// default export is a component) then the named imports'.
pub open spec fn import_bindings(import: Import, ex: Map<Seq<char>, Export>) -> Seq<(Seq<char>, usize)> {
    (match import.default_ {
        Some(d) => if ex.contains_key("default"@) && ex["default"@].kind == ExportKind::Component {
            seq![(d@, ex["default"@].index)]
        } else {
            Seq::empty()
        },
        None => Seq::empty(),
    }) + named_bindings(import.named@, ex)
}

/// The views of a list of bindings.
pub open spec fn binding_views(bs: Seq<(String, usize)>) -> Seq<(Seq<char>, usize)> {
    bs.map_values(|b: (String, usize)| (b.0@, b.1))
}

/// The component bindings an import of module `from` brings in from a
/// module with exports `target_exports`; importing a name the module does
/// not export is an error naming it.
pub fn resolve_import_bindings(from: &str, import: &Import, target_exports: &Vec<(String, Export)>,
    ex: Ghost<Map<Seq<char>, Export>>) -> (r: Result<Vec<(String, usize)>, LinkError>)
    requires models(target_exports@, ex@),
    ensures
        r is Err <==> first_missing(*import, ex@) is Some,
        r matches Ok(bs) ==> binding_views(bs@) == import_bindings(*import, ex@),
        r matches Err(e) ==> (e matches LinkError::UnknownExport { module, exported }
            && module@ == from@ && Some(exported@) == first_missing(*import, ex@)),
{
    proof { reveal_strlit("default"); }
    let mut out: Vec<(String, usize)> = Vec::new();
    match &import.default_ {
        Some(d) => {
            match lookup_export(target_exports, "default", ex) {
                Some(e) => {
                    if e.kind == ExportKind::Component {
                        out.push((d.clone(), e.index));
                    }
                },
                None => {
                    return Err(LinkError::UnknownExport { module: owned(from), exported: owned("default") });
                },
            }
        },
        None => {},
    }
    let ghost head = binding_views(out@);
    assert(head =~= (match import.default_ {
        Some(d) => if ex@.contains_key("default"@) && ex@["default"@].kind == ExportKind::Component {
            seq![(d@, ex@["default"@].index)]
        } else {
            Seq::empty()
        },
        None => Seq::<(Seq<char>, usize)>::empty(),
    }));
    let n = import.named.len();
    for i in 0..n
        invariant
            n == import.named@.len(),
            models(target_exports@, ex@),
            missing_named(import.named@.take(i as int), ex@) is None,
            !(import.default_ is Some && !ex@.contains_key("default"@)),
            binding_views(out@) == head + named_bindings(import.named@.take(i as int), ex@),
    {
        let ghost pre = import.named@.take(i as int);
        assert(import.named@.take(i + 1).drop_last() =~= pre);
        assert(import.named@.take(i + 1).last() == import.named@[i as int]);
        let (imported, local) = &import.named[i];
        match lookup_export(target_exports, imported.as_str(), ex) {
            Some(e) => {
                let ghost before = out@;
                if e.kind == ExportKind::Component {
                    out.push((local.clone(), e.index));
                    assert(binding_views(out@) =~= binding_views(before) + seq![(local@, e.index)]);
                } else {
                    assert(binding_views(out@) =~= binding_views(before) + Seq::<(Seq<char>, usize)>::empty());
                }
            },
            None => {
                proof {
                    assert(missing_named(import.named@.take(i + 1), ex@) == Some(imported@));
                    lemma_missing_named_prefix(import.named@, (i + 1) as int, ex@);
                }
                return Err(LinkError::UnknownExport { module: owned(from), exported: imported.clone() });
            },
        }
    }
    assert(import.named@.take(n as int) =~= import.named@);
    Ok(out)
}

/// The first missing name of a prefix is the first missing name of the whole.
proof fn lemma_missing_named_prefix(named: Seq<(String, String)>, k: int, ex: Map<Seq<char>, Export>)
    requires 0 <= k <= named.len(), missing_named(named.take(k), ex) is Some,
    ensures missing_named(named, ex) == missing_named(named.take(k), ex),
    decreases named.len() - k,
{
    if k < named.len() {
        assert(named.take(k + 1).drop_last() =~= named.take(k));
        lemma_missing_named_prefix(named, k + 1, ex);
    } else {
        assert(named.take(k) =~= named);
    }
}

/// The name of a program's last `export default`, if any.
pub fn default_export(program: &Program) -> (r: Option<String>)
    ensures r == default_root(program.decls@),
{
    let mut k = program.decls.len();
    assert(program.decls@.take(k as int) =~= program.decls@);
    while k > 0
        invariant
            k <= program.decls@.len(),
            default_root(program.decls@) == default_root(program.decls@.take(k as int)),
        decreases k,
    {
        let ghost pre = program.decls@.take(k as int);
        assert(pre.drop_last() =~= program.decls@.take(k - 1));
        assert(pre.last() == program.decls@[k - 1]);
        match &program.decls[k - 1] {
            Decl::ExportDefault(n) => {
                return Some(n.clone());
            },
            _ => {},
        }
        k = k - 1;
    }
    assert(program.decls@.take(0) =~= Seq::<Decl>::empty());
    None
}

/// Every component of `m` has a global index below `hi`.
pub open spec fn components_below(m: Map<Seq<char>, Export>, hi: int) -> bool {
    forall|q: Seq<char>| #[trigger] m.contains_key(q) ==> (m[q].kind == ExportKind::Component ==> m[q].index < hi)
}

/// Every index `a` binds a name to is below `hi`.
pub open spec fn bound_below(a: Seq<(String, usize)>, hi: int) -> bool {
    forall|q: Seq<char>| #[trigger] assoc_get(a, q) matches Some(v) ==> v < hi
}

proof fn lemma_insert_values_below(m: Map<Seq<char>, Export>, names: Seq<String>, hi: int)
    requires components_below(m, hi),
    ensures components_below(insert_values(m, names), hi),
    decreases names.len(),
{
    if names.len() > 0 {
        lemma_insert_values_below(m, names.drop_last(), hi);
    }
}

proof fn lemma_decl_surface_below(decls: Seq<Decl>, own: Seq<(String, usize)>, hi: int)
    requires bound_below(own, hi), hi > 0,
    ensures components_below(decl_surface(decls, own), hi),
    decreases decls.len(),
{
    if decls.len() > 0 {
        lemma_decl_surface_below(decls.drop_last(), own, hi);
        let m = decl_surface(decls.drop_last(), own);
        match decls.last() {
            Decl::TopLevel { pattern, .. } => lemma_insert_values_below(m, pattern_names_of(pattern), hi),
            Decl::Component(c) => assert(assoc_get(own, c.name@) matches Some(v) ==> v < hi),
            Decl::Class(c) => assert(assoc_get(own, c.name@) matches Some(v) ==> v < hi),
            Decl::ExportDecl(ExportDecl::Function(f)) => assert(assoc_get(own, f.name@) matches Some(v) ==> v < hi),
            Decl::ExportDecl(ExportDecl::Const { name, .. }) => assert(assoc_get(own, name@) matches Some(v) ==> v < hi),
            _ => {},
        }
    }
}

proof fn lemma_export_pairs_below(m: Map<Seq<char>, Export>, dm: Map<Seq<char>, Export>, pairs: Seq<(String, String)>, hi: int)
    requires components_below(m, hi), components_below(dm, hi),
    ensures components_below(export_pairs(m, dm, pairs), hi),
    decreases pairs.len(),
{
    if pairs.len() > 0 {
        lemma_export_pairs_below(m, dm, pairs.drop_last(), hi);
        assert(dm.contains_key(pairs.last().0@) ==> (dm[pairs.last().0@].kind == ExportKind::Component
            ==> dm[pairs.last().0@].index < hi));
    }
}

proof fn lemma_export_surface_below(decls: Seq<Decl>, dm: Map<Seq<char>, Export>, hi: int)
    requires components_below(dm, hi),
    ensures components_below(export_surface(decls, dm), hi),
    decreases decls.len(),
{
    if decls.len() > 0 {
        lemma_export_surface_below(decls.drop_last(), dm, hi);
        let m = export_surface(decls.drop_last(), dm);
        match decls.last() {
            Decl::ExportDefault(name) => assert(dm.contains_key(name@) ==> (dm[name@].kind == ExportKind::Component
                ==> dm[name@].index < hi)),
            Decl::ExportNamed(names) => lemma_export_pairs_below(m, dm, names.names@, hi),
            Decl::ExportDecl(ExportDecl::Function(f)) => assert(dm.contains_key(f.name@) ==> (dm[f.name@].kind
                == ExportKind::Component ==> dm[f.name@].index < hi)),
            Decl::ExportDecl(ExportDecl::Const { name, .. }) => assert(dm.contains_key(name@) ==> (dm[name@].kind
                == ExportKind::Component ==> dm[name@].index < hi)),
            _ => {},
        }
    }
}

proof fn lemma_named_bindings_below(named: Seq<(String, String)>, ex: Map<Seq<char>, Export>, hi: int)
    requires components_below(ex, hi),
    ensures forall|k: int| 0 <= k < named_bindings(named, ex).len() ==> #[trigger] named_bindings(named, ex)[k].1 < hi,
    decreases named.len(),
{
    if named.len() > 0 {
        lemma_named_bindings_below(named.drop_last(), ex, hi);
        let imported = named.last().0;
        assert(ex.contains_key(imported@) ==> (ex[imported@].kind == ExportKind::Component ==> ex[imported@].index < hi));
        let prev = named_bindings(named.drop_last(), ex);
        let all = named_bindings(named, ex);
        assert forall|k: int| 0 <= k < all.len() implies #[trigger] all[k].1 < hi by {
            if k < prev.len() {
                assert(all[k] == prev[k]);
            }
        }
    }
}

proof fn lemma_import_bindings_below(import: Import, ex: Map<Seq<char>, Export>, hi: int)
    requires components_below(ex, hi),
    ensures forall|k: int| 0 <= k < import_bindings(import, ex).len() ==> #[trigger] import_bindings(import, ex)[k].1 < hi,
{
    lemma_named_bindings_below(import.named@, ex, hi);
    assert(ex.contains_key("default"@) ==> (ex["default"@].kind == ExportKind::Component ==> ex["default"@].index < hi));
}


/// The views of a list of exports.
pub open spec fn export_views(r: Seq<(String, usize)>) -> Seq<(Seq<char>, usize)> {
    r.map_values(|p: (String, usize)| (p.0@, p.1))
}

/// The names of a list of exports.
pub open spec fn export_names(r: Seq<(String, usize)>) -> Seq<Seq<char>> {
    r.map_values(|p: (String, usize)| p.0@)
}

/// `r` lists the component exports of the surface `m`: each exported name
/// bound to a component, with its global index, once, in ascending order of
/// name.
pub open spec fn lists_component_exports(r: Seq<(String, usize)>, m: Map<Seq<char>, Export>) -> bool {
    &&& sorted_names(export_names(r))
    &&& forall|q: Seq<char>, x: usize| #[trigger] export_views(r).contains((q, x))
        <==> (m.contains_key(q) && m[q].kind == ExportKind::Component && m[q].index == x)
}

/// Insert the export `(name, idx)` into the list `out`, ascending by name,
/// where `name` is not listed yet.
fn insert_export(out: &mut Vec<(String, usize)>, name: &String, idx: usize)
    requires
        sorted_names(export_names(old(out)@)),
        !export_names(old(out)@).contains(name@),
    ensures
        sorted_names(export_names(final(out)@)),
        forall|p: (Seq<char>, usize)| export_views(final(out)@).contains(p)
            <==> (export_views(old(out)@).contains(p) || p == (name@, idx)),
        forall|q: Seq<char>| export_names(final(out)@).contains(q)
            <==> (export_names(old(out)@).contains(q) || q == name@),
{
    let ghost on = export_names(out@);
    let ghost ov = export_views(out@);
    let n = out.len();
    let mut k: usize = 0;
    while k < n && text_less(out[k].0.as_str(), name.as_str())
        invariant
            n == out@.len(),
            k <= n,
            out@ == old(out)@,
            on == export_names(out@),
            forall|i: int| 0 <= i < k ==> text_lt(#[trigger] on[i], name@),
        decreases n - k,
    {
        k = k + 1;
    }
    proof {
        if k < n {
            assert(on[k as int] != name@);
            lemma_text_lt_total(on[k as int], name@);
        }
    }
    out.insert(k, (owned(name.as_str()), idx));
    proof {
        let v = export_names(out@);
        let w = export_views(out@);
        assert(v =~= on.insert(k as int, name@));
        assert(w =~= ov.insert(k as int, (name@, idx)));
        assert forall|i: int, j: int| 0 <= i < j < v.len() implies text_lt(#[trigger] v[i], #[trigger] v[j]) by {
            if j < k {
                assert(v[i] == on[i] && v[j] == on[j]);
            } else if j == k {
                assert(v[i] == on[i]);
            } else if i < k {
                assert(v[i] == on[i] && v[j] == on[j - 1]);
                lemma_text_lt_transitive(on[i], name@, on[k as int]);
                if k < j - 1 {
                    lemma_text_lt_transitive(on[i], on[k as int], on[j - 1]);
                }
            } else if i == k {
                assert(v[j] == on[j - 1]);
                if k < j - 1 {
                    lemma_text_lt_transitive(name@, on[k as int], on[j - 1]);
                }
            } else {
                assert(v[i] == on[i - 1] && v[j] == on[j - 1]);
            }
        }
        assert forall|p: (Seq<char>, usize)| w.contains(p) <==> (ov.contains(p) || p == (name@, idx)) by {
            if w.contains(p) {
                let i = choose|i: int| 0 <= i < w.len() && w[i] == p;
                if i < k {
                    assert(ov[i] == p);
                } else if i > k {
                    assert(ov[i - 1] == p);
                }
            }
            if ov.contains(p) {
                let i = choose|i: int| 0 <= i < ov.len() && ov[i] == p;
                if i < k {
                    assert(w[i] == p);
                } else {
                    assert(w[i + 1] == p);
                }
            }
            if p == (name@, idx) {
                assert(w[k as int] == p);
            }
        }
        assert forall|q: Seq<char>| v.contains(q) <==> (on.contains(q) || q == name@) by {
            if v.contains(q) {
                let i = choose|i: int| 0 <= i < v.len() && v[i] == q;
                if i < k {
                    assert(on[i] == q);
                } else if i > k {
                    assert(on[i - 1] == q);
                }
            }
            if on.contains(q) {
                let i = choose|i: int| 0 <= i < on.len() && on[i] == q;
                if i < k {
                    assert(v[i] == q);
                } else {
                    assert(v[i + 1] == q);
                }
            }
            if q == name@ {
                assert(v[k as int] == q);
            }
        }
    }
}

/// The component exports of a surface given as an association list (each
/// name bound by its first entry): each name bound to a component with its
/// global index, in ascending order of name.
pub fn component_exports(a: &Vec<(String, Export)>, m: Ghost<Map<Seq<char>, Export>>) -> (r: Vec<(String, usize)>)
    requires
        models(a@, m@),
    ensures
        lists_component_exports(r@, m@),
{
    let mut out: Vec<(String, usize)> = Vec::new();
    let mut seen: Vec<String> = Vec::new();
    let n = a.len();
    assert(a@.take(0) =~= Seq::<(String, Export)>::empty());
    for i in 0..n
        invariant
            n == a@.len(),
            sorted_names(export_names(out@)),
            forall|q: Seq<char>| #[trigger] views(seen@).contains(q) <==> assoc_get(a@.take(i as int), q) is Some,
            forall|q: Seq<char>, x: usize| #[trigger] export_views(out@).contains((q, x))
                <==> (assoc_get(a@.take(i as int), q) matches Some(e) && e.kind == ExportKind::Component && e.index == x),
            forall|q: Seq<char>| export_names(out@).contains(q) ==> #[trigger] views(seen@).contains(q),
    {
        let ghost pre = a@.take(i as int);
        let ghost post = a@.take(i + 1);
        let key = &a[i].0;
        let e = a[i].1;
        proof {
            assert(post =~= pre.push(a@[i as int]));
            assert forall|q: Seq<char>| #[trigger] assoc_get(post, q) == (match assoc_get(pre, q) {
                Some(v) => Some(v),
                None => if a@[i as int].0@ == q { Some(a@[i as int].1) } else { None },
            }) by {
                lemma_assoc_get_push(pre, a@[i as int], q);
            }
        }
        let known = contains_string(&seen, key.as_str());
        proof {
            if known {
                let j = choose|j: int| 0 <= j < seen@.len() && #[trigger] seen@[j]@ == key@;
                assert(views(seen@)[j] == key@);
            }
            if views(seen@).contains(key@) {
                let j = choose|j: int| 0 <= j < views(seen@).len() && views(seen@)[j] == key@;
                assert(seen@[j]@ == key@);
            }
        }
        let ghost seen0 = views(seen@);
        let ghost out0 = export_views(out@);
        let ghost names0 = export_names(out@);
        if !known {
            seen.push(owned(key.as_str()));
            assert(views(seen@) =~= seen0.push(key@));
            match e.kind {
                ExportKind::Component => {
                    insert_export(&mut out, key, e.index);
                },
                _ => {},
            }
        }
        proof {
            assert forall|q: Seq<char>| #[trigger] views(seen@).contains(q) <==> assoc_get(post, q) is Some by {
                if !known {
                    if views(seen@).contains(q) && q != key@ {
                        let j = choose|j: int| 0 <= j < views(seen@).len() && views(seen@)[j] == q;
                        assert(seen0[j] == q);
                    }
                    if seen0.contains(q) {
                        let j = choose|j: int| 0 <= j < seen0.len() && seen0[j] == q;
                        assert(views(seen@)[j] == q);
                    }
                    if q == key@ {
                        assert(views(seen@)[seen0.len() as int] == q);
                    }
                }
            }
            assert forall|q: Seq<char>, x: usize| #[trigger] export_views(out@).contains((q, x))
                <==> (assoc_get(post, q) matches Some(f) && f.kind == ExportKind::Component && f.index == x) by {
                if !known && q == key@ {
                    assert(!seen0.contains(q));
                    if out0.contains((q, x)) {
                        assert(assoc_get(pre, q) is Some);
                    }
                }
            }
            assert forall|q: Seq<char>| export_names(out@).contains(q) implies #[trigger] views(seen@).contains(q) by {
                if !known {
                    if q != key@ {
                        if e.kind == ExportKind::Component {
                            assert(names0.contains(q));
                        } else {
                            assert(export_names(out@) == names0);
                        }
                        assert(seen0.contains(q));
                        let j = choose|j: int| 0 <= j < seen0.len() && seen0[j] == q;
                        assert(views(seen@)[j] == q);
                    } else {
                        assert(views(seen@)[seen0.len() as int] == q);
                    }
                }
            }
        }
    }
    assert(a@.take(n as int) =~= a@);
    out
}

/// Where a module's component slots start, and the components its code can
/// refer to by name: its own component-shaped declarations and the
/// components its imports bind, each with its global index.
pub struct ModuleLayout {
    pub base: usize,
    /// The module's own component-shaped declarations, each with its slot.
    pub own: Vec<(String, usize)>,
    pub names: Vec<(String, usize)>,
    /// The module's component exports with their global indices, ascending
    /// by exported name.
    pub exports: Vec<(String, usize)>,
}

/// The export surface of module `m` laid out as `l`.
pub open spec fn surface(m: GraphModule, l: ModuleLayout) -> Map<Seq<char>, Export> {
    export_surface(m.program.decls@, decl_surface(m.program.decls@, l.own@))
}

/// The export surfaces of all modules of a plan, in module order.
pub open spec fn plan_surfaces(ms: Seq<GraphModule>, ls: Seq<ModuleLayout>) -> Seq<Map<Seq<char>, Export>> {
    Seq::new(ms.len(), |j: int| surface(ms[j], ls[j]))
}

/// The component bindings the imports among `decls` bring in, in order: an
/// import whose target is module `targets[d]` binds as `import_bindings` says
/// over that module's surface; an import with a negative target (an external
/// package) binds nothing.
pub open spec fn binds_of(decls: Seq<Decl>, targets: Seq<int>, sfs: Seq<Map<Seq<char>, Export>>)
    -> Seq<(Seq<char>, usize)>
    decreases decls.len(),
{
    if decls.len() == 0 || targets.len() != decls.len() {
        Seq::empty()
    } else {
        binds_of(decls.drop_last(), targets.drop_last(), sfs) + match decls.last() {
            Decl::Import(imp) => if 0 <= targets.last() < sfs.len() {
                import_bindings(imp, sfs[targets.last()])
            } else {
                Seq::empty()
            },
            _ => Seq::empty(),
        }
    }
}

/// The index the last binding of `q` in `bs` gives it, if any.
pub open spec fn last_bound(bs: Seq<(Seq<char>, usize)>, q: Seq<char>) -> Option<usize>
    decreases bs.len(),
{
    if bs.len() == 0 {
        None
    } else if bs.last().0 == q {
        Some(bs.last().1)
    } else {
        last_bound(bs.drop_last(), q)
    }
}

/// `names` is `own` with the bindings `bs` applied in order (a later binding
/// of a name replaces an earlier one).
pub open spec fn binds_as(names: Seq<(String, usize)>, own: Seq<(String, usize)>, bs: Seq<(Seq<char>, usize)>) -> bool {
    forall|q: Seq<char>| #[trigger] assoc_get(names, q) == (match last_bound(bs, q) {
        Some(v) => Some(v),
        None => assoc_get(own, q),
    })
}

/// Each import of a module names a target module (or, for an external
/// package that does not resolve, none).
pub open spec fn targets_ok(decls: Seq<Decl>, targets: Seq<int>, n: int) -> bool {
    &&& targets.len() == decls.len()
    &&& forall|d: int| 0 <= d < decls.len() ==> (#[trigger] targets[d] < n
        && (targets[d] < 0 ==> (decls[d] matches Decl::Import(imp) ==> external_spec(imp.path@))))
}

/// Every module's names are its own components overridden, in order, by the
/// bindings of its imports, each resolved against its target module's
/// export surface.
pub open spec fn bindings_resolved(ms: Seq<GraphModule>, ls: Seq<ModuleLayout>) -> bool {
    forall|i: int| 0 <= i < ms.len() ==> #[trigger] imports_resolved(ms[i].program.decls@, ls[i].names@,
        ls[i].own@, ms.len() as int, plan_surfaces(ms, ls))
}

/// `names` is `own` overridden by the bindings of the imports among
/// `decls`, for some choice of target module (among `n`) for each import.
pub open spec fn imports_resolved(decls: Seq<Decl>, names: Seq<(String, usize)>, own: Seq<(String, usize)>,
    n: int, sfs: Seq<Map<Seq<char>, Export>>) -> bool {
    exists|targets: Seq<int>| targets_ok(decls, targets, n) && #[trigger] binds_as(names, own, binds_of(decls, targets, sfs))
}

/// A linked program: its modules in discovery order (the entry first), each
/// module's layout, the size of the global component table and the root
/// component's index in it.
pub struct LinkPlan {
    pub modules: Vec<GraphModule>,
    pub layouts: Vec<ModuleLayout>,
    pub component_count: usize,
    pub root: usize,
}

/// The component table is laid out module by module in discovery order:
/// each module's slots follow the previous module's.
pub open spec fn contiguous_layout(ms: Seq<GraphModule>, ls: Seq<ModuleLayout>, total: int) -> bool {
    &&& ls.len() == ms.len() >= 1
    &&& ls[0].base == 0
    &&& forall|i: int| 0 < i < ms.len()
        ==> #[trigger] ls[i].base == ls[i - 1].base + component_decl_names(ms[i - 1].program.decls@).len()
    &&& total == ls.last().base + component_decl_names(ms.last().program.decls@).len()
}

/// Every index a layout binds a name to lies in the component table.
pub open spec fn names_in_table(ls: Seq<ModuleLayout>, total: int) -> bool {
    forall|i: int| 0 <= i < ls.len() ==> bound_below(#[trigger] ls[i].names@, total)
}

/// The name of the entry's root component: its `export default`, or else
/// its sole component-shaped declaration.
pub open spec fn root_name(decls: Seq<Decl>) -> Option<Seq<char>> {
    match default_root(decls) {
        Some(n) => Some(n@),
        None => sole_component_spec(decls),
    }
}

fn copy_bindings(own: &Vec<(String, usize)>) -> (r: Vec<(String, usize)>)
    ensures forall|q: Seq<char>| #[trigger] assoc_get(r@, q) == assoc_get(own@, q), r@ == own@,
{
    let mut out: Vec<(String, usize)> = Vec::new();
    let n = own.len();
    for i in 0..n
        invariant
            n == own@.len(),
            out@.len() == i,
            forall|j: int| 0 <= j < i ==> #[trigger] out@[j] == own@[j],
    {
        out.push((own[i].0.clone(), own[i].1));
    }
    assert(out@ =~= own@);
    out
}

/// The names module `m` can use: its own components `own`, overridden in
/// order by the component bindings of each of its imports, resolved through
/// `resolver` and looked up in `table` (module id to export surface).
#[verifier::spinoff_prover]
#[verifier::rlimit(100)]
fn bind_module<R: ModuleResolver>(m: &GraphModule, own: &Vec<(String, usize)>,
    table: &Vec<(String, Vec<(String, Export)>)>, surfaces: Ghost<Seq<Map<Seq<char>, Export>>>, hi: Ghost<int>,
    resolver: &R) -> (r: Result<Vec<(String, usize)>, LinkError>)
    requires
        table@.len() == surfaces@.len(),
        forall|j: int| 0 <= j < table@.len() ==> models((#[trigger] table@[j]).1@, surfaces@[j]),
        forall|j: int| 0 <= j < table@.len() ==> components_below(#[trigger] surfaces@[j], hi@),
        bound_below(own@, hi@),
    ensures
        r matches Ok(names) ==> bound_below(names@, hi@)
            && imports_resolved(m.program.decls@, names@, own@, table@.len() as int, surfaces@),
        r matches Err(e) ==> e is Resolve || e is UnknownExport,
{
    let ghost surfaces = surfaces@;
    let ghost hi = hi@;
    let n = table.len();
    let mut names = copy_bindings(own);
    let k = m.program.decls.len();
    let mut d: usize = 0;
    let ghost mut targets: Seq<int> = Seq::empty();
    let ghost decls = m.program.decls@;
    assert(binds_of(decls.take(0), targets, surfaces) =~= Seq::empty());
    while d < k
        invariant
            k == m.program.decls@.len(),
            decls == m.program.decls@,
            d <= k,
            n == table@.len() == surfaces.len(),
            forall|j: int| 0 <= j < n ==> models((#[trigger] table@[j]).1@, surfaces[j]),
            forall|j: int| 0 <= j < n ==> components_below(#[trigger] surfaces[j], hi),
            bound_below(names@, hi),
            targets_ok(decls.take(d as int), targets, n as int),
            binds_as(names@, own@, binds_of(decls.take(d as int), targets, surfaces)),
        decreases k - d,
    {
        let decl = &m.program.decls[d];
        let ghost pre = decls.take(d as int);
        let ghost bs0 = binds_of(pre, targets, surfaces);
        assert(decls.take(d + 1).drop_last() =~= pre);
        assert(decls.take(d + 1).last() == decls[d as int]);
        d = d + 1;
        match decl {
            Decl::Import(imp) => {
                let target = match resolver.resolve(imp.path.as_str(), m.id.as_str()) {
                    Ok(t) => t,
                    Err(e) => {
                        if is_external_specifier(imp.path.as_str()) {
                            proof {
                                let t2 = targets.push(-1);
                                assert(t2.drop_last() =~= targets);
                                assert(binds_of(decls.take(d as int), t2, surfaces) =~= bs0);
                                assert forall|x: int| 0 <= x < decls.take(d as int).len() implies
                                    #[trigger] t2[x] < n && (t2[x] < 0 ==> (decls.take(d as int)[x]
                                    matches Decl::Import(im) ==> external_spec(im.path@))) by {
                                    if x < d - 1 {
                                        assert(decls.take(d as int)[x] == pre[x]);
                                    }
                                }
                                targets = t2;
                            }
                            continue;
                        }
                        return Err(e);
                    },
                };
                let j = match assoc_find(&table, target.as_str()) {
                    Some(j) => j,
                    None => {
                        return Err(LinkError::UnknownExport { module: m.id.clone(), exported: target });
                    },
                };
                let bs = resolve_import_bindings(m.id.as_str(), imp, &table[j].1, Ghost(surfaces[j as int]))?;
                proof {
                    lemma_import_bindings_below(*imp, surfaces[j as int], hi);
                    assert forall|t: int| 0 <= t < bs@.len() implies #[trigger] bs@[t].1 < hi by {
                        assert(binding_views(bs@)[t].1 == bs@[t].1);
                    }
                }
                let ghost t2 = targets.push(j as int);
                proof {
                    assert(t2.drop_last() =~= targets);
                    assert(binds_of(decls.take(d as int), t2, surfaces)
                        =~= bs0 + import_bindings(*imp, surfaces[j as int]));
                    assert forall|x: int| 0 <= x < decls.take(d as int).len() implies
                        #[trigger] t2[x] < n && (t2[x] < 0 ==> (decls.take(d as int)[x]
                        matches Decl::Import(im) ==> external_spec(im.path@))) by {
                        if x < d - 1 {
                            assert(decls.take(d as int)[x] == pre[x]);
                        }
                    }
                }
                let b = bs.len();
                for q in 0..b
                    invariant
                        b == bs@.len(),
                        bound_below(names@, hi),
                        forall|t: int| 0 <= t < b ==> #[trigger] bs@[t].1 < hi,
                        binds_as(names@, own@, bs0 + binding_views(bs@).take(q as int)),
                {
                    let ghost before = bs0 + binding_views(bs@).take(q as int);
                    assoc_insert(&mut names, bs[q].0.clone(), bs[q].1);
                    proof {
                        let after = bs0 + binding_views(bs@).take(q + 1);
                        assert(after =~= before.push((bs@[q as int].0@, bs@[q as int].1)));
                        assert(after.drop_last() =~= before);
                    }
                }
                proof {
                    assert(binding_views(bs@).take(b as int) =~= binding_views(bs@));
                    targets = t2;
                }
            },
            _ => {
                proof {
                    let t2 = targets.push(-1);
                    assert(t2.drop_last() =~= targets);
                    assert(binds_of(decls.take(d as int), t2, surfaces) =~= bs0);
                    assert forall|x: int| 0 <= x < decls.take(d as int).len() implies
                        #[trigger] t2[x] < n && (t2[x] < 0 ==> (decls.take(d as int)[x]
                        matches Decl::Import(im) ==> external_spec(im.path@))) by {
                        if x < d - 1 {
                            assert(decls.take(d as int)[x] == pre[x]);
                        }
                    }
                    targets = t2;
                }
            },
        }
    }
    assert(decls.take(k as int) =~= decls);
    proof {
        assert(imports_resolved(m.program.decls@, names@, own@, n as int, surfaces));
    }
    Ok(names)
}

/// `p` links the module graph of entry `entry`: its modules in depth-first
/// discovery order (the entry first, each once, each import resolved within
/// the graph), the component table laid out module by module, every name
/// bound to a slot of the table, each module's component exports listed, and
/// the root at the slot of the entry's root component.
pub open spec fn planned(p: LinkPlan, entry: Seq<char>) -> bool {
    &&& p.modules@.len() >= 1
    &&& p.modules@[0].id@ == entry
    &&& (p.modules@[0].deps@.len() == 0 ==> p.modules@.len() == 1)
    &&& discovery_ordered(p.modules@)
    &&& depth_first_order(graph_of(p.modules@))
    &&& distinct_strings(module_ids(p.modules@))
    &&& closed_graph(p.modules@)
    &&& modules_wf(p.modules@)
    &&& contiguous_layout(p.modules@, p.layouts@, p.component_count as int)
    &&& root_name(p.modules@[0].program.decls@) matches Some(n)
        && slot_of(component_decl_names(p.modules@[0].program.decls@), 0, n) == Some(p.root as int)
    &&& p.root < p.component_count
    &&& names_in_table(p.layouts@, p.component_count as int)
    &&& forall|i: int| 0 <= i < p.modules@.len() ==> slots_match(#[trigger] p.layouts@[i].own@,
        component_decl_names(p.modules@[i].program.decls@), p.layouts@[i].base as int)
    &&& bindings_resolved(p.modules@, p.layouts@)
    &&& forall|i: int| 0 <= i < p.modules@.len() ==> lists_component_exports(
        (#[trigger] p.layouts@[i]).exports@, surface(p.modules@[i], p.layouts@[i]))
}

/// Link a module graph: discover every module the entry imports (each
/// parsed once, in discovery order), lay the component table out module by
/// module, compute each module's export surface, bind each module's
/// component imports to global indices, and find the root: the entry's
/// `export default`, or else its sole component.
#[verifier::spinoff_prover]
#[verifier::rlimit(100)]
pub fn plan_link<R: ModuleResolver>(entry_source: &str, entry_id: &str, resolver: &R) -> (r: Result<LinkPlan, LinkError>)
    ensures
        r matches Ok(p) ==> planned(p, entry_id@),
        r matches Err(LinkError::ImportCycle(path)) ==> {
            &&& path@.len() >= 2
            &&& path@[0]@ == path@.last()@
            &&& distinct_strings(path@.drop_last())
        },
        r matches Err(LinkError::NoDefault(m)) ==> m@ == entry_id@,
{
    let modules = discover_modules(entry_source, entry_id, resolver)?;
    let n = modules.len();
    // Component slots, module by module.
    let mut owns: Vec<Vec<(String, usize)>> = Vec::new();
    let mut bases: Vec<usize> = Vec::new();
    let mut next: usize = 0;
    for i in 0..n
        invariant
            n == modules@.len() >= 1,
            owns@.len() == i && bases@.len() == i,
            i == 0 ==> next == 0,
            i > 0 ==> next == bases@[i - 1] + component_decl_names(modules@[i - 1].program.decls@).len(),
            i > 0 ==> bases@[0] == 0,
            forall|j: int| 0 < j < i ==> #[trigger] bases@[j]
                == bases@[j - 1] + component_decl_names(modules@[j - 1].program.decls@).len(),
            forall|j: int| 0 <= j < i ==> slots_match(#[trigger] owns@[j]@,
                component_decl_names(modules@[j].program.decls@), bases@[j] as int),
    {
        let (own, nx) = component_slots(&modules[i].program, next)?;
        bases.push(next);
        owns.push(own);
        next = nx;
    }
    let total = next;
    // Indices in use stay below `hi`, which is the table's size once the
    // table is known not to be empty.
    let ghost hi: int = if total > 0 { total as int } else { 1 };
    proof {
        assert forall|j: int| 0 <= j < n implies bound_below(#[trigger] owns@[j]@, hi) by {
            let names = component_decl_names(modules@[j].program.decls@);
            lemma_slots_within(modules@, bases@, n as int, j);
            assert forall|q: Seq<char>| #[trigger] assoc_get(owns@[j]@, q) is Some
                implies assoc_get(owns@[j]@, q)->0 < hi by {
                assert(slot_of(names, bases@[j] as int, q) == Some(assoc_get(owns@[j]@, q)->0 as int));
                lemma_slot_of_range(names, bases@[j] as int, q);
            }
        }
    }
    // Export surfaces, by module id.
    let mut table: Vec<(String, Vec<(String, Export)>)> = Vec::new();
    let ghost mut surfaces: Seq<Map<Seq<char>, Export>> = Seq::empty();
    for i in 0..n
        invariant
            n == modules@.len() == owns@.len(),
            table@.len() == i && surfaces.len() == i,
            forall|j: int| 0 <= j < i ==> models((#[trigger] table@[j]).1@, surfaces[j]),
            hi > 0,
            forall|j: int| 0 <= j < n ==> bound_below(#[trigger] owns@[j]@, hi),
            forall|j: int| 0 <= j < i ==> components_below(#[trigger] surfaces[j], hi),
            forall|j: int| 0 <= j < i ==> #[trigger] surfaces[j] == export_surface(modules@[j].program.decls@,
                decl_surface(modules@[j].program.decls@, owns@[j]@)),
    {
        let dm = declarations_of(&modules[i].program, &owns[i]);
        let ex = exports_of(&modules[i].program, &dm, Ghost(decl_surface(modules@[i as int].program.decls@, owns@[i as int]@)));
        proof {
            let decls = modules@[i as int].program.decls@;
            assert(bound_below(owns@[i as int]@, hi));
            lemma_decl_surface_below(decls, owns@[i as int]@, hi);
            lemma_export_surface_below(decls, decl_surface(decls, owns@[i as int]@), hi);
            surfaces = surfaces.push(export_surface(decls, decl_surface(decls, owns@[i as int]@)));
        }
        table.push((modules[i].id.clone(), ex));
    }
    // Component bindings and the root's name.
    let mut layouts: Vec<ModuleLayout> = Vec::new();
    let mut root: Option<String> = None;
    for i in 0..n
        invariant
            n == modules@.len() == owns@.len() == bases@.len() == table@.len() == surfaces.len(),
            layouts@.len() == i,
            forall|j: int| 0 <= j < i ==> (#[trigger] layouts@[j]).base == bases@[j],
            forall|j: int| 0 <= j < n ==> models((#[trigger] table@[j]).1@, surfaces[j]),
            modules@[0].id@ == entry_id@,
            i > 0 ==> (root matches Some(rn) && root_name(modules@[0].program.decls@) == Some(rn@)),
            forall|j: int| 0 <= j < n ==> bound_below(#[trigger] owns@[j]@, hi),
            forall|j: int| 0 <= j < n ==> components_below(#[trigger] surfaces[j], hi),
            forall|j: int| 0 <= j < i ==> bound_below(#[trigger] layouts@[j].names@, hi),
            forall|j: int| 0 <= j < n ==> #[trigger] surfaces[j] == export_surface(modules@[j].program.decls@,
                decl_surface(modules@[j].program.decls@, owns@[j]@)),
            forall|j: int| 0 <= j < i ==> (#[trigger] layouts@[j]).own@ == owns@[j]@,
            forall|j: int| 0 <= j < i ==> #[trigger] imports_resolved(modules@[j].program.decls@,
                layouts@[j].names@, owns@[j]@, n as int, surfaces),
            forall|j: int| 0 <= j < i ==> lists_component_exports((#[trigger] layouts@[j]).exports@, surfaces[j]),
    {
        let m = &modules[i];
        let names = bind_module(m, &owns[i], &table, Ghost(surfaces), Ghost(hi), resolver)?;
        if i == 0 {
            let rn = match default_export(&m.program) {
                Some(d) => Some(d),
                None => sole_entry_component(&m.program),
            };
            match rn {
                Some(x) => {
                    root = Some(x);
                },
                None => {
                    return Err(LinkError::NoDefault(owned(entry_id)));
                },
            }
        }
        let own = copy_bindings(&owns[i]);
        let exports = component_exports(&table[i].1, Ghost(surfaces[i as int]));
        let ghost lnames = names@;
        let ghost old_layouts = layouts@;
        layouts.push(ModuleLayout { base: bases[i], own, names, exports });
        proof {
            assert forall|j: int| 0 <= j < i + 1 implies #[trigger] imports_resolved(modules@[j].program.decls@,
                layouts@[j].names@, owns@[j]@, n as int, surfaces) by {
                if j == i {
                    assert(layouts@[j].names@ == lnames);
                } else {
                    assert(layouts@[j] == old_layouts[j]);
                }
            }
        }
    }
    let rn = match root {
        Some(x) => x,
        None => {
            return Err(LinkError::NoDefault(owned(entry_id)));
        },
    };
    let root_index = match assoc_find(&owns[0], rn.as_str()) {
        Some(j) => owns[0][j].1,
        None => {
            return Err(LinkError::NoDefault(owned(entry_id)));
        },
    };
    proof {
        assert(plan_surfaces(modules@, layouts@) =~= surfaces);
        assert forall|j: int| 0 <= j < n implies #[trigger] imports_resolved(modules@[j].program.decls@,
            layouts@[j].names@, layouts@[j].own@, n as int, plan_surfaces(modules@, layouts@)) by {
            assert(layouts@[j].own@ == owns@[j]@);
            assert(imports_resolved(modules@[j].program.decls@, layouts@[j].names@, owns@[j]@, n as int, surfaces));
        }
        assert forall|j: int| 0 <= j < n implies lists_component_exports(
            (#[trigger] layouts@[j]).exports@, surface(modules@[j], layouts@[j])) by {
            assert(plan_surfaces(modules@, layouts@)[j] == surface(modules@[j], layouts@[j]));
        }
        assert forall|j: int| 0 <= j < n implies slots_match(#[trigger] layouts@[j].own@,
            component_decl_names(modules@[j].program.decls@), layouts@[j].base as int) by {
            assert(layouts@[j].own@ == owns@[j]@);
        }
        assert(slots_match(owns@[0]@, component_decl_names(modules@[0].program.decls@), 0));
        assert(slot_of(component_decl_names(modules@[0].program.decls@), 0, rn@) == Some(root_index as int));
        lemma_slot_of_range(component_decl_names(modules@[0].program.decls@), 0, rn@);
        lemma_bases_monotone(modules@, bases@, n as int);
    }
    Ok(LinkPlan { modules, layouts, component_count: total, root: root_index })
}

proof fn lemma_slots_within(ms: Seq<GraphModule>, bases: Seq<usize>, n: int, j: int)
    requires
        n == ms.len() == bases.len() >= 1,
        0 <= j < n,
        forall|t: int| 0 < t < n ==> #[trigger] bases[t]
            == bases[t - 1] + component_decl_names(ms[t - 1].program.decls@).len(),
    ensures
        bases[j] + component_decl_names(ms[j].program.decls@).len()
            <= bases[n - 1] + component_decl_names(ms[n - 1].program.decls@).len(),
    decreases n,
{
    if j < n - 1 {
        lemma_slots_within(ms.drop_last(), bases.drop_last(), n - 1, j);
        assert(bases[n - 1] == bases[n - 2] + component_decl_names(ms[n - 2].program.decls@).len());
    }
}

proof fn lemma_bases_monotone(ms: Seq<GraphModule>, bases: Seq<usize>, n: int)
    requires
        n == ms.len() == bases.len() >= 1,
        bases[0] == 0,
        forall|j: int| 0 < j < n ==> #[trigger] bases[j]
            == bases[j - 1] + component_decl_names(ms[j - 1].program.decls@).len(),
    ensures
        component_decl_names(ms[0].program.decls@).len() <= bases[n - 1] + component_decl_names(ms[n - 1].program.decls@).len(),
    decreases n,
{
    if n > 1 {
        lemma_bases_monotone(ms.drop_last(), bases.drop_last(), n - 1);
        assert(bases[n - 1] == bases[n - 2] + component_decl_names(ms[n - 2].program.decls@).len());
    }
}

} // verus!
