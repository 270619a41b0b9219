//! Module-graph discovery: from an entry module, every module it imports,
//! transitively, each parsed once, in discovery (pre-)order with the entry
//! first. An import cycle is a precise error naming the modules on it.

use vstd::prelude::*;
use crate::ast::program::Program;
use crate::ast::wf::wf_decls;
use crate::compiler::link::{
    external_spec, import_paths, is_external_specifier, static_import_specifiers, views, LinkError,
    ModuleResolver,
};
use crate::compiler::canon::canonicalize_modules;
use crate::compiler::dfs::{depth_first_order, dfs_run, lemma_dfs_found, lemma_dfs_known, lemma_dfs_pop, known, Graph};
use crate::compiler::dynamic::{dyn_decls, dyn_import_specifiers, string_views};
use crate::parser::lexer::skip_spec;
use crate::parser::parser::Parser;
use crate::text::{chars_of, owned, str_eq};

verus! {

/// A module of the graph: its canonical id, its declarations and the
/// canonical ids of the modules it imports (distinct, in source order).
pub struct GraphModule {
    pub id: String,
    pub program: Program,
    pub deps: Vec<String>,
}

/// Parse a module's source (no `export default` required).
pub fn parse_module(source: &str) -> (r: Result<Program, LinkError>)
    ensures
        r matches Ok(p) ==> wf_decls(p.decls@),
        r matches Ok(p) ==> (p.decls@.len() == 0 <==> skip_spec(source@, 0) == Some(source@.len() as int)),
        r matches Err(e) ==> e is Parse,
{
    let chars = chars_of(source);
    if chars.len() > usize::MAX / 8 {
        return Err(LinkError::Parse(owned("source text too large")));
    }
    let mut p = match Parser::new(chars.as_slice()) {
        Ok(p) => p,
        Err(e) => {
            return Err(LinkError::from_parse(&e));
        },
    };
    match p.parse_module() {
        Ok(prog) => Ok(prog),
        Err(e) => Err(LinkError::from_parse(&e)),
    }
}

/// The strings are pairwise distinct.
pub open spec fn distinct_strings(s: Seq<String>) -> bool {
    forall|i: int, j: int| 0 <= i < j < s.len() ==> #[trigger] s[i]@ != #[trigger] s[j]@
}

pub(crate) fn contains_string(v: &Vec<String>, x: &str) -> (r: bool)
    ensures r == exists|i: int| 0 <= i < v@.len() && #[trigger] v@[i]@ == x@,
{
    let n = v.len();
    for i in 0..n
        invariant
            n == v@.len(),
            forall|j: int| 0 <= j < i ==> #[trigger] v@[j]@ != x@,
    {
        if str_eq(v[i].as_str(), x) {
            return true;
        }
    }
    false
}

/// Resolve `spec` (imported by module `id`) and add it to `deps` unless it
/// is there already; a specifier that fails to resolve is skipped when it is
/// external and an error otherwise.
fn add_dep<R: ModuleResolver>(deps: &mut Vec<String>, spec: &str, id: &str, resolver: &R) -> (r: Result<(), LinkError>)
    requires distinct_strings(old(deps)@),
    ensures
        distinct_strings(final(deps)@),
        final(deps)@ == old(deps)@ || (final(deps)@.len() == old(deps)@.len() + 1
            && final(deps)@.drop_last() == old(deps)@),
        r is Err ==> final(deps)@ == old(deps)@ && !external_spec(spec@),
        external_spec(spec@) ==> r is Ok,
        r matches Err(e) ==> e is Resolve,
{
    match resolver.resolve(spec, id) {
        Ok(dep) => {
            if !contains_string(deps, dep.as_str()) {
                let ghost before = deps@;
                deps.push(dep);
                assert(deps@.drop_last() =~= before);
                proof {
                    assert forall|a: int, b: int| 0 <= a < b < deps@.len() implies
                        #[trigger] deps@[a]@ != #[trigger] deps@[b]@ by {
                        if b < before.len() {
                            assert(deps@[a] == before[a] && deps@[b] == before[b]);
                        } else {
                            assert(deps@[a] == before[a]);
                        }
                    }
                }
            }
            Ok(())
        },
        Err(e) => {
            if !is_external_specifier(spec) {
                return Err(e);
            }
            Ok(())
        },
    }
}

/// The canonical ids of the modules `program` (module `id`) imports,
/// without repeats: its static imports' specifiers in source order, then its
/// dynamic imports' in traversal order, each resolved.
pub fn module_deps<R: ModuleResolver>(program: &Program, id: &str, resolver: &R) -> (r: Result<Vec<String>, LinkError>)
    ensures
        r matches Ok(deps) ==> distinct_strings(deps@),
        r matches Ok(deps) ==> deps@.len() <= import_paths(program.decls@).len() + dyn_decls(program.decls@).len(),
        all_external(import_paths(program.decls@) + dyn_decls(program.decls@)) ==> r is Ok,
        r matches Err(e) ==> e is Resolve,
{
    let specs = static_import_specifiers(program);
    let dyns = dyn_import_specifiers(program);
    let ghost all = import_paths(program.decls@) + dyn_decls(program.decls@);
    let mut deps: Vec<String> = Vec::new();
    let n = specs.len();
    for i in 0..n
        invariant
            n == specs@.len(),
            distinct_strings(deps@),
            deps@.len() <= i,
            views(specs@) == import_paths(program.decls@),
            all == import_paths(program.decls@) + dyn_decls(program.decls@),
    {
        proof {
            if all_external(all) {
                assert(views(specs@)[i as int] == specs@[i as int]@);
                assert(all[i as int] == specs@[i as int]@);
            }
        }
        add_dep(&mut deps, specs[i].as_str(), id, resolver)?;
    }
    let m = dyns.len();
    for i in 0..m
        invariant
            m == dyns@.len(),
            distinct_strings(deps@),
            deps@.len() <= n + i,
            n == import_paths(program.decls@).len(),
            string_views(dyns@) == dyn_decls(program.decls@),
            all == import_paths(program.decls@) + dyn_decls(program.decls@),
    {
        proof {
            if all_external(all) {
                assert(string_views(dyns@)[i as int] == dyns@[i as int]@);
                assert(all[n + i] == dyns@[i as int]@);
            }
        }
        add_dep(&mut deps, dyns[i].as_str(), id, resolver)?;
    }
    Ok(deps)
}

/// Every specifier is external (names no module file).
pub open spec fn all_external(specs: Seq<Seq<char>>) -> bool {
    forall|k: int| 0 <= k < specs.len() ==> external_spec(#[trigger] specs[k])
}

/// Every module's declarations are well formed and its imports distinct.
pub open spec fn modules_wf(ms: Seq<GraphModule>) -> bool {
    forall|i: int| 0 <= i < ms.len() ==> wf_decls(#[trigger] ms[i].program.decls@)
        && distinct_strings(ms[i].deps@)
}

proof fn lemma_modules_wf_push(ms: Seq<GraphModule>, m: GraphModule)
    requires modules_wf(ms), wf_decls(m.program.decls@), distinct_strings(m.deps@),
    ensures modules_wf(ms.push(m)),
{
    assert forall|i: int| 0 <= i < ms.push(m).len() implies wf_decls(#[trigger] ms.push(m)[i].program.decls@)
        && distinct_strings(ms.push(m)[i].deps@) by {
        if i < ms.len() {
            assert(ms.push(m)[i] == ms[i]);
        } else {
            assert(ms.push(m)[i] == m);
        }
    }
}

/// The ids of a list of modules.
pub open spec fn module_ids(ms: Seq<GraphModule>) -> Seq<String> {
    ms.map_values(|m: GraphModule| m.id)
}

/// `id` names one of the modules.
pub open spec fn has_module(ms: Seq<GraphModule>, id: Seq<char>) -> bool {
    exists|k: int| 0 <= k < ms.len() && #[trigger] ms[k].id@ == id
}

/// Every import of every module names a module of the list.
pub open spec fn closed_graph(ms: Seq<GraphModule>) -> bool {
    forall|i: int, j: int| 0 <= i < ms.len() && 0 <= j < ms[i].deps@.len()
        ==> has_module(ms, #[trigger] ms[i].deps@[j]@)
}

/// The graph of a list of modules: each module's id and its imports.
pub open spec fn graph_of(ms: Seq<GraphModule>) -> Graph {
    ms.map_values(|m: GraphModule| (m.id@, views(m.deps@)))
}

/// A stack of (module, next import) frames, as integers.
pub open spec fn frames(stack: Seq<(usize, usize)>) -> Seq<(int, int)> {
    stack.map_values(|f: (usize, usize)| (f.0 as int, f.1 as int))
}

/// Module `k` is imported by a module listed before it.
pub open spec fn reached_from_earlier(ms: Seq<GraphModule>, k: int) -> bool {
    exists|i: int, j: int| 0 <= i < k && 0 <= j < ms[i].deps@.len() && #[trigger] ms[i].deps@[j]@ == ms[k].id@
}

/// Discovery order: every module after the first is imported by a module
/// listed before it.
pub open spec fn discovery_ordered(ms: Seq<GraphModule>) -> bool {
    forall|k: int| 1 <= k < ms.len() ==> #[trigger] reached_from_earlier(ms, k)
}

/// Remaining work of the DFS frames: one step per unvisited import and one
/// to finish each frame.
pub open spec fn frames_work(stack: Seq<(usize, usize)>, ms: Seq<GraphModule>) -> nat
    decreases stack.len(),
{
    if stack.len() == 0 {
        0
    } else {
        let (m, k) = stack.last();
        frames_work(stack.drop_last(), ms) + 1 + (if m < ms.len() && k <= ms[m as int].deps@.len() {
            (ms[m as int].deps@.len() - k) as nat
        } else {
            0
        })
    }
}

proof fn lemma_frames_work_push_module(stack: Seq<(usize, usize)>, ms: Seq<GraphModule>, x: GraphModule)
    requires forall|f: int| 0 <= f < stack.len() ==> (#[trigger] stack[f]).0 < ms.len(),
    ensures frames_work(stack, ms.push(x)) == frames_work(stack, ms),
    decreases stack.len(),
{
    if stack.len() > 0 {
        assert(ms.push(x)[stack.last().0 as int] == ms[stack.last().0 as int]);
        lemma_frames_work_push_module(stack.drop_last(), ms, x);
    }
}

fn find_module(ms: &Vec<GraphModule>, id: &str) -> (r: Option<usize>)
    ensures
        r matches Some(q) ==> q < ms@.len() && ms@[q as int].id@ == id@,
        r is None ==> !has_module(ms@, id@),
{
    let n = ms.len();
    for i in 0..n
        invariant
            n == ms@.len(),
            forall|j: int| 0 <= j < i ==> #[trigger] ms@[j].id@ != id@,
    {
        if str_eq(ms[i].id.as_str(), id) {
            return Some(i);
        }
    }
    None
}

/// Every module reachable from the entry by imports, each parsed once, in
/// depth-first pre-order with the entry first (alone when it imports
/// nothing): each module's imports are followed in the order `module_deps`
/// lists them, and a module is listed when first reached
/// (`depth_first_order` of the returned graph). Every module's source is loaded through `resolver` each time
/// an import reaches it. An import that reaches a module still being
/// discovered is an import cycle, reported as the path from that module
/// back to itself. Once every module is known, each module's dynamic
/// imports are rewritten to the canonical ids their specifiers resolve to.
#[verifier::spinoff_prover]
pub fn discover_modules<R: ModuleResolver>(entry_source: &str, entry_id: &str, resolver: &R)
    -> (r: Result<Vec<GraphModule>, LinkError>)
    ensures
        r matches Ok(ms) ==> {
            &&& ms@.len() >= 1
            &&& ms@[0].id@ == entry_id@
            &&& distinct_strings(module_ids(ms@))
            &&& closed_graph(ms@)
            &&& modules_wf(ms@)
            &&& (ms@[0].deps@.len() == 0 ==> ms@.len() == 1)
            &&& discovery_ordered(ms@)
            &&& depth_first_order(graph_of(ms@))
        },
        r matches Err(LinkError::ImportCycle(path)) ==> {
            &&& path@.len() >= 2
            &&& path@[0]@ == path@.last()@
            &&& distinct_strings(path@.drop_last())
        },
        r matches Err(e) ==> e is Parse || e is Resolve || e is Load || e is ImportCycle,
{
    let entry_program = parse_module(entry_source)?;
    let entry_deps = module_deps(&entry_program, entry_id, resolver)?;
    let mut modules: Vec<GraphModule> = Vec::new();
    modules.push(GraphModule { id: owned(entry_id), program: entry_program, deps: entry_deps });
    let mut done: Vec<bool> = Vec::new();
    done.push(false);
    let mut stack: Vec<(usize, usize)> = Vec::new();
    stack.push((0, 0));
    let ghost mut frame_of: Seq<int> = seq![0int];
    let ghost mut steps: nat = 0;
    assert(module_ids(modules@) =~= seq![modules@[0].id]);
    assert(frames(stack@) =~= seq![(0int, 0int)]);
    while stack.len() > 0
        invariant
            modules@.len() == done@.len() == frame_of.len() >= 1,
            modules@[0].id@ == entry_id@,
            modules@[0].deps@.len() == 0 ==> modules@.len() == 1,
            discovery_ordered(modules@),
            dfs_run(graph_of(modules@), steps) == Some((modules@.len() as nat, frames(stack@))),
            distinct_strings(module_ids(modules@)),
            modules_wf(modules@),
            forall|f: int| 0 <= f < stack@.len() ==> (#[trigger] stack@[f]).0 < modules@.len()
                && stack@[f].1 <= modules@[stack@[f].0 as int].deps@.len()
                && !done@[stack@[f].0 as int],
            forall|f: int, g: int| 0 <= f < g < stack@.len() ==> (#[trigger] stack@[f]).0 != (#[trigger] stack@[g]).0,
            forall|i: int| 0 <= i < modules@.len() && !(#[trigger] done@[i])
                ==> 0 <= frame_of[i] < stack@.len() && stack@[frame_of[i]].0 == i,
            forall|i: int, j: int| 0 <= i < modules@.len() && #[trigger] done@[i] && 0 <= j < modules@[i].deps@.len()
                ==> has_module(modules@, #[trigger] modules@[i].deps@[j]@),
            forall|f: int, j: int| 0 <= f < stack@.len() && 0 <= j < (#[trigger] stack@[f]).1
                ==> has_module(modules@, #[trigger] modules@[stack@[f].0 as int].deps@[j]@),
        decreases usize::MAX - modules@.len(), frames_work(stack@, modules@),
    {
        let top = stack.len() - 1;
        let (m, k) = stack[top];
        let ghost g0 = graph_of(modules@);
        let ghost f0 = frames(stack@);
        proof {
            assert(f0.last() == (m as int, k as int));
            assert(g0[m as int].1 =~= views(modules@[m as int].deps@));
        }
        if k == modules[m].deps.len() {
            let ghost before = stack@;
            stack.pop();
            assert(stack@ =~= before.drop_last());
            proof {
                lemma_dfs_pop(g0, steps, modules@.len() as nat, f0);
                steps = steps + 1;
                assert(frames(stack@) =~= f0.drop_last());
            }
            done.set(m, true);
            proof {
                assert forall|i: int| 0 <= i < modules@.len() && !(#[trigger] done@[i])
                    implies 0 <= frame_of[i] < stack@.len() && stack@[frame_of[i]].0 == i by {
                    assert(i != m);
                    assert(before[frame_of[i]].0 == i);
                    assert(frame_of[i] != top);
                }
                assert forall|i: int, j: int| 0 <= i < modules@.len() && #[trigger] done@[i] && 0 <= j < modules@[i].deps@.len()
                    implies has_module(modules@, #[trigger] modules@[i].deps@[j]@) by {
                    if i == m {
                        assert(before[top as int].1 == modules@[i].deps@.len());
                    }
                }
            }
            continue;
        }
        let ghost before = stack@;
        stack.set(top, (m, k + 1));
        assert(stack@.drop_last() =~= before.drop_last());
        let ghost f1 = frames(stack@);
        assert(f1 =~= f0.update(f0.len() - 1, (m as int, k + 1)));
        let dep = modules[m].deps[k].clone();
        assert(dep@ == g0[m as int].1[k as int]);
        let source = resolver.load(dep.as_str())?;
        match find_module(&modules, dep.as_str()) {
            Some(q) => {
                proof {
                    assert(g0[q as int].0 == dep@);
                    lemma_dfs_known(g0, steps, modules@.len() as nat, f0, q as int);
                    steps = steps + 1;
                    assert forall|f: int, j: int| 0 <= f < stack@.len() && 0 <= j < (#[trigger] stack@[f]).1
                        implies has_module(modules@, #[trigger] modules@[stack@[f].0 as int].deps@[j]@) by {
                        if f == top && j == k {
                            assert(modules@[q as int].id@ == dep@);
                        } else if f == top {
                            assert(before[f].1 == k);
                        } else {
                            assert(stack@[f] == before[f]);
                        }
                    }
                }
                if done[q] {
                    continue;
                }
                let mut pos: usize = 0;
                while pos < stack.len() && stack[pos].0 != q
                    invariant
                        pos <= stack@.len(),
                        forall|f: int| 0 <= f < pos ==> #[trigger] stack@[f].0 != q,
                    decreases stack@.len() - pos,
                {
                    pos = pos + 1;
                }
                if pos == stack.len() {
                    continue;
                }
                let mut path: Vec<String> = Vec::new();
                let mut f = pos;
                while f < stack.len()
                    invariant
                        pos <= f <= stack@.len(),
                        pos < stack@.len(),
                        stack@[pos as int].0 == q,
                        q < modules@.len(),
                        modules@[q as int].id@ == dep@,
                        path@.len() == f - pos,
                        forall|x: int| 0 <= x < path@.len() ==> #[trigger] path@[x] == modules@[stack@[pos + x].0 as int].id,
                        forall|g: int| 0 <= g < stack@.len() ==> (#[trigger] stack@[g]).0 < modules@.len(),
                    decreases stack@.len() - f,
                {
                    path.push(modules[stack[f].0].id.clone());
                    f = f + 1;
                }
                path.push(dep);
                proof {
                    assert(path@[0]@ == dep@);
                    assert forall|a: int, b: int| 0 <= a < b < path@.drop_last().len() implies
                        #[trigger] path@.drop_last()[a]@ != #[trigger] path@.drop_last()[b]@ by {
                        assert(path@.drop_last()[a] == modules@[stack@[pos + a].0 as int].id);
                        assert(path@.drop_last()[b] == modules@[stack@[pos + b].0 as int].id);
                        assert(stack@[pos + a].0 != stack@[pos + b].0);
                        assert(module_ids(modules@)[stack@[pos + a].0 as int] == modules@[stack@[pos + a].0 as int].id);
                        assert(module_ids(modules@)[stack@[pos + b].0 as int] == modules@[stack@[pos + b].0 as int].id);
                    }
                }
                return Err(LinkError::ImportCycle(path));
            },
            None => {
                if modules.len() == usize::MAX {
                    return Err(LinkError::Load(owned("too many modules")));
                }
                let program = parse_module(source.as_str())?;
                let deps = module_deps(&program, dep.as_str(), resolver)?;
                let ghost old_modules = modules@;
                let ghost old_done = done@;
                let ghost old_stack = stack@;
                let ghost dv = dep@;
                let nm = GraphModule { id: dep, program, deps };
                assert(wf_decls(nm.program.decls@) && distinct_strings(nm.deps@));
                modules.push(nm);
                done.push(false);
                let n = modules.len() - 1;
                stack.push((n, 0));
                proof {
                    frame_of = frame_of.push(stack@.len() - 1);
                    assert forall|x: int| 0 <= x < old_modules.len() implies module_ids(modules@)[x] == module_ids(old_modules)[x] by {}
                    assert forall|a: int, b: int| 0 <= a < b < module_ids(modules@).len() implies
                        #[trigger] module_ids(modules@)[a]@ != #[trigger] module_ids(modules@)[b]@ by {
                        if b == n {
                            assert(module_ids(modules@)[b]@ == dep@);
                            assert(old_modules[a].id@ != dep@);
                        } else {
                            assert(module_ids(old_modules)[a]@ != module_ids(old_modules)[b]@);
                        }
                    }
                    assert forall|i: int, j: int| 0 <= i < modules@.len() && #[trigger] done@[i] && 0 <= j < modules@[i].deps@.len()
                        implies has_module(modules@, #[trigger] modules@[i].deps@[j]@) by {
                        assert(i < n);
                        assert(has_module(old_modules, old_modules[i].deps@[j]@));
                        let w = choose|w: int| 0 <= w < old_modules.len() && #[trigger] old_modules[w].id@ == old_modules[i].deps@[j]@;
                        assert(modules@[w] == old_modules[w]);
                    }
                    assert forall|f: int, j: int| 0 <= f < stack@.len() && 0 <= j < (#[trigger] stack@[f]).1
                        implies has_module(modules@, #[trigger] modules@[stack@[f].0 as int].deps@[j]@) by {
                        if f == top && j == k {
                            assert(modules@[n as int].id@ == dep@);
                        } else {
                            assert(f < old_stack.len());
                            assert(stack@[f] == old_stack[f]);
                            if f == top {
                                assert(before[f].1 == k);
                                assert(j < k);
                            } else {
                                assert(old_stack[f] == before[f]);
                            }
                            let mm = old_stack[f].0 as int;
                            assert(has_module(old_modules, old_modules[mm].deps@[j]@));
                            let w = choose|w: int| 0 <= w < old_modules.len() && #[trigger] old_modules[w].id@ == old_modules[mm].deps@[j]@;
                            assert(modules@[w] == old_modules[w]);
                        }
                    }
                    assert forall|i: int| 0 <= i < modules@.len() && !(#[trigger] done@[i])
                        implies 0 <= frame_of[i] < stack@.len() && stack@[frame_of[i]].0 == i by {
                        if i < n {
                            assert(stack@[frame_of[i]] == old_stack[frame_of[i]]);
                        }
                    }
                    assert forall|f: int, g: int| 0 <= f < g < stack@.len() implies (#[trigger] stack@[f]).0 != (#[trigger] stack@[g]).0 by {
                        if g == stack@.len() - 1 {
                            assert(stack@[f] == old_stack[f]);
                        } else {
                            assert(stack@[f] == old_stack[f] && stack@[g] == old_stack[g]);
                        }
                    }
                    lemma_frames_work_push_module(old_stack, old_modules, nm);
                    assert(modules@ == old_modules.push(nm));
                    lemma_modules_wf_push(old_modules, nm);
                    assert(modules_wf(modules@));
                    assert(!known(g0, g0.len(), dv)) by {
                        if known(g0, g0.len(), dv) {
                            let j = choose|j: int| 0 <= j < g0.len() && j < g0.len() && #[trigger] g0[j].0 == dv;
                            assert(old_modules[j].id@ == dv);
                        }
                    }
                    lemma_dfs_found(g0, steps, f0, (dv, views(nm.deps@)));
                    steps = steps + 1;
                    assert(graph_of(modules@) =~= g0.push((dv, views(nm.deps@))));
                    assert(frames(stack@) =~= f1.push((n as int, 0int)));
                    assert forall|q: int| 1 <= q < modules@.len() implies #[trigger] reached_from_earlier(modules@, q) by {
                        if q < n {
                            assert(reached_from_earlier(old_modules, q));
                            let (wi, wj) = choose|wi: int, wj: int| 0 <= wi < q && 0 <= wj < old_modules[wi].deps@.len()
                                && #[trigger] old_modules[wi].deps@[wj]@ == old_modules[q].id@;
                            assert(modules@[wi] == old_modules[wi] && modules@[q] == old_modules[q]);
                            assert(modules@[wi].deps@[wj]@ == modules@[q].id@);
                        } else {
                            assert(modules@[m as int] == old_modules[m as int]);
                            assert(modules@[m as int].deps@[k as int]@ == dep@);
                            assert(modules@[q].id@ == dep@);
                        }
                    }
                }
            },
        }
    }
    proof {
        assert forall|i: int, j: int| 0 <= i < modules@.len() && 0 <= j < modules@[i].deps@.len()
            implies has_module(modules@, #[trigger] modules@[i].deps@[j]@) by {
            if !done@[i] {
                assert(0 <= frame_of[i] < stack@.len());
            }
        }
    }
    let ghost found = modules@;
    assert(frames(stack@) =~= Seq::<(int, int)>::empty());
    canonicalize_modules(&mut modules, resolver);
    assert(graph_of(modules@) =~= graph_of(found));
    assert(dfs_run(graph_of(modules@), steps) == Some((modules@.len() as nat, Seq::<(int, int)>::empty())));
    assert(modules@[0].deps == found[0].deps);
    assert forall|q: int| 1 <= q < modules@.len() implies #[trigger] reached_from_earlier(modules@, q) by {
        assert(reached_from_earlier(found, q));
        let (wi, wj) = choose|wi: int, wj: int| 0 <= wi < q && 0 <= wj < found[wi].deps@.len()
            && #[trigger] found[wi].deps@[wj]@ == found[q].id@;
        assert(modules@[wi].deps == found[wi].deps && modules@[q].id == found[q].id);
        assert(modules@[wi].deps@[wj]@ == modules@[q].id@);
    }
    Ok(modules)
}

} // verus!
