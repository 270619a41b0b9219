//! The depth-first walk of a module graph that fixes the order modules are
//! discovered in: from the entry, each module's imports are followed in the
//! order they are listed, and a module is listed when first reached.

use vstd::prelude::*;

verus! {

/// A module graph: each module's id and the ids it imports, in order.
pub type Graph = Seq<(Seq<char>, Seq<Seq<char>>)>;

/// The id `d` is among the first `n` modules of `g`.
pub open spec fn known(g: Graph, n: nat, d: Seq<char>) -> bool {
    exists|j: int| 0 <= j < n && j < g.len() && #[trigger] g[j].0 == d
}

/// One step of the walk. The state is the number of modules found so far
/// (the first ones of `g`) and the stack of (module, next import) frames.
/// The top frame either is done and is popped, or follows its next import:
/// a known module is passed over, an unknown one must be the next module of
/// `g`, which is then found and entered. No step is defined past the end of
/// the walk or where `g` does not list the next module found.
pub open spec fn dfs_step(g: Graph, s: (nat, Seq<(int, int)>)) -> Option<(nat, Seq<(int, int)>)> {
    if s.1.len() == 0 {
        None
    } else {
        let m = s.1.last().0;
        let k = s.1.last().1;
        if !(0 <= m < g.len()) || k < 0 {
            None
        } else if k >= g[m].1.len() {
            Some((s.0, s.1.drop_last()))
        } else {
            let d = g[m].1[k];
            let st = s.1.update(s.1.len() - 1, (m, k + 1));
            if known(g, s.0, d) {
                Some((s.0, st))
            } else if s.0 < g.len() && g[s.0 as int].0 == d {
                Some(((s.0 + 1) as nat, st.push((s.0 as int, 0int))))
            } else {
                None
            }
        }
    }
}

/// The state after `n` steps of the walk from the first module of `g`.
pub open spec fn dfs_run(g: Graph, n: nat) -> Option<(nat, Seq<(int, int)>)>
    decreases n,
{
    if n == 0 {
        Some((1nat, seq![(0int, 0int)]))
    } else {
        match dfs_run(g, (n - 1) as nat) {
            Some(s) => dfs_step(g, s),
            None => None,
        }
    }
}

/// `g` lists its modules in depth-first pre-order from the first: the walk
/// finishes having found exactly the modules of `g`, in the order listed.
pub open spec fn depth_first_order(g: Graph) -> bool {
    exists|n: nat| #[trigger] dfs_run(g, n) == Some((g.len(), Seq::<(int, int)>::empty()))
}

/// Along the walk, the modules found stay within `g` and every frame is a
/// found module.
pub proof fn lemma_dfs_run_bounds(g: Graph, n: nat)
    requires
        g.len() >= 1,
    ensures
        dfs_run(g, n) matches Some(s) ==> s.0 <= g.len()
            && forall|f: int| 0 <= f < s.1.len() ==> 0 <= (#[trigger] s.1[f]).0 < s.0,
    decreases n,
{
    if n > 0 {
        lemma_dfs_run_bounds(g, (n - 1) as nat);
        if let Some(s) = dfs_run(g, (n - 1) as nat) {
            if let Some(t) = dfs_step(g, s) {
                let m = s.1.last().0;
                let k = s.1.last().1;
                if k >= g[m].1.len() {
                    assert forall|f: int| 0 <= f < t.1.len() implies 0 <= (#[trigger] t.1[f]).0 < t.0 by {
                        assert(t.1[f] == s.1[f]);
                    }
                } else {
                    let st = s.1.update(s.1.len() - 1, (m, k + 1));
                    assert forall|f: int| 0 <= f < st.len() implies 0 <= (#[trigger] st[f]).0 < s.0 by {
                        if f < s.1.len() - 1 {
                            assert(st[f] == s.1[f]);
                        } else {
                            assert(s.1[s.1.len() - 1].0 == m);
                        }
                    }
                    if !known(g, s.0, g[m].1[k]) {
                        assert forall|f: int| 0 <= f < t.1.len() implies 0 <= (#[trigger] t.1[f]).0 < t.0 by {
                            if f < st.len() {
                                assert(t.1[f] == st[f]);
                            }
                        }
                    }
                }
            }
        }
    }
}

/// The walk over a graph is also the walk over any graph that extends it
/// with more modules, as far as it goes.
pub proof fn lemma_dfs_run_prefix(g: Graph, h: Graph, n: nat)
    requires
        g.len() >= 1,
        g.len() <= h.len(),
        forall|i: int| 0 <= i < g.len() ==> #[trigger] h[i] == g[i],
        dfs_run(g, n) is Some,
    ensures
        dfs_run(h, n) == dfs_run(g, n),
    decreases n,
{
    if n > 0 {
        let s = dfs_run(g, (n - 1) as nat)->0;
        lemma_dfs_run_prefix(g, h, (n - 1) as nat);
        lemma_dfs_run_bounds(g, (n - 1) as nat);
        let m = s.1.last().0;
        assert(s.1[s.1.len() - 1].0 == m);
        assert(h[m] == g[m]);
        let k = s.1.last().1;
        if 0 <= k < g[m].1.len() {
            let d = g[m].1[k];
            assert(known(h, s.0, d) == known(g, s.0, d)) by {
                if known(g, s.0, d) {
                    let j = choose|j: int| 0 <= j < s.0 && j < g.len() && #[trigger] g[j].0 == d;
                    assert(h[j] == g[j]);
                }
                if known(h, s.0, d) {
                    let j = choose|j: int| 0 <= j < s.0 && j < h.len() && #[trigger] h[j].0 == d;
                    assert(h[j] == g[j]);
                }
            }
            if !known(g, s.0, d) && s.0 < g.len() {
                assert(h[s.0 as int] == g[s.0 as int]);
            }
        }
    }
}

/// A walk whose top frame is done pops it.
pub proof fn lemma_dfs_pop(g: Graph, n: nat, found: nat, st: Seq<(int, int)>)
    requires
        dfs_run(g, n) == Some((found, st)),
        st.len() > 0,
        0 <= st.last().0 < g.len(),
        st.last().1 == g[st.last().0].1.len(),
    ensures
        dfs_run(g, n + 1) == Some((found, st.drop_last())),
{
    assert(dfs_run(g, n + 1) == dfs_step(g, (found, st)));
}

/// A walk whose top frame's next import names a known module passes over it.
pub proof fn lemma_dfs_known(g: Graph, n: nat, found: nat, st: Seq<(int, int)>, j: int)
    requires
        dfs_run(g, n) == Some((found, st)),
        st.len() > 0,
        0 <= st.last().0 < g.len(),
        0 <= st.last().1 < g[st.last().0].1.len(),
        0 <= j < found,
        j < g.len(),
        g[j].0 == g[st.last().0].1[st.last().1],
    ensures
        dfs_run(g, n + 1) == Some((found, st.update(st.len() - 1, (st.last().0, st.last().1 + 1)))),
{
    assert(known(g, found, g[st.last().0].1[st.last().1]));
    assert(dfs_run(g, n + 1) == dfs_step(g, (found, st)));
}

/// A walk that has found every module of `g` and reaches an unknown import
/// finds it as the module `x` appended to `g`, and enters it.
pub proof fn lemma_dfs_found(g: Graph, n: nat, st: Seq<(int, int)>, x: (Seq<char>, Seq<Seq<char>>))
    requires
        g.len() >= 1,
        dfs_run(g, n) == Some((g.len(), st)),
        st.len() > 0,
        0 <= st.last().0 < g.len(),
        0 <= st.last().1 < g[st.last().0].1.len(),
        !known(g, g.len(), g[st.last().0].1[st.last().1]),
        x.0 == g[st.last().0].1[st.last().1],
    ensures
        dfs_run(g.push(x), n + 1) == Some(((g.len() + 1) as nat,
            st.update(st.len() - 1, (st.last().0, st.last().1 + 1)).push((g.len() as int, 0int)))),
{
    let h = g.push(x);
    assert forall|i: int| 0 <= i < g.len() implies #[trigger] h[i] == g[i] by {}
    lemma_dfs_run_prefix(g, h, n);
    let m = st.last().0;
    let d = g[m].1[st.last().1];
    assert(h[m] == g[m]);
    assert(!known(h, g.len(), d)) by {
        if known(h, g.len(), d) {
            let j = choose|j: int| 0 <= j < g.len() && j < h.len() && #[trigger] h[j].0 == d;
            assert(h[j] == g[j]);
        }
    }
    assert(h[g.len() as int] == x);
    assert(dfs_run(h, n + 1) == dfs_step(h, (g.len(), st)));
}

} // verus!
