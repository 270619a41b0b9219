//! Small association lists keyed by name: insertion replaces the value of an
//! existing key (a map from names to values, kept in insertion order).

use vstd::prelude::*;
use crate::text::str_eq;

verus! {

/// The value of key `k`: the first entry with that key.
pub open spec fn assoc_get<V>(m: Seq<(String, V)>, k: Seq<char>) -> Option<V>
    decreases m.len(),
{
    if m.len() == 0 {
        None
    } else if m[0].0@ == k {
        Some(m[0].1)
    } else {
        assoc_get(m.drop_first(), k)
    }
}

pub proof fn lemma_assoc_get_push<V>(m: Seq<(String, V)>, e: (String, V), k: Seq<char>)
    ensures assoc_get(m.push(e), k) == (match assoc_get(m, k) {
        Some(v) => Some(v),
        None => if e.0@ == k { Some(e.1) } else { None },
    }),
    decreases m.len(),
{
    assert(m.push(e)[0] == if m.len() > 0 { m[0] } else { e });
    if m.len() > 0 {
        assert(m.push(e).drop_first() =~= m.drop_first().push(e));
        lemma_assoc_get_push(m.drop_first(), e, k);
    } else {
        assert(m.push(e).drop_first() =~= m);
    }
}

pub proof fn lemma_assoc_get_update<V>(m: Seq<(String, V)>, i: int, e: (String, V), k: Seq<char>)
    requires
        0 <= i < m.len(),
        m[i].0@ == e.0@,
        forall|j: int| 0 <= j < i ==> #[trigger] m[j].0@ != e.0@,
    ensures assoc_get(m.update(i, e), k) == (if k == e.0@ { Some(e.1) } else { assoc_get(m, k) }),
    decreases m.len(),
{
    if i > 0 {
        assert(m.update(i, e).drop_first() =~= m.drop_first().update(i - 1, e));
        assert forall|j: int| 0 <= j < i - 1 implies #[trigger] m.drop_first()[j].0@ != e.0@ by {
            assert(m.drop_first()[j] == m[j + 1]);
        }
        lemma_assoc_get_update(m.drop_first(), i - 1, e, k);
        assert(m[0].0@ != e.0@);
    } else {
        assert(m.update(i, e).drop_first() =~= m.drop_first());
    }
}

pub proof fn lemma_assoc_get_absent<V>(m: Seq<(String, V)>, k: Seq<char>)
    requires forall|j: int| 0 <= j < m.len() ==> #[trigger] m[j].0@ != k,
    ensures assoc_get(m, k) is None,
    decreases m.len(),
{
    if m.len() > 0 {
        assert forall|j: int| 0 <= j < m.drop_first().len() implies #[trigger] m.drop_first()[j].0@ != k by {
            assert(m.drop_first()[j] == m[j + 1]);
        }
        lemma_assoc_get_absent(m.drop_first(), k);
    }
}

pub proof fn lemma_assoc_get_some_key<V>(m: Seq<(String, V)>, k: Seq<char>)
    requires assoc_get(m, k) is Some,
    ensures exists|j: int| 0 <= j < m.len() && #[trigger] m[j].0@ == k,
    decreases m.len(),
{
    if m[0].0@ != k {
        lemma_assoc_get_some_key(m.drop_first(), k);
        let j = choose|j: int| 0 <= j < m.drop_first().len() && #[trigger] m.drop_first()[j].0@ == k;
        assert(m[j + 1] == m.drop_first()[j]);
    }
}

/// The index of the entry with key `k`, if any.
pub fn assoc_find<V>(m: &Vec<(String, V)>, k: &str) -> (r: Option<usize>)
    ensures
        r matches Some(i) ==> i < m@.len() && m@[i as int].0@ == k@ && assoc_get(m@, k@) == Some(m@[i as int].1),
        r is None ==> assoc_get(m@, k@) is None,
{
    let n = m.len();
    let mut i: usize = 0;
    assert(m@.skip(0) =~= m@);
    while i < n
        invariant
            n == m@.len(),
            i <= n,
            assoc_get(m@, k@) == assoc_get(m@.skip(i as int), k@),
        decreases n - i,
    {
        assert(m@.skip(i as int).drop_first() =~= m@.skip(i + 1));
        assert(m@.skip(i as int)[0] == m@[i as int]);
        if str_eq(m[i].0.as_str(), k) {
            return Some(i);
        }
        i = i + 1;
    }
    None
}

/// Bind `k` to `v`, replacing an existing binding of `k`.
pub fn assoc_insert<V>(m: &mut Vec<(String, V)>, k: String, v: V)
    ensures
        forall|q: Seq<char>| #[trigger] assoc_get(final(m)@, q)
            == (if q == k@ { Some(v) } else { assoc_get(old(m)@, q) }),
{
    let n = m.len();
    let mut i: usize = 0;
    while i < n
        invariant
            n == m@.len(),
            m@ == old(m)@,
            i <= n,
            forall|j: int| 0 <= j < i ==> #[trigger] m@[j].0@ != k@,
        decreases n - i,
    {
        if str_eq(m[i].0.as_str(), k.as_str()) {
            let ghost before = m@;
            let e = (k, v);
            m.set(i, e);
            proof {
                assert forall|q: Seq<char>| #[trigger] assoc_get(m@, q)
                    == (if q == e.0@ { Some(e.1) } else { assoc_get(before, q) }) by {
                    lemma_assoc_get_update(before, i as int, e, q);
                }
            }
            return;
        }
        i = i + 1;
    }
    let ghost before = m@;
    let e = (k, v);
    m.push(e);
    proof {
        assert forall|q: Seq<char>| #[trigger] assoc_get(m@, q)
            == (if q == e.0@ { Some(e.1) } else { assoc_get(before, q) }) by {
            lemma_assoc_get_push(before, e, q);
            if assoc_get(before, q) is Some {
                lemma_assoc_get_some_key(before, q);
            }
            if q == e.0@ {
                lemma_assoc_get_absent(before, q);
            }
        }
    }
}

} // verus!
