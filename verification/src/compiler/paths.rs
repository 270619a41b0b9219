//! Laws of lexical path normalization.

use vstd::prelude::*;
use crate::compiler::link::{is_sep, join_with, norm_segments, norm_step, normalized, split_segments};

verus! {

/// No character of `s` is a path separator.
pub open spec fn no_sep(s: Seq<char>) -> bool {
    forall|i: int| 0 <= i < s.len() ==> !is_sep(#[trigger] s[i])
}

/// Segments as normalization leaves them: none empty, none `.`, none holding
/// a separator, and every `..` before every other segment.
pub open spec fn norm_form(parts: Seq<Seq<char>>) -> bool {
    &&& forall|i: int| 0 <= i < parts.len() ==> (#[trigger] parts[i]).len() > 0 && parts[i] != seq!['.']
        && no_sep(parts[i])
    &&& forall|i: int, j: int| 0 <= i < j < parts.len() && #[trigger] parts[j] == seq!['.', '.']
        ==> #[trigger] parts[i] == seq!['.', '.']
}

proof fn lemma_split_segments_no_sep(s: Seq<char>)
    ensures
        split_segments(s).len() >= 1,
        forall|i: int| 0 <= i < split_segments(s).len() ==> no_sep(#[trigger] split_segments(s)[i]),
    decreases s.len(),
{
    if s.len() > 0 {
        lemma_split_segments_no_sep(s.drop_last());
        let prev = split_segments(s.drop_last());
        if !is_sep(s.last()) {
            let l = prev.last().push(s.last());
            assert(no_sep(prev[prev.len() - 1]));
            assert forall|k: int| 0 <= k < l.len() implies !is_sep(#[trigger] l[k]) by {
                if k < l.len() - 1 {
                    assert(l[k] == prev.last()[k]);
                }
            }
            let r = prev.drop_last().push(l);
            assert forall|i: int| 0 <= i < r.len() implies no_sep(#[trigger] r[i]) by {
                if i < r.len() - 1 {
                    assert(r[i] == prev[i]);
                }
            }
        } else {
            let r = prev.push(Seq::<char>::empty());
            assert forall|i: int| 0 <= i < r.len() implies no_sep(#[trigger] r[i]) by {
                if i < r.len() - 1 {
                    assert(r[i] == prev[i]);
                }
            }
        }
    }
}

proof fn lemma_split_single(y: Seq<char>)
    requires
        no_sep(y),
    ensures
        split_segments(y) == seq![y],
    decreases y.len(),
{
    if y.len() > 0 {
        let d = y.drop_last();
        assert(no_sep(d)) by {
            assert forall|i: int| 0 <= i < d.len() implies !is_sep(#[trigger] d[i]) by {
                assert(d[i] == y[i]);
            }
        }
        lemma_split_single(d);
        assert(!is_sep(y[y.len() - 1]));
        assert(d.push(y.last()) =~= y);
        assert(seq![d].drop_last().push(d.push(y.last())) =~= seq![y]);
    } else {
        assert(y =~= Seq::<char>::empty());
    }
}

proof fn lemma_split_after_sep(x: Seq<char>, y: Seq<char>)
    requires
        no_sep(y),
    ensures
        split_segments(x + seq!['/'] + y) == split_segments(x).push(y),
    decreases y.len(),
{
    let xs = x + seq!['/'];
    if y.len() == 0 {
        assert(xs + y =~= xs);
        assert(xs.drop_last() =~= x);
        assert(y =~= Seq::<char>::empty());
    } else {
        let d = y.drop_last();
        assert(no_sep(d)) by {
            assert forall|i: int| 0 <= i < d.len() implies !is_sep(#[trigger] d[i]) by {
                assert(d[i] == y[i]);
            }
        }
        lemma_split_after_sep(x, d);
        assert((xs + y).drop_last() =~= xs + d);
        assert((xs + y).last() == y.last());
        assert(!is_sep(y[y.len() - 1]));
        assert(d.push(y.last()) =~= y);
        assert(split_segments(x).push(d).drop_last().push(d.push(y.last())) =~= split_segments(x).push(y));
    }
}

proof fn lemma_split_join(parts: Seq<Seq<char>>)
    requires
        parts.len() >= 1,
        forall|i: int| 0 <= i < parts.len() ==> no_sep(#[trigger] parts[i]),
    ensures
        split_segments(join_with(parts, seq!['/'])) == parts,
    decreases parts.len(),
{
    if parts.len() == 1 {
        assert(no_sep(parts[0]));
        lemma_split_single(parts[0]);
        assert(seq![parts[0]] =~= parts);
    } else {
        let d = parts.drop_last();
        assert forall|i: int| 0 <= i < d.len() implies no_sep(#[trigger] d[i]) by {
            assert(d[i] == parts[i]);
        }
        lemma_split_join(d);
        assert(no_sep(parts[parts.len() - 1]));
        lemma_split_after_sep(join_with(d, seq!['/']), parts.last());
        assert(d.push(parts.last()) =~= parts);
    }
}

proof fn lemma_norm_form_step(parts: Seq<Seq<char>>, seg: Seq<char>)
    requires
        norm_form(parts),
        no_sep(seg),
    ensures
        norm_form(norm_step(parts, seg)),
{
    let r = norm_step(parts, seg);
    if seg.len() == 0 || seg == seq!['.'] {
    } else if seg == seq!['.', '.'] {
        if parts.len() > 0 && parts.last() != seq!['.', '.'] {
            assert forall|i: int| 0 <= i < r.len() implies (#[trigger] r[i]).len() > 0 && r[i] != seq!['.']
                && no_sep(r[i]) by {
                assert(r[i] == parts[i]);
            }
            assert forall|i: int, j: int| 0 <= i < j < r.len() && #[trigger] r[j] == seq!['.', '.']
                implies #[trigger] r[i] == seq!['.', '.'] by {
                assert(r[i] == parts[i] && r[j] == parts[j]);
            }
        } else {
            assert forall|i: int| 0 <= i < r.len() implies (#[trigger] r[i]).len() > 0 && r[i] != seq!['.']
                && no_sep(r[i]) by {
                if i < parts.len() {
                    assert(r[i] == parts[i]);
                } else {
                    assert(r[i] == seq!['.', '.']);
                    assert(seq!['.', '.'] != seq!['.']) by {
                        assert(seq!['.', '.'].len() != seq!['.'].len());
                    }
                }
            }
            assert forall|i: int, j: int| 0 <= i < j < r.len() && #[trigger] r[j] == seq!['.', '.']
                implies #[trigger] r[i] == seq!['.', '.'] by {
                assert(r[i] == parts[i]);
                if j < parts.len() {
                    assert(r[j] == parts[j]);
                } else {
                    assert(parts[parts.len() - 1] == seq!['.', '.']);
                    if i < parts.len() - 1 {
                        assert(parts[i] == seq!['.', '.']);
                    }
                }
            }
        }
    } else {
        assert forall|i: int| 0 <= i < r.len() implies (#[trigger] r[i]).len() > 0 && r[i] != seq!['.']
            && no_sep(r[i]) by {
            if i < parts.len() {
                assert(r[i] == parts[i]);
            }
        }
        assert forall|i: int, j: int| 0 <= i < j < r.len() && #[trigger] r[j] == seq!['.', '.']
            implies #[trigger] r[i] == seq!['.', '.'] by {
            assert(r[i] == parts[i]);
            if j < parts.len() {
                assert(r[j] == parts[j]);
            }
        }
    }
}

proof fn lemma_norm_form(segs: Seq<Seq<char>>)
    requires
        forall|i: int| 0 <= i < segs.len() ==> no_sep(#[trigger] segs[i]),
    ensures
        norm_form(norm_segments(segs)),
    decreases segs.len(),
{
    if segs.len() > 0 {
        let d = segs.drop_last();
        assert forall|i: int| 0 <= i < d.len() implies no_sep(#[trigger] d[i]) by {
            assert(d[i] == segs[i]);
        }
        lemma_norm_form(d);
        assert(no_sep(segs[segs.len() - 1]));
        lemma_norm_form_step(norm_segments(d), segs.last());
    }
}

proof fn lemma_norm_fixed(parts: Seq<Seq<char>>)
    requires
        norm_form(parts),
    ensures
        norm_segments(parts) == parts,
    decreases parts.len(),
{
    if parts.len() > 0 {
        let d = parts.drop_last();
        assert(norm_form(d)) by {
            assert forall|i: int| 0 <= i < d.len() implies (#[trigger] d[i]).len() > 0 && d[i] != seq!['.']
                && no_sep(d[i]) by {
                assert(d[i] == parts[i]);
            }
            assert forall|i: int, j: int| 0 <= i < j < d.len() && #[trigger] d[j] == seq!['.', '.']
                implies #[trigger] d[i] == seq!['.', '.'] by {
                assert(d[i] == parts[i] && d[j] == parts[j]);
            }
        }
        lemma_norm_fixed(d);
        let last = parts.last();
        assert(last.len() > 0 && last != seq!['.']) by {
            assert(parts[parts.len() - 1] == last);
        }
        if last == seq!['.', '.'] {
            if d.len() > 0 {
                assert(parts[d.len() - 1] == seq!['.', '.']);
                assert(d.last() == seq!['.', '.']);
            }
        }
        assert(d.push(last) =~= parts);
    }
}

/// Normalizing a normalized path changes nothing.
pub proof fn lemma_normalize_idempotent(p: Seq<char>)
    ensures
        normalized(normalized(p)) == normalized(p),
{
    let segs = split_segments(p);
    lemma_split_segments_no_sep(p);
    lemma_norm_form(segs);
    let parts = norm_segments(segs);
    if parts.len() == 0 {
        let dot = seq!['.'];
        assert(no_sep(dot));
        lemma_split_single(dot);
        assert(norm_segments(seq![dot]) == norm_step(norm_segments(seq![dot].drop_last()), dot));
        assert(seq![dot].drop_last() =~= Seq::<Seq<char>>::empty());
        assert(norm_segments(seq![dot]) =~= Seq::<Seq<char>>::empty());
    } else {
        assert forall|i: int| 0 <= i < parts.len() implies no_sep(#[trigger] parts[i]) by {}
        lemma_split_join(parts);
        lemma_norm_fixed(parts);
    }
}

proof fn lemma_join_no_backslash(parts: Seq<Seq<char>>)
    requires
        forall|i: int| 0 <= i < parts.len() ==> no_sep(#[trigger] parts[i]),
    ensures
        forall|k: int| 0 <= k < join_with(parts, seq!['/']).len() ==> #[trigger] join_with(parts, seq!['/'])[k] != '\\',
    decreases parts.len(),
{
    if parts.len() == 1 {
        assert(no_sep(parts[0]));
    } else if parts.len() > 1 {
        let d = parts.drop_last();
        assert forall|i: int| 0 <= i < d.len() implies no_sep(#[trigger] d[i]) by {
            assert(d[i] == parts[i]);
        }
        lemma_join_no_backslash(d);
        let j = join_with(d, seq!['/']);
        let l = parts.last();
        assert(no_sep(parts[parts.len() - 1]));
        let full = join_with(parts, seq!['/']);
        assert(full == j + seq!['/'] + l);
        assert forall|k: int| 0 <= k < full.len() implies #[trigger] full[k] != '\\' by {
            if k < j.len() {
                assert(full[k] == j[k]);
            } else if k == j.len() {
                assert(full[k] == '/');
            } else {
                assert(full[k] == l[k - j.len() - 1]);
            }
        }
    }
}

proof fn lemma_join_nonempty(parts: Seq<Seq<char>>)
    requires
        parts.len() >= 1,
        parts[0].len() > 0,
    ensures
        join_with(parts, seq!['/']).len() > 0,
    decreases parts.len(),
{
    if parts.len() > 1 {
        lemma_join_nonempty(parts.drop_last());
    }
}

/// A normalized path is never empty and holds no backslash; it is `.` or
/// its `/`-separated segments are normalized: none empty, none `.`, and
/// every `..` before every other segment.
pub proof fn lemma_normalized_form(p: Seq<char>)
    ensures
        normalized(p).len() > 0,
        forall|k: int| 0 <= k < normalized(p).len() ==> #[trigger] normalized(p)[k] != '\\',
        normalized(p) == seq!['.'] || norm_form(split_segments(normalized(p))),
{
    let segs = split_segments(p);
    lemma_split_segments_no_sep(p);
    lemma_norm_form(segs);
    let parts = norm_segments(segs);
    if parts.len() > 0 {
        assert forall|i: int| 0 <= i < parts.len() implies no_sep(#[trigger] parts[i]) by {}
        assert(parts[0].len() > 0);
        lemma_join_no_backslash(parts);
        lemma_join_nonempty(parts);
        lemma_split_join(parts);
    } else {
        assert(normalized(p) == seq!['.']);
        assert forall|k: int| 0 <= k < normalized(p).len() implies #[trigger] normalized(p)[k] != '\\' by {
            assert(seq!['.'][k] == '.');
        }
    }
}

} // verus!
