//! Where a filesystem resolver looks for an imported module: the importer's
//! directory (or the root for an importer without one) joined with the
//! specifier, then, for a specifier without an extension, the `.r2n`, `.js`
//! and `.jsx` files in that order. Paths use `/` as the separator; every
//! candidate is lexically normalized.

use vstd::prelude::*;
use crate::compiler::link::{dir_of, external_spec, is_external_specifier, normalize_path, normalized, LinkError};
use crate::text::{chars_of, owned, push_str, string_from_chars};


verus! {

/// The directory an importer's specifiers are relative to: the importer's
/// directory (`/` for a file directly under the root directory), or `root`
/// when the importer names no directory.
pub open spec fn base_dir(from_id: Seq<char>, root: Seq<char>) -> Seq<char> {
    if dir_of(from_id).len() > 0 {
        dir_of(from_id)
    } else if from_id.len() > 0 && from_id[0] == '/' {
        seq!['/']
    } else {
        root
    }
}

/// `spec` joined onto `base`: an absolute `spec` stands alone; otherwise the
/// two are joined with one `/`.
pub open spec fn join_path(base: Seq<char>, spec: Seq<char>) -> Seq<char> {
    if spec.len() > 0 && spec[0] == '/' {
        spec
    } else if base.len() == 0 {
        spec
    } else if base.last() == '/' {
        base + spec
    } else {
        base + seq!['/'] + spec
    }
}

/// The last component of a path: the text after its last `/`.
pub open spec fn file_name(p: Seq<char>) -> Seq<char>
    decreases p.len(),
{
    if p.len() == 0 {
        Seq::empty()
    } else if p.last() == '/' {
        Seq::empty()
    } else {
        file_name(p.drop_last()).push(p.last())
    }
}

/// A file name has an extension: a `.` after its first character (`.` and
/// `..` have none).
pub open spec fn has_extension(name: Seq<char>) -> bool {
    name != seq!['.'] && name != seq!['.', '.'] && exists|i: int| 0 < i < name.len() && name[i] == '.'
}

/// The files looked for, in order; the first is also where a missing module
/// is reported.
pub open spec fn fs_candidates_of(spec: Seq<char>, from_id: Seq<char>, root: Seq<char>) -> Seq<Seq<char>> {
    let path = join_path(base_dir(from_id, root), spec);
    if has_extension(file_name(path)) {
        seq![normalized(path)]
    } else {
        seq![normalized(path + ".r2n"@), normalized(path + ".js"@), normalized(path + ".jsx"@)]
    }
}

fn file_name_of(p: &Vec<char>) -> (r: Vec<char>)
    ensures r@ == file_name(p@),
{
    let n = p.len();
    let mut k = n;
    assert(p@.take(n as int) =~= p@);
    assert(p@.subrange(n as int, n as int) =~= Seq::<char>::empty());
    while k > 0 && p[k - 1] != '/'
        invariant
            k <= n == p@.len(),
            file_name(p@) == file_name(p@.take(k as int)) + p@.subrange(k as int, n as int),
        decreases k,
    {
        proof {
            let t = p@.take(k as int);
            assert(t.drop_last() =~= p@.take(k - 1));
            assert(t.last() == p@[k - 1]);
            assert(p@.subrange(k - 1, n as int) =~= seq![p@[k - 1]] + p@.subrange(k as int, n as int));
        }
        k = k - 1;
    }
    proof {
        if k == 0 {
            assert(p@.take(0) =~= Seq::<char>::empty());
        } else {
            assert(p@.take(k as int).last() == p@[k - 1]);
        }
    }
    let mut out: Vec<char> = Vec::new();
    let mut i = k;
    while i < n
        invariant
            k <= i <= n == p@.len(),
            out@ == p@.subrange(k as int, i as int),
        decreases n - i,
    {
        out.push(p[i]);
        i = i + 1;
        assert(out@ =~= p@.subrange(k as int, i as int));
    }
    assert(file_name(p@.take(k as int)) =~= Seq::<char>::empty() || k > 0);
    out
}

fn extension_present(name: &Vec<char>) -> (r: bool)
    ensures r == has_extension(name@),
{
    let n = name.len();
    if n == 1 && name[0] == '.' {
        assert(name@ =~= seq!['.']);
        return false;
    }
    if n == 2 && name[0] == '.' && name[1] == '.' {
        assert(name@ =~= seq!['.', '.']);
        return false;
    }
    assert(name@ != seq!['.'] && name@ != seq!['.', '.']) by {
        if name@ == seq!['.'] {
            assert(name@.len() == 1 && name@[0] == '.');
        }
        if name@ == seq!['.', '.'] {
            assert(name@.len() == 2 && name@[0] == '.' && name@[1] == '.');
        }
    }
    let mut i: usize = 1;
    while i < n
        invariant
            1 <= i <= n || n == 0,
            n == name@.len(),
            name@ != seq!['.'] && name@ != seq!['.', '.'],
            forall|j: int| 0 < j < i && j < n ==> name@[j] != '.',
        decreases n - i,
    {
        if name[i] == '.' {
            assert(0 < i < name@.len() && name@[i as int] == '.');
            return true;
        }
        i = i + 1;
    }
    false
}

/// Where a filesystem resolver looks for the module that `specifier`,
/// imported by `from_id`, names (`fs_candidates_of`), or a resolve error for
/// an external specifier.
pub fn fs_candidates(specifier: &str, from_id: &str, root: &str) -> (r: Result<Vec<String>, LinkError>)
    ensures
        r is Err <==> external_spec(specifier@),
        r matches Ok(v) ==> v@.len() == fs_candidates_of(specifier@, from_id@, root@).len()
            && forall|i: int| 0 <= i < v@.len() ==> #[trigger] v@[i]@ == fs_candidates_of(specifier@, from_id@, root@)[i],
        r matches Err(e) ==> (e matches LinkError::Resolve { from, specifier: sp, reason } && from@ == from_id@
            && sp@ == specifier@
            && reason@ == "external package (no module file; imports resolve as runtime builtins)"@),
{
    if is_external_specifier(specifier) {
        proof { reveal_strlit("external package (no module file; imports resolve as runtime builtins)"); }
        return Err(LinkError::Resolve {
            from: owned(from_id),
            specifier: owned(specifier),
            reason: owned("external package (no module file; imports resolve as runtime builtins)"),
        });
    }
    let spec = chars_of(specifier);
    let dir = crate::compiler::link::dir_part(from_id);
    let from = chars_of(from_id);
    let mut base: Vec<char> = Vec::new();
    if dir.len() > 0 {
        crate::text::append_chars(&mut base, dir.as_slice());
    } else if from.len() > 0 && from[0] == '/' {
        base.push('/');
        assert(base@ =~= seq!['/']);
    } else {
        push_str(&mut base, root);
    }
    assert(base@ == base_dir(from_id@, root@));
    let mut path: Vec<char> = Vec::new();
    if spec.len() > 0 && spec[0] == '/' {
        crate::text::append_chars(&mut path, spec.as_slice());
    } else if base.len() == 0 {
        crate::text::append_chars(&mut path, spec.as_slice());
    } else if base[base.len() - 1] == '/' {
        crate::text::append_chars(&mut path, base.as_slice());
        crate::text::append_chars(&mut path, spec.as_slice());
    } else {
        crate::text::append_chars(&mut path, base.as_slice());
        path.push('/');
        crate::text::append_chars(&mut path, spec.as_slice());
    }
    assert(path@ =~= join_path(base_dir(from_id@, root@), specifier@));
    let name = file_name_of(&path);
    let mut out: Vec<String> = Vec::new();
    if extension_present(&name) {
        let p = string_from_chars(&path);
        out.push(normalize_path(p.as_str()));
        assert(out@[0]@ == fs_candidates_of(specifier@, from_id@, root@)[0]);
    } else {
        let mut p1: Vec<char> = Vec::new();
        crate::text::append_chars(&mut p1, path.as_slice());
        push_str(&mut p1, ".r2n");
        let mut p2: Vec<char> = Vec::new();
        crate::text::append_chars(&mut p2, path.as_slice());
        push_str(&mut p2, ".js");
        let mut p3: Vec<char> = Vec::new();
        crate::text::append_chars(&mut p3, path.as_slice());
        push_str(&mut p3, ".jsx");
        let s1 = string_from_chars(&p1);
        let s2 = string_from_chars(&p2);
        let s3 = string_from_chars(&p3);
        out.push(normalize_path(s1.as_str()));
        out.push(normalize_path(s2.as_str()));
        out.push(normalize_path(s3.as_str()));
    }
    Ok(out)
}

} // verus!
