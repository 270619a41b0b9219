//! The module linker's resolution logic: link errors, module resolvers,
//! external-specifier classification, lexical path normalization, and the
//! per-module facts linking reads (static imports, the sole component).

use vstd::prelude::*;
use crate::ast::program::{Decl, ExportDecl, Program};
use crate::ir::lower::{component_fn_of, component_fn_spec};
use crate::parser::error::{parse_error_text, ParseError};
use crate::text::{owned, push_str, str_eq, string_from_chars};

verus! {

/// A link-time error.
#[derive(Debug, Clone)]
pub enum LinkError {
    /// A module specifier could not be resolved to a canonical id.
    Resolve { from: String, specifier: String, reason: String },
    /// A module's source could not be loaded.
    Load(String),
    /// A module failed to parse.
    Parse(String),
    /// A module failed to lower.
    Lower(String),
    /// The module graph contains an import cycle.
    ImportCycle(Vec<String>),
    /// The entry module does not `export default` a component.
    NoDefault(String),
    /// An import binding references an export the target never declares.
    UnknownExport { module: String, exported: String },
}

/// The views of a list of strings.
pub open spec fn views(s: Seq<String>) -> Seq<Seq<char>> {
    s.map_values(|x: String| x@)
}

/// `parts` joined with `sep` between consecutive parts.
pub open spec fn join_with(parts: Seq<Seq<char>>, sep: Seq<char>) -> Seq<char>
    decreases parts.len(),
{
    if parts.len() == 0 {
        Seq::empty()
    } else if parts.len() == 1 {
        parts[0]
    } else {
        join_with(parts.drop_last(), sep) + sep + parts.last()
    }
}

/// The text of a link error.
pub open spec fn link_error_text(e: LinkError) -> Seq<char> {
    match e {
        LinkError::Resolve { from, specifier, reason } =>
            "cannot resolve '"@ + specifier@ + "' imported by '"@ + from@ + "': "@ + reason@,
        LinkError::Load(m) => "load error: "@ + m@,
        LinkError::Parse(m) => "parse error: "@ + m@,
        LinkError::Lower(m) => "lower error: "@ + m@,
        LinkError::ImportCycle(path) => "import cycle: "@ + join_with(views(path@), " -> "@),
        LinkError::NoDefault(m) => "no default export: "@ + m@,
        LinkError::UnknownExport { module, exported } =>
            "module '"@ + module@ + "' has no export '"@ + exported@ + "'"@,
    }
}

/// Append `parts` joined with `sep` to `out`.
fn push_joined(out: &mut Vec<char>, parts: &Vec<String>, sep: &str)
    ensures final(out)@ == old(out)@ + join_with(views(parts@), sep@),
{
    let ghost start = out@;
    let n = parts.len();
    for i in 0..n
        invariant
            n == parts@.len(),
            out@ == start + join_with(views(parts@.take(i as int)), sep@),
    {
        let ghost prev = views(parts@.take(i as int));
        let ghost next = views(parts@.take(i + 1));
        assert(next.drop_last() =~= prev);
        assert(next.last() == parts@[i as int]@);
        if i > 0 {
            push_str(out, sep);
        }
        push_str(out, parts[i].as_str());
        proof {
            if i == 0 {
                assert(next.len() == 1);
                assert(join_with(next, sep@) == next[0]);
            }
        }
        assert(out@ =~= start + join_with(next, sep@));
    }
    assert(parts@.take(n as int) =~= parts@);
}

impl LinkError {
    /// The error as it is shown to the user.
    pub fn to_string(&self) -> (r: String)
        ensures r@ == link_error_text(*self),
    {
        let mut m: Vec<char> = Vec::new();
        match self {
            LinkError::Resolve { from, specifier, reason } => {
                push_str(&mut m, "cannot resolve '");
                push_str(&mut m, specifier.as_str());
                push_str(&mut m, "' imported by '");
                push_str(&mut m, from.as_str());
                push_str(&mut m, "': ");
                push_str(&mut m, reason.as_str());
            },
            LinkError::Load(x) => {
                push_str(&mut m, "load error: ");
                push_str(&mut m, x.as_str());
            },
            LinkError::Parse(x) => {
                push_str(&mut m, "parse error: ");
                push_str(&mut m, x.as_str());
            },
            LinkError::Lower(x) => {
                push_str(&mut m, "lower error: ");
                push_str(&mut m, x.as_str());
            },
            LinkError::ImportCycle(path) => {
                push_str(&mut m, "import cycle: ");
                push_joined(&mut m, path, " -> ");
            },
            LinkError::NoDefault(x) => {
                push_str(&mut m, "no default export: ");
                push_str(&mut m, x.as_str());
            },
            LinkError::UnknownExport { module, exported } => {
                push_str(&mut m, "module '");
                push_str(&mut m, module.as_str());
                push_str(&mut m, "' has no export '");
                push_str(&mut m, exported.as_str());
                push_str(&mut m, "'");
            },
        }
        string_from_chars(&m)
    }

    /// A module's parse failure, carrying the parse error's one-line text.
    pub fn from_parse(e: &ParseError) -> (r: LinkError)
        ensures r matches LinkError::Parse(m) && m@ == parse_error_text(*e),
    {
        LinkError::Parse(e.to_string())
    }
}

/// Resolves module specifiers to canonical ids and loads module sources.
pub trait ModuleResolver {
    /// Resolve `specifier`, as written in an `import` of module `from_id`, to
    /// a canonical, unique module id, or fail with a resolve error.
    fn resolve(&self, specifier: &str, from_id: &str) -> (r: Result<String, LinkError>)
        ensures r matches Err(e) ==> e is Resolve;

    /// Load the source of a module that `resolve` returned, or fail with a
    /// load error.
    fn load(&self, id: &str) -> (r: Result<String, LinkError>)
        ensures r matches Err(e) ==> e is Load;
}

/// `s` ends with `suffix`.
pub open spec fn ends_with(s: Seq<char>, suffix: Seq<char>) -> bool {
    s.len() >= suffix.len() && s.subrange(s.len() - suffix.len(), s.len() as int) == suffix
}

/// An external specifier names no module file: a stylesheet (`*.css`) or a
/// bare package name. Relative and absolute paths (`.`/`/` first) and Windows
/// drive paths (`C:...`, an ASCII first character then `:`) are internal.
pub open spec fn external_spec(s: Seq<char>) -> bool {
    if ends_with(s, ".css"@) {
        true
    } else if s.len() > 0 && (s[0] == '.' || s[0] == '/') {
        false
    } else {
        !(s.len() >= 2 && (s[0] as u32) < 0x80 && s[1] == ':')
    }
}

/// Whether a module specifier is external (no module file to load).
pub fn is_external_specifier(spec: &str) -> (r: bool)
    ensures r == external_spec(spec@),
{
    let s = crate::text::chars_of(spec);
    let n = s.len();
    proof { reveal_strlit(".css"); }
    if n >= 4 && s[n - 4] == '.' && s[n - 3] == 'c' && s[n - 2] == 's' && s[n - 1] == 's' {
        assert(s@.subrange(n - 4, n as int) =~= ".css"@);
        return true;
    }
    assert(n >= 4 ==> (s@.subrange(n - 4, n as int) == ".css"@ ==> s@.subrange(n - 4, n as int)[0] == '.'
        && s@.subrange(n - 4, n as int)[1] == 'c' && s@.subrange(n - 4, n as int)[2] == 's'
        && s@.subrange(n - 4, n as int)[3] == 's'));
    if n > 0 && (s[0] == '.' || s[0] == '/') {
        return false;
    }
    if n >= 2 && (s[0] as u32) < 0x80 && s[1] == ':' {
        return false;
    }
    true
}

/// A path separator (`/` or `\`).
pub open spec fn is_sep(c: char) -> bool {
    c == '/' || c == '\\'
}

/// The segments of a path: the text between separators (possibly empty).
pub open spec fn split_segments(s: Seq<char>) -> Seq<Seq<char>>
    decreases s.len(),
{
    if s.len() == 0 {
        seq![Seq::empty()]
    } else {
        let prev = split_segments(s.drop_last());
        if is_sep(s.last()) {
            prev.push(Seq::empty())
        } else {
            prev.drop_last().push(prev.last().push(s.last()))
        }
    }
}

/// One step of lexical normalization: `""`/`.` vanish, `..` removes the
/// previous real segment (or is kept when there is none), others are kept.
pub open spec fn norm_step(parts: Seq<Seq<char>>, seg: Seq<char>) -> Seq<Seq<char>> {
    if seg.len() == 0 || seg == seq!['.'] {
        parts
    } else if seg == seq!['.', '.'] {
        if parts.len() > 0 && parts.last() != seq!['.', '.'] {
            parts.drop_last()
        } else {
            parts.push(seq!['.', '.'])
        }
    } else {
        parts.push(seg)
    }
}

/// Lexical normalization of a list of segments, left to right.
pub open spec fn norm_segments(segs: Seq<Seq<char>>) -> Seq<Seq<char>>
    decreases segs.len(),
{
    if segs.len() == 0 {
        Seq::empty()
    } else {
        norm_step(norm_segments(segs.drop_last()), segs.last())
    }
}

/// The lexically normalized form of a path: `.`/`..` resolved, separators
/// unified to `/`, leading `..` kept; `.` for a path with no segment left.
pub open spec fn normalized(p: Seq<char>) -> Seq<char> {
    let parts = norm_segments(split_segments(p));
    if parts.len() == 0 { seq!['.'] } else { join_with(parts, seq!['/']) }
}

proof fn lemma_split_segments_nonempty(s: Seq<char>)
    ensures split_segments(s).len() >= 1,
    decreases s.len(),
{
    if s.len() > 0 {
        lemma_split_segments_nonempty(s.drop_last());
    }
}

/// Lexically normalize a path without touching the filesystem.
pub fn normalize_path(p: &str) -> (r: String)
    ensures r@ == normalized(p@),
{
    let s = crate::text::chars_of(p);
    let n = s.len();
    // Split into segments.
    let mut segs: Vec<Vec<char>> = Vec::new();
    let mut cur: Vec<char> = Vec::new();
    let ghost mut gsegs: Seq<Seq<char>> = Seq::empty();
    for i in 0..n
        invariant
            n == s@.len(),
            segs@.len() == gsegs.len(),
            forall|k: int| 0 <= k < gsegs.len() ==> #[trigger] segs@[k]@ == gsegs[k],
            gsegs.push(cur@) == split_segments(s@.take(i as int)),
    {
        proof {
            lemma_split_segments_nonempty(s@.take(i as int));
            assert(s@.take(i + 1).drop_last() =~= s@.take(i as int));
            assert(s@.take(i + 1).last() == s@[i as int]);
        }
        let c = s[i];
        if c == '/' || c == '\\' {
            let done = cur;
            proof {
                gsegs = gsegs.push(done@);
            }
            segs.push(done);
            cur = Vec::new();
            assert(gsegs.push(cur@) =~= split_segments(s@.take(i + 1)));
        } else {
            let ghost before = cur@;
            cur.push(c);
            assert(gsegs.push(before).drop_last() =~= gsegs);
            assert(gsegs.push(cur@) =~= split_segments(s@.take(i + 1)));
        }
    }
    proof {
        gsegs = gsegs.push(cur@);
    }
    segs.push(cur);
    assert(s@.take(n as int) =~= s@);
    assert(gsegs == split_segments(s@));
    // Fold the segments.
    let m = segs.len();
    let mut parts: Vec<Vec<char>> = Vec::new();
    let ghost mut gparts: Seq<Seq<char>> = Seq::empty();
    for j in 0..m
        invariant
            m == segs@.len() == gsegs.len(),
            forall|k: int| 0 <= k < gsegs.len() ==> #[trigger] segs@[k]@ == gsegs[k],
            parts@.len() == gparts.len(),
            forall|k: int| 0 <= k < gparts.len() ==> #[trigger] parts@[k]@ == gparts[k],
            gparts == norm_segments(gsegs.take(j as int)),
    {
        assert(gsegs.take(j + 1).drop_last() =~= gsegs.take(j as int));
        assert(gsegs.take(j + 1).last() == gsegs[j as int]);
        let seg = &segs[j];
        assert(seg@ == gsegs[j as int]);
        let is_empty_or_dot = seg.len() == 0 || (seg.len() == 1 && seg[0] == '.');
        let is_dotdot = seg.len() == 2 && seg[0] == '.' && seg[1] == '.';
        assert(is_empty_or_dot == (seg@.len() == 0 || seg@ == seq!['.'])) by {
            if seg@.len() == 1 && seg@[0] == '.' {
                assert(seg@ =~= seq!['.']);
            }
        }
        assert(is_dotdot == (seg@ == seq!['.', '.'])) by {
            if seg@.len() == 2 && seg@[0] == '.' && seg@[1] == '.' {
                assert(seg@ =~= seq!['.', '.']);
            }
        }
        if is_empty_or_dot {
        } else if is_dotdot {
            let k = parts.len();
            let last_is_dotdot = k > 0 && parts[k - 1].len() == 2 && parts[k - 1][0] == '.'
                && parts[k - 1][1] == '.';
            proof {
                if k > 0 {
                    assert(parts@[k - 1]@ == gparts.last());
                    if gparts.last().len() == 2 && gparts.last()[0] == '.' && gparts.last()[1] == '.' {
                        assert(gparts.last() =~= seq!['.', '.']);
                    }
                }
            }
            if k > 0 && !last_is_dotdot {
                parts.pop();
                proof { gparts = gparts.drop_last(); }
            } else {
                let mut dd: Vec<char> = Vec::new();
                dd.push('.');
                dd.push('.');
                assert(dd@ =~= seq!['.', '.']);
                parts.push(dd);
                proof { gparts = gparts.push(seq!['.', '.']); }
            }
        } else {
            let mut copy: Vec<char> = Vec::new();
            crate::text::append_chars(&mut copy, seg.as_slice());
            assert(copy@ =~= seg@);
            parts.push(copy);
            proof { gparts = gparts.push(gsegs[j as int]); }
        }
        assert(gparts == norm_segments(gsegs.take(j + 1)));
    }
    assert(gsegs.take(m as int) =~= gsegs);
    // Join.
    let k = parts.len();
    if k == 0 {
        let mut d: Vec<char> = Vec::new();
        d.push('.');
        assert(d@ =~= seq!['.']);
        return string_from_chars(&d);
    }
    let mut out: Vec<char> = Vec::new();
    for i in 0..k
        invariant
            k == parts@.len() == gparts.len(),
            forall|q: int| 0 <= q < gparts.len() ==> #[trigger] parts@[q]@ == gparts[q],
            out@ == join_with(gparts.take(i as int), seq!['/']),
    {
        let ghost next = gparts.take(i + 1);
        assert(next.drop_last() =~= gparts.take(i as int));
        assert(next.last() == gparts[i as int]);
        if i > 0 {
            out.push('/');
        }
        crate::text::append_chars(&mut out, parts[i].as_slice());
        proof {
            if i == 0 {
                assert(next.len() == 1);
            }
        }
        assert(out@ =~= join_with(next, seq!['/']));
    }
    assert(gparts.take(k as int) =~= gparts);
    string_from_chars(&out)
}

/// The source of module `key` in a list of `(id, source)` entries: the
/// first entry with that id.
pub open spec fn lookup(files: Seq<(String, String)>, key: Seq<char>) -> Option<Seq<char>>
    decreases files.len(),
{
    if files.len() == 0 {
        None
    } else if files[0].0@ == key {
        Some(files[0].1@)
    } else {
        lookup(files.drop_first(), key)
    }
}

proof fn lemma_lookup_push(files: Seq<(String, String)>, e: (String, String), key: Seq<char>)
    ensures lookup(files.push(e), key) == (match lookup(files, key) {
        Some(v) => Some(v),
        None => if e.0@ == key { Some(e.1@) } else { None },
    }),
    decreases files.len(),
{
    assert(files.push(e)[0] == if files.len() > 0 { files[0] } else { e });
    if files.len() > 0 {
        assert(files.push(e).drop_first() =~= files.drop_first().push(e));
        lemma_lookup_push(files.drop_first(), e, key);
    } else {
        assert(files.push(e).drop_first() =~= files);
    }
}

proof fn lemma_lookup_update(files: Seq<(String, String)>, i: int, e: (String, String), key: Seq<char>)
    requires
        0 <= i < files.len(),
        files[i].0@ == e.0@,
        forall|j: int| 0 <= j < i ==> #[trigger] files[j].0@ != e.0@,
    ensures lookup(files.update(i, e), key) == (if key == e.0@ { Some(e.1@) } else { lookup(files, key) }),
    decreases files.len(),
{
    if i > 0 {
        assert(files.update(i, e).drop_first() =~= files.drop_first().update(i - 1, e));
        assert forall|j: int| 0 <= j < i - 1 implies #[trigger] files.drop_first()[j].0@ != e.0@ by {
            assert(files.drop_first()[j] == files[j + 1]);
        }
        lemma_lookup_update(files.drop_first(), i - 1, e, key);
        assert(files[0].0@ != e.0@);
    } else {
        assert(files.update(i, e).drop_first() =~= files.drop_first());
    }
}

/// An in-memory resolver: module sources keyed by canonical id.
pub struct MemResolver {
    files: Vec<(String, String)>,
}

impl MemResolver {
    /// The source held for module `id`, if any.
    pub closed spec fn source_of(&self, id: Seq<char>) -> Option<Seq<char>> {
        lookup(self.files@, id)
    }

    /// A resolver with no modules.
    pub fn new() -> (r: MemResolver)
        ensures forall|id: Seq<char>| r.source_of(id) is None,
    {
        MemResolver { files: Vec::new() }
    }

    /// Hold `source` as the source of module `id` (replacing any earlier
    /// one); the resolver itself is handed back, for chained calls.
    pub fn add(&mut self, id: String, source: String) -> (r: &mut Self)
        ensures
            forall|k: Seq<char>| #[trigger] r.source_of(k)
                == (if k == id@ { Some(source@) } else { old(self).source_of(k) }),
            *final(self) == *final(r),
    {
        self.put(id, source);
        self
    }

    /// Hold `source` as the source of module `id` (replacing any earlier one).
    fn put(&mut self, id: String, source: String)
        ensures
            forall|k: Seq<char>| #[trigger] final(self).source_of(k)
                == (if k == id@ { Some(source@) } else { old(self).source_of(k) }),
    {
        let n = self.files.len();
        let mut i: usize = 0;
        while i < n
            invariant
                n == self.files@.len(),
                self.files == old(self).files,
                i <= n,
                forall|j: int| 0 <= j < i ==> #[trigger] self.files@[j].0@ != id@,
            decreases n - i,
        {
            if str_eq(self.files[i].0.as_str(), id.as_str()) {
                let ghost before = self.files@;
                let e = (id, source);
                self.files.set(i, e);
                proof {
                    assert forall|k: Seq<char>| #[trigger] lookup(self.files@, k)
                        == (if k == e.0@ { Some(e.1@) } else { lookup(before, k) }) by {
                        lemma_lookup_update(before, i as int, e, k);
                    }
                }
                return;
            }
            i = i + 1;
        }
        let ghost before = self.files@;
        let e = (id, source);
        self.files.push(e);
        proof {
            assert forall|k: Seq<char>| #[trigger] lookup(self.files@, k)
                == (if k == e.0@ { Some(e.1@) } else { lookup(before, k) }) by {
                lemma_lookup_push(before, e, k);
                if lookup(before, k) is Some {
                    lemma_lookup_some_key(before, k);
                }
                if k == e.0@ {
                    lemma_lookup_absent(before, k);
                }
            }
        }
    }

    fn find(&self, id: &str) -> (r: Option<usize>)
        ensures
            r matches Some(i) ==> i < self.files@.len() && lookup(self.files@, id@) == Some(self.files@[i as int].1@),
            r is None ==> lookup(self.files@, id@) is None,
    {
        let n = self.files.len();
        let mut i: usize = 0;
        assert(self.files@.skip(0) =~= self.files@);
        while i < n
            invariant
                n == self.files@.len(),
                i <= n,
                lookup(self.files@, id@) == lookup(self.files@.skip(i as int), id@),
            decreases n - i,
        {
            assert(self.files@.skip(i as int).drop_first() =~= self.files@.skip(i + 1));
            assert(self.files@.skip(i as int)[0] == self.files@[i as int]);
            if str_eq(self.files[i].0.as_str(), id) {
                return Some(i);
            }
            i = i + 1;
        }
        None
    }

    fn contains(&self, id: &str) -> (r: bool)
        ensures r == (lookup(self.files@, id@) is Some),
    {
        self.find(id).is_some()
    }
}

proof fn lemma_lookup_some_key(files: Seq<(String, String)>, key: Seq<char>)
    requires lookup(files, key) is Some,
    ensures exists|j: int| 0 <= j < files.len() && #[trigger] files[j].0@ == key,
    decreases files.len(),
{
    if files[0].0@ != key {
        lemma_lookup_some_key(files.drop_first(), key);
        let j = choose|j: int| 0 <= j < files.drop_first().len() && #[trigger] files.drop_first()[j].0@ == key;
        assert(files[j + 1] == files.drop_first()[j]);
    }
}

proof fn lemma_lookup_absent(files: Seq<(String, String)>, key: Seq<char>)
    requires forall|j: int| 0 <= j < files.len() ==> #[trigger] files[j].0@ != key,
    ensures lookup(files, key) is None,
    decreases files.len(),
{
    if files.len() > 0 {
        assert forall|j: int| 0 <= j < files.drop_first().len() implies #[trigger] files.drop_first()[j].0@ != key by {
            assert(files.drop_first()[j] == files[j + 1]);
        }
        lemma_lookup_absent(files.drop_first(), key);
    }
}

/// The directory part of a module id: the text before its last `/`, or
/// empty when it has none.
pub open spec fn dir_of(id: Seq<char>) -> Seq<char>
    decreases id.len(),
{
    if id.len() == 0 {
        Seq::empty()
    } else if id.last() == '/' {
        id.drop_last()
    } else {
        dir_of(id.drop_last())
    }
}

/// Where a specifier imported by `from` is looked for, in order: the raw
/// specifier, its normalized form, then its normalized join with the
/// importer's directory.
pub open spec fn mem_candidate(spec: Seq<char>, from: Seq<char>) -> Seq<char> {
    if dir_of(from).len() == 0 { normalized(spec) } else { normalized(dir_of(from) + seq!['/'] + spec) }
}

pub(crate) fn dir_part(id: &str) -> (r: Vec<char>)
    ensures r@ == dir_of(id@),
{
    let s = crate::text::chars_of(id);
    let mut k = s.len();
    assert(s@.take(k as int) =~= s@);
    while k > 0 && s[k - 1] != '/'
        invariant
            k <= s@.len(),
            dir_of(id@) == dir_of(s@.take(k as int)),
            s@ == id@,
        decreases k,
    {
        assert(s@.take(k as int).drop_last() =~= s@.take(k - 1));
        k = k - 1;
    }
    if k == 0 {
        assert(s@.take(0) =~= Seq::<char>::empty());
        return Vec::new();
    }
    assert(s@.take(k as int).drop_last() =~= s@.take(k - 1));
    let mut out: Vec<char> = Vec::new();
    let mut i: usize = 0;
    while i < k - 1
        invariant
            0 < k <= s@.len(),
            i <= k - 1,
            out@ == s@.take(i as int),
        decreases k - 1 - i,
    {
        out.push(s[i]);
        i = i + 1;
        assert(out@ =~= s@.take(i as int));
    }
    out
}

impl ModuleResolver for MemResolver {
    /// The raw specifier when a module has exactly that id; otherwise its
    /// normalized form; otherwise its normalized join with the importer's
    /// directory; otherwise a resolve error.
    fn resolve(&self, specifier: &str, from_id: &str) -> (r: Result<String, LinkError>)
        ensures
            r matches Ok(id) ==> {
                ||| (self.source_of(specifier@) is Some && id@ == specifier@)
                ||| (self.source_of(specifier@) is None && self.source_of(normalized(specifier@)) is Some
                    && id@ == normalized(specifier@))
                ||| (self.source_of(specifier@) is None && self.source_of(normalized(specifier@)) is None
                    && self.source_of(mem_candidate(specifier@, from_id@)) is Some
                    && id@ == mem_candidate(specifier@, from_id@))
            },
            r is Err <==> (self.source_of(specifier@) is None && self.source_of(normalized(specifier@)) is None
                && self.source_of(mem_candidate(specifier@, from_id@)) is None),
            r matches Err(e) ==> (e matches LinkError::Resolve { from, specifier: sp, reason }
                && from@ == from_id@ && sp@ == specifier@ && reason@ == "no such module in resolver"@),
    {
        if self.contains(specifier) {
            return Ok(owned(specifier));
        }
        let norm = normalize_path(specifier);
        if self.contains(norm.as_str()) {
            return Ok(norm);
        }
        proof { reveal_strlit("no such module in resolver"); }
        let dir = dir_part(from_id);
        let candidate = if dir.len() == 0 {
            norm
        } else {
            let mut joined: Vec<char> = Vec::new();
            crate::text::append_chars(&mut joined, dir.as_slice());
            joined.push('/');
            push_str(&mut joined, specifier);
            let js = string_from_chars(&joined);
            assert(js@ =~= dir_of(from_id@) + seq!['/'] + specifier@);
            normalize_path(js.as_str())
        };
        if self.contains(candidate.as_str()) {
            return Ok(candidate);
        }
        Err(LinkError::Resolve {
            from: owned(from_id),
            specifier: owned(specifier),
            reason: owned("no such module in resolver"),
        })
    }

    /// The source held for `id`, or the load error `no source for module 'ID'`.
    fn load(&self, id: &str) -> (r: Result<String, LinkError>)
        ensures
            r matches Ok(src) ==> self.source_of(id@) == Some(src@),
            r is Err <==> self.source_of(id@) is None,
            r matches Err(e) ==> (e matches LinkError::Load(m) && m@ == "no source for module '"@ + id@ + "'"@),
    {
        match self.find(id) {
            Some(i) => Ok(self.files[i].1.clone()),
            None => {
                let mut m: Vec<char> = Vec::new();
                push_str(&mut m, "no source for module '");
                push_str(&mut m, id);
                push_str(&mut m, "'");
                let ghost v = m@;
                assert(v =~= "no source for module '"@ + id@ + "'"@);
                Err(LinkError::Load(string_from_chars(&m)))
            },
        }
    }
}

/// The paths a program statically imports, in source order.
pub open spec fn import_paths(decls: Seq<Decl>) -> Seq<Seq<char>>
    decreases decls.len(),
{
    if decls.len() == 0 {
        Seq::empty()
    } else {
        import_paths(decls.drop_last()) + match decls.last() {
            Decl::Import(i) => seq![i.path@],
            _ => Seq::empty(),
        }
    }
}

/// The module specifiers a program statically imports, in source order.
pub fn static_import_specifiers(program: &Program) -> (r: Vec<String>)
    ensures views(r@) == import_paths(program.decls@),
{
    let mut out: Vec<String> = Vec::new();
    let n = program.decls.len();
    for i in 0..n
        invariant
            n == program.decls@.len(),
            views(out@) == import_paths(program.decls@.take(i as int)),
    {
        assert(program.decls@.take(i + 1).drop_last() =~= program.decls@.take(i as int));
        assert(program.decls@.take(i + 1).last() == program.decls@[i as int]);
        let ghost before = out@;
        match &program.decls[i] {
            Decl::Import(imp) => {
                out.push(imp.path.clone());
                assert(views(out@) =~= views(before) + seq![imp.path@]);
            },
            _ => {
                assert(views(out@) =~= views(before) + Seq::<Seq<char>>::empty());
            },
        }
    }
    assert(program.decls@.take(n as int) =~= program.decls@);
    out
}

/// The names of a program's component-shaped declarations, in order:
/// components, classes, exported functions, and exported constants bound to
/// a component-shaped function.
pub open spec fn component_decl_names(decls: Seq<Decl>) -> Seq<Seq<char>>
    decreases decls.len(),
{
    if decls.len() == 0 {
        Seq::empty()
    } else {
        component_decl_names(decls.drop_last()) + match decls.last() {
            Decl::Component(c) => seq![c.name@],
            Decl::Class(c) => seq![c.name@],
            Decl::ExportDecl(ExportDecl::Function(f)) => seq![f.name@],
            Decl::ExportDecl(ExportDecl::Const { name, value }) =>
                if component_fn_spec(value) is Some { seq![name@] } else { Seq::empty() },
            _ => Seq::empty(),
        }
    }
}

/// The entry's root when it has no `export default`: its one
/// component-shaped declaration, when it has exactly one with a name.
pub open spec fn sole_component_spec(decls: Seq<Decl>) -> Option<Seq<char>> {
    let names = component_decl_names(decls);
    if names.len() == 1 && names[0].len() > 0 { Some(names[0]) } else { None }
}

/// The name of the program's sole component-shaped declaration, if it has
/// exactly one (with a non-empty name).
pub fn sole_entry_component(program: &Program) -> (r: Option<String>)
    ensures
        r is None <==> sole_component_spec(program.decls@) is None,
        r matches Some(n) ==> sole_component_spec(program.decls@) == Some(n@),
{
    let mut first: Option<String> = None;
    let mut count: usize = 0;
    let n = program.decls.len();
    for i in 0..n
        invariant
            n == program.decls@.len(),
            count as int == (if component_decl_names(program.decls@.take(i as int)).len() >= 2 { 2int }
                else { component_decl_names(program.decls@.take(i as int)).len() as int }),
            count >= 1 ==> (first matches Some(f) && f@ == component_decl_names(program.decls@.take(i as int))[0]),
            count == 0 ==> first is None,
    {
        let ghost pre = program.decls@.take(i as int);
        assert(program.decls@.take(i + 1).drop_last() =~= pre);
        assert(program.decls@.take(i + 1).last() == program.decls@[i as int]);
        let name: Option<&String> = match &program.decls[i] {
            Decl::Component(c) => Some(&c.name),
            Decl::Class(c) => Some(&c.name),
            Decl::ExportDecl(ExportDecl::Function(f)) => Some(&f.name),
            Decl::ExportDecl(ExportDecl::Const { name, value }) => {
                if component_fn_of(value).is_some() { Some(name) } else { None }
            },
            _ => None,
        };
        let ghost added = match program.decls@[i as int] {
            Decl::Component(c) => seq![c.name@],
            Decl::Class(c) => seq![c.name@],
            Decl::ExportDecl(ExportDecl::Function(f)) => seq![f.name@],
            Decl::ExportDecl(ExportDecl::Const { name, value }) =>
                if component_fn_spec(value) is Some { seq![name@] } else { Seq::<Seq<char>>::empty() },
            _ => Seq::<Seq<char>>::empty(),
        };
        assert(component_decl_names(program.decls@.take(i + 1)) == component_decl_names(pre) + added);
        match name {
            Some(nm) => {
                assert(added =~= seq![nm@]);
                if count == 0 {
                    first = Some(nm.clone());
                }
                if count < 2 {
                    count = count + 1;
                }
            },
            None => {
                assert(added =~= Seq::<Seq<char>>::empty());
            },
        }
        assert(component_decl_names(program.decls@.take(i + 1)).len() == component_decl_names(pre).len() + added.len());
        proof {
            if component_decl_names(pre).len() >= 1 {
                assert(component_decl_names(program.decls@.take(i + 1))[0] == component_decl_names(pre)[0]);
            }
        }
    }
    assert(program.decls@.take(n as int) =~= program.decls@);
    if count == 1 {
        match first {
            Some(f) => {
                if f.as_str().unicode_len() == 0 {
                    assert(f@.len() == 0);
                    None
                } else {
                    Some(f)
                }
            },
            None => None,
        }
    } else {
        None
    }
}

} // verus!
