//! Compiler orchestration: compile errors, multi-error diagnostics and the
//! module linker's resolution logic.

pub mod artifact;
pub mod assoc;
pub mod canon;
pub mod dfs;
pub mod dynamic;
pub mod fsres;
pub mod graph;
pub mod link;
pub mod paths;
pub mod plan;

use vstd::prelude::*;
use crate::parser::error::{parse_error_text, rendered, ParseError};
use crate::parser::lexer::error_positioned;
use crate::ast::program::Program;
use crate::ast::wf::wf_program;
use crate::ir::lower::{lower_error_text, LowerError};
use crate::ir::runtime::RuntimeTemplate;
use crate::ir::template::{lower, lower_dev, program_lowers, root_slot, root_text, strict_free, template_of};
use crate::parser::parse;
use crate::parser::recovery::{parse_with_recovery, Recovered};
use crate::text::{push_str, string_from_chars};

verus! {

/// A compile error, carrying the stage it failed at.
#[derive(Debug, Clone)]
pub enum CompileError {
    Parse(String),
    Lower(String),
}

/// The text of a compile error: the stage, then its message.
pub open spec fn compile_error_text(e: CompileError) -> Seq<char> {
    match e {
        CompileError::Parse(m) => "parse error: "@ + m@,
        CompileError::Lower(m) => "lower error: "@ + m@,
    }
}

impl CompileError {
    /// The error as it is shown to the user.
    pub fn to_string(&self) -> (r: String)
        ensures r@ == compile_error_text(*self),
    {
        let mut m: Vec<char> = Vec::new();
        match self {
            CompileError::Parse(x) => {
                push_str(&mut m, "parse error: ");
                push_str(&mut m, x.as_str());
            },
            CompileError::Lower(x) => {
                push_str(&mut m, "lower error: ");
                push_str(&mut m, x.as_str());
            },
        }
        string_from_chars(&m)
    }

    /// A parse failure, carrying the parse error's one-line text.
    pub fn from_parse(e: &ParseError) -> (r: CompileError)
        ensures r matches CompileError::Parse(m) && m@ == parse_error_text(*e),
    {
        CompileError::Parse(e.to_string())
    }
}

/// One rendered diagnostic: `error: MESSAGE`, a newline, then the error
/// rendered against its source.
pub open spec fn diagnostic_text(e: ParseError, src: Seq<char>) -> Seq<char> {
    "error: "@ + e.message@ + seq!['\n'] + rendered(e.line as nat, e.column as nat, src)
}

/// `ds` are the diagnostics of the errors `errs` of source `src`, in order.
pub open spec fn diagnostics_of(ds: Seq<String>, errs: Seq<ParseError>, src: Seq<char>) -> bool {
    &&& ds.len() == errs.len()
    &&& forall|i: int| 0 <= i < errs.len() ==> #[trigger] error_positioned(errs[i], src)
        && ds[i]@ == diagnostic_text(errs[i], src)
}

/// `e` is the compile error for the parse error `pe` of source `src`.
pub open spec fn reports_parse_error(e: CompileError, pe: ParseError, src: Seq<char>) -> bool {
    &&& error_positioned(pe, src)
    &&& (e matches CompileError::Parse(m) && m@ == parse_error_text(pe))
}

/// The rendered diagnostics of the errors `errors` of source `src`, one per
/// error and in the same order: `error: MESSAGE`, a newline, then the error
/// rendered against the source.
pub fn render_diagnostics(src: &str, errors: &Vec<ParseError>) -> (r: Vec<String>)
    ensures
        r@.len() == errors@.len(),
        forall|k: int| 0 <= k < errors@.len() ==> #[trigger] r@[k]@ == diagnostic_text(errors@[k], src@),
{
    let mut out: Vec<String> = Vec::new();
    let n = errors.len();
    for i in 0..n
        invariant
            n == errors@.len(),
            out@.len() == i,
            forall|k: int| 0 <= k < i ==> #[trigger] out@[k]@ == diagnostic_text(errors@[k], src@),
    {
        let e = &errors[i];
        let mut m: Vec<char> = Vec::new();
        push_str(&mut m, "error: ");
        push_str(&mut m, e.message.as_str());
        m.push('\n');
        let shown = e.render(src);
        push_str(&mut m, shown.as_str());
        proof { reveal_strlit("error: "); }
        assert(m@ =~= diagnostic_text(*e, src@));
        out.push(string_from_chars(&m));
    }
    out
}

/// `d` reports a lowering error of program `p`: `lower error: ` and the
/// error's text; where `p` has no root slot, the error is the unknown root.
pub open spec fn lower_diagnostic(d: Seq<char>, p: Program) -> bool {
    exists|e: LowerError| #![trigger lower_error_text(e)]
        d == "lower error: "@ + lower_error_text(e)
        && (root_slot(p) is None ==> (e matches LowerError::UnknownComponent(n) && n@ == root_text(p)))
}

/// `ds` are the diagnostics of a recovered parse of `src` with errors `errs`
/// and program `p`: the rendered parse errors where there are any; else none
/// where `p` lowers, and its one lowering error where it does not.
pub open spec fn recovery_diagnostics(ds: Seq<String>, errs: Seq<ParseError>, p: Program, src: Seq<char>) -> bool {
    if errs.len() > 0 {
        &&& ds.len() == errs.len()
        &&& forall|i: int| 0 <= i < errs.len() ==> #[trigger] ds[i]@ == diagnostic_text(errs[i], src)
    } else if program_lowers(p) {
        ds.len() == 0
    } else {
        ds.len() == 1 && lower_diagnostic(ds[0]@, p)
    }
}

/// `ds` are the diagnostics of `src` for a recovered parse with errors
/// `errs`, each placed in the source, and program `p`, well formed where
/// nothing was recovered.
pub open spec fn diagnosed(ds: Seq<String>, errs: Seq<ParseError>, p: Program, src: Seq<char>) -> bool {
    &&& forall|i: int| 0 <= i < errs.len() ==> #[trigger] error_positioned(errs[i], src)
    &&& (errs.len() == 0 ==> wf_program(p))
    &&& recovery_diagnostics(ds, errs, p, src)
}

/// The diagnostics of a recovered parse: its errors rendered against the
/// source, or, where it found none, the lowering error of its program if
/// lowering fails.
pub fn diagnose(src: &str, rec: &Recovered) -> (r: Vec<String>)
    ensures
        recovery_diagnostics(r@, rec.errors@, rec.program, src@),
{
    let out = render_diagnostics(src, &rec.errors);
    if out.len() > 0 {
        return out;
    }
    match lower(&rec.program) {
        Ok(_) => out,
        Err(e) => {
            let mut m: Vec<char> = Vec::new();
            push_str(&mut m, "lower error: ");
            let t = e.to_string();
            push_str(&mut m, t.as_str());
            let d = string_from_chars(&m);
            proof { reveal_strlit("lower error: "); }
            assert(d@ =~= "lower error: "@ + lower_error_text(e));
            let v = vec![d];
            assert(lower_diagnostic(v@[0]@, rec.program));
            v
        },
    }
}

/// Every diagnostic of a source in one pass (a parse with recovery), one
/// rendered text per error, in the order found; where the parse is clean,
/// lowering runs and its error, if any, is the one diagnostic (`lower error:
/// ...`). An empty list means the source compiles. A lexical failure, after
/// which nothing can be recovered, is the error.
pub fn collect_diagnostics(src: &str) -> (r: Result<Vec<String>, CompileError>)
    ensures
        r matches Ok(v) ==> exists|errs: Seq<ParseError>, p: Program| #[trigger] diagnosed(v@, errs, p, src@),
        r is Err ==> exists|pe: ParseError| #[trigger] reports_parse_error(r->Err_0, pe, src@),
{
    let rec = match parse_with_recovery(src) {
        Ok(rec) => rec,
        Err(e) => {
            let ce = CompileError::from_parse(&e);
            assert(reports_parse_error(ce, e, src@));
            let res: Result<Vec<String>, CompileError> = Err(ce);
            assert(reports_parse_error(res->Err_0, e, src@));
            assert(exists|pe: ParseError| #[trigger] reports_parse_error(res->Err_0, pe, src@));
            return res;
        },
    };
    let out = diagnose(src, &rec);
    assert(diagnosed(out@, rec.errors@, rec.program, src@));
    let res: Result<Vec<String>, CompileError> = Ok(out);
    assert(diagnosed(res->Ok_0@, rec.errors@, rec.program, src@));
    res
}

/// The outcome of compiling program `p` in the given build mode: its
/// template where it lowers, else a lowering error (the unknown root where
/// it has no root slot).
pub open spec fn compiled(r: Result<RuntimeTemplate, CompileError>, p: Program, dev: bool) -> bool {
    match r {
        Ok(t) => program_lowers(p) && template_of(t, p) && t.strict_mode == dev && (!dev ==> strict_free(t)),
        Err(CompileError::Lower(m)) => !program_lowers(p) && exists|e: LowerError| #![trigger lower_error_text(e)]
            m@ == lower_error_text(e)
            && (root_slot(p) is None ==> (e matches LowerError::UnknownComponent(n) && n@ == root_text(p))),
        Err(CompileError::Parse(_)) => false,
    }
}

/// Compile a parsed program into a runtime template.
pub fn compile_program(p: &Program, dev: bool) -> (r: Result<RuntimeTemplate, CompileError>)
    ensures
        compiled(r, *p, dev),
{
    let res = if dev { lower_dev(p) } else { lower(p) };
    match res {
        Ok(t) => Ok(t),
        Err(e) => {
            let m = e.to_string();
            let r: Result<RuntimeTemplate, CompileError> = Err(CompileError::Lower(m));
            assert(m@ == lower_error_text(e));
            r
        },
    }
}

/// `r` is the result of compiling `src`: a parse error placed in the
/// source, or the outcome of compiling some well-formed program.
pub open spec fn compiled_source(r: Result<RuntimeTemplate, CompileError>, src: Seq<char>, dev: bool) -> bool {
    match r {
        Err(CompileError::Parse(m)) => exists|pe: ParseError| #[trigger] reports_parse_error(
            CompileError::Parse(m), pe, src),
        _ => exists|p: Program| #[trigger] wf_program(p) && compiled(r, p, dev),
    }
}

/// Compile source text into a runtime template (the artifact), for
/// production.
pub fn compile_source(src: &str) -> (r: Result<RuntimeTemplate, CompileError>)
    ensures
        compiled_source(r, src@, false),
{
    compile_source_with(src, false)
}

/// Compile source text for development: StrictMode wrappers are kept and the
/// artifact is marked, so effects inside them run twice.
pub fn compile_source_dev(src: &str) -> (r: Result<RuntimeTemplate, CompileError>)
    ensures
        compiled_source(r, src@, true),
{
    compile_source_with(src, true)
}

/// Parse, then compile in the given mode.
fn compile_source_with(src: &str, dev: bool) -> (r: Result<RuntimeTemplate, CompileError>)
    ensures
        compiled_source(r, src@, dev),
{
    match parse(src) {
        Ok(p) => {
            let r = compile_program(&p, dev);
            assert(wf_program(p) && compiled(r, p, dev));
            r
        },
        Err(e) => {
            let ce = CompileError::from_parse(&e);
            assert(reports_parse_error(ce, e, src@));
            Err(ce)
        },
    }
}

} // verus!
