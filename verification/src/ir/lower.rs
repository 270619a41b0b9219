//! Lowering errors and the lowering helpers that read the AST alone: the
//! names a binding pattern binds, the plain parameter names of a parameter
//! list, and the function a component-shaped expression stands for.

use vstd::prelude::*;
use crate::ast::expr::{CallArg, Expr};
use crate::ast::program::{ObjectProp, Param, Pattern, Stmt};
use crate::text::{push_str, str_eq, string_from_chars};

verus! {

/// An error during lowering.
#[derive(Debug, Clone, PartialEq)]
pub enum LowerError {
    /// A component referenced by `<Name/>` or a call was never defined.
    UnknownComponent(String),
    /// A `return` produced a non-renderable expression.
    NonRenderableReturn(String),
    /// A `list.map(...)` of the wrong shape in child position.
    InvalidListMap(String),
    /// `await` outside the positions it is supported in.
    UnsupportedAwait(String),
    /// A `<>` fragment given an attribute other than `key`.
    InvalidFragmentProp(String),
    /// A statement or expression form the lowerer does not support.
    Unsupported(String),
}

/// The human-readable text of a lowering error.
pub open spec fn lower_error_text(e: LowerError) -> Seq<char> {
    match e {
        LowerError::UnknownComponent(n) => "unknown component '"@ + n@ + "'"@,
        LowerError::NonRenderableReturn(s) => "non-renderable return: "@ + s@,
        LowerError::InvalidListMap(s) => "invalid list .map(): "@ + s@,
        LowerError::InvalidFragmentProp(n) => "fragment `<>` accepts only `key`, got `"@ + n@ + "`"@,
        LowerError::UnsupportedAwait(s) => "unsupported await: "@ + s@,
        LowerError::Unsupported(s) => "unsupported construct: "@ + s@,
    }
}

impl LowerError {
    /// The error's message, as it is shown to the user.
    pub fn to_string(&self) -> (r: String)
        ensures r@ == lower_error_text(*self),
    {
        let mut m: Vec<char> = Vec::new();
        match self {
            LowerError::UnknownComponent(n) => {
                push_str(&mut m, "unknown component '");
                push_str(&mut m, n.as_str());
                push_str(&mut m, "'");
            },
            LowerError::NonRenderableReturn(s) => {
                push_str(&mut m, "non-renderable return: ");
                push_str(&mut m, s.as_str());
            },
            LowerError::InvalidListMap(s) => {
                push_str(&mut m, "invalid list .map(): ");
                push_str(&mut m, s.as_str());
            },
            LowerError::InvalidFragmentProp(n) => {
                push_str(&mut m, "fragment `<>` accepts only `key`, got `");
                push_str(&mut m, n.as_str());
                push_str(&mut m, "`");
            },
            LowerError::UnsupportedAwait(s) => {
                push_str(&mut m, "unsupported await: ");
                push_str(&mut m, s.as_str());
            },
            LowerError::Unsupported(s) => {
                push_str(&mut m, "unsupported construct: ");
                push_str(&mut m, s.as_str());
            },
        }
        string_from_chars(&m)
    }
}

/// The names a binding pattern binds, in source order: a plain name; each
/// object property's alias pattern (or its key when it has none) then the
/// `...rest` name; each present array element then the `...rest` name.
pub open spec fn pattern_names_of(p: Pattern) -> Seq<String>
    decreases p,
{
    match p {
        Pattern::Name { name, .. } => seq![name],
        Pattern::Object { props, rest } => object_props_names(props@) + match rest {
            Some(r) => seq![r],
            None => Seq::empty(),
        },
        Pattern::Array { items, rest } => pattern_items_names(items@) + match rest {
            Some(r) => seq![r],
            None => Seq::empty(),
        },
    }
}

/// The names bound by a list of object-pattern properties.
pub open spec fn object_props_names(s: Seq<ObjectProp>) -> Seq<String>
    decreases s,
{
    if s.len() == 0 {
        Seq::empty()
    } else {
        object_props_names(s.drop_last()) + object_prop_names(s.last())
    }
}

/// The names bound by one object-pattern property.
pub open spec fn object_prop_names(p: ObjectProp) -> Seq<String>
    decreases p,
{
    match p.alias {
        Some(a) => pattern_names_of(a),
        None => seq![p.key],
    }
}

/// The names bound by the elements of an array pattern (holes bind nothing).
pub open spec fn pattern_items_names(s: Seq<Option<Pattern>>) -> Seq<String>
    decreases s,
{
    if s.len() == 0 {
        Seq::empty()
    } else {
        pattern_items_names(s.drop_last()) + match s.last() {
            Some(p) => pattern_names_of(p),
            None => Seq::empty(),
        }
    }
}

/// Append every name `pat` binds to `out`, in source order.
pub fn pattern_names(pat: &Pattern, out: &mut Vec<String>)
    ensures final(out)@ == old(out)@ + pattern_names_of(*pat),
    decreases pat,
{
    match pat {
        Pattern::Name { name, .. } => {
            out.push(name.clone());
        },
        Pattern::Object { props, rest } => {
            let ghost start = out@;
            let n = props.len();
            for i in 0..n
                invariant
                    n == props@.len(),
                    *pat == (Pattern::Object { props: *props, rest: *rest }),
                    out@ == start + object_props_names(props@.take(i as int)),
            {
                assert(props@.take(i + 1).drop_last() =~= props@.take(i as int));
                assert(props@.take(i + 1).last() == props@[i as int]);
                let pr = &props[i];
                assert(decreases_to!(*pat => pat->props));
                assert(decreases_to!(*props => props@));
                assert(decreases_to!(props@ => props@[i as int]));
                match &pr.alias {
                    Some(alias) => {
                        assert(decreases_to!(props@[i as int] => props@[i as int].alias));
                        pattern_names(alias, out);
                        assert(object_prop_names(props@[i as int]) == pattern_names_of(*alias));
                    },
                    None => {
                        out.push(pr.key.clone());
                        assert(object_prop_names(props@[i as int]) == seq![pr.key]);
                    },
                }
                assert(out@ =~= start + object_props_names(props@.take(i + 1)));
            }
            assert(props@.take(n as int) =~= props@);
            match rest {
                Some(r) => {
                    out.push(r.clone());
                },
                None => {},
            }
            assert(out@ =~= start + pattern_names_of(*pat));
        },
        Pattern::Array { items, rest } => {
            let ghost start = out@;
            let n = items.len();
            for i in 0..n
                invariant
                    n == items@.len(),
                    *pat == (Pattern::Array { items: *items, rest: *rest }),
                    out@ == start + pattern_items_names(items@.take(i as int)),
            {
                assert(items@.take(i + 1).drop_last() =~= items@.take(i as int));
                assert(items@.take(i + 1).last() == items@[i as int]);
                assert(decreases_to!(*pat => pat->items));
                assert(decreases_to!(*items => items@));
                assert(decreases_to!(items@ => items@[i as int]));
                match &items[i] {
                    Some(p) => {
                        pattern_names(p, out);
                    },
                    None => {},
                }
                assert(out@ =~= start + pattern_items_names(items@.take(i + 1)));
            }
            assert(items@.take(n as int) =~= items@);
            match rest {
                Some(r) => {
                    out.push(r.clone());
                },
                None => {},
            }
            assert(out@ =~= start + pattern_names_of(*pat));
        },
    }
}

/// Every name a binding pattern binds, in source order.
pub fn binding_names(pat: &Pattern) -> (r: Vec<String>)
    ensures r@ == pattern_names_of(*pat),
{
    let mut out: Vec<String> = Vec::new();
    pattern_names(pat, &mut out);
    assert(out@ =~= pattern_names_of(*pat));
    out
}

/// The names of the parameters that are plain names, in order (pattern
/// parameters bind inside the body instead).
pub open spec fn plain_names_of(ps: Seq<Param>) -> Seq<String>
    decreases ps.len(),
{
    if ps.len() == 0 {
        Seq::empty()
    } else {
        plain_names_of(ps.drop_last()) + match ps.last().pattern {
            Pattern::Name { name, .. } => seq![name],
            _ => Seq::empty(),
        }
    }
}

/// The plain parameter names of a parameter list.
pub fn plain_param_names(params: &[Param]) -> (r: Vec<String>)
    ensures r@ == plain_names_of(params@),
{
    let mut out: Vec<String> = Vec::new();
    let n = params.len();
    for i in 0..n
        invariant
            n == params@.len(),
            out@ == plain_names_of(params@.take(i as int)),
    {
        assert(params@.take(i + 1).drop_last() =~= params@.take(i as int));
        assert(params@.take(i + 1).last() == params@[i as int]);
        match &params[i].pattern {
            Pattern::Name { name, .. } => {
                out.push(name.clone());
            },
            _ => {},
        }
        assert(out@ =~= plain_names_of(params@.take(i + 1)));
    }
    assert(params@.take(n as int) =~= params@);
    out
}

/// The function a component-shaped expression stands for: a function
/// expression itself, or `memo(f)` with a single plain argument `f` that is
/// component-shaped (`memo` is a performance hint, semantically identity).
pub open spec fn component_fn_spec(e: Expr) -> Option<(Vec<Param>, Vec<Stmt>)>
    decreases e,
{
    match e {
        Expr::Function { params, body, .. } => Some((params, body)),
        Expr::Call { callee, args } => {
            if (*callee matches Expr::Ident { name, .. } && name@ == "memo"@) && args@.len() == 1 {
                match args@[0] {
                    CallArg::Expr(inner) => component_fn_spec(inner),
                    CallArg::Spread(_) => None,
                }
            } else {
                None
            }
        },
        _ => None,
    }
}

/// The parameters and body of the function a component-shaped expression
/// stands for, if it is one.
pub fn component_fn_of(expr: &Expr) -> (r: Option<(&Vec<Param>, &Vec<Stmt>)>)
    ensures
        r is None <==> component_fn_spec(*expr) is None,
        r matches Some((p, b)) ==> component_fn_spec(*expr) == Some((*p, *b)),
    decreases expr,
{
    match expr {
        Expr::Function { params, body, .. } => Some((params, body)),
        Expr::Call { callee, args } => {
            let is_memo = match &**callee {
                Expr::Ident { name, .. } => str_eq(name.as_str(), "memo"),
                _ => false,
            };
            if !is_memo || args.len() != 1 {
                return None;
            }
            match &args[0] {
                CallArg::Expr(inner) => {
                    assert(decreases_to!(*expr => expr->Call_args));
                    assert(decreases_to!(*args => args@));
                    assert(decreases_to!(args@ => args@[0]));
                    component_fn_of(inner)
                },
                CallArg::Spread(_) => None,
            }
        },
        _ => None,
    }
}

} // verus!
