//! The lexing/parsing error type and its rendered diagnostic.

use vstd::prelude::*;
use crate::text::{
    append_chars, chars_of, decimal, decimal_chars, push_repeat, push_str, repeat_char,
    string_from_chars,
};

verus! {

/// A parse error: 1-based line and column, and a message.
#[derive(Debug, Clone, PartialEq, Eq)]
pub struct ParseError {
    pub line: usize,
    pub column: usize,
    pub message: String,
}

/// Index of the first `'\n'` in `s`, or `s.len()` when there is none.
pub open spec fn newline_index(s: Seq<char>) -> nat
    decreases s.len(),
{
    if s.len() == 0 { 0 } else if s[0] == '\n' { 0 } else { 1 + newline_index(s.drop_first()) }
}

/// A line terminated by `'\n'` loses a trailing `'\r'` too (CRLF endings).
pub open spec fn strip_cr(line: Seq<char>, terminated: bool) -> Seq<char> {
    if terminated && line.len() > 0 && line.last() == '\r' { line.drop_last() } else { line }
}

/// The lines of a text: split at `'\n'` (with `"\r\n"` endings), the final
/// line ending optional, and no empty line after a final newline.
pub open spec fn split_lines(s: Seq<char>) -> Seq<Seq<char>>
    decreases s.len(),
{
    if s.len() == 0 {
        seq![]
    } else {
        let k = newline_index(s);
        if k < s.len() {
            seq![strip_cr(s.take(k as int), true)] + split_lines(s.skip(k as int + 1))
        } else {
            seq![s]
        }
    }
}

/// Expand each tab to four spaces.
pub open spec fn expand_tabs(s: Seq<char>) -> Seq<char>
    decreases s.len(),
{
    if s.len() == 0 {
        seq![]
    } else {
        let head = if s[0] == '\t' { seq![' ', ' ', ' ', ' '] } else { seq![s[0]] };
        head + expand_tabs(s.drop_first())
    }
}

/// `n - 1`, or `0` for `n == 0`.
pub open spec fn pred_sat(n: nat) -> nat {
    if n == 0 { 0 } else { (n - 1) as nat }
}

/// The text shown for the error's line: that line of the source, or a
/// placeholder when the source has no such line.
pub open spec fn shown_line(line: nat, source: Seq<char>) -> Seq<char> {
    let lines = split_lines(source);
    if pred_sat(line) < lines.len() {
        lines[pred_sat(line) as int]
    } else {
        "<source line not found>"@
    }
}

/// Width of the caret: four under a tab, one otherwise.
pub open spec fn caret_width(text: Seq<char>, column: nat) -> nat {
    let i = pred_sat(column);
    if i < text.len() && text[i as int] == '\t' { 4 } else { 1 }
}

/// The rendered diagnostic: a gutter line, the numbered source line, and a
/// caret line whose `^` stands under column `column` (tabs count four).
pub open spec fn rendered(line: nat, column: nat, source: Seq<char>) -> Seq<char> {
    let text = shown_line(line, source);
    let gutter = repeat_char(' ', decimal(line).len());
    let prefix = expand_tabs(text.take(if pred_sat(column) <= text.len() { pred_sat(column) as int } else { text.len() as int }));
    gutter + " |\n"@ + decimal(line) + " | "@ + text + "\n"@ + gutter + " | "@ + prefix
        + repeat_char('^', caret_width(text, column))
}

proof fn lemma_newline_index(s: Seq<char>, k: int)
    requires
        0 <= k <= s.len(),
        forall|i: int| 0 <= i < k ==> s[i] != '\n',
        k == s.len() || s[k] == '\n',
    ensures
        newline_index(s) == k,
    decreases s.len(),
{
    if s.len() > 0 && s[0] != '\n' {
        lemma_newline_index(s.drop_first(), k - 1);
    }
}

/// Position of the first `'\n'` at or after `from`, or `s.len()`.
fn find_newline(s: &Vec<char>, from: usize) -> (k: usize)
    requires from <= s@.len(),
    ensures
        from <= k <= s@.len(),
        newline_index(s@.skip(from as int)) == k - from,
{
    let mut k = from;
    while k < s.len() && s[k] != '\n'
        invariant
            from <= k <= s@.len(),
            forall|i: int| from <= i < k ==> s@[i] != '\n',
        decreases s@.len() - k,
    {
        k += 1;
    }
    proof {
        lemma_newline_index(s@.skip(from as int), k - from);
    }
    k
}

/// Line `n` (0-based) of `s`, as `split_lines` numbers them.
fn nth_line(s: &Vec<char>, n: usize) -> (r: Option<Vec<char>>)
    ensures
        n < split_lines(s@).len() ==> (r matches Some(l) && l@ == split_lines(s@)[n as int]),
        n >= split_lines(s@).len() ==> r is None,
{
    let mut start: usize = 0;
    let mut count: usize = 0;
    assert(s@.skip(0) =~= s@);
    while start < s.len()
        invariant
            start <= s@.len(),
            count <= n,
            split_lines(s@).len() == count + split_lines(s@.skip(start as int)).len(),
            forall|j: int| 0 <= j < split_lines(s@.skip(start as int)).len()
                ==> split_lines(s@)[count + j] == #[trigger] split_lines(s@.skip(start as int))[j],
        decreases s@.len() - start,
    {
        let k = find_newline(s, start);
        let ghost rest = s@.skip(start as int);
        if k < s.len() {
            assert(rest.take((k - start) as int) =~= s@.subrange(start as int, k as int));
            assert(rest.skip(k - start + 1) =~= s@.skip(k as int + 1));
            assert(split_lines(rest) == seq![strip_cr(rest.take((k - start) as int), true)]
                + split_lines(rest.skip(k - start + 1)));
            assert(split_lines(rest)[0] == strip_cr(s@.subrange(start as int, k as int), true));
            if count == n {
                let mut line: Vec<char> = Vec::new();
                let mut i = start;
                while i < k
                    invariant
                        start <= i <= k,
                        k < s@.len(),
                        line@ =~= s@.subrange(start as int, i as int),
                    decreases k - i,
                {
                    line.push(s[i]);
                    i += 1;
                }
                if line.len() > 0 && line[line.len() - 1] == '\r' {
                    line.pop();
                }
                assert(line@ =~= strip_cr(s@.subrange(start as int, k as int), true));
                assert(split_lines(s@)[count + 0] == split_lines(rest)[0]);
                return Some(line);
            }
            assert forall|j: int| 0 <= j < split_lines(s@.skip(k as int + 1)).len()
                implies split_lines(s@)[count + 1 + j] == #[trigger] split_lines(s@.skip(k as int + 1))[j] by {
                assert(split_lines(rest)[j + 1] == split_lines(s@.skip(k as int + 1))[j]);
                assert(split_lines(s@)[count + (j + 1)] == split_lines(rest)[j + 1]);
            }
            start = k + 1;
            count += 1;
        } else {
            assert(rest.skip(0) =~= rest);
            assert(split_lines(rest) == seq![rest]);
            if count == n {
                let mut line: Vec<char> = Vec::new();
                let mut i = start;
                while i < s.len()
                    invariant
                        start <= i <= s@.len(),
                        line@ =~= s@.subrange(start as int, i as int),
                    decreases s@.len() - i,
                {
                    line.push(s[i]);
                    i += 1;
                }
                assert(line@ =~= rest);
                assert(split_lines(s@)[count + 0] == split_lines(rest)[0]);
                return Some(line);
            }
            start = s.len();
            count += 1;
            assert(s@.skip(start as int) =~= Seq::<char>::empty());
        }
    }
    assert(s@.skip(start as int) =~= Seq::<char>::empty());
    None
}

/// The one-line text of a parse error.
pub open spec fn parse_error_text(e: ParseError) -> Seq<char> {
    "parse error at "@ + decimal(e.line as nat) + seq![':'] + decimal(e.column as nat) + ": "@ + e.message@
}

impl ParseError {
    /// An error at `line`:`column` (1-based) with `message`.
    pub fn new(line: usize, column: usize, message: String) -> (e: ParseError)
        ensures e.line == line, e.column == column, e.message@ == message@,
    {
        ParseError { line, column, message }
    }

    /// The one-line form of the error: `parse error at LINE:COLUMN: MESSAGE`.
    pub fn to_string(&self) -> (r: String)
        ensures r@ == parse_error_text(*self),
    {
        let mut m: Vec<char> = Vec::new();
        push_str(&mut m, "parse error at ");
        let l = decimal_chars(self.line);
        append_chars(&mut m, &l);
        m.push(':');
        let c = decimal_chars(self.column);
        append_chars(&mut m, &c);
        push_str(&mut m, ": ");
        push_str(&mut m, self.message.as_str());
        proof { reveal_strlit("parse error at "); reveal_strlit(": "); }
        assert(m@ =~= parse_error_text(*self));
        string_from_chars(&m)
    }

    /// Render this error against the source it was produced from: the
    /// offending line, numbered, with a caret under the error column.
    pub fn render(&self, source: &str) -> (r: String)
        ensures r@ == rendered(self.line as nat, self.column as nat, source@),
    {
        let src = chars_of(source);
        let idx = if self.line == 0 { 0 } else { self.line - 1 };
        let text = match nth_line(&src, idx) {
            Some(t) => t,
            None => {
                proof { reveal_strlit("<source line not found>"); }
                chars_of("<source line not found>")
            }
        };
        let num = decimal_chars(self.line);
        let col = if self.column == 0 { 0 } else { self.column - 1 };
        let take = if col <= text.len() { col } else { text.len() };
        let mut prefix: Vec<char> = Vec::new();
        let mut i: usize = 0;
        while i < take
            invariant
                i <= take <= text@.len(),
                prefix@ == expand_tabs(text@.take(i as int)),
            decreases take - i,
        {
            proof { lemma_expand_tabs_push(text@.take(i as int), text@[i as int]); }
            if text[i] == '\t' {
                prefix.push(' ');
                prefix.push(' ');
                prefix.push(' ');
                prefix.push(' ');
            } else {
                prefix.push(text[i]);
            }
            assert(text@.take(i + 1) =~= text@.take(i as int).push(text@[i as int]));
            i += 1;
        }
        let width: usize = if col < text.len() && text[col] == '\t' { 4 } else { 1 };
        let mut out: Vec<char> = Vec::new();
        push_repeat(&mut out, ' ', num.len());
        push_str(&mut out, " |\n");
        append_chars(&mut out, &num);
        push_str(&mut out, " | ");
        append_chars(&mut out, &text);
        push_str(&mut out, "\n");
        push_repeat(&mut out, ' ', num.len());
        push_str(&mut out, " | ");
        append_chars(&mut out, &prefix);
        push_repeat(&mut out, '^', width);
        string_from_chars(&out)
    }
}

proof fn lemma_expand_tabs_push(s: Seq<char>, c: char)
    ensures
        expand_tabs(s.push(c)) == expand_tabs(s) + (if c == '\t' { seq![' ', ' ', ' ', ' '] } else { seq![c] }),
    decreases s.len(),
{
    let t = if c == '\t' { seq![' ', ' ', ' ', ' '] } else { seq![c] };
    if s.len() == 0 {
        assert(s.push(c).drop_first() =~= Seq::<char>::empty());
        assert(expand_tabs(Seq::<char>::empty()) =~= Seq::<char>::empty());
        assert(s.push(c)[0] == c);
        assert(expand_tabs(s.push(c)) =~= t + expand_tabs(Seq::<char>::empty()));
        assert(expand_tabs(s.push(c)) =~= expand_tabs(s) + t);
    } else {
        assert(s.push(c).drop_first() =~= s.drop_first().push(c));
        assert(s.push(c)[0] == s[0]);
        lemma_expand_tabs_push(s.drop_first(), c);
        let h = if s[0] == '\t' { seq![' ', ' ', ' ', ' '] } else { seq![s[0]] };
        assert(expand_tabs(s.push(c)) == h + expand_tabs(s.drop_first().push(c)));
        assert(expand_tabs(s) == h + expand_tabs(s.drop_first()));
        assert(expand_tabs(s.push(c)) =~= expand_tabs(s) + t);
    }
}

} // verus!
