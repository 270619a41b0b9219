//! Tokenizer for the R2N source subset.
//!
//! A hand-written lexer over the characters of the source. It records the
//! line, column, byte offset and character index of every token so the parser
//! can report precise errors, and it is cheap to clone for the parser's
//! multi-token lookahead.

use vstd::prelude::*;
use crate::parser::error::ParseError;
use crate::text::{
    alpha, append_chars, char_utf8_len, digit, ident_char, is_digit, is_ident_char, is_space,
    push_str, signed_decimal, signed_decimal_chars, space, string_from_chars, utf8_len,
};

verus! {

/// The kind of a token.
#[derive(Debug, PartialEq)]
pub enum TokenKind {
    Int(i64),
    /// A fractional number, as its decimal source text.
    Float(String),
    String(String),
    /// The opening backtick of a template literal.
    TemplateStart,
    /// A template chunk: cooked text up to `${` or the closing backtick.
    TemplateText(String),
    /// The closing backtick of a template literal.
    TemplateEnd,
    Ident(String),
    LeftParen,
    RightParen,
    LeftBrace,
    RightBrace,
    LeftBracket,
    RightBracket,
    Comma,
    Dot,
    DotDotDot,
    Colon,
    Semicolon,
    Equals,
    Arrow,
    Lt,
    Gt,
    Slash,
    LtSlash,
    Plus,
    PlusPlus,
    Minus,
    MinusMinus,
    PlusEq,
    MinusEq,
    StarEq,
    SlashEq,
    PercentEq,
    Star,
    Percent,
    Bang,
    EqEq,
    EqEqEq,
    BangEq,
    BangEqEq,
    LtEq,
    GtEq,
    AmpAmp,
    PipePipe,
    Pipe,
    Question,
    QuestionQuestion,
    Eof,
}

/// A token with its position: 1-based line and column, byte offset and
/// character index of its first character.
#[derive(Debug, PartialEq)]
pub struct Token {
    pub kind: TokenKind,
    pub line: usize,
    pub column: usize,
    pub offset: usize,
    pub index: usize,
}

/// The 1-based line of character position `p` of `s`.
pub open spec fn line_at(s: Seq<char>, p: int) -> nat
    decreases p,
{
    if p <= 0 { 1 } else { line_at(s, p - 1) + if s[p - 1] == '\n' { 1nat } else { 0nat } }
}

/// Characters before position `p` on its line (its 0-based column).
pub open spec fn col_at(s: Seq<char>, p: int) -> nat
    decreases p,
{
    if p <= 0 { 0 } else if s[p - 1] == '\n' { 0 } else { col_at(s, p - 1) + 1 }
}

/// UTF-8 byte offset of character position `p` of `s`.
pub open spec fn bytes_at(s: Seq<char>, p: int) -> nat
    decreases p,
{
    if p <= 0 { 0 } else { bytes_at(s, p - 1) + utf8_len(s[p - 1]) }
}

/// Line, column and offset of `t` are those of its character index in `s`.
pub open spec fn positioned(t: Token, s: Seq<char>) -> bool {
    &&& t.index <= s.len()
    &&& t.line == line_at(s, t.index as int)
    &&& t.column == col_at(s, t.index as int) + 1
    &&& t.offset == bytes_at(s, t.index as int)
}

/// An error points at a character position of `s`: its line, and its column
/// counted either 1-based (errors at a token, as the parser reports them) or
/// as the characters before it on the line (errors inside the lexer, at the
/// character it stopped on).
pub open spec fn error_positioned(e: ParseError, s: Seq<char>) -> bool {
    exists|p: int| 0 <= p <= s.len() && e.line == line_at(s, p)
        && (e.column == col_at(s, p) || e.column == col_at(s, p) + 1)
}

pub proof fn lemma_position_bounds(s: Seq<char>, p: int)
    requires 0 <= p <= s.len(),
    ensures line_at(s, p) <= p + 1, col_at(s, p) <= p, bytes_at(s, p) <= 4 * p,
    decreases p,
{
    if p > 0 {
        lemma_position_bounds(s, p - 1);
    }
}

/// The spelling of a punctuator or operator (empty for other kinds).
pub open spec fn punct_text(k: TokenKind) -> Seq<char> {
    match k {
        TokenKind::LeftParen => seq!['('],
        TokenKind::RightParen => seq![')'],
        TokenKind::LeftBrace => seq!['{'],
        TokenKind::RightBrace => seq!['}'],
        TokenKind::LeftBracket => seq!['['],
        TokenKind::RightBracket => seq![']'],
        TokenKind::Comma => seq![','],
        TokenKind::Dot => seq!['.'],
        TokenKind::DotDotDot => seq!['.', '.', '.'],
        TokenKind::Colon => seq![':'],
        TokenKind::Semicolon => seq![';'],
        TokenKind::Equals => seq!['='],
        TokenKind::Arrow => seq!['=', '>'],
        TokenKind::Lt => seq!['<'],
        TokenKind::Gt => seq!['>'],
        TokenKind::Slash => seq!['/'],
        TokenKind::LtSlash => seq!['<', '/'],
        TokenKind::Plus => seq!['+'],
        TokenKind::PlusPlus => seq!['+', '+'],
        TokenKind::Minus => seq!['-'],
        TokenKind::MinusMinus => seq!['-', '-'],
        TokenKind::PlusEq => seq!['+', '='],
        TokenKind::MinusEq => seq!['-', '='],
        TokenKind::StarEq => seq!['*', '='],
        TokenKind::SlashEq => seq!['/', '='],
        TokenKind::PercentEq => seq!['%', '='],
        TokenKind::Star => seq!['*'],
        TokenKind::Percent => seq!['%'],
        TokenKind::Bang => seq!['!'],
        TokenKind::EqEq => seq!['=', '='],
        TokenKind::EqEqEq => seq!['=', '=', '='],
        TokenKind::BangEq => seq!['!', '='],
        TokenKind::BangEqEq => seq!['!', '=', '='],
        TokenKind::LtEq => seq!['<', '='],
        TokenKind::GtEq => seq!['>', '='],
        TokenKind::AmpAmp => seq!['&', '&'],
        TokenKind::PipePipe => seq!['|', '|'],
        TokenKind::Pipe => seq!['|'],
        TokenKind::Question => seq!['?'],
        TokenKind::QuestionQuestion => seq!['?', '?'],
        _ => seq![],
    }
}

/// Human-readable name of a token kind for diagnostics: `` `;` `` rather
/// than `Semicolon`.
pub open spec fn describe_text(k: TokenKind) -> Seq<char> {
    match k {
        TokenKind::Int(i) => "number `"@ + signed_decimal(i as int) + "`"@,
        TokenKind::Float(x) => "number `"@ + x@ + "`"@,
        TokenKind::String(x) => "string \""@ + x@ + "\""@,
        TokenKind::TemplateStart => "`` ` ``"@,
        TokenKind::TemplateText(_) => "template text"@,
        TokenKind::TemplateEnd => "`` ` ``"@,
        TokenKind::Ident(n) => "`"@ + n@ + "`"@,
        TokenKind::Eof => "end of file"@,
        _ => "`"@ + punct_text(k) + "`"@,
    }
}

/// The end of a `//` comment's text from position `p`: the next newline
/// (not consumed) or the end of the input.
pub open spec fn line_end(s: Seq<char>, p: int) -> int
    decreases s.len() - p,
{
    if p >= s.len() || p < 0 || s[p] == '\n' { p } else { line_end(s, p + 1) }
}

/// The position just after the `*/` that closes `depth` open `/*` comments
/// (comments nest), scanning from `p`; `None` when the input ends first.
pub open spec fn block_end(s: Seq<char>, p: int, depth: nat) -> Option<int>
    decreases s.len() - p,
{
    if depth == 0 {
        Some(p)
    } else if p >= s.len() || p < 0 {
        None
    } else if s[p] == '*' && p + 1 < s.len() && s[p + 1] == '/' {
        block_end(s, p + 2, (depth - 1) as nat)
    } else if s[p] == '/' && p + 1 < s.len() && s[p + 1] == '*' {
        block_end(s, p + 2, depth + 1)
    } else {
        block_end(s, p + 1, depth)
    }
}

pub proof fn lemma_line_end(s: Seq<char>, p: int)
    requires 0 <= p <= s.len(),
    ensures p <= line_end(s, p) <= s.len(),
    decreases s.len() - p,
{
    if p < s.len() && s[p] != '\n' {
        lemma_line_end(s, p + 1);
    }
}

pub proof fn lemma_block_end(s: Seq<char>, p: int, depth: nat)
    requires 0 <= p <= s.len(),
    ensures block_end(s, p, depth) matches Some(q) ==> p <= q <= s.len(),
    decreases s.len() - p,
{
    if depth > 0 && p < s.len() {
        if s[p] == '*' && p + 1 < s.len() && s[p + 1] == '/' {
            lemma_block_end(s, p + 2, (depth - 1) as nat);
        } else if s[p] == '/' && p + 1 < s.len() && s[p + 1] == '*' {
            lemma_block_end(s, p + 2, depth + 1);
        } else {
            lemma_block_end(s, p + 1, depth);
        }
    }
}

/// Where the whitespace and comments starting at `p` end: skipping
/// whitespace, `// line` comments and nested `/* block */` comments; `None`
/// when a block comment is unterminated.
pub open spec fn skip_spec(s: Seq<char>, p: int) -> Option<int>
    decreases s.len() - p,
{
    if p >= s.len() || p < 0 {
        Some(p)
    } else if is_space(s[p]) {
        skip_spec(s, p + 1)
    } else if s[p] == '/' && p + 1 < s.len() && s[p + 1] == '/' {
        let q = line_end(s, p + 2);
        proof { lemma_line_end(s, p + 2); }
        skip_spec(s, q)
    } else if s[p] == '/' && p + 1 < s.len() && s[p + 1] == '*' {
        proof { lemma_block_end(s, p + 2, 1); }
        match block_end(s, p + 2, 1) {
            Some(q) => skip_spec(s, q),
            None => None,
        }
    } else {
        Some(p)
    }
}

/// Skipping from where skipping ends goes nowhere.
pub proof fn lemma_skip_idem(s: Seq<char>, p: int)
    requires 0 <= p <= s.len(), skip_spec(s, p) is Some,
    ensures skip_spec(s, skip_spec(s, p)->0) == skip_spec(s, p),
    decreases s.len() - p,
{
    if p < s.len() {
        if is_space(s[p]) {
            lemma_skip_idem(s, p + 1);
        } else if s[p] == '/' && p + 1 < s.len() && s[p + 1] == '/' {
            lemma_line_end(s, p + 2);
            lemma_skip_idem(s, line_end(s, p + 2));
        } else if s[p] == '/' && p + 1 < s.len() && s[p + 1] == '*' {
            lemma_block_end(s, p + 2, 1);
            lemma_skip_idem(s, block_end(s, p + 2, 1)->0);
        }
    }
}

/// An operator or punctuator starts at position `p` of `s`: one of
/// `( ) [ ] { } , . : ; = + - * % ! ? | < > /`, or `&&`.
pub open spec fn op_start(s: Seq<char>, p: int) -> bool {
    0 <= p < s.len() && {
        let c = s[p];
        ||| c == '(' || c == ')' || c == '[' || c == ']' || c == '{' || c == '}'
        ||| c == ',' || c == '.' || c == ':' || c == ';' || c == '=' || c == '+'
        ||| c == '-' || c == '*' || c == '%' || c == '!' || c == '?' || c == '|'
        ||| c == '<' || c == '>' || c == '/'
        ||| (c == '&' && p + 1 < s.len() && s[p + 1] == '&')
    }
}

/// The characters at `p` spell `=>`.
pub open spec fn arrow_at(s: Seq<char>, p: int) -> bool {
    0 <= p && p + 1 < s.len() && s[p] == '=' && s[p + 1] == '>'
}

/// The next token after position `p` is `=>`: the whitespace and comments
/// from `p` end at a `=>`.
pub open spec fn arrow_next(s: Seq<char>, p: int) -> bool {
    skip_spec(s, p) matches Some(i) && arrow_at(s, i)
}

/// A `=>` token spells `=>`.
pub proof fn lemma_arrow_lexeme(s: Seq<char>, i: int, e: int)
    requires lexeme(TokenKind::Arrow, s, i, e), 0 <= i <= e <= s.len(),
    ensures arrow_at(s, i),
{
    let sub = s.subrange(i, e);
    assert(sub == seq!['=', '>']);
    assert(sub.len() == 2);
    assert(sub[0] == s[i] && sub[1] == s[i + 1]);
}

/// Position `p` of `s` is where trivia ends: the end of the input, or a
/// character that is neither whitespace nor the start of a comment.
pub open spec fn trivia_end(s: Seq<char>, p: int) -> bool {
    p == s.len() || (!is_space(s[p]) && !(s[p] == '/' && p + 1 < s.len() && (s[p + 1] == '/' || s[p + 1] == '*')))
}

/// The source characters `s[start..end]` are the lexeme of a token of kind
/// `k`: an identifier's name, a number's digits (an integer's decimal value,
/// a fractional number's text), a string literal from its opening quote to
/// its closing one (its value is the decoded body), a template backtick, a
/// punctuator's spelling, and nothing at the end of the input.
pub open spec fn lexeme(k: TokenKind, s: Seq<char>, start: int, end: int) -> bool {
    match k {
        TokenKind::Int(v) => v >= 0 && v as nat == decimal_value(s.subrange(start, end)),
        TokenKind::Float(x) => x@ == s.subrange(start, end),
        TokenKind::String(v) => start < end && s[start] == '"'
            && scan_string(s.skip(start + 1)) == Some((v@, (end - start - 1) as nat)),
        TokenKind::Ident(n) => n@ == s.subrange(start, end),
        TokenKind::TemplateStart => end == start + 1 && s[start] == '`',
        TokenKind::TemplateEnd => end == start + 1 && s[start] == '`',
        TokenKind::TemplateText(_) => false,
        TokenKind::Eof => start == end && end == s.len(),
        _ => s.subrange(start, end) == punct_text(k),
    }
}

/// Token kinds that carry no payload.
pub open spec fn payload_free(k: TokenKind) -> bool {
    !(k is Int || k is Float || k is String || k is TemplateText || k is Ident)
}

/// Value of an ASCII decimal digit.
pub open spec fn digit_value(c: char) -> nat {
    ((c as u32) - 48) as nat
}

/// Value of a string of ASCII decimal digits.
pub open spec fn decimal_value(s: Seq<char>) -> nat
    decreases s.len(),
{
    if s.len() == 0 { 0 } else { decimal_value(s.drop_last()) * 10 + digit_value(s.last()) }
}

/// A backslash escape inside a double-quoted string.
pub open spec fn string_escape(c: char) -> Seq<char> {
    if c == 'n' { seq!['\n'] } else if c == 't' { seq!['\t'] } else if c == 'r' { seq!['\r'] }
    else if c == '"' { seq!['"'] } else if c == '\\' { seq!['\\'] } else { seq!['\\', c] }
}

/// Scan the body of a double-quoted string (the characters after the opening
/// quote): the decoded text and the number of characters consumed, closing
/// quote included; `None` when the string is unterminated.
pub open spec fn scan_string(s: Seq<char>) -> Option<(Seq<char>, nat)>
    decreases s.len(),
{
    if s.len() == 0 {
        None
    } else if s[0] == '"' {
        Some((seq![], 1))
    } else if s[0] == '\\' {
        if s.len() == 1 {
            None
        } else {
            match scan_string(s.skip(2)) {
                Some((t, n)) => Some((string_escape(s[1]) + t, n + 2)),
                None => None,
            }
        }
    } else {
        match scan_string(s.drop_first()) {
            Some((t, n)) => Some((seq![s[0]] + t, n + 1)),
            None => None,
        }
    }
}

/// A backslash escape inside a template literal.
pub open spec fn template_escape(c: char) -> Seq<char> {
    if c == 'n' { seq!['\n'] } else if c == 't' { seq!['\t'] } else if c == 'r' { seq!['\r'] }
    else if c == '`' { seq!['`'] } else if c == '$' { seq!['$'] } else if c == '\\' { seq!['\\'] }
    else { seq!['\\', c] }
}

/// Scan one template chunk: decoded text, characters consumed, and whether
/// it ended at the closing backtick (`true`) or at `${` (`false`); `None`
/// when the template is unterminated.
pub open spec fn scan_chunk(s: Seq<char>) -> Option<(Seq<char>, nat, bool)>
    decreases s.len(),
{
    if s.len() == 0 {
        None
    } else if s[0] == '`' {
        Some((seq![], 1, true))
    } else if s[0] == '$' && s.len() >= 2 && s[1] == '{' {
        Some((seq![], 2, false))
    } else if s[0] == '\\' {
        if s.len() == 1 {
            None
        } else {
            match scan_chunk(s.skip(2)) {
                Some((t, n, e)) => Some((template_escape(s[1]) + t, n + 2, e)),
                None => None,
            }
        }
    } else {
        match scan_chunk(s.drop_first()) {
            Some((t, n, e)) => Some((seq![s[0]] + t, n + 1, e)),
            None => None,
        }
    }
}

/// A streaming tokenizer over a character slice.
pub struct Lexer<'a> {
    src: &'a [char],
    pos: usize,
    line: usize,
    col: usize,
    offset: usize,
    token_index: usize,
    token_start: usize,
    token_line: usize,
    token_col: usize,
    /// A template end parked by `lex_template_chunk`, delivered by the next
    /// `next_token` call.
    pending: Option<Token>,
    /// Open `${` interpolations.
    template_depth: usize,
}

impl<'a> Lexer<'a> {
    /// The source characters.
    pub closed spec fn text(&self) -> Seq<char> {
        self.src@
    }

    /// Index of the next unread character.
    pub closed spec fn cursor(&self) -> int {
        self.pos as int
    }

    /// Whether a parked template end awaits delivery.
    pub closed spec fn has_pending(&self) -> bool {
        self.pending is Some
    }

    /// The parked template end.
    pub closed spec fn pending_token(&self) -> Token {
        self.pending->0
    }

    /// Open `${` interpolations of template literals.
    pub closed spec fn open_templates(&self) -> nat {
        self.template_depth as nat
    }

    /// The internal state is consistent with the source.
    pub closed spec fn wf(&self) -> bool {
        &&& self.src@.len() <= usize::MAX / 8
        &&& self.pos <= self.src@.len()
        &&& self.line == line_at(self.src@, self.pos as int)
        &&& self.col == col_at(self.src@, self.pos as int)
        &&& self.offset == bytes_at(self.src@, self.pos as int)
        &&& self.token_index <= self.pos
        &&& self.token_line == line_at(self.src@, self.token_index as int)
        &&& self.token_col == col_at(self.src@, self.token_index as int) + 1
        &&& self.token_start == bytes_at(self.src@, self.token_index as int)
        &&& (self.pending matches Some(t) ==> {
            &&& positioned(t, self.src@)
            &&& t.kind is TemplateEnd
            &&& t.index < self.pos
        })
    }

    fn err(&self) -> (e: ParseError)
        requires self.wf(),
        ensures error_positioned(e, self.text()),
    {
        let e = ParseError::new(self.line, self.col, String::new());
        proof { assert(self.line == line_at(self.src@, self.pos as int)); }
        e
    }

    fn err_msg(&self, msg: &str) -> (e: ParseError)
        requires self.wf(),
        ensures error_positioned(e, self.text()), e.message@ == msg@,
    {
        let m = crate::text::owned(msg);
        let e = ParseError::new(self.line, self.col, m);
        proof { assert(self.line == line_at(self.src@, self.pos as int)); }
        e
    }

    fn tok(&self, kind: TokenKind) -> (t: Token)
        requires self.wf(),
        ensures positioned(t, self.text()), t.kind == kind, t.index == self.token_index,
            t.index <= self.cursor(),
    {
        Token {
            kind,
            line: self.token_line,
            column: self.token_col,
            offset: self.token_start,
            index: self.token_index,
        }
    }

    /// Mark the current position as the start of the next token.
    fn anchor(&mut self)
        requires old(self).wf(),
        ensures
            final(self).wf(),
            final(self).text() == old(self).text(),
            final(self).cursor() == old(self).cursor(),
            final(self).token_index == old(self).pos,
            final(self).pending == old(self).pending,
            final(self).template_depth == old(self).template_depth,
    {
        proof { lemma_position_bounds(self.src@, self.pos as int); }
        self.token_start = self.offset;
        self.token_line = self.line;
        self.token_col = self.col + 1;
        self.token_index = self.pos;
    }

    fn peek_at(&self, k: usize) -> (r: Option<char>)
        requires self.wf(),
        ensures
            r matches Some(c) ==> self.pos + k < self.src@.len() && c == self.src@[self.pos + k],
            r is None ==> self.pos + k >= self.src@.len(),
    {
        if k < self.src.len() - self.pos {
            Some(self.src[self.pos + k])
        } else {
            None
        }
    }

    /// Consume one character, tracking line, column and byte offset.
    fn consume_char(&mut self)
        requires old(self).wf(), old(self).pos < old(self).src@.len(),
        ensures
            final(self).wf(),
            final(self).src == old(self).src,
            final(self).pos == old(self).pos + 1,
            final(self).token_index == old(self).token_index,
            final(self).pending == old(self).pending,
            final(self).template_depth == old(self).template_depth,
    {
        proof { lemma_position_bounds(self.src@, self.pos as int); }
        let c = self.src[self.pos];
        if c == '\n' {
            self.line = self.line + 1;
            self.col = 0;
        } else {
            self.col = self.col + 1;
        }
        self.offset = self.offset + char_utf8_len(c);
        self.pos = self.pos + 1;
    }

    /// Skip whitespace, `// line` comments and nested `/* block */` comments.
    fn skip_trivia(&mut self) -> (r: Result<(), ParseError>)
        requires old(self).wf(),
        ensures
            final(self).wf(),
            final(self).src == old(self).src,
            final(self).pos >= old(self).pos,
            final(self).token_index == old(self).token_index,
            final(self).pending == old(self).pending,
            final(self).template_depth == old(self).template_depth,
            r is Ok ==> trivia_end(final(self).src@, final(self).pos as int),
            r is Ok ==> skip_spec(old(self).src@, old(self).pos as int) == Some(final(self).pos as int),
            r is Err ==> skip_spec(old(self).src@, old(self).pos as int) is None,
            r matches Err(e) ==> error_positioned(e, old(self).text()),
    {
        loop
            invariant_except_break
                self.wf(),
                self.src == old(self).src,
                self.pos >= old(self).pos,
                self.token_index == old(self).token_index,
                self.pending == old(self).pending,
                self.template_depth == old(self).template_depth,
                skip_spec(self.src@, old(self).pos as int) == skip_spec(self.src@, self.pos as int),
            ensures
                skip_spec(self.src@, old(self).pos as int) == Some(self.pos as int),
                self.wf(),
                self.src == old(self).src,
                self.pos >= old(self).pos,
                self.token_index == old(self).token_index,
                self.pending == old(self).pending,
                self.template_depth == old(self).template_depth,
                trivia_end(self.src@, self.pos as int),
            decreases self.src@.len() - self.pos,
        {
            let ghost p0 = self.pos;
            match self.peek_at(0) {
                Some(c) => {
                    if space(c) {
                        self.consume_char();
                    } else if c == '/' {
                        match self.peek_at(1) {
                            Some(d) => {
                                if d == '/' {
                                    self.consume_char();
                                    self.consume_char();
                                    proof { lemma_line_end(self.src@, self.pos as int); }
                                    while self.pos < self.src.len() && self.src[self.pos] != '\n'
                                        invariant
                                            self.wf(),
                                            self.src == old(self).src,
                                            self.pos >= old(self).pos,
                                            self.pos > p0,
                                            p0 + 2 <= self.pos,
                                            line_end(self.src@, self.pos as int) == line_end(self.src@, p0 + 2),
                                            skip_spec(self.src@, old(self).pos as int) == skip_spec(self.src@, p0 as int),
                                            self.token_index == old(self).token_index,
                                            self.pending == old(self).pending,
                                            self.template_depth == old(self).template_depth,
                                        decreases self.src@.len() - self.pos,
                                    {
                                        self.consume_char();
                                    }
                                } else if d == '*' {
                                    self.consume_char();
                                    self.consume_char();
                                    let ghost start = self.pos;
                                    let mut depth: usize = 1;
                                    while depth > 0
                                        invariant
                                            self.wf(),
                                            self.src == old(self).src,
                                            start == p0 + 2,
                                            block_end(self.src@, self.pos as int, depth as nat) == block_end(self.src@, start as int, 1),
                                            skip_spec(self.src@, old(self).pos as int) == skip_spec(self.src@, p0 as int),
                                            block_end(self.src@, start as int, 1) is None
                                                ==> skip_spec(self.src@, old(self).pos as int) is None,
                                            self.pos >= start >= old(self).pos,
                                            start > p0,
                                            depth <= self.pos - start + 1,
                                            self.token_index == old(self).token_index,
                                            self.pending == old(self).pending,
                                            self.template_depth == old(self).template_depth,
                                        decreases self.src@.len() - self.pos,
                                    {
                                        match self.peek_at(0) {
                                            None => {
                                                return Err(self.err_msg("unterminated block comment"));
                                            },
                                            Some(x) => {
                                                if x == '*' {
                                                    self.consume_char();
                                                    if self.peek_at(0) == Some('/') {
                                                        self.consume_char();
                                                        depth = depth - 1;
                                                    }
                                                } else if x == '/' {
                                                    self.consume_char();
                                                    if self.peek_at(0) == Some('*') {
                                                        self.consume_char();
                                                        depth = depth + 1;
                                                    }
                                                } else {
                                                    self.consume_char();
                                                }
                                            },
                                        }
                                    }
                                } else {
                                    break;
                                }
                            },
                            None => {
                                break;
                            },
                        }
                    } else {
                        break;
                    }
                },
                None => {
                    break;
                },
            }
        }
        Ok(())
    }

    /// A lexer positioned at the first token of `src` (leading trivia skipped).
    pub fn new(src: &'a [char]) -> (r: Result<Lexer<'a>, ParseError>)
        requires src@.len() <= usize::MAX / 8,
        ensures
            r matches Ok(l) ==> l.wf() && l.text() == src@ && !l.has_pending(),
            r matches Ok(l) ==> skip_spec(src@, 0) == Some(l.cursor()),
            r is Err <==> skip_spec(src@, 0) is None,
            r matches Err(e) ==> error_positioned(e, src@),
    {
        let mut l = Lexer {
            src,
            pos: 0,
            line: 1,
            col: 0,
            offset: 0,
            token_index: 0,
            token_start: 0,
            token_line: 1,
            token_col: 1,
            pending: None,
            template_depth: 0,
        };
        match l.skip_trivia() {
            Ok(()) => Ok(l),
            Err(e) => Err(e),
        }
    }

    /// `[A-Za-z0-9_]*` starting at an identifier-start character.
    fn lex_ident(&mut self) -> (t: Token)
        requires
            old(self).wf(),
            old(self).token_index == old(self).pos,
            old(self).pos < old(self).src@.len(),
        ensures
            final(self).wf(),
            final(self).src == old(self).src,
            final(self).pos > old(self).pos,
            final(self).pending == old(self).pending,
            final(self).template_depth == old(self).template_depth,
            positioned(t, old(self).text()),
            t.index == old(self).pos,
            t.kind matches TokenKind::Ident(n) && n@ == old(self).src@.subrange(old(self).pos as int, final(self).pos as int),
            forall|i: int| old(self).pos < i < final(self).pos ==> is_ident_char(#[trigger] old(self).src@[i]),
            final(self).pos == old(self).src@.len() || !is_ident_char(old(self).src@[final(self).pos as int]),
    {
        let start = self.pos;
        self.consume_char();
        while self.pos < self.src.len() && ident_char(self.src[self.pos])
            invariant
                self.wf(),
                self.src == old(self).src,
                self.pos > start,
                start == old(self).pos,
                self.token_index == start,
                self.pending == old(self).pending,
                self.template_depth == old(self).template_depth,
                forall|i: int| start < i < self.pos ==> is_ident_char(#[trigger] self.src@[i]),
            decreases self.src@.len() - self.pos,
        {
            self.consume_char();
        }
        let name = string_from_chars(&self.src[start..self.pos]);
        self.tok(TokenKind::Ident(name))
    }

    /// A number: `digits`, `digits.digits` or `.digits`. Integers must fit
    /// an `i64`; a fractional number keeps its text.
    fn lex_number(&mut self) -> (r: Result<Token, ParseError>)
        requires
            old(self).wf(),
            old(self).token_index == old(self).pos,
            old(self).pos < old(self).src@.len(),
            is_digit(old(self).src@[old(self).pos as int]) || (old(self).src@[old(self).pos as int] == '.'
                && old(self).pos + 1 < old(self).src@.len() && is_digit(old(self).src@[old(self).pos + 1])),
        ensures
            final(self).wf(),
            final(self).src == old(self).src,
            final(self).pending == old(self).pending,
            final(self).template_depth == old(self).template_depth,
            r matches Ok(t) ==> {
                &&& positioned(t, old(self).text())
                &&& t.index == old(self).pos
                &&& final(self).pos > old(self).pos
                &&& (t.kind matches TokenKind::Int(v) ==> v >= 0 && v as nat == decimal_value(
                    old(self).src@.subrange(old(self).pos as int, final(self).pos as int)))
                &&& (t.kind matches TokenKind::Float(x) ==>
                    x@ == old(self).src@.subrange(old(self).pos as int, final(self).pos as int))
                &&& (t.kind is Int || t.kind is Float)
            },
            r matches Err(e) ==> error_positioned(e, old(self).text()),
    {
        let start = self.pos;
        let mut is_float = false;
        let mut value: u64 = 0;
        let mut overflow = false;
        while self.pos < self.src.len()
            invariant
                self.wf(),
                self.src == old(self).src,
                start == old(self).pos,
                self.pos >= start,
                self.token_index == start,
                self.pending == old(self).pending,
                self.template_depth == old(self).template_depth,
                !is_float ==> forall|i: int| start <= i < self.pos ==> is_digit(#[trigger] self.src@[i]),
                !is_float && !overflow ==> value as nat == decimal_value(self.src@.subrange(start as int, self.pos as int)),
                !is_float && !overflow ==> value <= i64::MAX,
                !is_float && overflow ==> decimal_value(self.src@.subrange(start as int, self.pos as int)) > i64::MAX,
                self.pos == start ==> !is_float,
                start < self.src@.len(),
                is_digit(self.src@[start as int]) || (self.src@[start as int] == '.'
                    && start + 1 < self.src@.len() && is_digit(self.src@[start + 1])),
            ensures
                self.pos > start,
            decreases self.src@.len() - self.pos,
        {
            let c = self.src[self.pos];
            if digit(c) {
                let ghost before = self.src@.subrange(start as int, self.pos as int);
                let d = (c as u32 - 48) as u64;
                if !is_float {
                    proof {
                        let after = self.src@.subrange(start as int, self.pos + 1);
                        assert(after.drop_last() =~= before);
                        assert(after.last() == c);
                        assert(decimal_value(after) == decimal_value(before) * 10 + d);
                        if overflow {
                            assert(decimal_value(before) * 10 + d >= decimal_value(before)) by (nonlinear_arith);
                        }
                    }
                    if !overflow {
                        if value <= (9223372036854775807u64 - d) / 10 {
                            proof {
                                assert(value * 10 + d <= 9223372036854775807) by (nonlinear_arith)
                                    requires value <= (9223372036854775807u64 - d) / 10, d <= 9;
                            }
                            value = value * 10 + d;
                        } else {
                            proof {
                                assert(value * 10 + d > 9223372036854775807) by (nonlinear_arith)
                                    requires value > (9223372036854775807u64 - d) / 10, d <= 9;
                            }
                            overflow = true;
                        }
                    }
                }
                self.consume_char();
            } else if c == '.' && !is_float {
                let next_digit = self.pos + 1 < self.src.len() && digit(self.src[self.pos + 1]);
                if next_digit {
                    is_float = true;
                    self.consume_char();
                } else {
                    assert(self.pos > start);
                    break;
                }
            } else {
                assert(self.pos > start);
                break;
            }
        }
        assert(self.pos > start);
        if is_float {
            let text = string_from_chars(&self.src[start..self.pos]);
            Ok(self.tok(TokenKind::Float(text)))
        } else if overflow {
            let mut msg: Vec<char> = Vec::new();
            push_str(&mut msg, "invalid integer literal '");
            crate::text::append_chars(&mut msg, &self.src[start..self.pos]);
            push_str(&mut msg, "'");
            let m = string_from_chars(&msg);
            let e = ParseError::new(self.line, self.col, m);
            Err(e)
        } else {
            Ok(self.tok(TokenKind::Int(value as i64)))
        }
    }

    /// A double-quoted string literal with `\\n \\t \\r \\" \\\\` escapes (any
    /// other escaped character is kept with its backslash).
    fn lex_string(&mut self) -> (r: Result<Token, ParseError>)
        requires
            old(self).wf(),
            old(self).token_index == old(self).pos,
            old(self).pos < old(self).src@.len(),
            old(self).src@[old(self).pos as int] == '"',
        ensures
            final(self).wf(),
            final(self).src == old(self).src,
            final(self).pending == old(self).pending,
            final(self).template_depth == old(self).template_depth,
            r matches Ok(t) ==> {
                &&& positioned(t, old(self).text())
                &&& t.index == old(self).pos
                &&& scan_string(old(self).src@.skip(old(self).pos + 1)) is Some
                &&& (t.kind matches TokenKind::String(v)
                    && v@ == (scan_string(old(self).src@.skip(old(self).pos + 1))->0).0)
                &&& final(self).pos == old(self).pos + 1 + (scan_string(old(self).src@.skip(old(self).pos + 1))->0).1
            },
            r matches Err(e) ==> error_positioned(e, old(self).text())
                && scan_string(old(self).src@.skip(old(self).pos + 1)) is None,
    {
        let ghost q0 = (self.pos + 1) as int;
        self.consume_char();
        let mut buf: Vec<char> = Vec::new();
        loop
            invariant_except_break
                self.wf(),
                self.src == old(self).src,
                self.pos >= q0,
                q0 == old(self).pos + 1,
                self.token_index == old(self).pos,
                self.pending == old(self).pending,
                self.template_depth == old(self).template_depth,
                scan_string(self.src@.skip(q0)) == (match scan_string(self.src@.skip(self.pos as int)) {
                    Some((t, n)) => Some((buf@ + t, (n + self.pos - q0) as nat)),
                    None => None,
                }),
            ensures
                self.wf(),
                self.src == old(self).src,
                self.token_index == old(self).pos,
                self.pending == old(self).pending,
                self.template_depth == old(self).template_depth,
                scan_string(self.src@.skip(q0)) == Some((buf@, (self.pos - q0) as nat)),
                self.pos >= q0,
                q0 == old(self).pos + 1,
            decreases self.src@.len() - self.pos,
        {
            let ghost p = self.pos as int;
            let ghost rest = self.src@.skip(p);
            if self.pos >= self.src.len() {
                assert(rest.len() == 0);
                return Err(self.err_msg("unterminated string literal"));
            }
            let c = self.src[self.pos];
            assert(rest[0] == c);
            if c == '"' {
                self.consume_char();
                assert(buf@ + Seq::<char>::empty() =~= buf@);
                break;
            } else if c == '\\' {
                self.consume_char();
                if self.pos >= self.src.len() {
                    assert(rest.len() == 1);
                    return Err(self.err_msg("unterminated string escape"));
                }
                let e = self.src[self.pos];
                assert(rest[1] == e);
                assert(rest.skip(2) =~= self.src@.skip(p + 2));
                self.consume_char();
                let ghost b0 = buf@;
                if e == 'n' {
                    buf.push('\n');
                } else if e == 't' {
                    buf.push('\t');
                } else if e == 'r' {
                    buf.push('\r');
                } else if e == '"' {
                    buf.push('"');
                } else if e == '\\' {
                    buf.push('\\');
                } else {
                    buf.push('\\');
                    buf.push(e);
                }
                assert(buf@ =~= b0 + string_escape(e));
                proof {
                    match scan_string(self.src@.skip(p + 2)) {
                        Some((t, n)) => {
                            assert(buf@ + t =~= b0 + (string_escape(e) + t));
                        },
                        None => {},
                    }
                }
            } else {
                self.consume_char();
                let ghost b0 = buf@;
                buf.push(c);
                assert(rest.drop_first() =~= self.src@.skip(p + 1));
                proof {
                    match scan_string(self.src@.skip(p + 1)) {
                        Some((t, n)) => {
                            assert(buf@ + t =~= b0 + (seq![c] + t));
                        },
                        None => {},
                    }
                }
            }
        }
        let v = string_from_chars(&buf);
        let t = self.tok(TokenKind::String(v));
        assert(t.index == old(self).pos);
        assert(positioned(t, old(self).text()));
        assert(scan_string(old(self).src@.skip(old(self).pos + 1)) == Some((buf@, (self.pos - q0) as nat)));
        assert((scan_string(old(self).src@.skip(old(self).pos + 1))->0).0 == buf@);
        assert((scan_string(old(self).src@.skip(old(self).pos + 1))->0).1 == (self.pos - q0) as nat);
        assert(t.kind matches TokenKind::String(v) && v@ == buf@);
        Ok(t)
    }

    /// Called after the `}` closing a `${...}` interpolation was consumed.
    pub fn exit_template_expr(&mut self)
        requires old(self).wf(),
        ensures
            final(self).wf(),
            final(self).text() == old(self).text(),
            final(self).cursor() == old(self).cursor(),
            final(self).has_pending() == old(self).has_pending(),
            final(self).pending_token() == old(self).pending_token(),
            final(self).open_templates() == if old(self).open_templates() > 0 {
                old(self).open_templates() - 1
            } else {
                0
            },
    {
        if self.template_depth > 0 {
            self.template_depth = self.template_depth - 1;
        }
    }

    /// Whether a parked template end awaits delivery.
    pub fn pending_end(&self) -> (r: bool)
        ensures r == self.has_pending(),
    {
        self.pending.is_some()
    }

    /// Lex one template chunk after `TemplateStart` or after the `}` of an
    /// interpolation: cooked text up to `${` (consumed; `TemplateText`) or up
    /// to the closing backtick (consumed; `TemplateEnd`, or `TemplateText`
    /// with the end parked for the next `next_token` call when the chunk has
    /// text).
    pub fn lex_template_chunk(&mut self) -> (r: Result<Token, ParseError>)
        requires old(self).wf(),
        ensures
            final(self).wf(),
            final(self).text() == old(self).text(),
            r matches Ok(t) ==> {
                let sc = scan_chunk(old(self).text().skip(old(self).cursor()));
                &&& sc is Some
                &&& final(self).cursor() == old(self).cursor() + (sc->0).1
                &&& positioned(t, old(self).text())
                &&& t.index <= final(self).cursor()
                &&& ((sc->0).2 && (sc->0).0.len() == 0 ==> {
                    &&& t.kind is TemplateEnd
                    &&& t.index == final(self).cursor() - 1
                    &&& final(self).has_pending() == old(self).has_pending()
                    &&& final(self).pending_token() == old(self).pending_token()
                })
                &&& ((sc->0).2 && (sc->0).0.len() > 0 ==> {
                    &&& (t.kind matches TokenKind::TemplateText(x) && x@ == (sc->0).0)
                    &&& final(self).has_pending()
                    &&& final(self).pending_token().kind is TemplateEnd
                    &&& final(self).pending_token().index == final(self).cursor() - 1
                })
                &&& (!(sc->0).2 ==> {
                    &&& (t.kind matches TokenKind::TemplateText(x) && x@ == (sc->0).0)
                    &&& final(self).has_pending() == old(self).has_pending()
                    &&& final(self).pending_token() == old(self).pending_token()
                })
            },
            r matches Err(e) ==> error_positioned(e, old(self).text())
                && scan_chunk(old(self).text().skip(old(self).cursor())) is None,
    {
        let ghost q0 = self.pos as int;
        let mut buf: Vec<char> = Vec::new();
        loop
            invariant_except_break
                self.wf(),
                self.src == old(self).src,
                self.pos >= q0,
                q0 == old(self).pos,
                self.pending == old(self).pending,
                self.template_depth == old(self).template_depth,
                scan_chunk(self.src@.skip(q0)) == (match scan_chunk(self.src@.skip(self.pos as int)) {
                    Some((t, n, e)) => Some((buf@ + t, (n + self.pos - q0) as nat, e)),
                    None => None,
                }),
            decreases self.src@.len() - self.pos,
        {
            let ghost p = self.pos as int;
            let ghost rest = self.src@.skip(p);
            if self.pos >= self.src.len() {
                assert(rest.len() == 0);
                return Err(self.err_msg("unterminated template literal"));
            }
            let c = self.src[self.pos];
            assert(rest[0] == c);
            if c == '`' {
                self.anchor();
                let end = self.tok(TokenKind::TemplateEnd);
                assert(buf@ + Seq::<char>::empty() =~= buf@);
                if buf.len() > 0 {
                    self.consume_char();
                    self.pending = Some(end);
                    let v = string_from_chars(&buf);
                    return Ok(self.tok(TokenKind::TemplateText(v)));
                }
                self.consume_char();
                return Ok(end);
            }
            if c == '$' && self.pos + 1 < self.src.len() && self.src[self.pos + 1] == '{' {
                assert(rest[1] == '{');
                assert(buf@ + Seq::<char>::empty() =~= buf@);
                self.consume_char();
                self.consume_char();
                if self.template_depth < usize::MAX {
                    self.template_depth = self.template_depth + 1;
                }
                let v = string_from_chars(&buf);
                return Ok(self.tok(TokenKind::TemplateText(v)));
            }
            if c == '\\' {
                self.consume_char();
                if self.pos >= self.src.len() {
                    assert(rest.len() == 1);
                    return Err(self.err_msg("unterminated template literal"));
                }
                let e = self.src[self.pos];
                assert(rest[1] == e);
                assert(rest.skip(2) =~= self.src@.skip(p + 2));
                self.consume_char();
                let ghost b0 = buf@;
                if e == 'n' {
                    buf.push('\n');
                } else if e == 't' {
                    buf.push('\t');
                } else if e == 'r' {
                    buf.push('\r');
                } else if e == '`' {
                    buf.push('`');
                } else if e == '$' {
                    buf.push('$');
                } else if e == '\\' {
                    buf.push('\\');
                } else {
                    buf.push('\\');
                    buf.push(e);
                }
                assert(buf@ =~= b0 + template_escape(e));
                proof {
                    match scan_chunk(self.src@.skip(p + 2)) {
                        Some((t, n, x)) => {
                            assert(buf@ + t =~= b0 + (template_escape(e) + t));
                        },
                        None => {},
                    }
                }
            } else {
                self.consume_char();
                let ghost b0 = buf@;
                buf.push(c);
                assert(rest.drop_first() =~= self.src@.skip(p + 1));
                proof {
                    match scan_chunk(self.src@.skip(p + 1)) {
                        Some((t, n, x)) => {
                            assert(buf@ + t =~= b0 + (seq![c] + t));
                        },
                        None => {},
                    }
                }
            }
        }
    }

    /// The opening backtick of a template literal.
    fn lex_template_start(&mut self) -> (t: Token)
        requires
            old(self).wf(),
            old(self).token_index == old(self).pos,
            old(self).pos < old(self).src@.len(),
        ensures
            final(self).wf(),
            final(self).src == old(self).src,
            final(self).pos == old(self).pos + 1,
            final(self).pending == old(self).pending,
            final(self).template_depth == old(self).template_depth,
            positioned(t, old(self).text()),
            t.index == old(self).pos,
            t.kind is TemplateStart,
    {
        let t = self.tok(TokenKind::TemplateStart);
        self.consume_char();
        t
    }

    /// Consume `n` characters.
    fn consume_n(&mut self, n: usize)
        requires old(self).wf(), old(self).pos + n <= old(self).src@.len(),
        ensures
            final(self).wf(),
            final(self).src == old(self).src,
            final(self).pos == old(self).pos + n,
            final(self).token_index == old(self).token_index,
            final(self).pending == old(self).pending,
            final(self).template_depth == old(self).template_depth,
    {
        let mut i: usize = 0;
        while i < n
            invariant
                i <= n,
                self.wf(),
                self.src == old(self).src,
                self.pos == old(self).pos + i,
                old(self).pos + n <= old(self).src@.len(),
                self.token_index == old(self).token_index,
                self.pending == old(self).pending,
                self.template_depth == old(self).template_depth,
            decreases n - i,
        {
            self.consume_char();
            i = i + 1;
        }
    }

    /// Punctuators and operators, longest match first.
    fn lex_operator(&mut self) -> (r: Option<Token>)
        requires
            old(self).wf(),
            old(self).token_index == old(self).pos,
            old(self).pos < old(self).src@.len(),
        ensures
            final(self).wf(),
            final(self).src == old(self).src,
            final(self).pending == old(self).pending,
            final(self).template_depth == old(self).template_depth,
            r matches Some(t) ==> positioned(t, old(self).text()) && t.index == old(self).pos
                && final(self).pos > old(self).pos && payload_free(t.kind) && !(t.kind is Eof)
                && !(t.kind is TemplateStart) && !(t.kind is TemplateEnd)
                && old(self).src@.subrange(old(self).pos as int, final(self).pos as int) == punct_text(t.kind),
            r is None ==> final(self).pos == old(self).pos,
            r is None <==> !op_start(old(self).src@, old(self).pos as int),
            arrow_at(old(self).src@, old(self).pos as int) ==> (r matches Some(t) && t.kind is Arrow),
    {
        let ghost s0 = self.src@;
        let ghost p0 = self.pos as int;
        let a = self.src[self.pos];
        let b = self.peek_at(1);
        let c = self.peek_at(2);
        // three-character and doubled operators
        if a == '.' && b == Some('.') && c == Some('.') {
            let t = self.tok(TokenKind::DotDotDot);
            self.consume_n(3);
            assert(s0.subrange(p0, p0 + 3) =~= seq!['.', '.', '.']);
            return Some(t);
        }
        if a == '+' && b == Some('+') {
            let t = self.tok(TokenKind::PlusPlus);
            self.consume_n(2);
            assert(s0.subrange(p0, p0 + 2) =~= seq!['+', '+']);
            return Some(t);
        }
        if a == '-' && b == Some('-') {
            let t = self.tok(TokenKind::MinusMinus);
            self.consume_n(2);
            assert(s0.subrange(p0, p0 + 2) =~= seq!['-', '-']);
            return Some(t);
        }
        // two-character operators (`===` / `!==` are three)
        let two: Option<(TokenKind, usize)> = if a == '=' && b == Some('=') {
            if c == Some('=') { Some((TokenKind::EqEqEq, 3)) } else { Some((TokenKind::EqEq, 2)) }
        } else if a == '!' && b == Some('=') {
            if c == Some('=') { Some((TokenKind::BangEqEq, 3)) } else { Some((TokenKind::BangEq, 2)) }
        } else if a == '<' && b == Some('=') {
            Some((TokenKind::LtEq, 2))
        } else if a == '>' && b == Some('=') {
            Some((TokenKind::GtEq, 2))
        } else if a == '&' && b == Some('&') {
            Some((TokenKind::AmpAmp, 2))
        } else if a == '|' && b == Some('|') {
            Some((TokenKind::PipePipe, 2))
        } else if a == '=' && b == Some('>') {
            Some((TokenKind::Arrow, 2))
        } else if a == '<' && b == Some('/') {
            Some((TokenKind::LtSlash, 2))
        } else if a == '+' && b == Some('=') {
            Some((TokenKind::PlusEq, 2))
        } else if a == '-' && b == Some('=') {
            Some((TokenKind::MinusEq, 2))
        } else if a == '*' && b == Some('=') {
            Some((TokenKind::StarEq, 2))
        } else if a == '/' && b == Some('=') {
            Some((TokenKind::SlashEq, 2))
        } else if a == '%' && b == Some('=') {
            Some((TokenKind::PercentEq, 2))
        } else if a == '?' && b == Some('?') {
            Some((TokenKind::QuestionQuestion, 2))
        } else {
            None
        };
        proof {
            if two is Some {
                let kw = two->0;
                let k = kw.0;
                let w = kw.1;
                assert(p0 + w <= s0.len());
                assert(s0.subrange(p0, p0 + w) =~= punct_text(k));
            }
        }
        match two {
            Some((kind, width)) => {
                let t = self.tok(kind);
                self.consume_n(width);
                return Some(t);
            },
            None => {},
        }
        let one: Option<TokenKind> = if a == '(' {
            Some(TokenKind::LeftParen)
        } else if a == ')' {
            Some(TokenKind::RightParen)
        } else if a == '{' {
            Some(TokenKind::LeftBrace)
        } else if a == '}' {
            Some(TokenKind::RightBrace)
        } else if a == '[' {
            Some(TokenKind::LeftBracket)
        } else if a == ']' {
            Some(TokenKind::RightBracket)
        } else if a == ',' {
            Some(TokenKind::Comma)
        } else if a == '.' {
            Some(TokenKind::Dot)
        } else if a == ':' {
            Some(TokenKind::Colon)
        } else if a == ';' {
            Some(TokenKind::Semicolon)
        } else if a == '=' {
            Some(TokenKind::Equals)
        } else if a == '+' {
            Some(TokenKind::Plus)
        } else if a == '-' {
            Some(TokenKind::Minus)
        } else if a == '*' {
            Some(TokenKind::Star)
        } else if a == '%' {
            Some(TokenKind::Percent)
        } else if a == '!' {
            Some(TokenKind::Bang)
        } else if a == '?' {
            Some(TokenKind::Question)
        } else if a == '|' {
            Some(TokenKind::Pipe)
        } else if a == '<' {
            Some(TokenKind::Lt)
        } else if a == '>' {
            Some(TokenKind::Gt)
        } else if a == '/' {
            Some(TokenKind::Slash)
        } else {
            None
        };
        proof {
            if one is Some {
                assert(s0.subrange(p0, p0 + 1) =~= punct_text(one->0));
            }
        }
        match one {
            Some(kind) => {
                let t = self.tok(kind);
                self.consume_char();
                Some(t)
            },
            None => None,
        }
    }

    /// Produce the next token, advancing past it. A parked template end is
    /// delivered first.
    pub fn next_token(&mut self) -> (r: Result<Token, ParseError>)
        requires old(self).wf(),
        ensures
            final(self).wf(),
            final(self).text() == old(self).text(),
            !final(self).has_pending(),
            r matches Ok(t) ==> positioned(t, old(self).text()),
            old(self).has_pending() ==> r == Ok::<Token, ParseError>(old(self).pending_token())
                && final(self).cursor() == old(self).cursor(),
            !old(self).has_pending() && skip_spec(old(self).text(), old(self).cursor()) is None ==> r is Err,
            !old(self).has_pending() && arrow_next(old(self).text(), old(self).cursor())
                ==> (r matches Ok(t) && t.kind is Arrow),
            !old(self).has_pending() ==> (r matches Ok(t) ==> {
                &&& skip_spec(old(self).text(), old(self).cursor()) == Some(t.index as int)
                &&& t.index >= old(self).cursor()
                &&& trivia_end(old(self).text(), t.index as int)
                &&& lexeme(t.kind, old(self).text(), t.index as int, final(self).cursor())
                &&& (t.kind is Eof ==> t.index == final(self).cursor() && final(self).cursor() == old(self).text().len())
                &&& (!(t.kind is Eof) ==> t.index < final(self).cursor())
                &&& !(t.kind is TemplateText)
            }),
            r matches Err(e) ==> error_positioned(e, old(self).text()),
    {
        if self.pending.is_some() {
            let t = self.pending.take();
            match t {
                Some(tok) => { return Ok(tok); },
                None => { return Err(self.err()); },
            }
        }
        self.skip_trivia()?;
        self.anchor();
        if self.pos >= self.src.len() {
            return Ok(self.tok(TokenKind::Eof));
        }
        let c = self.src[self.pos];
        let next_is_digit = self.pos + 1 < self.src.len() && digit(self.src[self.pos + 1]);
        if digit(c) || (c == '.' && next_is_digit) {
            return self.lex_number();
        }
        if c == '"' {
            return self.lex_string();
        }
        if c == '`' {
            if self.template_depth > 0 {
                self.template_depth = self.template_depth - 1;
                let t = self.tok(TokenKind::TemplateEnd);
                self.consume_char();
                return Ok(t);
            }
            return Ok(self.lex_template_start());
        }
        if c == '$' {
            return Err(self.err_msg("unexpected `$` (did you mean `${...}` inside a template literal?)"));
        }
        if alpha(c) || c == '_' {
            return Ok(self.lex_ident());
        }
        match self.lex_operator() {
            Some(t) => Ok(t),
            None => {
                let mut msg: Vec<char> = Vec::new();
                push_str(&mut msg, "unexpected character '");
                msg.push(c);
                push_str(&mut msg, "'");
                let m = string_from_chars(&msg);
                Err(ParseError::new(self.line, self.col, m))
            },
        }
    }

    /// Rescan raw JSX text starting at token `from`: every character up to
    /// the next `{`, `<` or the end of the source is literal text. The lexer
    /// resumes right after that text.
    pub fn rescan_jsx_text(&mut self, from: &Token) -> (r: String)
        requires
            old(self).wf(),
            !old(self).has_pending(),
            positioned(*from, old(self).text()),
        ensures
            final(self).wf(),
            final(self).text() == old(self).text(),
            !final(self).has_pending(),
            from.index <= final(self).cursor(),
            r@ == old(self).text().subrange(from.index as int, final(self).cursor()),
            forall|i: int| from.index <= i < final(self).cursor()
                ==> #[trigger] old(self).text()[i] != '{' && old(self).text()[i] != '<',
            final(self).cursor() == old(self).text().len()
                || old(self).text()[final(self).cursor()] == '{' || old(self).text()[final(self).cursor()] == '<',
    {
        self.pos = from.index;
        self.line = from.line;
        self.col = from.column - 1;
        self.offset = from.offset;
        self.token_index = from.index;
        self.token_line = from.line;
        self.token_col = from.column;
        self.token_start = from.offset;
        let mut text: Vec<char> = Vec::new();
        while self.pos < self.src.len() && self.src[self.pos] != '{' && self.src[self.pos] != '<'
            invariant
                self.wf(),
                self.src == old(self).src,
                self.pending is None,
                from.index <= self.pos,
                text@ == self.src@.subrange(from.index as int, self.pos as int),
                forall|i: int| from.index <= i < self.pos
                    ==> #[trigger] self.src@[i] != '{' && self.src@[i] != '<',
            decreases self.src@.len() - self.pos,
        {
            text.push(self.src[self.pos]);
            self.consume_char();
            assert(text@ =~= self.src@.subrange(from.index as int, self.pos as int));
        }
        string_from_chars(&text)
    }

    /// The next unread character.
    pub fn peek(&self) -> (r: Option<char>)
        requires self.wf(),
        ensures
            r matches Some(c) ==> self.cursor() < self.text().len() && c == self.text()[self.cursor()],
            r is None ==> self.cursor() == self.text().len(),
    {
        self.peek_at(0)
    }

    /// The character after the next unread one.
    pub fn peek2(&self) -> (r: Option<char>)
        requires self.wf(),
        ensures
            r matches Some(c) ==> self.cursor() + 1 < self.text().len() && c == self.text()[self.cursor() + 1],
            r is None ==> self.cursor() + 1 >= self.text().len(),
    {
        self.peek_at(1)
    }

    /// The cursor lies within the source, whose length fits the position
    /// counters.
    /// A parked token is a template end.
    pub proof fn lemma_pending_kind(&self)
        requires self.wf(), self.has_pending(),
        ensures self.pending_token().kind is TemplateEnd,
    {
    }

    pub proof fn lemma_bounds(&self)
        requires self.wf(),
        ensures 0 <= self.cursor() <= self.text().len() <= usize::MAX / 8,
    {
    }

    /// An independent copy for lookahead.
    pub fn duplicate(&self) -> (r: Lexer<'a>)
        requires self.wf(),
        ensures r.wf(), r.text() == self.text(), r.cursor() == self.cursor(),
            r.has_pending() == self.has_pending(),
            self.has_pending() ==> r.pending_token() == self.pending_token(),
    {
        let pending = match &self.pending {
            Some(t) => Some(t.duplicate()),
            None => None,
        };
        Lexer {
            src: self.src,
            pos: self.pos,
            line: self.line,
            col: self.col,
            offset: self.offset,
            token_index: self.token_index,
            token_start: self.token_start,
            token_line: self.token_line,
            token_col: self.token_col,
            pending,
            template_depth: self.template_depth,
        }
    }
}

impl TokenKind {
    fn punct_str(&self) -> (r: &'static str)
        ensures r@ == punct_text(*self),
    {
        proof {
            reveal_strlit("(");
            reveal_strlit(")");
            reveal_strlit("{");
            reveal_strlit("}");
            reveal_strlit("[");
            reveal_strlit("]");
            reveal_strlit(",");
            reveal_strlit(".");
            reveal_strlit("...");
            reveal_strlit(":");
            reveal_strlit(";");
            reveal_strlit("=");
            reveal_strlit("=>");
            reveal_strlit("<");
            reveal_strlit(">");
            reveal_strlit("/");
            reveal_strlit("</");
            reveal_strlit("+");
            reveal_strlit("++");
            reveal_strlit("-");
            reveal_strlit("--");
            reveal_strlit("+=");
            reveal_strlit("-=");
            reveal_strlit("*=");
            reveal_strlit("/=");
            reveal_strlit("%=");
            reveal_strlit("*");
            reveal_strlit("%");
            reveal_strlit("!");
            reveal_strlit("==");
            reveal_strlit("===");
            reveal_strlit("!=");
            reveal_strlit("!==");
            reveal_strlit("<=");
            reveal_strlit(">=");
            reveal_strlit("&&");
            reveal_strlit("||");
            reveal_strlit("|");
            reveal_strlit("?");
            reveal_strlit("??");
            reveal_strlit("");
        }
        match self {
            TokenKind::LeftParen => "(",
            TokenKind::RightParen => ")",
            TokenKind::LeftBrace => "{",
            TokenKind::RightBrace => "}",
            TokenKind::LeftBracket => "[",
            TokenKind::RightBracket => "]",
            TokenKind::Comma => ",",
            TokenKind::Dot => ".",
            TokenKind::DotDotDot => "...",
            TokenKind::Colon => ":",
            TokenKind::Semicolon => ";",
            TokenKind::Equals => "=",
            TokenKind::Arrow => "=>",
            TokenKind::Lt => "<",
            TokenKind::Gt => ">",
            TokenKind::Slash => "/",
            TokenKind::LtSlash => "</",
            TokenKind::Plus => "+",
            TokenKind::PlusPlus => "++",
            TokenKind::Minus => "-",
            TokenKind::MinusMinus => "--",
            TokenKind::PlusEq => "+=",
            TokenKind::MinusEq => "-=",
            TokenKind::StarEq => "*=",
            TokenKind::SlashEq => "/=",
            TokenKind::PercentEq => "%=",
            TokenKind::Star => "*",
            TokenKind::Percent => "%",
            TokenKind::Bang => "!",
            TokenKind::EqEq => "==",
            TokenKind::EqEqEq => "===",
            TokenKind::BangEq => "!=",
            TokenKind::BangEqEq => "!==",
            TokenKind::LtEq => "<=",
            TokenKind::GtEq => ">=",
            TokenKind::AmpAmp => "&&",
            TokenKind::PipePipe => "||",
            TokenKind::Pipe => "|",
            TokenKind::Question => "?",
            TokenKind::QuestionQuestion => "??",
            _ => "",
        }
    }

    /// Human-readable name for diagnostics.
    pub fn describe(&self) -> (r: String)
        ensures r@ == describe_text(*self),
    {
        proof {
            reveal_strlit("number `");
            reveal_strlit("`");
            reveal_strlit("string \"");
            reveal_strlit("\"");
            reveal_strlit("`` ` ``");
            reveal_strlit("template text");
            reveal_strlit("end of file");
        }
        let mut v: Vec<char> = Vec::new();
        match self {
            TokenKind::Int(i) => {
                push_str(&mut v, "number `");
                let d = signed_decimal_chars(*i);
                append_chars(&mut v, &d);
                push_str(&mut v, "`");
            },
            TokenKind::Float(x) => {
                push_str(&mut v, "number `");
                push_str(&mut v, x.as_str());
                push_str(&mut v, "`");
            },
            TokenKind::String(x) => {
                push_str(&mut v, "string \"");
                push_str(&mut v, x.as_str());
                push_str(&mut v, "\"");
            },
            TokenKind::TemplateStart => push_str(&mut v, "`` ` ``"),
            TokenKind::TemplateText(_) => push_str(&mut v, "template text"),
            TokenKind::TemplateEnd => push_str(&mut v, "`` ` ``"),
            TokenKind::Ident(n) => {
                push_str(&mut v, "`");
                push_str(&mut v, n.as_str());
                push_str(&mut v, "`");
            },
            TokenKind::Eof => push_str(&mut v, "end of file"),
            _ => {
                push_str(&mut v, "`");
                push_str(&mut v, self.punct_str());
                push_str(&mut v, "`");
            },
        }
        string_from_chars(&v)
    }

    /// An equal copy.
    pub fn duplicate(&self) -> (r: TokenKind)
        ensures r == *self,
    {
        match self {
            TokenKind::Int(i) => TokenKind::Int(*i),
            TokenKind::Float(x) => TokenKind::Float(x.clone()),
            TokenKind::String(x) => TokenKind::String(x.clone()),
            TokenKind::TemplateStart => TokenKind::TemplateStart,
            TokenKind::TemplateText(x) => TokenKind::TemplateText(x.clone()),
            TokenKind::TemplateEnd => TokenKind::TemplateEnd,
            TokenKind::Ident(x) => TokenKind::Ident(x.clone()),
            TokenKind::LeftParen => TokenKind::LeftParen,
            TokenKind::RightParen => TokenKind::RightParen,
            TokenKind::LeftBrace => TokenKind::LeftBrace,
            TokenKind::RightBrace => TokenKind::RightBrace,
            TokenKind::LeftBracket => TokenKind::LeftBracket,
            TokenKind::RightBracket => TokenKind::RightBracket,
            TokenKind::Comma => TokenKind::Comma,
            TokenKind::Dot => TokenKind::Dot,
            TokenKind::DotDotDot => TokenKind::DotDotDot,
            TokenKind::Colon => TokenKind::Colon,
            TokenKind::Semicolon => TokenKind::Semicolon,
            TokenKind::Equals => TokenKind::Equals,
            TokenKind::Arrow => TokenKind::Arrow,
            TokenKind::Lt => TokenKind::Lt,
            TokenKind::Gt => TokenKind::Gt,
            TokenKind::Slash => TokenKind::Slash,
            TokenKind::LtSlash => TokenKind::LtSlash,
            TokenKind::Plus => TokenKind::Plus,
            TokenKind::PlusPlus => TokenKind::PlusPlus,
            TokenKind::Minus => TokenKind::Minus,
            TokenKind::MinusMinus => TokenKind::MinusMinus,
            TokenKind::PlusEq => TokenKind::PlusEq,
            TokenKind::MinusEq => TokenKind::MinusEq,
            TokenKind::StarEq => TokenKind::StarEq,
            TokenKind::SlashEq => TokenKind::SlashEq,
            TokenKind::PercentEq => TokenKind::PercentEq,
            TokenKind::Star => TokenKind::Star,
            TokenKind::Percent => TokenKind::Percent,
            TokenKind::Bang => TokenKind::Bang,
            TokenKind::EqEq => TokenKind::EqEq,
            TokenKind::EqEqEq => TokenKind::EqEqEq,
            TokenKind::BangEq => TokenKind::BangEq,
            TokenKind::BangEqEq => TokenKind::BangEqEq,
            TokenKind::LtEq => TokenKind::LtEq,
            TokenKind::GtEq => TokenKind::GtEq,
            TokenKind::AmpAmp => TokenKind::AmpAmp,
            TokenKind::PipePipe => TokenKind::PipePipe,
            TokenKind::Pipe => TokenKind::Pipe,
            TokenKind::Question => TokenKind::Question,
            TokenKind::QuestionQuestion => TokenKind::QuestionQuestion,
            TokenKind::Eof => TokenKind::Eof,
        }
    }

    /// Whether `self` and `other` are the same payload-free kind (`false`
    /// whenever `other` carries a payload).
    pub fn same(&self, other: &TokenKind) -> (r: bool)
        ensures payload_free(*other) ==> (r == (*self == *other)),
            !payload_free(*other) ==> !r,
    {
        match (self, other) {
            (TokenKind::TemplateStart, TokenKind::TemplateStart) => true,
            (TokenKind::TemplateEnd, TokenKind::TemplateEnd) => true,
            (TokenKind::LeftParen, TokenKind::LeftParen) => true,
            (TokenKind::RightParen, TokenKind::RightParen) => true,
            (TokenKind::LeftBrace, TokenKind::LeftBrace) => true,
            (TokenKind::RightBrace, TokenKind::RightBrace) => true,
            (TokenKind::LeftBracket, TokenKind::LeftBracket) => true,
            (TokenKind::RightBracket, TokenKind::RightBracket) => true,
            (TokenKind::Comma, TokenKind::Comma) => true,
            (TokenKind::Dot, TokenKind::Dot) => true,
            (TokenKind::DotDotDot, TokenKind::DotDotDot) => true,
            (TokenKind::Colon, TokenKind::Colon) => true,
            (TokenKind::Semicolon, TokenKind::Semicolon) => true,
            (TokenKind::Equals, TokenKind::Equals) => true,
            (TokenKind::Arrow, TokenKind::Arrow) => true,
            (TokenKind::Lt, TokenKind::Lt) => true,
            (TokenKind::Gt, TokenKind::Gt) => true,
            (TokenKind::Slash, TokenKind::Slash) => true,
            (TokenKind::LtSlash, TokenKind::LtSlash) => true,
            (TokenKind::Plus, TokenKind::Plus) => true,
            (TokenKind::PlusPlus, TokenKind::PlusPlus) => true,
            (TokenKind::Minus, TokenKind::Minus) => true,
            (TokenKind::MinusMinus, TokenKind::MinusMinus) => true,
            (TokenKind::PlusEq, TokenKind::PlusEq) => true,
            (TokenKind::MinusEq, TokenKind::MinusEq) => true,
            (TokenKind::StarEq, TokenKind::StarEq) => true,
            (TokenKind::SlashEq, TokenKind::SlashEq) => true,
            (TokenKind::PercentEq, TokenKind::PercentEq) => true,
            (TokenKind::Star, TokenKind::Star) => true,
            (TokenKind::Percent, TokenKind::Percent) => true,
            (TokenKind::Bang, TokenKind::Bang) => true,
            (TokenKind::EqEq, TokenKind::EqEq) => true,
            (TokenKind::EqEqEq, TokenKind::EqEqEq) => true,
            (TokenKind::BangEq, TokenKind::BangEq) => true,
            (TokenKind::BangEqEq, TokenKind::BangEqEq) => true,
            (TokenKind::LtEq, TokenKind::LtEq) => true,
            (TokenKind::GtEq, TokenKind::GtEq) => true,
            (TokenKind::AmpAmp, TokenKind::AmpAmp) => true,
            (TokenKind::PipePipe, TokenKind::PipePipe) => true,
            (TokenKind::Pipe, TokenKind::Pipe) => true,
            (TokenKind::Question, TokenKind::Question) => true,
            (TokenKind::QuestionQuestion, TokenKind::QuestionQuestion) => true,
            (TokenKind::Eof, TokenKind::Eof) => true,
            _ => false,
        }
    }
}

impl Token {
    /// An equal copy.
    pub fn duplicate(&self) -> (r: Token)
        ensures r == *self,
    {
        Token {
            kind: self.kind.duplicate(),
            line: self.line,
            column: self.column,
            offset: self.offset,
            index: self.index,
        }
    }
}

} // verus!
