//! The scanner: turns source text into tokens, tracking 4-space style
//! indentation with a stack and emitting `Indent` / `Dedent` tokens.

use vstd::prelude::*;
use std::collections::VecDeque;
use crate::lexer::token::{Token, TokenKind, Span, keyword_kind, fixed_spelling};
use crate::lexer::rules::{
    ScanView, KindView, Run, tokens_view, token_view, kind_view, made, run_end, lemma_run_end, outcome,
    newline_step, kept_levels, string_step, newlines, number_step, number_end, word_step, word_kind,
    operator_step, scan_step, end_step, scan_run, scan_measure, close_tokens, start_state, char_width,
    byte_offset, line_at, col_at, span_of,
};
use crate::text::{
    is_digit, digits_value, char_is_digit, char_is_alphabetic, char_is_alphanumeric, push_char, str_eq,
    owned, concat, chars_of, string_from_chars, decimal_string, decimal,
};

verus! {

broadcast use vstd::string::group_string_axioms;

/// The message of the error that stands for an integer literal too large
/// for `int` (a 64-bit signed integer).
pub const INT_LITERAL_OVERFLOW: &'static str = "number too large to fit in target type";

// ── Indentation bookkeeping ──

/// How a token moves the indentation depth.
pub open spec fn kdepth(k: TokenKind) -> int {
    match k {
        TokenKind::Indent => 1,
        TokenKind::Dedent => -1,
        _ => 0,
    }
}

/// Number of `Indent` tokens minus number of `Dedent` tokens.
pub open spec fn depth(ts: Seq<Token>) -> int
    decreases ts.len(),
{
    if ts.len() == 0 {
        0
    } else {
        depth(ts.drop_last()) + kdepth(ts.last().kind)
    }
}

/// No prefix closes more blocks than it opened.
pub open spec fn never_below_zero(ts: Seq<Token>) -> bool {
    forall|i: int| 0 <= i <= ts.len() ==> depth(#[trigger] ts.take(i)) >= 0
}

/// Every `Indent` comes right after a `Newline`.
pub open spec fn indents_follow_newlines(ts: Seq<Token>) -> bool {
    forall|i: int| 0 <= i < ts.len() && (#[trigger] ts[i]).kind is Indent ==> i > 0 && ts[i - 1].kind is Newline
}

pub open spec fn all_dedents(p: Seq<Token>) -> bool {
    forall|i: int| 0 <= i < p.len() ==> (#[trigger] p[i]).kind is Dedent
}

pub open spec fn all_digits(s: Seq<char>) -> bool {
    forall|i: int| 0 <= i < s.len() ==> is_digit(#[trigger] s[i])
}

pub open spec fn is_quote(c: char) -> bool {
    c == '"' || c == '\''
}

/// Where a token starts: its byte offset, line and column.
pub struct Mark {
    pub bytes: usize,
    pub line: u32,
    pub column: u32,
}

/// `m` is the place of the character at `i`.
pub open spec fn marks(src: Seq<char>, m: Mark, i: int) -> bool {
    &&& m.bytes == byte_offset(src, i)
    &&& m.line == line_at(src, i)
    &&& m.column == col_at(src, i)
}

/// Whether a source can be scanned: its length in characters, and the
/// bytes it can take, must fit the scanner's counters.
pub open spec fn scannable(s: Seq<char>) -> bool {
    s.len() < 0xffff_fffd && s.len() < (usize::MAX - 8) / 4
}

/// Whether `input` can be scanned.
pub fn can_scan(input: &str) -> (b: bool)
    ensures
        b == scannable(input@),
{
    let n = input.unicode_len();
    n < 0xffff_fffd && n < (usize::MAX - 8) / 4
}

pub struct Scanner {
    source: Vec<char>,
    pos: usize,
    bytes: usize,
    line: u32,
    column: u32,
    indent_stack: Vec<usize>,
    pending_tokens: VecDeque<Token>,
}

/// Scanner states can only be made by `new` and changed by `next_token`.
impl Scanner {
    /// The characters being scanned.
    pub closed spec fn text(self) -> Seq<char> {
        self.source@
    }

    /// How far scanning has come.
    pub closed spec fn position(self) -> nat {
        self.pos as nat
    }

    /// The open indentation levels, outermost first.
    pub closed spec fn levels(self) -> Seq<usize> {
        self.indent_stack@
    }

    /// Tokens already produced and not yet handed out.
    pub closed spec fn pending(self) -> Seq<Token> {
        self.pending_tokens@
    }

    /// The state as the lexical rules see it.
    pub closed spec fn state(self) -> ScanView {
        ScanView {
            pos: self.pos as int,
            levels: self.indent_stack@,
            pending: tokens_view(self.pending_tokens@),
        }
    }

    /// Open levels beyond the outermost one, as they will stand once the
    /// pending tokens are handed out, plus one.
    pub open spec fn potential(self) -> int {
        self.levels().len() - depth(self.pending())
    }

    /// Whether an `Indent` is waiting to be handed out.
    pub open spec fn indent_pending(self) -> bool {
        self.pending().len() > 0 && self.pending()[0].kind is Indent
    }

    /// All input consumed, all blocks closed, nothing pending: from here on
    /// only `Eof` comes out.
    pub open spec fn finished(self) -> bool {
        &&& self.position() == self.text().len()
        &&& self.levels().len() == 1
        &&& self.pending().len() == 0
    }

    /// Decreases with every token other than `Eof`.
    pub open spec fn measure(self) -> int {
        4 * (self.text().len() - self.position()) + 2 * self.levels().len() + self.pending().len()
    }

    closed spec fn pending_ok(self) -> bool {
        let p = self.pending_tokens@;
        ||| all_dedents(p)
        ||| (p.len() == 1 && p[0].kind is Indent && self.indent_stack@.len() >= 2)
        ||| (p.len() >= 1 && p.last().kind is Eof && all_dedents(p.drop_last())
            && self.indent_stack@.len() == 1 && self.pos == self.source@.len())
    }

    /// The scanner's invariant.
    pub closed spec fn wf(self) -> bool {
        &&& self.pos <= self.source@.len()
        &&& self.source@.len() + 2 < u32::MAX
        &&& 4 * self.source@.len() + 8 < usize::MAX
        &&& marks(self.source@, Mark { bytes: self.bytes, line: self.line, column: self.column }, self.pos as int)
        &&& self.indent_stack@.len() >= 1
        &&& self.indent_stack@[0] == 0
        &&& forall|i: int, j: int|
            0 <= i < j < self.indent_stack@.len() ==> self.indent_stack@[i] < self.indent_stack@[j]
        &&& self.pending_ok()
    }

    /// The place where scanning stands.
    pub closed spec fn place(self) -> Mark {
        Mark { bytes: self.bytes, line: self.line, column: self.column }
    }
}

// ── Lemmas on depth ──

pub proof fn lemma_depth_push(ts: Seq<Token>, t: Token)
    ensures
        depth(ts.push(t)) == depth(ts) + kdepth(t.kind),
{
    assert(ts.push(t).drop_last() == ts);
}

pub proof fn lemma_depth_front(p: Seq<Token>)
    requires
        p.len() > 0,
    ensures
        depth(p) == kdepth(p[0].kind) + depth(p.subrange(1, p.len() as int)),
    decreases p.len(),
{
    if p.len() == 1 {
        assert(p.drop_last().len() == 0);
        assert(depth(p.drop_last()) == 0);
        assert(p.last() == p[0]);
        assert(p.subrange(1, 1).len() == 0);
        assert(depth(p.subrange(1, 1)) == 0);
    } else {
        lemma_depth_front(p.drop_last());
        assert(p.drop_last()[0] == p[0]);
        assert(p.subrange(1, p.len() as int).last() == p.last());
        assert(p.drop_last().subrange(1, p.len() - 1) == p.subrange(1, p.len() as int).drop_last());
    }
}

pub proof fn lemma_depth_dedents(p: Seq<Token>)
    requires
        all_dedents(p),
    ensures
        depth(p) == -(p.len() as int),
    decreases p.len(),
{
    if p.len() > 0 {
        assert(all_dedents(p.drop_last()));
        lemma_depth_dedents(p.drop_last());
    }
}

pub proof fn lemma_never_below_zero_push(ts: Seq<Token>, t: Token)
    requires
        never_below_zero(ts),
        depth(ts) + kdepth(t.kind) >= 0,
    ensures
        never_below_zero(ts.push(t)),
{
    lemma_depth_push(ts, t);
    assert forall|i: int| 0 <= i <= ts.push(t).len() implies depth(#[trigger] ts.push(t).take(i)) >= 0 by {
        if i <= ts.len() {
            assert(ts.push(t).take(i) == ts.take(i));
        } else {
            assert(ts.push(t).take(i) == ts.push(t));
        }
    }
}

impl Scanner {
    proof fn lemma_state_measure(self)
        ensures
            scan_measure(self.text(), self.state()) == self.measure(),
            self.state().pending.len() == self.pending().len(),
    {
    }

    proof fn lemma_potential_positive(self)
        requires
            self.wf(),
        ensures
            self.potential() >= 1,
    {
        let p = self.pending_tokens@;
        if all_dedents(p) {
            lemma_depth_dedents(p);
        } else if p.len() == 1 && p[0].kind is Indent {
            assert(p.drop_last().len() == 0);
            assert(depth(p.drop_last()) == 0);
            assert(p.last() == p[0]);
            assert(depth(p) == 1);
        } else {
            lemma_depth_dedents(p.drop_last());
            assert(depth(p) == depth(p.drop_last()));
        }
    }

    pub fn new(input: &str) -> (s: Self)
        requires
            scannable(input@),
        ensures
            s.wf(),
            s.text() == input@,
            s.position() == 0,
            s.levels() == seq![0usize],
            s.pending().len() == 0,
            s.potential() == 1,
            !s.indent_pending(),
            s.state() == start_state(),
    {
        proof {
            assert(4 * input@.len() < usize::MAX - 8) by (nonlinear_arith)
                requires
                    input@.len() < (usize::MAX - 8) / 4,
            ;
        }
        let source = chars_of(input);
        let mut indent_stack: Vec<usize> = Vec::new();
        indent_stack.push(0);
        let s = Self {
            source,
            pos: 0,
            bytes: 0,
            line: 1,
            column: 1,
            indent_stack,
            pending_tokens: VecDeque::new(),
        };
        assert(depth(s.pending_tokens@) == 0);
        assert(tokens_view(s.pending_tokens@) =~= seq![]);
        assert(s.source@.take(0) =~= seq![]);
        s
    }

    // ── Utility methods ──

    fn advance(&mut self) -> (c: char)
        requires
            old(self).wf(),
            old(self).pos < old(self).source@.len(),
        ensures
            final(self).wf(),
            c == old(self).source@[old(self).pos as int],
            final(self).pos == old(self).pos + 1,
            final(self).source == old(self).source,
            final(self).indent_stack == old(self).indent_stack,
            final(self).pending_tokens == old(self).pending_tokens,
    {
        let c = self.source[self.pos];
        proof {
            lemma_place_step(self.source@, self.pos as int);
            lemma_place_bounds(self.source@, self.pos + 1);
        }
        self.pos += 1;
        self.bytes += utf8_width(c);
        if c == '\n' {
            self.line += 1;
            self.column = 1;
        } else {
            self.column += 1;
        }
        c
    }

    fn match_char(&mut self, expected: char) -> (b: bool)
        requires
            old(self).wf(),
        ensures
            final(self).wf(),
            b == (old(self).pos < old(self).source@.len() && old(self).source@[old(self).pos as int]
                == expected),
            final(self).pos == old(self).pos + if b { 1int } else { 0int },
            final(self).source == old(self).source,
            final(self).indent_stack == old(self).indent_stack,
            final(self).pending_tokens == old(self).pending_tokens,
    {
        if self.is_at_end() {
            return false;
        }
        if self.source[self.pos] != expected {
            return false;
        }
        self.advance();
        true
    }

    fn peek(&self) -> (c: char)
        ensures
            c == if self.pos < self.source@.len() { self.source@[self.pos as int] } else { '\0' },
    {
        if self.is_at_end() {
            '\0'
        } else {
            self.source[self.pos]
        }
    }

    fn peek_next(&self) -> (c: char)
        requires
            self.pos < self.source@.len(),
        ensures
            c == if self.pos + 1 < self.source@.len() {
                self.source@[self.pos + 1]
            } else {
                '\0'
            },
    {
        if self.source.len() - self.pos <= 1 {
            '\0'
        } else {
            self.source[self.pos + 1]
        }
    }

    fn is_at_end(&self) -> (b: bool)
        ensures
            b == (self.pos >= self.source@.len()),
    {
        self.pos >= self.source.len()
    }

    fn skip_whitespace(&mut self)
        requires
            old(self).wf(),
        ensures
            final(self).wf(),
            final(self).pos >= old(self).pos,
            final(self).source == old(self).source,
            final(self).indent_stack == old(self).indent_stack,
            final(self).pending_tokens == old(self).pending_tokens,
            final(self).pos == run_end(old(self).source@, old(self).pos as int, Run::Blank),
    {
        while !self.is_at_end()
            invariant
                self.wf(),
                self.pos >= old(self).pos,
                self.source == old(self).source,
                self.indent_stack == old(self).indent_stack,
                self.pending_tokens == old(self).pending_tokens,
                run_end(self.source@, old(self).pos as int, Run::Blank) == run_end(self.source@, self.pos as int, Run::Blank),
            ensures
                run_end(self.source@, self.pos as int, Run::Blank) == self.pos,
            decreases self.source@.len() - self.pos,
        {
            let c = self.peek();
            if c == ' ' || c == '\r' || c == '\t' {
                self.advance();
            } else {
                break;
            }
        }
    }

    /// The place where scanning stands.
    fn mark(&self) -> (m: Mark)
        ensures
            m == self.place(),
    {
        Mark { bytes: self.bytes, line: self.line, column: self.column }
    }

    /// A token read from the place `start` (the character at `a`) up to here.
    fn make_token(&self, kind: TokenKind, lexeme: &str, start: Mark, Ghost(a): Ghost<int>) -> (t: Token)
        requires
            self.wf(),
            0 <= a <= self.pos,
            marks(self.source@, start, a),
        ensures
            t.kind == kind,
            t.lexeme@ == lexeme@,
            token_view(t) == made(kind_view(kind), lexeme@, self.source@, a, self.pos as int),
    {
        Token {
            kind,
            lexeme: lexeme.to_string(),
            span: Span { start: start.bytes, end: self.bytes, line: start.line, column: start.column },
        }
    }
}

/// The UTF-8 width of `c`, in bytes.
fn utf8_width(c: char) -> (w: usize)
    ensures
        w == char_width(c),
{
    let u = c as u32;
    if u < 0x80 {
        1
    } else if u < 0x800 {
        2
    } else if u < 0x10000 {
        3
    } else {
        4
    }
}

/// One character further: its width is added to the byte offset, a newline
/// starts the next line at column 1, anything else moves one column on.
pub proof fn lemma_place_step(src: Seq<char>, i: int)
    requires
        0 <= i < src.len(),
    ensures
        byte_offset(src, i + 1) == byte_offset(src, i) + char_width(src[i]),
        line_at(src, i + 1) == line_at(src, i) + if src[i] == '\n' { 1int } else { 0int },
        col_at(src, i + 1) == if src[i] == '\n' { 1 } else { col_at(src, i) + 1 },
{
    assert(src.take(i + 1).drop_last() =~= src.take(i));
}

/// Bounds on a place: at most 4 bytes a character, and the line and column
/// at most one more than the characters before.
pub proof fn lemma_place_bounds(src: Seq<char>, i: int)
    requires
        0 <= i <= src.len(),
    ensures
        0 <= byte_offset(src, i) <= 4 * i,
        1 <= line_at(src, i) <= i + 1,
        1 <= col_at(src, i) <= i + 1,
    decreases i,
{
    if i > 0 {
        lemma_place_bounds(src, i - 1);
        lemma_place_step(src, i - 1);
    } else {
        assert(src.take(0) =~= seq![]);
    }
}

// ── Messages ──

/// `prefix` followed by " at line " and the line number.
pub open spec fn at_line(prefix: Seq<char>, line: u32) -> Seq<char> {
    prefix + " at line "@ + decimal(line as nat)
}

/// `prefix` followed by " at line ", the line, ", column " and the column.
pub open spec fn at_line_column(prefix: Seq<char>, line: u32, column: u32) -> Seq<char> {
    at_line(prefix, line) + ", column "@ + decimal(column as nat)
}

fn message_at_line(prefix: &str, line: u32) -> (m: String)
    ensures
        m@ == at_line(prefix@, line),
{
    let mut m = concat(prefix, " at line ");
    let n = decimal_string(line as u64);
    m.append(n.as_str());
    m
}

fn message_at_line_column(prefix: &str, line: u32, column: u32) -> (m: String)
    ensures
        m@ == at_line_column(prefix@, line, column),
{
    let mut m = message_at_line(prefix, line);
    m.append(", column ");
    let n = decimal_string(column as u64);
    m.append(n.as_str());
    m
}

// ── Integer literals ──

pub proof fn lemma_digits_value_prefix(s: Seq<char>, k: int)
    requires
        all_digits(s),
        0 <= k <= s.len(),
    ensures
        digits_value(s.take(k)) <= digits_value(s),
    decreases s.len(),
{
    if k < s.len() {
        assert(all_digits(s.drop_last()));
        lemma_digits_value_prefix(s.drop_last(), k);
        assert(s.drop_last().take(k) == s.take(k));
        assert(is_digit(s[s.len() - 1]));
    } else {
        assert(s.take(k) == s);
    }
}

/// The value of the digits `v[from..to]` as an `i64`, or `None` when it does
/// not fit.
fn digits_to_i64(v: &Vec<char>, from: usize, to: usize) -> (r: Option<i64>)
    requires
        from <= to <= v@.len(),
        all_digits(v@.subrange(from as int, to as int)),
    ensures
        r matches Some(n) ==> n == digits_value(v@.subrange(from as int, to as int)),
        r is None ==> digits_value(v@.subrange(from as int, to as int)) > i64::MAX,
{
    let ghost whole = v@.subrange(from as int, to as int);
    let mut acc: i64 = 0;
    let mut i: usize = from;
    while i < to
        invariant
            from <= i <= to <= v@.len(),
            whole == v@.subrange(from as int, to as int),
            all_digits(whole),
            acc == digits_value(v@.subrange(from as int, i as int)),
        decreases to - i,
    {
        let ghost prefix = v@.subrange(from as int, i as int);
        assert(v@.subrange(from as int, i + 1).drop_last() == prefix);
        assert(whole[i - from] == v@[i as int]);
        let d = (v[i] as u32 - 48) as i64;
        match acc.checked_mul(10) {
            Some(m) => match m.checked_add(d) {
                Some(n) => {
                    acc = n;
                },
                None => {
                    proof {
                        assert(whole.take(i + 1 - from) == v@.subrange(from as int, i + 1));
                        lemma_digits_value_prefix(whole, i + 1 - from);
                    }
                    return None;
                },
            },
            None => {
                proof {
                    assert(whole.take(i + 1 - from) == v@.subrange(from as int, i + 1));
                    lemma_digits_value_prefix(whole, i + 1 - from);
                }
                return None;
            },
        }
        i = i + 1;
    }
    Some(acc)
}


impl Scanner {
    /// Reads the indentation of the line that starts after a newline, and
    /// queues one `Indent` when it grew, or one `Dedent` per level closed.
    #[verifier::spinoff_prover]
    #[verifier::rlimit(50)]
    fn handle_newline(&mut self, start: Mark) -> (r: Result<Token, String>)
        requires
            old(self).wf(),
            old(self).pending_tokens@.len() == 0,
            old(self).pos >= 1,
            old(self).source@[old(self).pos - 1] == '\n',
            marks(old(self).source@, start, old(self).pos - 1),
        ensures
            final(self).wf(),
            final(self).source == old(self).source,
            final(self).pos >= old(self).pos,
            final(self).potential() == old(self).potential(),
            2 * final(self).indent_stack@.len() + final(self).pending_tokens@.len() <= 2
                * old(self).indent_stack@.len() + 3,
            r is Ok ==> r->Ok_0.kind is Newline,
            final(self).indent_pending() ==> r is Ok,
            outcome(r) == newline_step(old(self).source@, old(self).pos - 1, old(self).indent_stack@).0,
            final(self).state() == newline_step(old(self).source@, old(self).pos - 1, old(self).indent_stack@).1,
    {
        let ghost src = self.source@;
        let ghost p1 = self.pos as int;
        let ghost levels0 = self.indent_stack@;
        let newline_token = self.make_token(TokenKind::Newline, "\\n", start, Ghost(p1 - 1));

        // Count spaces for indentation
        let mut indent_count: usize = 0;
        while !self.is_at_end()
            invariant
                self.wf(),
                self.source == old(self).source,
                self.pos >= old(self).pos,
                self.indent_stack == old(self).indent_stack,
                self.pending_tokens == old(self).pending_tokens,
                self.pending_tokens@.len() == 0,
                indent_count <= self.pos,
                src == self.source@,
                p1 == old(self).pos,
                indent_count == self.pos - p1,
                run_end(src, p1, Run::Space) == run_end(src, self.pos as int, Run::Space),
            ensures
                run_end(src, self.pos as int, Run::Space) == self.pos,
                self.pos < src.len() ==> src[self.pos as int] != '\t',
            decreases self.source@.len() - self.pos,
        {
            let c = self.peek();
            if c == ' ' {
                indent_count += 1;
                self.advance();
            } else if c == '\t' {
                proof {
                    reveal_strlit("Tabs are not allowed for indentation");
                    assert(tokens_view(self.pending_tokens@) =~= seq![]);
                    assert(run_end(src, self.pos as int, Run::Space) == self.pos);
                }
                return Err(message_at_line("Tabs are not allowed for indentation", self.line));
            } else {
                break;
            }
        }
        let ghost e = self.pos as int;

        // If line is entirely blank or just a comment, ignore its indentation
        if self.is_at_end() || self.peek() == '\n' || self.peek() == '#' {
            proof {
                assert(tokens_view(self.pending_tokens@) =~= seq![]);
            }
            return Ok(newline_token);
        }

        let current_indent = self.indent_stack[self.indent_stack.len() - 1];

        if indent_count > current_indent && indent_count - current_indent != 4 {
            proof {
                reveal_strlit("Indentation error");
                assert(tokens_view(self.pending_tokens@) =~= seq![]);
            }
            return Err(message_at_line("Indentation error", self.line));
        }
        if indent_count > current_indent {
            let ghost old_stack = self.indent_stack@;
            self.indent_stack.push(indent_count);
            let t = self.make_token(TokenKind::Indent, "", self.mark(), Ghost(e));
            self.pending_tokens.push_back(t);
            proof {
                reveal_strlit("");
                assert forall|i: int, j: int|
                    0 <= i < j < self.indent_stack@.len() implies self.indent_stack@[i] < self.indent_stack@[j] by {
                    if j == old_stack.len() {
                        if i < old_stack.len() - 1 {
                            assert(old_stack[i] < old_stack[old_stack.len() - 1]);
                        }
                    }
                }
                lemma_depth_push(seq![], t);
                assert(self.pending_tokens@ == seq![].push(t));
                assert(depth(Seq::<Token>::empty()) == 0);
                assert(tokens_view(self.pending_tokens@) =~= seq![token_view(t)]);
                assert(""@ =~= Seq::<char>::empty());
                assert(self.indent_stack@ =~= levels0.push(indent_count));
            }
        } else {
            let ghost s0 = self.indent_stack@.len();
            let ghost count = indent_count as int;
            proof {
                assert(tokens_view(self.pending_tokens@) =~= Seq::new(0nat, |i: int| made(KindView::Plain(TokenKind::Dedent), seq![], src, e, e)));
                assert(levels0.take(s0 as int) =~= levels0);
            }
            loop
                invariant_except_break
                    self.wf(),
                    self.source == old(self).source,
                    self.pos >= old(self).pos,
                    all_dedents(self.pending_tokens@),
                    self.potential() == old(self).potential(),
                    self.indent_stack@.len() + self.pending_tokens@.len() == s0,
                    s0 == old(self).indent_stack@.len(),
                    self.pos == e,
                    count == indent_count,
                    count <= levels0.last(),
                    levels0 == old(self).indent_stack@,
                    self.indent_stack@ == levels0.take(self.indent_stack@.len() as int),
                    self.indent_stack@.len() >= 1,
                    kept_levels(levels0, count) == kept_levels(self.indent_stack@, count),
                    tokens_view(self.pending_tokens@) == Seq::new(self.pending_tokens@.len(), |i: int| made(KindView::Plain(TokenKind::Dedent), seq![], src, e, e)),
                invariant
                    src == old(self).source@,
                    p1 == old(self).pos,
                    e == run_end(src, p1, Run::Space),
                    0 <= e < src.len(),
                    src[e] != '\t' && src[e] != '\n' && src[e] != '#',
                    count == e - p1,
                    count <= levels0.last(),
                    levels0 == old(self).indent_stack@,
                ensures
                    self.wf(),
                    self.source == old(self).source,
                    self.pos >= old(self).pos,
                    all_dedents(self.pending_tokens@),
                    self.potential() == old(self).potential(),
                    self.indent_stack@.len() + self.pending_tokens@.len() == s0,
                    self.pos == e,
                    self.indent_stack@ == levels0.take(self.indent_stack@.len() as int),
                    kept_levels(levels0, count) == self.indent_stack@.len(),
                    self.indent_stack@.last() == count,
                    tokens_view(self.pending_tokens@) == Seq::new(self.pending_tokens@.len(), |i: int| made(KindView::Plain(TokenKind::Dedent), seq![], src, e, e)),
                decreases self.indent_stack@.len(),
            {
                let top = self.indent_stack[self.indent_stack.len() - 1];
                if top > indent_count {
                    assert(self.indent_stack@.len() >= 2) by {
                        if self.indent_stack@.len() == 1 {
                            assert(top == 0);
                        }
                    }
                    let ghost before = self.pending_tokens@;
                    let ghost st = self.indent_stack@;
                    self.indent_stack.pop();
                    let t = self.make_token(TokenKind::Dedent, "", self.mark(), Ghost(e));
                    self.pending_tokens.push_back(t);
                    proof {
                        reveal_strlit("");
                        lemma_depth_push(before, t);
                        assert(""@ =~= Seq::<char>::empty());
                        assert(token_view(t) == made(KindView::Plain(TokenKind::Dedent), seq![], src, e, e));
                        assert(self.indent_stack@ =~= st.drop_last());
                        assert(self.indent_stack@ =~= levels0.take(self.indent_stack@.len() as int));
                        assert(tokens_view(self.pending_tokens@) =~= tokens_view(before).push(token_view(t)));
                        assert(tokens_view(self.pending_tokens@) =~= Seq::new(self.pending_tokens@.len(), |i: int| made(KindView::Plain(TokenKind::Dedent), seq![], src, e, e)));
                    }
                } else if top < indent_count {
                    proof {
                        reveal_strlit("Indentation error");
                        let k = kept_levels(levels0, count);
                        assert(k == self.indent_stack@.len());
                        assert(levels0[k - 1] == self.indent_stack@[k - 1]);
                    }
                    return Err(message_at_line("Indentation error", self.line));
                } else {
                    break;
                }
            }
            proof {
                let k = kept_levels(levels0, count);
                assert(levels0[k - 1] == self.indent_stack@[k - 1]);
                assert(tokens_view(self.pending_tokens@) =~= Seq::new((levels0.len() - k) as nat, |i: int| made(KindView::Plain(TokenKind::Dedent), seq![], src, e, e)));
            }
        }
        // Return the newline, subsequent calls will fetch the Indent/Dedent from pending_tokens
        Ok(newline_token)
    }

    /// Reads a string literal whose opening quote was just consumed.
    fn string_literal(&mut self, quote: char, start: Mark) -> (r: Result<Token, String>)
        requires
            old(self).wf(),
            old(self).pos >= 1,
            old(self).source@[old(self).pos - 1] == quote,
            is_quote(quote),
            marks(old(self).source@, start, old(self).pos - 1),
            old(self).pending_tokens@.len() == 0,
        ensures
            final(self).wf(),
            final(self).source == old(self).source,
            final(self).pos >= old(self).pos,
            final(self).indent_stack == old(self).indent_stack,
            final(self).pending_tokens == old(self).pending_tokens,
            r is Ok ==> r->Ok_0.kind is StringLiteral,
            outcome(r) == string_step(old(self).source@, old(self).pos - 1, old(self).indent_stack@).0,
            final(self).state() == string_step(old(self).source@, old(self).pos - 1, old(self).indent_stack@).1,
    {
        let start_pos = self.pos - 1;
        let ghost src = self.source@;

        let mut value = String::new();
        proof {
            assert(value@ =~= src.subrange(start_pos + 1, self.pos as int));
        }
        while !self.is_at_end() && self.peek() != quote
            invariant
                self.wf(),
                self.source == old(self).source,
                src == self.source@,
                self.pos >= old(self).pos,
                start_pos + 1 == old(self).pos,
                self.indent_stack == old(self).indent_stack,
                self.pending_tokens == old(self).pending_tokens,
                value@ == self.source@.subrange(start_pos + 1, self.pos as int),
                !value@.contains(quote),
                run_end(src, start_pos + 1, Run::Quoted(quote)) == run_end(src, self.pos as int, Run::Quoted(quote)),
            decreases self.source@.len() - self.pos,
        {
            let ghost before = value@;
            let c = self.advance();
            push_char(&mut value, c);
            assert(self.source@.subrange(start_pos + 1, self.pos as int) == before.push(c));
            assert(value@.drop_last() == before);
            assert(!value@.contains(quote)) by {
                if value@.contains(quote) {
                    let k = choose|k: int| 0 <= k < value@.len() && value@[k] == quote;
                    if k < before.len() {
                        assert(before[k] == quote);
                    }
                }
            }
        }

        if self.is_at_end() {
            proof {
                reveal_strlit("Unterminated string literal");
                assert(tokens_view(self.pending_tokens@) =~= seq![]);
            }
            return Err(message_at_line("Unterminated string literal", self.line));
        }

        // Consume the closing quote
        self.advance();
        proof {
            reveal_strlit("");
            assert(""@ =~= Seq::<char>::empty());
            assert(tokens_view(self.pending_tokens@) =~= seq![]);
        }
        Ok(Token {
            kind: TokenKind::StringLiteral(value),
            lexeme: "".to_string(),
            span: Span { start: start.bytes, end: self.bytes, line: start.line, column: start.column },
        })
    }

    /// Reads a number whose first digit was just consumed: digits, then
    /// optionally a dot and more digits.
    fn number_literal(&mut self, start: Mark) -> (r: Result<Token, String>)
        requires
            old(self).wf(),
            old(self).pos >= 1,
            is_digit(old(self).source@[old(self).pos - 1]),
            old(self).pending_tokens@.len() == 0,
            marks(old(self).source@, start, old(self).pos - 1),
        ensures
            final(self).wf(),
            final(self).source == old(self).source,
            final(self).pos >= old(self).pos,
            final(self).indent_stack == old(self).indent_stack,
            final(self).pending_tokens == old(self).pending_tokens,
            r is Ok ==> (r->Ok_0.kind is IntLiteral || r->Ok_0.kind is FloatLiteral),
            r is Err ==> r->Err_0@ == INT_LITERAL_OVERFLOW@,
            outcome(r) == number_step(old(self).source@, old(self).pos - 1, old(self).indent_stack@).0,
            final(self).state() == number_step(old(self).source@, old(self).pos - 1, old(self).indent_stack@).1,
    {
        let start_pos = self.pos - 1;
        let mut is_float = false;
        let ghost src = self.source@;

        while !self.is_at_end() && char_is_digit(self.peek())
            invariant
                self.wf(),
                self.source == old(self).source,
                src == self.source@,
                self.pos >= old(self).pos,
                start_pos + 1 == old(self).pos,
                self.indent_stack == old(self).indent_stack,
                self.pending_tokens == old(self).pending_tokens,
                all_digits(self.source@.subrange(start_pos as int, self.pos as int)),
                run_end(src, start_pos + 1, Run::Digit) == run_end(src, self.pos as int, Run::Digit),
            decreases self.source@.len() - self.pos,
        {
            self.advance();
            assert(self.source@.subrange(start_pos as int, self.pos as int) == self.source@.subrange(start_pos as int, self.pos - 1).push(self.source@[self.pos - 1]));
        }
        let dot = self.pos;
        assert(dot == run_end(src, start_pos + 1, Run::Digit));

        if !self.is_at_end() && self.peek() == '.' && char_is_digit(self.peek_next()) {
            is_float = true;
            self.advance(); // consume '.'
            while !self.is_at_end() && char_is_digit(self.peek())
                invariant
                    self.wf(),
                    self.source == old(self).source,
                    self.pos > dot,
                    dot >= old(self).pos,
                    self.source@[dot as int] == '.',
                    self.indent_stack == old(self).indent_stack,
                    self.pending_tokens == old(self).pending_tokens,
                    all_digits(self.source@.subrange(start_pos as int, dot as int)),
                    all_digits(self.source@.subrange(dot + 1, self.pos as int)),
                    is_float && (self.pos > dot + 1 || (dot + 1 < self.source@.len() && is_digit(self.source@[dot + 1]))),
                    src == self.source@,
                    start_pos + 1 == old(self).pos,
                    dot == run_end(src, start_pos + 1, Run::Digit),
                    dot + 1 < src.len() && is_digit(src[dot + 1]),
                    run_end(src, dot + 1, Run::Digit) == run_end(src, self.pos as int, Run::Digit),
                decreases self.source@.len() - self.pos,
            {
                self.advance();
                assert(self.source@.subrange(dot + 1, self.pos as int) == self.source@.subrange(dot + 1, self.pos - 1).push(self.source@[self.pos - 1]));
            }
        }

        let text = string_from_chars(&self.source, start_pos, self.pos);
        proof {
            assert(tokens_view(self.pending_tokens@) =~= seq![]);
            assert(self.pos == number_end(src, start_pos as int));
        }
        if is_float {
            let ghost t = text@;
            proof {
                let d = dot - start_pos;
                assert(t.take(d) == self.source@.subrange(start_pos as int, dot as int));
                assert(t.skip(d + 1) == self.source@.subrange(dot + 1, self.pos as int));
                assert(t[d] == '.');
                assert(0 < d < t.len() - 1);
            }
            Ok(self.make_token(TokenKind::FloatLiteral(text.clone()), text.as_str(), start, Ghost(start_pos as int)))
        } else {
            match digits_to_i64(&self.source, start_pos, self.pos) {
                Some(n) => Ok(self.make_token(TokenKind::IntLiteral(n), text.as_str(), start, Ghost(start_pos as int))),
                None => Err(owned(INT_LITERAL_OVERFLOW)),
            }
        }
    }

    /// Reads a word whose first character was just consumed; reserved words
    /// get their keyword kind, anything else is an identifier.
    fn identifier(&mut self, start: Mark) -> (r: Result<Token, String>)
        requires
            old(self).wf(),
            old(self).pos >= 1,
            old(self).pending_tokens@.len() == 0,
            marks(old(self).source@, start, old(self).pos - 1),
        ensures
            final(self).wf(),
            final(self).source == old(self).source,
            final(self).pos >= old(self).pos,
            final(self).indent_stack == old(self).indent_stack,
            final(self).pending_tokens == old(self).pending_tokens,
            r is Ok,
            kdepth(r->Ok_0.kind) == 0,
            !(r->Ok_0.kind is Eof) && !(r->Ok_0.kind is Newline),
            outcome(r) == word_step(old(self).source@, old(self).pos - 1, old(self).indent_stack@).0,
            final(self).state() == word_step(old(self).source@, old(self).pos - 1, old(self).indent_stack@).1,
    {
        let start_pos = self.pos - 1;
        let ghost src = self.source@;

        while !self.is_at_end() && (char_is_alphanumeric(self.peek()) || self.peek() == '_')
            invariant
                self.wf(),
                self.source == old(self).source,
                self.pos >= old(self).pos,
                self.indent_stack == old(self).indent_stack,
                self.pending_tokens == old(self).pending_tokens,
                src == self.source@,
                start_pos + 1 == old(self).pos,
                run_end(src, start_pos + 1, Run::Word) == run_end(src, self.pos as int, Run::Word),
            decreases self.source@.len() - self.pos,
        {
            self.advance();
        }

        let text = string_from_chars(&self.source, start_pos, self.pos);
        let t = text.as_str();
        let kind = if str_eq(t, "int") {
            TokenKind::KwInt
        } else if str_eq(t, "float") {
            TokenKind::KwFloat
        } else if str_eq(t, "string") {
            TokenKind::KwString
        } else if str_eq(t, "bool") {
            TokenKind::KwBool
        } else if str_eq(t, "struct") {
            TokenKind::KwStruct
        } else if str_eq(t, "object") {
            TokenKind::KwObject
        } else if str_eq(t, "behaviour") {
            TokenKind::KwBehaviour
        } else if str_eq(t, "func") {
            TokenKind::KwFunc
        } else if str_eq(t, "buffer") {
            TokenKind::KwBuffer
        } else if str_eq(t, "ref") {
            TokenKind::KwRef
        } else if str_eq(t, "enum") {
            TokenKind::KwEnum
        } else if str_eq(t, "task") {
            TokenKind::KwTask
        } else if str_eq(t, "signal") {
            TokenKind::KwSignal
        } else if str_eq(t, "const") {
            TokenKind::KwConst
        } else if str_eq(t, "export") {
            TokenKind::KwExport
        } else if str_eq(t, "exclude") {
            TokenKind::KwExclude
        } else if str_eq(t, "import") {
            TokenKind::KwImport
        } else if str_eq(t, "from") {
            TokenKind::KwFrom
        } else if str_eq(t, "uses") {
            TokenKind::KwUses
        } else if str_eq(t, "if") {
            TokenKind::KwIf
        } else if str_eq(t, "else") {
            TokenKind::KwElse
        } else if str_eq(t, "elif") {
            TokenKind::KwElif
        } else if str_eq(t, "for") {
            TokenKind::KwFor
        } else if str_eq(t, "while") {
            TokenKind::KwWhile
        } else if str_eq(t, "in") {
            TokenKind::KwIn
        } else if str_eq(t, "return") {
            TokenKind::KwReturn
        } else if str_eq(t, "true") {
            TokenKind::BoolLiteral(true)
        } else if str_eq(t, "false") {
            TokenKind::BoolLiteral(false)
        } else {
            TokenKind::Identifier(text.clone())
        };
        proof {
            crate::lexer::token::lemma_keyword_spelling(text@);
            assert(tokens_view(self.pending_tokens@) =~= seq![]);
            assert(kind_view(kind) == word_kind(text@));
        }
        Ok(self.make_token(kind, t, start, Ghost(start_pos as int)))
    }
}


/// The characters that start an operator or a delimiter.
pub open spec fn is_operator_start(c: char) -> bool {
    c == '(' || c == ')' || c == '[' || c == ']' || c == ',' || c == ':' || c == '.' || c == '@' || c == '%' || c == '-' || c == '+' || c == '*' || c == '/' || c == '=' || c == '!' || c == '<' || c == '>' || c == '&' || c == '|'
}

impl Scanner {
    /// A token of fixed spelling that ends at the current position.
    fn fixed_token(&self, kind: TokenKind, lexeme: &str, start: Mark, Ghost(a): Ghost<int>) -> (t: Token)
        requires
            self.wf(),
            0 <= a <= self.pos,
            marks(self.source@, start, a),
            fixed_spelling(kind) == Some(lexeme@),
            lexeme@.len() <= self.pos <= self.source@.len(),
            self.source@.subrange(self.pos - lexeme@.len(), self.pos as int) == lexeme@,
        ensures
            t.kind == kind,
            token_view(t) == made(kind_view(kind), lexeme@, self.source@, a, self.pos as int),
    {
        self.make_token(kind, lexeme, start, Ghost(a))
    }

    /// Reads an operator or delimiter whose first character `c` was just
    /// consumed.
    #[verifier::spinoff_prover]
    #[verifier::rlimit(50)]
    fn operator(&mut self, c: char, start: Mark) -> (r: Result<Token, String>)
        requires
            old(self).wf(),
            old(self).pos >= 1,
            old(self).source@[old(self).pos - 1] == c,
            is_operator_start(c),
            old(self).pending_tokens@.len() == 0,
            marks(old(self).source@, start, old(self).pos - 1),
        ensures
            final(self).wf(),
            final(self).source == old(self).source,
            final(self).pos >= old(self).pos,
            final(self).indent_stack == old(self).indent_stack,
            final(self).pending_tokens == old(self).pending_tokens,
            r is Ok ==> kdepth(r->Ok_0.kind) == 0
                && !(r->Ok_0.kind is Eof) && !(r->Ok_0.kind is Newline),
            outcome(r) == operator_step(old(self).source@, old(self).pos - 1, old(self).indent_stack@).0,
            final(self).state() == operator_step(old(self).source@, old(self).pos - 1, old(self).indent_stack@).1,
    {
        proof {
            assert(tokens_view(self.pending_tokens@) =~= seq![]);
        }
        let ghost p0 = self.pos as int;
        if c == '(' {
            proof {
                reveal_strlit("(");
                assert(self.source@.subrange(p0 - 1, p0) =~= "("@);
            }
            Ok(self.fixed_token(TokenKind::LeftParen, "(", start, Ghost(p0 - 1)))
        } else if c == ')' {
            proof {
                reveal_strlit(")");
                assert(self.source@.subrange(p0 - 1, p0) =~= ")"@);
            }
            Ok(self.fixed_token(TokenKind::RightParen, ")", start, Ghost(p0 - 1)))
        } else if c == '[' {
            proof {
                reveal_strlit("[");
                assert(self.source@.subrange(p0 - 1, p0) =~= "["@);
            }
            Ok(self.fixed_token(TokenKind::LeftBracket, "[", start, Ghost(p0 - 1)))
        } else if c == ']' {
            proof {
                reveal_strlit("]");
                assert(self.source@.subrange(p0 - 1, p0) =~= "]"@);
            }
            Ok(self.fixed_token(TokenKind::RightBracket, "]", start, Ghost(p0 - 1)))
        } else if c == ',' {
            proof {
                reveal_strlit(",");
                assert(self.source@.subrange(p0 - 1, p0) =~= ","@);
            }
            Ok(self.fixed_token(TokenKind::Comma, ",", start, Ghost(p0 - 1)))
        } else if c == ':' {
            proof {
                reveal_strlit(":");
                assert(self.source@.subrange(p0 - 1, p0) =~= ":"@);
            }
            Ok(self.fixed_token(TokenKind::Colon, ":", start, Ghost(p0 - 1)))
        } else if c == '.' {
            proof {
                reveal_strlit(".");
                assert(self.source@.subrange(p0 - 1, p0) =~= "."@);
            }
            Ok(self.fixed_token(TokenKind::Dot, ".", start, Ghost(p0 - 1)))
        } else if c == '@' {
            proof {
                reveal_strlit("@");
                assert(self.source@.subrange(p0 - 1, p0) =~= "@"@);
            }
            Ok(self.fixed_token(TokenKind::At, "@", start, Ghost(p0 - 1)))
        } else if c == '%' {
            proof {
                reveal_strlit("%");
                assert(self.source@.subrange(p0 - 1, p0) =~= "%"@);
            }
            Ok(self.fixed_token(TokenKind::Percent, "%", start, Ghost(p0 - 1)))
        } else if c == '-' {
            if self.match_char('>') {
                proof {
                    reveal_strlit("->");
                    assert(self.source@.subrange(p0 - 1, p0 + 1) =~= "->"@);
                }
                Ok(self.fixed_token(TokenKind::Arrow, "->", start, Ghost(p0 - 1)))
            } else if self.match_char('=') {
                proof {
                    reveal_strlit("-=");
                    assert(self.source@.subrange(p0 - 1, p0 + 1) =~= "-="@);
                }
                Ok(self.fixed_token(TokenKind::MinusEqual, "-=", start, Ghost(p0 - 1)))
            } else {
                proof {
                    reveal_strlit("-");
                    assert(self.source@.subrange(p0 - 1, p0) =~= "-"@);
                }
                Ok(self.fixed_token(TokenKind::Minus, "-", start, Ghost(p0 - 1)))
            }
        } else if c == '+' {
            if self.match_char('=') {
                proof {
                    reveal_strlit("+=");
                    assert(self.source@.subrange(p0 - 1, p0 + 1) =~= "+="@);
                }
                Ok(self.fixed_token(TokenKind::PlusEqual, "+=", start, Ghost(p0 - 1)))
            } else {
                proof {
                    reveal_strlit("+");
                    assert(self.source@.subrange(p0 - 1, p0) =~= "+"@);
                }
                Ok(self.fixed_token(TokenKind::Plus, "+", start, Ghost(p0 - 1)))
            }
        } else if c == '*' {
            if self.match_char('=') {
                proof {
                    reveal_strlit("*=");
                    assert(self.source@.subrange(p0 - 1, p0 + 1) =~= "*="@);
                }
                Ok(self.fixed_token(TokenKind::StarEqual, "*=", start, Ghost(p0 - 1)))
            } else {
                proof {
                    reveal_strlit("*");
                    assert(self.source@.subrange(p0 - 1, p0) =~= "*"@);
                }
                Ok(self.fixed_token(TokenKind::Star, "*", start, Ghost(p0 - 1)))
            }
        } else if c == '/' {
            if self.match_char('=') {
                proof {
                    reveal_strlit("/=");
                    assert(self.source@.subrange(p0 - 1, p0 + 1) =~= "/="@);
                }
                Ok(self.fixed_token(TokenKind::SlashEqual, "/=", start, Ghost(p0 - 1)))
            } else {
                proof {
                    reveal_strlit("/");
                    assert(self.source@.subrange(p0 - 1, p0) =~= "/"@);
                }
                Ok(self.fixed_token(TokenKind::Slash, "/", start, Ghost(p0 - 1)))
            }
        } else if c == '=' {
            if self.match_char('=') {
                proof {
                    reveal_strlit("==");
                    assert(self.source@.subrange(p0 - 1, p0 + 1) =~= "=="@);
                }
                Ok(self.fixed_token(TokenKind::EqualEqual, "==", start, Ghost(p0 - 1)))
            } else {
                proof {
                    reveal_strlit("=");
                    assert(self.source@.subrange(p0 - 1, p0) =~= "="@);
                }
                Ok(self.fixed_token(TokenKind::Equal, "=", start, Ghost(p0 - 1)))
            }
        } else if c == '!' {
            if self.match_char('=') {
                proof {
                    reveal_strlit("!=");
                    assert(self.source@.subrange(p0 - 1, p0 + 1) =~= "!="@);
                }
                Ok(self.fixed_token(TokenKind::BangEqual, "!=", start, Ghost(p0 - 1)))
            } else {
                proof {
                    reveal_strlit("!");
                    assert(self.source@.subrange(p0 - 1, p0) =~= "!"@);
                }
                Ok(self.fixed_token(TokenKind::Bang, "!", start, Ghost(p0 - 1)))
            }
        } else if c == '<' {
            if self.match_char('=') {
                proof {
                    reveal_strlit("<=");
                    assert(self.source@.subrange(p0 - 1, p0 + 1) =~= "<="@);
                }
                Ok(self.fixed_token(TokenKind::LessEqual, "<=", start, Ghost(p0 - 1)))
            } else {
                proof {
                    reveal_strlit("<");
                    assert(self.source@.subrange(p0 - 1, p0) =~= "<"@);
                }
                Ok(self.fixed_token(TokenKind::Less, "<", start, Ghost(p0 - 1)))
            }
        } else if c == '>' {
            if self.match_char('=') {
                proof {
                    reveal_strlit(">=");
                    assert(self.source@.subrange(p0 - 1, p0 + 1) =~= ">="@);
                }
                Ok(self.fixed_token(TokenKind::GreaterEqual, ">=", start, Ghost(p0 - 1)))
            } else {
                proof {
                    reveal_strlit(">");
                    assert(self.source@.subrange(p0 - 1, p0) =~= ">"@);
                }
                Ok(self.fixed_token(TokenKind::Greater, ">", start, Ghost(p0 - 1)))
            }
        } else if c == '&' {
            if self.match_char('&') {
                proof {
                    reveal_strlit("&&");
                    assert(self.source@.subrange(p0 - 1, p0 + 1) =~= "&&"@);
                }
                Ok(self.fixed_token(TokenKind::And, "&&", start, Ghost(p0 - 1)))
            } else {
                Err(message_at_line_column("Expected '&'", self.line, self.column))
            }
        } else {
            // c == '|'
            if self.match_char('|') {
                proof {
                    reveal_strlit("||");
                    assert(self.source@.subrange(p0 - 1, p0 + 1) =~= "||"@);
                }
                Ok(self.fixed_token(TokenKind::Or, "||", start, Ghost(p0 - 1)))
            } else {
                Err(message_at_line_column("Expected '|'", self.line, self.column))
            }
        }
    }
}


impl Scanner {
    /// The next token. Queued `Indent` / `Dedent` / `Eof` tokens come first;
    /// at the end of the input every open block is closed by a `Dedent`
    /// before `Eof`, and `Eof` keeps coming after that. The token (or the
    /// error message) and the state after it are those of `scan_step`.
    #[verifier::spinoff_prover]
    #[verifier::rlimit(50)]
    pub fn next_token(&mut self) -> (r: Result<Token, String>)
        requires
            old(self).wf(),
        ensures
            final(self).wf(),
            final(self).text() == old(self).text(),
            final(self).position() >= old(self).position(),
            final(self).potential() == old(self).potential() + if r is Ok {
                kdepth(r->Ok_0.kind)
            } else {
                0
            },
            (r is Ok && r->Ok_0.kind is Indent) ==> old(self).indent_pending(),
            final(self).indent_pending() ==> (r is Ok && r->Ok_0.kind is Newline),
            (r is Ok && r->Ok_0.kind is Eof) ==> final(self).finished(),
            (r is Ok && !(r->Ok_0.kind is Eof)) ==> final(self).measure() < old(self).measure(),
            old(self).finished() ==> (r is Ok && r->Ok_0.kind is Eof),
            outcome(r) == scan_step(old(self).text(), old(self).state()).0,
            final(self).state() == scan_step(old(self).text(), old(self).state()).1,
        decreases old(self).text().len() - old(self).position(),
    {
        let ghost p_old = self.pending_tokens@;
        let ghost s0 = self.state();
        let ghost src = self.source@;
        if let Some(token) = self.pending_tokens.pop_front() {
            proof {
                assert(tokens_view(self.pending_tokens@) =~= tokens_view(p_old).drop_first());
                lemma_depth_front(p_old);
                let rest = self.pending_tokens@;
                assert(rest == p_old.subrange(1, p_old.len() as int));
                if all_dedents(p_old) {
                    assert(all_dedents(rest));
                } else if p_old.len() == 1 && p_old[0].kind is Indent {
                    assert(rest.len() == 0);
                    assert(all_dedents(rest));
                } else {
                    if p_old.len() >= 2 {
                        assert(p_old.drop_last()[0] == p_old[0]);
                        assert(rest.last() == p_old.last());
                        assert(rest.drop_last() == p_old.drop_last().subrange(1, p_old.len() - 1));
                        assert forall|i: int| 0 <= i < rest.drop_last().len() implies (#[trigger] rest.drop_last()[i]).kind is Dedent by {
                            assert(rest.drop_last()[i] == p_old.drop_last()[i + 1]);
                        }
                    } else {
                        assert(rest.len() == 0);
                        assert(all_dedents(rest));
                    }
                }
                if token.kind is Eof {
                    if p_old.len() >= 2 {
                        assert(p_old.drop_last()[0] == p_old[0]);
                    }
                }
                if rest.len() > 0 {
                    assert(rest[0] == p_old[1]);
                    if p_old.len() >= 2 && !all_dedents(p_old) {
                        if rest.len() >= 2 {
                            assert(rest[0] == p_old.drop_last()[1]);
                        }
                    }
                }
            }
            return Ok(token);
        }

        self.skip_whitespace();
        let ghost p = self.pos as int;
        let start = self.mark();
        proof {
            assert(tokens_view(self.pending_tokens@) =~= seq![]);
            assert(s0.pending =~= seq![]);
        }

        if self.is_at_end() {
            // Process remaining dedents
            let ghost n0 = self.indent_stack@.len();
            let ghost levels0 = self.indent_stack@;
            proof {
                assert(levels0.take(n0 as int) =~= levels0);
                assert(tokens_view(self.pending_tokens@) =~= Seq::new(0nat, |i: int| made(KindView::Plain(TokenKind::Dedent), seq![], src, p, p)));
            }
            while self.indent_stack.len() > 1
                invariant
                    self.wf(),
                    self.source == old(self).source,
                    self.pos == self.source@.len(),
                    all_dedents(self.pending_tokens@),
                    self.potential() == old(self).potential(),
                    self.indent_stack@.len() + self.pending_tokens@.len() == n0,
                    n0 == old(self).indent_stack@.len(),
                    levels0 == old(self).indent_stack@,
                    self.pos == p,
                    src == self.source@,
                    self.indent_stack@ == levels0.take(self.indent_stack@.len() as int),
                    tokens_view(self.pending_tokens@) == Seq::new(self.pending_tokens@.len(), |i: int| made(KindView::Plain(TokenKind::Dedent), seq![], src, p, p)),
                decreases self.indent_stack@.len(),
            {
                let ghost before = self.pending_tokens@;
                let ghost st = self.indent_stack@;
                self.indent_stack.pop();
                let t = self.make_token(TokenKind::Dedent, "", self.mark(), Ghost(p));
                self.pending_tokens.push_back(t);
                proof {
                    reveal_strlit("");
                    lemma_depth_push(before, t);
                    assert(""@ =~= Seq::<char>::empty());
                    assert(self.indent_stack@ =~= st.drop_last());
                    assert(self.indent_stack@ =~= levels0.take(self.indent_stack@.len() as int));
                    assert(tokens_view(self.pending_tokens@) =~= tokens_view(before).push(token_view(t)));
                    assert(tokens_view(self.pending_tokens@) =~= Seq::new(self.pending_tokens@.len(), |i: int| made(KindView::Plain(TokenKind::Dedent), seq![], src, p, p)));
                }
            }
            let ghost before = self.pending_tokens@;
            let t = self.make_token(TokenKind::Eof, "", self.mark(), Ghost(p));
            self.pending_tokens.push_back(t);
            proof {
                reveal_strlit("");
                assert(""@ =~= Seq::<char>::empty());
                assert(tokens_view(self.pending_tokens@) =~= tokens_view(before).push(token_view(t)));
                assert(tokens_view(self.pending_tokens@) =~= Seq::new((levels0.len() - 1) as nat, |i: int| made(KindView::Plain(TokenKind::Dedent), seq![], src, p, p)).push(made(KindView::Plain(TokenKind::Eof), seq![], src, p, p)));
                lemma_depth_push(before, t);
                assert(self.pending_tokens@.drop_last() == before);
                lemma_depth_front(self.pending_tokens@);
                if before.len() > 0 {
                    assert(self.pending_tokens@[0] == before[0]);
                }
            }
            let ghost p1 = self.pending_tokens@;
            let first = self.pending_tokens.pop_front();
            proof {
                let rest = self.pending_tokens@;
                assert(rest == p1.subrange(1, p1.len() as int));
                assert(tokens_view(rest) =~= tokens_view(p1).drop_first());
                assert(self.indent_stack@ =~= levels0.take(1));
                if before.len() > 0 {
                    assert(rest.last() == t);
                    assert(rest.drop_last() == before.subrange(1, before.len() as int));
                    assert forall|i: int| 0 <= i < rest.drop_last().len() implies (#[trigger] rest.drop_last()[i]).kind is Dedent by {
                        assert(rest.drop_last()[i] == before[i + 1]);
                    }
                    assert(rest[0].kind is Dedent || rest[0].kind is Eof);
                } else {
                    assert(rest.len() == 0);
                }
            }
            return Ok(first.unwrap());
        }

        let c = self.advance();

        if c == '\n' {
            self.handle_newline(start)
        } else if c == '(' || c == ')' || c == '[' || c == ']' || c == ',' || c == ':' || c == '.'
            || c == '@' || c == '%' || c == '-' || c == '+' || c == '*' || c == '/' || c == '='
            || c == '!' || c == '<' || c == '>' || c == '&' || c == '|' {
            self.operator(c, start)
        } else if c == '"' || c == '\'' {
            self.string_literal(c, start)
        } else if c == '#' {
            // Comment, consume until end of line
            while !self.is_at_end() && self.peek() != '\n'
                invariant
                    self.wf(),
                    self.source == old(self).source,
                    self.pos > old(self).pos,
                    self.indent_stack@ == old(self).indent_stack@,
                    self.pending_tokens@.len() == 0,
                    src == self.source@,
                    run_end(src, p + 1, Run::Comment) == run_end(src, self.pos as int, Run::Comment),
                    self.pos > p,
                decreases self.source@.len() - self.pos,
            {
                self.advance();
            }
            proof {
                lemma_run_end(src, p + 1, Run::Comment);
                assert(tokens_view(self.pending_tokens@) =~= seq![]);
                let e = run_end(src, p + 1, Run::Comment);
                assert(self.state() == ScanView { pos: e, ..s0 });
            }
            self.next_token() // Recursively get the next actual token
        } else if char_is_digit(c) {
            self.number_literal(start)
        } else if char_is_alphabetic(c) || c == '_' {
            self.identifier(start)
        } else {
            let mut m = owned("Unexpected character '");
            push_char(&mut m, c);
            m.append("'");
            proof {
                assert(m@ =~= "Unexpected character '"@ + seq![c] + "'"@);
            }
            Err(message_at_line_column(m.as_str(), self.line, self.column))
        }
    }

    /// Scans the whole input. The tokens end with `Eof`, and when there is
    /// any other token the one before `Eof` is a `Newline`, `Indent` or
    /// `Dedent`. The tokens, or the first error, are those of `scan_run`.
    #[verifier::spinoff_prover]
    #[verifier::rlimit(50)]
    pub fn scan_all(&mut self) -> (r: Result<Vec<Token>, String>)
        requires
            old(self).wf(),
        ensures
            final(self).wf(),
            final(self).text() == old(self).text(),
            r is Ok ==> {
                let ts = r->Ok_0@;
                &&& token_stream(ts)
                &&& depth(ts) == 1 - old(self).potential()
                &&& (old(self).potential() == 1 ==> never_below_zero(ts))
                &&& (old(self).indent_pending() || indents_follow_newlines(ts))
                &&& final(self).finished()
            },
            match scan_run(old(self).text(), old(self).state(), seq![]) {
                Ok(ts) => r is Ok && tokens_view(r->Ok_0@) == ts,
                Err(e) => r is Err && r->Err_0@ == e,
            },
    {
        let mut tokens: Vec<Token> = Vec::new();
        let ghost src = self.source@;
        let ghost s0 = self.state();
        proof {
            self.lemma_potential_positive();
            assert(tokens@.take(0) == tokens@);
            assert(tokens_view(tokens@) =~= seq![]);
        }
        loop
            invariant
                self.wf(),
                self.text() == old(self).text(),
                no_eof_yet(tokens@, old(self).text()),
                depth(tokens@) == self.potential() - old(self).potential(),
                old(self).potential() == 1 ==> never_below_zero(tokens@),
                old(self).indent_pending() || indents_follow_newlines(tokens@),
                !old(self).indent_pending() ==> (self.indent_pending() ==> tokens@.len() > 0
                    && tokens@.last().kind is Newline),
                src == old(self).text(),
                s0 == old(self).state(),
                scan_run(src, s0, seq![]) == scan_run(src, self.state(), tokens_view(tokens@)),
            decreases self.measure(),
        {
            let ghost t0 = tokens@;
            let ghost st = self.state();
            proof {
                self.lemma_state_measure();
            }
            let token = match self.next_token() {
                Ok(t) => t,
                Err(e) => {
                    return Err(e);
                },
            };
            proof {
                self.lemma_potential_positive();
                self.lemma_state_measure();
                lemma_depth_push(t0, token);
            }
            if matches!(token.kind, TokenKind::Eof) {
                close_stream(&mut tokens, token, Ghost(old(self).text()), Ghost(old(self).potential() == 1));
                return Ok(tokens);
            }
            tokens.push(token);
            proof {
                assert(tokens_view(tokens@) =~= tokens_view(t0).push(token_view(token)));
                if old(self).potential() == 1 {
                    lemma_never_below_zero_push(t0, token);
                }
                assert forall|i: int| 0 <= i < tokens@.len() implies !((#[trigger] tokens@[i]).kind is Eof) by {
                    if i < t0.len() {
                        assert(tokens@[i] == t0[i]);
                    }
                }
                if !old(self).indent_pending() {
                    assert forall|i: int| 0 <= i < tokens@.len() && (#[trigger] tokens@[i]).kind is Indent implies i > 0 && tokens@[i - 1].kind is Newline by {
                        if i < t0.len() {
                            assert(tokens@[i] == t0[i]);
                            assert(tokens@[i - 1] == t0[i - 1]);
                        } else {
                            assert(tokens@[i - 1] == t0.last());
                        }
                    }
                }
            }
        }
    }
}

/// A token stream as the parsers expect it: it ends with its one `Eof`, and
/// when there is any other token the one before `Eof` is a `Newline`,
/// `Indent` or `Dedent`.
pub open spec fn token_stream(ts: Seq<Token>) -> bool {
    &&& ts.len() >= 1
    &&& ts.last().kind is Eof
    &&& forall|i: int| 0 <= i < ts.len() - 1 ==> !((#[trigger] ts[i]).kind is Eof)
    &&& ts.len() >= 2 ==> (ts[ts.len() - 2].kind is Newline || ts[ts.len() - 2].kind is Indent
        || ts[ts.len() - 2].kind is Dedent)
}

/// What the parsers need of their tokens: the last one is `Eof`.
pub open spec fn parser_input(ts: Seq<Token>) -> bool {
    &&& ts.len() >= 1
    &&& ts.last().kind is Eof
}

/// Tokens read so far: no `Eof` among them.
pub open spec fn no_eof_yet(ts: Seq<Token>, src: Seq<char>) -> bool {
    forall|i: int| 0 <= i < ts.len() ==> !((#[trigger] ts[i]).kind is Eof)
}

/// Ends a token stream with `eof`, first adding a `Newline` when the last
/// token is not already a line or block boundary.
fn close_stream(tokens: &mut Vec<Token>, eof: Token, Ghost(src): Ghost<Seq<char>>, Ghost(from_top): Ghost<bool>)
    requires
        eof.kind is Eof,
        no_eof_yet(old(tokens)@, src),
        from_top ==> never_below_zero(old(tokens)@),
    ensures
        token_stream(final(tokens)@),
        depth(final(tokens)@) == depth(old(tokens)@),
        from_top ==> never_below_zero(final(tokens)@),
        indents_follow_newlines(old(tokens)@) ==> indents_follow_newlines(final(tokens)@),
        tokens_view(final(tokens)@) == close_tokens(tokens_view(old(tokens)@), token_view(eof)),
{
    let ghost t0 = tokens@;
    assert(t0.take(t0.len() as int) == t0);
    let n = tokens.len();
    if n > 0 {
        if !matches!(tokens[n - 1].kind, TokenKind::Newline | TokenKind::Dedent | TokenKind::Indent) {
            let nl = Token { kind: TokenKind::Newline, lexeme: "".to_string(), span: eof.span };
            tokens.push(nl);
            proof {
                reveal_strlit("");
                assert(""@ =~= Seq::<char>::empty());
                assert(tokens_view(tokens@) =~= tokens_view(t0).push(token_view(nl)));
                lemma_depth_push(t0, nl);
                if from_top {
                    lemma_never_below_zero_push(t0, nl);
                }
            }
        }
    }
    let ghost t1 = tokens@;
    assert(t1.take(t1.len() as int) == t1);
    assert(no_eof_yet(t1, src)) by {
        assert forall|i: int| 0 <= i < t1.len() implies !((#[trigger] t1[i]).kind is Eof) by {
            if i < t0.len() {
                assert(t1[i] == t0[i]);
            }
        }
    }
    assert(indents_follow_newlines(t0) ==> indents_follow_newlines(t1)) by {
        if indents_follow_newlines(t0) {
            assert forall|i: int| 0 <= i < t1.len() && (#[trigger] t1[i]).kind is Indent implies i > 0 && t1[i - 1].kind is Newline by {
                assert(t1[i] == t0[i]);
                assert(t1[i - 1] == t0[i - 1]);
            }
        }
    }
    tokens.push(eof);
    proof {
        assert(tokens_view(tokens@) =~= tokens_view(t1).push(token_view(eof)));
        lemma_depth_push(t1, eof);
        if from_top {
            lemma_never_below_zero_push(t1, eof);
        }
        let t2 = tokens@;
        assert forall|i: int| 0 <= i < t2.len() - 1 implies !((#[trigger] t2[i]).kind is Eof) by {
            assert(t2[i] == t1[i]);
        }
        if t2.len() >= 2 {
            assert(t2[t2.len() - 2] == t1.last());
        }
        if indents_follow_newlines(t1) {
            assert forall|i: int| 0 <= i < t2.len() && (#[trigger] t2[i]).kind is Indent implies i > 0 && t2[i - 1].kind is Newline by {
                assert(t2[i] == t1[i]);
                assert(t2[i - 1] == t1[i - 1]);
            }
        }
    }
}

} // verus!
