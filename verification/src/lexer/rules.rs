//! The lexical rules: what the scanner reads from a given state of the
//! source, one token at a time, and the whole token list it reads.

use vstd::prelude::*;
use crate::lexer::token::{Token, TokenKind, Span, keyword_kind, fixed_spelling};
use crate::lexer::scanner::{at_line, at_line_column, is_operator_start, is_quote, INT_LITERAL_OVERFLOW};
use crate::text::{is_digit, digits_value, is_alphabetic, is_alphanumeric};

verus! {

// ── Views of tokens ──

/// A token kind as the rules see it: the text of a word that is not reserved,
/// the value of an integer literal, the text of a float or string literal, or
/// a kind that carries no text.
pub enum KindView {
    Word(Seq<char>),
    Int(i64),
    Float(Seq<char>),
    Str(Seq<char>),
    Plain(TokenKind),
}

pub struct TokenView {
    pub kind: KindView,
    pub lexeme: Seq<char>,
    pub span: Span,
}

pub open spec fn kind_view(k: TokenKind) -> KindView {
    match k {
        TokenKind::Identifier(s) => KindView::Word(s@),
        TokenKind::IntLiteral(n) => KindView::Int(n),
        TokenKind::FloatLiteral(s) => KindView::Float(s@),
        TokenKind::StringLiteral(s) => KindView::Str(s@),
        _ => KindView::Plain(k),
    }
}

pub open spec fn token_view(t: Token) -> TokenView {
    TokenView { kind: kind_view(t.kind), lexeme: t.lexeme@, span: t.span }
}

/// A scanning result as the rules see it: the token's view, or the message.
pub open spec fn outcome(r: Result<Token, String>) -> Result<TokenView, Seq<char>> {
    match r {
        Ok(t) => Ok(token_view(t)),
        Err(e) => Err(e@),
    }
}

pub open spec fn tokens_view(ts: Seq<Token>) -> Seq<TokenView> {
    ts.map_values(|t: Token| token_view(t))
}

/// Where scanning stands: the position in the source (counted in
/// characters), the open indentation levels, and the tokens already read and
/// not yet handed out.
pub struct ScanView {
    pub pos: int,
    pub levels: Seq<usize>,
    pub pending: Seq<TokenView>,
}

/// Where scanning starts: at the first character, only the outermost level
/// open, nothing pending.
pub open spec fn start_state() -> ScanView {
    ScanView { pos: 0, levels: seq![0usize], pending: seq![] }
}

// ── Runs of characters ──

/// The runs of characters the scanner reads.
pub enum Run {
    /// spaces, carriage returns and tabs
    Blank,
    /// the spaces that indent a line
    Space,
    Digit,
    /// letters, digits and `_`
    Word,
    /// a comment, up to the end of its line
    Comment,
    /// the inside of a string literal, up to its closing quote
    Quoted(char),
}

pub open spec fn keeps(run: Run, c: char) -> bool {
    match run {
        Run::Blank => c == ' ' || c == '\r' || c == '\t',
        Run::Space => c == ' ',
        Run::Digit => is_digit(c),
        Run::Word => is_alphanumeric(c) || c == '_',
        Run::Comment => c != '\n',
        Run::Quoted(q) => c != q,
    }
}

/// The first position at or after `p` whose character does not continue
/// `run` (the end of the source if there is none).
pub open spec fn run_end(src: Seq<char>, p: int, run: Run) -> int
    decreases src.len() - p,
{
    if 0 <= p < src.len() && keeps(run, src[p]) {
        run_end(src, p + 1, run)
    } else {
        p
    }
}

pub proof fn lemma_run_end(src: Seq<char>, p: int, run: Run)
    requires
        0 <= p <= src.len(),
    ensures
        p <= run_end(src, p, run) <= src.len(),
        run_end(src, p, run) < src.len() ==> !keeps(run, src[run_end(src, p, run)]),
        forall|i: int| p <= i < run_end(src, p, run) ==> keeps(run, #[trigger] src[i]),
    decreases src.len() - p,
{
    if p < src.len() && keeps(run, src[p]) {
        lemma_run_end(src, p + 1, run);
    }
}

/// The character at `p`, or `'\0'` past the end.
pub open spec fn char_at(src: Seq<char>, p: int) -> char {
    if 0 <= p < src.len() {
        src[p]
    } else {
        '\0'
    }
}

pub open spec fn newlines(s: Seq<char>) -> int
    decreases s.len(),
{
    if s.len() == 0 {
        0
    } else {
        newlines(s.drop_last()) + if s.last() == '\n' { 1int } else { 0int }
    }
}

// ── Places in the source ──

/// How many bytes UTF-8 takes for `c`.
pub open spec fn char_width(c: char) -> int {
    if (c as u32) < 0x80 {
        1
    } else if (c as u32) < 0x800 {
        2
    } else if (c as u32) < 0x10000 {
        3
    } else {
        4
    }
}

/// The byte offset of the character at `i`: the UTF-8 widths of the
/// characters before it.
pub open spec fn byte_offset(src: Seq<char>, i: int) -> int
    decreases i,
{
    if i <= 0 || i > src.len() {
        0
    } else {
        byte_offset(src, i - 1) + char_width(src[i - 1])
    }
}

/// The 1-indexed line of the character at `i`.
pub open spec fn line_at(src: Seq<char>, i: int) -> int {
    1 + newlines(src.take(i))
}

/// The 1-indexed column of the character at `i`: one more than the number
/// of characters between it and the newline before it.
pub open spec fn col_at(src: Seq<char>, i: int) -> int
    decreases i,
{
    if i <= 0 || i > src.len() {
        1
    } else if src[i - 1] == '\n' {
        1
    } else {
        col_at(src, i - 1) + 1
    }
}

/// The span of the characters `a..b`: byte offsets, and the line and column
/// of the first.
pub open spec fn span_of(src: Seq<char>, a: int, b: int) -> Span {
    Span {
        start: byte_offset(src, a) as usize,
        end: byte_offset(src, b) as usize,
        line: line_at(src, a) as u32,
        column: col_at(src, a) as u32,
    }
}

// ── Tokens ──

/// A token read from the characters `a..b`.
pub open spec fn made(kind: KindView, lexeme: Seq<char>, src: Seq<char>, a: int, b: int) -> TokenView {
    TokenView { kind, lexeme, span: span_of(src, a, b) }
}

/// A reserved word has its keyword's kind; any other word is an identifier.
pub open spec fn word_kind(w: Seq<char>) -> KindView {
    match keyword_kind(w) {
        Some(k) => KindView::Plain(k),
        None => KindView::Word(w),
    }
}

/// The operator or delimiter that starts with `c` when `next` follows it;
/// `None` for a lone `&` or `|`.
pub open spec fn operator_kind(c: char, next: char) -> Option<TokenKind> {
    if c == '(' {
        Some(TokenKind::LeftParen)
    } else if c == ')' {
        Some(TokenKind::RightParen)
    } else if c == '[' {
        Some(TokenKind::LeftBracket)
    } else if c == ']' {
        Some(TokenKind::RightBracket)
    } else if c == ',' {
        Some(TokenKind::Comma)
    } else if c == ':' {
        Some(TokenKind::Colon)
    } else if c == '.' {
        Some(TokenKind::Dot)
    } else if c == '@' {
        Some(TokenKind::At)
    } else if c == '%' {
        Some(TokenKind::Percent)
    } else if c == '-' {
        if next == '>' {
            Some(TokenKind::Arrow)
        } else if next == '=' {
            Some(TokenKind::MinusEqual)
        } else {
            Some(TokenKind::Minus)
        }
    } else if c == '+' {
        Some(if next == '=' { TokenKind::PlusEqual } else { TokenKind::Plus })
    } else if c == '*' {
        Some(if next == '=' { TokenKind::StarEqual } else { TokenKind::Star })
    } else if c == '/' {
        Some(if next == '=' { TokenKind::SlashEqual } else { TokenKind::Slash })
    } else if c == '=' {
        Some(if next == '=' { TokenKind::EqualEqual } else { TokenKind::Equal })
    } else if c == '!' {
        Some(if next == '=' { TokenKind::BangEqual } else { TokenKind::Bang })
    } else if c == '<' {
        Some(if next == '=' { TokenKind::LessEqual } else { TokenKind::Less })
    } else if c == '>' {
        Some(if next == '=' { TokenKind::GreaterEqual } else { TokenKind::Greater })
    } else if c == '&' {
        if next == '&' { Some(TokenKind::And) } else { None }
    } else if c == '|' {
        if next == '|' { Some(TokenKind::Or) } else { None }
    } else {
        None
    }
}

/// How many indentation levels stay open when a line is indented by
/// `count`: the levels from the bottom up to the last one not above it.
pub open spec fn kept_levels(levels: Seq<usize>, count: int) -> int
    decreases levels.len(),
{
    if levels.len() == 0 {
        0
    } else if levels.last() > count {
        kept_levels(levels.drop_last(), count)
    } else {
        levels.len() as int
    }
}

// ── One step ──

pub type Step = (Result<TokenView, Seq<char>>, ScanView);

/// The end of the input, reached at `p`: one `Dedent` per open level beyond
/// the outermost, then `Eof`, all empty and at the end.
pub open spec fn end_step(src: Seq<char>, p: int, levels: Seq<usize>) -> Step {
    let ts = Seq::new((levels.len() - 1) as nat, |i: int| made(KindView::Plain(TokenKind::Dedent), seq![], src, p, p))
        .push(made(KindView::Plain(TokenKind::Eof), seq![], src, p, p));
    (Ok(ts[0]), ScanView { pos: p, levels: levels.take(1), pending: ts.drop_first() })
}

/// A newline at `p`: the `Newline` token, then the indentation of the next
/// line, unless that line is blank or a comment. A block is opened by
/// exactly 4 more spaces than the current level, and closed by going back
/// to an enclosing level; any other width is an error.
pub open spec fn newline_step(src: Seq<char>, p: int, levels: Seq<usize>) -> Step {
    let nl = made(KindView::Plain(TokenKind::Newline), "\\n"@, src, p, p + 1);
    let e = run_end(src, p + 1, Run::Space);
    let count = e - (p + 1);
    let next = ScanView { pos: e, levels, pending: seq![] };
    let line2 = line_at(src, e) as u32;
    if e < src.len() && src[e] == '\t' {
        (Err(at_line("Tabs are not allowed for indentation"@, line2)), next)
    } else if e >= src.len() || src[e] == '\n' || src[e] == '#' {
        (Ok(nl), next)
    } else if count > levels.last() && count != levels.last() + 4 {
        (Err(at_line("Indentation error"@, line2)), next)
    } else if count > levels.last() {
        (Ok(nl), ScanView {
            levels: levels.push(count as usize),
            pending: seq![made(KindView::Plain(TokenKind::Indent), seq![], src, e, e)],
            ..next
        })
    } else {
        let k = kept_levels(levels, count);
        let closed = ScanView {
            levels: levels.take(k),
            pending: Seq::new((levels.len() - k) as nat, |i: int| made(KindView::Plain(TokenKind::Dedent), seq![], src, e, e)),
            ..next
        };
        if 1 <= k && levels[k - 1] == count {
            (Ok(nl), closed)
        } else {
            (Err(at_line("Indentation error"@, line2)), closed)
        }
    }
}

/// An operator or delimiter that starts at `p`. A lone `&` or `|` is an
/// error, placed at the column just past it.
pub open spec fn operator_step(src: Seq<char>, p: int, levels: Seq<usize>) -> Step {
    let c = src[p];
    let same = ScanView { pos: p + 1, levels, pending: seq![] };
    match operator_kind(c, char_at(src, p + 1)) {
        Some(k) => {
            let sp = fixed_spelling(k)->0;
            let e = p + sp.len();
            (Ok(made(KindView::Plain(k), sp, src, p, e)), ScanView { pos: e, ..same })
        },
        None => (Err(at_line_column(
            if c == '&' { "Expected '&'"@ } else { "Expected '|'"@ },
            line_at(src, p + 1) as u32,
            col_at(src, p + 1) as u32,
        )), same),
    }
}

/// An operator or delimiter is spelled by the characters it was read from.
pub proof fn lemma_operator_as_read(src: Seq<char>, p: int, levels: Seq<usize>)
    requires
        0 <= p < src.len(),
        is_operator_start(src[p]),
    ensures
        operator_step(src, p, levels).0 matches Ok(t) ==> t.lexeme == src.subrange(p, operator_step(src, p, levels).1.pos),
{
    reveal_strlit("+");
    reveal_strlit("-");
    reveal_strlit("*");
    reveal_strlit("/");
    reveal_strlit("%");
    reveal_strlit("=");
    reveal_strlit("+=");
    reveal_strlit("-=");
    reveal_strlit("*=");
    reveal_strlit("/=");
    reveal_strlit("==");
    reveal_strlit("!=");
    reveal_strlit("<");
    reveal_strlit(">");
    reveal_strlit("<=");
    reveal_strlit(">=");
    reveal_strlit("->");
    reveal_strlit("&&");
    reveal_strlit("||");
    reveal_strlit("!");
    reveal_strlit(".");
    reveal_strlit("@");
    reveal_strlit("(");
    reveal_strlit(")");
    reveal_strlit("[");
    reveal_strlit("]");
    reveal_strlit(",");
    reveal_strlit(":");
    let c = src[p];
    let next = char_at(src, p + 1);
    let k = operator_kind(c, next);
    if k is Some {
        let sp = fixed_spelling(k->0)->0;
        if sp.len() == 2 {
            assert(p + 1 < src.len());
            assert(sp =~= src.subrange(p, p + 2));
        } else {
            assert(sp =~= src.subrange(p, p + 1));
        }
    }
}

/// A string literal whose opening quote is at `p`: the characters up to the
/// same quote, newlines included.
pub open spec fn string_step(src: Seq<char>, p: int, levels: Seq<usize>) -> Step {
    let e = run_end(src, p + 1, Run::Quoted(src[p]));
    let body = src.subrange(p + 1, e);
    if e >= src.len() {
        (Err(at_line("Unterminated string literal"@, line_at(src, e) as u32)), ScanView { pos: e, levels, pending: seq![] })
    } else {
        (Ok(TokenView { kind: KindView::Str(body), lexeme: seq![], span: span_of(src, p, e + 1) }), ScanView {
            pos: e + 1,
            levels,
            pending: seq![],
        })
    }
}

/// Where a number that starts at `p` ends: digits, then a dot and digits
/// when a digit follows the dot.
pub open spec fn number_end(src: Seq<char>, p: int) -> int {
    let d = run_end(src, p + 1, Run::Digit);
    if d + 1 < src.len() && src[d] == '.' && is_digit(src[d + 1]) {
        run_end(src, d + 1, Run::Digit)
    } else {
        d
    }
}

/// A number that starts at `p`.
pub open spec fn number_step(src: Seq<char>, p: int, levels: Seq<usize>) -> Step {
    let d = run_end(src, p + 1, Run::Digit);
    let e = number_end(src, p);
    let text = src.subrange(p, e);
    let after = ScanView { pos: e, levels, pending: seq![] };
    if e != d {
        (Ok(made(KindView::Float(text), text, src, p, e)), after)
    } else if digits_value(text) <= i64::MAX {
        (Ok(made(KindView::Int(digits_value(text) as i64), text, src, p, e)), after)
    } else {
        (Err(INT_LITERAL_OVERFLOW@), after)
    }
}

/// A word that starts at `p`.
pub open spec fn word_step(src: Seq<char>, p: int, levels: Seq<usize>) -> Step {
    let e = run_end(src, p + 1, Run::Word);
    let text = src.subrange(p, e);
    (Ok(made(word_kind(text), text, src, p, e)), ScanView { pos: e, levels, pending: seq![] })
}

/// A word extends over every following letter, digit and `_`: its lexeme
/// is the text from `p` up to the first character that is none of these (or
/// the end), and scanning goes on there.
pub proof fn lemma_word_extends(src: Seq<char>, p: int, levels: Seq<usize>)
    requires
        0 <= p < src.len(),
    ensures
        word_step(src, p, levels).0 matches Ok(t) && t.lexeme == src.subrange(p, word_step(src, p, levels).1.pos),
        p < word_step(src, p, levels).1.pos <= src.len(),
        forall|i: int|
            p < i < word_step(src, p, levels).1.pos ==> is_alphanumeric(#[trigger] src[i]) || src[i] == '_',
        word_step(src, p, levels).1.pos < src.len() ==> !(is_alphanumeric(src[word_step(src, p, levels).1.pos])
            || src[word_step(src, p, levels).1.pos] == '_'),
{
    lemma_run_end(src, p + 1, Run::Word);
}

/// The next token from state `s`, and the state after it. Pending tokens
/// come first; otherwise spaces, carriage returns and tabs are skipped and
/// the next character decides. An error comes with the state where it was
/// found.
pub open spec fn scan_step(src: Seq<char>, s: ScanView) -> Step
    decreases src.len() - s.pos,
{
    if s.pending.len() > 0 {
        (Ok(s.pending[0]), ScanView { pending: s.pending.drop_first(), ..s })
    } else {
        let p = run_end(src, s.pos, Run::Blank);
        if !(0 <= s.pos <= p) {
            (Err(seq![]), s)
        } else if p >= src.len() {
            end_step(src, p, s.levels)
        } else {
            let c = src[p];
            if c == '\n' {
                newline_step(src, p, s.levels)
            } else if is_operator_start(c) {
                operator_step(src, p, s.levels)
            } else if is_quote(c) {
                string_step(src, p, s.levels)
            } else if c == '#' {
                let e = run_end(src, p + 1, Run::Comment);
                if p < e <= src.len() {
                    scan_step(src, ScanView { pos: e, ..s })
                } else {
                    (Err(seq![]), s)
                }
            } else if is_digit(c) {
                number_step(src, p, s.levels)
            } else if is_alphabetic(c) || c == '_' {
                word_step(src, p, s.levels)
            } else {
                (Err(at_line_column(
                    "Unexpected character '"@ + seq![c] + "'"@,
                    line_at(src, p + 1) as u32,
                    col_at(src, p + 1) as u32,
                )), ScanView { pos: p + 1, ..s })
            }
        }
    }
}

/// After the blanks, a letter or `_` starts a word.
pub proof fn lemma_letter_starts_word(src: Seq<char>, s: ScanView)
    requires
        s.pending.len() == 0,
        0 <= s.pos,
        run_end(src, s.pos, Run::Blank) < src.len(),
        is_alphabetic(src[run_end(src, s.pos, Run::Blank)]) || src[run_end(src, s.pos, Run::Blank)] == '_',
    ensures
        scan_step(src, s) == word_step(src, run_end(src, s.pos, Run::Blank), s.levels),
{
    lemma_run_end(src, s.pos, Run::Blank);
}

// ── The whole input ──

/// Decreases with every token other than `Eof`.
pub open spec fn scan_measure(src: Seq<char>, s: ScanView) -> int {
    4 * (src.len() - s.pos) + 2 * s.levels.len() + s.pending.len()
}

pub open spec fn is_boundary(k: KindView) -> bool {
    k == KindView::Plain(TokenKind::Newline) || k == KindView::Plain(TokenKind::Indent) || k
        == KindView::Plain(TokenKind::Dedent)
}

/// The tokens read, closed by `eof`; a `Newline` at `eof`'s place comes
/// first when the last token is not a line or block boundary.
pub open spec fn close_tokens(ts: Seq<TokenView>, eof: TokenView) -> Seq<TokenView> {
    if ts.len() > 0 && !is_boundary(ts.last().kind) {
        ts.push(TokenView { kind: KindView::Plain(TokenKind::Newline), lexeme: seq![], span: eof.span }).push(eof)
    } else {
        ts.push(eof)
    }
}

/// Steps from `s` until `Eof` or an error, after the tokens `acc`.
pub open spec fn scan_run(src: Seq<char>, s: ScanView, acc: Seq<TokenView>) -> Result<Seq<TokenView>, Seq<char>>
    decreases scan_measure(src, s),
{
    let (r, s2) = scan_step(src, s);
    match r {
        Err(e) => Err(e),
        Ok(t) => if t.kind == KindView::Plain(TokenKind::Eof) {
            Ok(close_tokens(acc, t))
        } else if 0 <= scan_measure(src, s2) < scan_measure(src, s) {
            scan_run(src, s2, acc.push(t))
        } else {
            Err(seq![])
        },
    }
}

} // verus!
