//! Compile errors and their human-readable rendering: title, location, the
//! offending source line with the error underlined, explanation and hint.

use vstd::prelude::*;
use crate::lexer::token::Span;
use crate::text::{owned, push_char, decimal, decimal_string};

verus! {

broadcast use vstd::string::group_string_axioms;

pub struct VenusError {
    pub title: String,
    pub message: String,
    pub hint: Option<String>,
    pub span: Span,
}

/// What an error says, as text.
pub struct ErrorView {
    pub title: Seq<char>,
    pub message: Seq<char>,
    pub hint: Option<Seq<char>>,
    pub span: Span,
}

impl VenusError {
    pub open spec fn view(self) -> ErrorView {
        ErrorView {
            title: self.title@,
            message: self.message@,
            hint: match self.hint {
                Some(h) => Some(h@),
                None => None,
            },
            span: self.span,
        }
    }
}

/// The views of a list of errors.
pub open spec fn errors_view(es: Seq<VenusError>) -> Seq<ErrorView> {
    es.map_values(|e: VenusError| e.view())
}

pub struct VenusErrorHandler<'a> {
    source_code: &'a str,
    file_name: &'a str,
}

/// The lines of a text as `str::lines` yields them: split after each `\n`,
/// a `\r` right before that `\n` dropped, no empty line after a final `\n`.
pub open spec fn text_lines(s: Seq<char>) -> Seq<Seq<char>>
    decreases s.len(),
{
    if s.len() == 0 {
        seq![]
    } else {
        let i = first_newline(s, 0);
        proof {
            lemma_first_newline(s, 0);
        }
        if i < s.len() {
            let line = s.take(i);
            let line = if line.len() > 0 && line.last() == '\r' { line.drop_last() } else { line };
            seq![line] + text_lines(s.skip(i + 1))
        } else {
            seq![s]
        }
    }
}

/// Index of the first `\n` at or after `from`, or the length when none.
pub open spec fn first_newline(s: Seq<char>, from: int) -> int
    decreases s.len() - from,
{
    if from >= s.len() {
        s.len() as int
    } else if s[from] == '\n' {
        from
    } else {
        first_newline(s, from + 1)
    }
}

pub proof fn lemma_first_newline(s: Seq<char>, from: int)
    requires
        0 <= from,
    ensures
        from <= first_newline(s, from) <= s.len() || (from > s.len() && first_newline(s, from) == s.len()),
        first_newline(s, from) < s.len() ==> s[first_newline(s, from)] == '\n',
    decreases s.len() - from,
{
    if from < s.len() && s[from] != '\n' {
        lemma_first_newline(s, from + 1);
    }
}

/// `n` copies of `c`.
pub open spec fn repeat_char(c: char, n: nat) -> Seq<char> {
    Seq::new(n, |i: int| c)
}

/// The first lines of a report: bold red title, then the location.
pub open spec fn report_head(file: Seq<char>, e: ErrorView) -> Seq<char> {
    "\n\u{1b}[1;31m["@ + e.title + "]\u{1b}[0m\n"@ + "\u{1b}[1mLocation:\u{1b}[0m "@ + file + ":"@
        + decimal(e.span.line as nat) + "\n"@ + "\n"@
}

/// The source line of the error with its span underlined by `^`, when the
/// line exists.
pub open spec fn report_snippet(source: Seq<char>, e: ErrorView) -> Seq<char> {
    let ln = decimal(e.span.line as nat);
    let lines = text_lines(source);
    let idx: int = if e.span.line == 0 { 0 } else { e.span.line - 1 };
    if idx < lines.len() {
        let pad = ln.len() + 3 + (if e.span.column == 0 { 0 } else { e.span.column - 1 });
        let width = if e.span.end > e.span.start { e.span.end - e.span.start } else { 1 };
        ln + " | "@ + lines[idx] + "\n"@ + repeat_char(' ', pad as nat) + "\u{1b}[1;31m"@
            + repeat_char('^', width as nat) + "\u{1b}[0m\n"@
    } else {
        seq![]
    }
}

/// The last lines of a report: the explanation, then the hint if any.
pub open spec fn report_tail(e: ErrorView) -> Seq<char> {
    "\n"@ + "\u{1b}[1mExplanation:\u{1b}[0m "@ + e.message + "\n"@ + match e.hint {
        Some(h) => "💡 \u{1b}[1;33mHint:\u{1b}[0m "@ + h + "\n"@,
        None => seq![],
    } + "\n"@
}

/// The report printed for an error: a bold red title, the location, the
/// source line with the span underlined by `^` (when the line exists), the
/// explanation and the hint.
pub open spec fn report_text(source: Seq<char>, file: Seq<char>, e: ErrorView) -> Seq<char> {
    report_head(file, e) + report_snippet(source, e) + report_tail(e)
}

/// `n` copies of `c` as a string.
fn repeated(c: char, n: u64) -> (s: String)
    ensures
        s@ == repeat_char(c, n as nat),
{
    let mut s = String::new();
    let mut k: u64 = 0;
    while k < n
        invariant
            k <= n,
            s@ == repeat_char(c, k as nat),
        decreases n - k,
    {
        push_char(&mut s, c);
        assert(repeat_char(c, (k + 1) as nat) =~= repeat_char(c, k as nat).push(c));
        k = k + 1;
    }
    s
}

impl<'a> VenusErrorHandler<'a> {
    pub closed spec fn source(self) -> Seq<char> {
        self.source_code@
    }

    pub closed spec fn file(self) -> Seq<char> {
        self.file_name@
    }

    pub fn new(source_code: &'a str, file_name: &'a str) -> (h: Self)
        ensures
            h.source() == source_code@,
            h.file() == file_name@,
    {
        Self { source_code, file_name }
    }

    /// The text that reporting `err` prints.
    pub fn report_text(&self, err: &VenusError) -> (t: String)
        ensures
            t@ == report_text(self.source(), self.file(), err.view()),
    {
        let mut t = self.report_head(err);
        let snippet = self.report_snippet(err);
        t.append(snippet.as_str());
        let tail = report_tail_text(err);
        t.append(tail.as_str());
        t
    }

    fn report_head(&self, err: &VenusError) -> (t: String)
        ensures
            t@ == report_head(self.file(), err.view()),
    {
        let ln = decimal_string(err.span.line as u64);
        let mut t = owned("\n\u{1b}[1;31m[");
        t.append(err.title.as_str());
        t.append("]\u{1b}[0m\n");
        t.append("\u{1b}[1mLocation:\u{1b}[0m ");
        t.append(self.file_name);
        t.append(":");
        t.append(ln.as_str());
        t.append("\n");
        t.append("\n");
        t
    }

    fn report_snippet(&self, err: &VenusError) -> (t: String)
        ensures
            t@ == report_snippet(self.source(), err.view()),
    {
        // Extract the specific line from source code
        let line_index: u32 = err.span.line.saturating_sub(1);
        match nth_line(self.source_code, line_index as usize) {
            Some(line_text) => {
                let ln = decimal_string(err.span.line as u64);
                let mut t = ln.clone();
                t.append(" | ");
                t.append(line_text.as_str());
                t.append("\n");
                // Padding for the squiggly line
                let digits = ln.as_str().unicode_len() as u64;
                proof {
                    crate::text::lemma_decimal_len(err.span.line as nat);
                }
                let col: u64 = err.span.column.saturating_sub(1) as u64;
                let pad = repeated(' ', digits + 3 + col);
                t.append(pad.as_str());
                t.append("\u{1b}[1;31m");
                let width: usize = if err.span.end > err.span.start {
                    err.span.end - err.span.start
                } else {
                    1
                };
                let squiggles = repeated('^', width as u64);
                t.append(squiggles.as_str());
                t.append("\u{1b}[0m\n");
                t
            },
            None => String::new(),
        }
    }
}

/// The explanation and hint lines of a report.
fn report_tail_text(err: &VenusError) -> (t: String)
    ensures
        t@ == report_tail(err.view()),
{
    let mut t = owned("\n");
    t.append("\u{1b}[1mExplanation:\u{1b}[0m ");
    t.append(err.message.as_str());
    t.append("\n");
    match &err.hint {
        Some(hint) => {
            t.append("💡 \u{1b}[1;33mHint:\u{1b}[0m ");
            t.append(hint.as_str());
            t.append("\n");
        },
        None => {},
    }
    t.append("\n");
    t
}

/// Line `n` (0-indexed) of `s` as `str::lines` yields it, if there is one.
pub fn nth_line(s: &str, n: usize) -> (r: Option<String>)
    ensures
        r matches Some(l) ==> n < text_lines(s@).len() && l@ == text_lines(s@)[n as int],
        r is None ==> n >= text_lines(s@).len(),
{
    let chars = crate::text::chars_of(s);
    let ghost full = chars@;
    let mut start: usize = 0;
    let mut line_no: usize = 0;
    assert(full.skip(0) == full);
    loop
        invariant
            full == chars@,
            full == s@,
            start <= chars@.len(),
            line_no <= n,
            text_lines(full).len() == line_no + text_lines(full.skip(start as int)).len(),
            forall|k: int|
                0 <= k < text_lines(full.skip(start as int)).len() ==> text_lines(full)[line_no + k]
                    == #[trigger] text_lines(full.skip(start as int))[k],
        decreases chars@.len() - start,
    {
        let ghost rest = full.skip(start as int);
        if start == chars.len() {
            assert(rest.len() == 0);
            return None;
        }
        // Find the end of the line
        let mut j: usize = start;
        while j < chars.len() && chars[j] != '\n'
            invariant
                start <= j <= chars@.len(),
                full == chars@,
                rest == full.skip(start as int),
                first_newline(rest, 0) == first_newline(rest, j - start),
            decreases chars@.len() - j,
        {
            assert(rest[j - start] == chars@[j as int]);
            j = j + 1;
        }
        proof {
            if j < chars@.len() {
                assert(rest[j - start] == chars@[j as int]);
            }
            assert(first_newline(rest, 0) == j - start);
        }
        if line_no == n {
            let mut end: usize = j;
            if j < chars.len() && end > start && chars[end - 1] == '\r' {
                end = end - 1;
            }
            proof {
                assert(rest.take(j - start) == full.subrange(start as int, j as int));
                if end < j {
                    assert(rest.take(j - start).drop_last() == full.subrange(start as int, end as int));
                }
                assert(text_lines(full.skip(start as int))[0] == text_lines(full)[line_no as int]);
            }
            return Some(crate::text::string_from_chars(&chars, start, end));
        }
        if j == chars.len() {
            return None;
        }
        proof {
            assert(rest.skip(j - start + 1) == full.skip(j + 1));
            let tl = text_lines(rest);
            let tl2 = text_lines(full.skip(j + 1));
            assert(tl.len() == 1 + tl2.len());
            assert forall|k: int| 0 <= k < tl2.len() implies text_lines(full)[line_no + 1 + k] == #[trigger] tl2[k] by {
                assert(tl[k + 1] == tl2[k]);
            }
        }
        start = j + 1;
        line_no = line_no + 1;
    }
}

} // verus!
