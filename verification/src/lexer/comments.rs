//! A comment at the end of a source adds no tokens.

use vstd::prelude::*;
use crate::lexer::token::{TokenKind, fixed_spelling};
use crate::lexer::rules::{
    made, kept_levels, KindView, TokenView, ScanView, Run, keeps, run_end, lemma_run_end, char_at, byte_offset, line_at, col_at,
    span_of, operator_kind, end_step, newline_step, operator_step, number_step, number_end,
    scan_step, scan_measure, close_tokens, scan_run, start_state,
};
use crate::lexer::scanner::{is_operator_start, is_quote};
use crate::text::is_digit;

verus! {

/// A token's kind and lexeme, leaving out its place.
pub open spec fn text_of(t: TokenView) -> (KindView, Seq<char>) {
    (t.kind, t.lexeme)
}

pub open spec fn texts(ts: Seq<TokenView>) -> Seq<(KindView, Seq<char>)> {
    ts.map_values(|t: TokenView| text_of(t))
}

/// `t` followed by a space and the comment `#c`.
pub open spec fn with_comment(t: Seq<char>, c: Seq<char>) -> Seq<char> {
    t + seq![' ', '#'] + c
}

/// Two scanning results alike but for the places of the tokens: the same
/// kinds and lexemes, or the same error.
pub open spec fn alike(a: Result<Seq<TokenView>, Seq<char>>, b: Result<Seq<TokenView>, Seq<char>>) -> bool {
    match (a, b) {
        (Ok(x), Ok(y)) => texts(x) == texts(y),
        (Err(x), Err(y)) => x == y,
        _ => false,
    }
}

/// The source a comment may follow: no `#` and no quote in it.
pub open spec fn plain_source(t: Seq<char>) -> bool {
    forall|i: int| 0 <= i < t.len() ==> #[trigger] t[i] != '#' && !is_quote(t[i])
}

/// A comment's text: one line.
pub open spec fn one_line(c: Seq<char>) -> bool {
    forall|i: int| 0 <= i < c.len() ==> #[trigger] c[i] != '\n'
}

/// A comment at the end of a source adds no tokens: when the source holds
/// no `#` and no quote, scanning it with a space and a `#` comment after it
/// gives the same tokens, kind for kind and lexeme for lexeme, or the same
/// error.
pub proof fn lemma_trailing_comment(t: Seq<char>, c: Seq<char>)
    requires
        plain_source(t),
        one_line(c),
    ensures
        alike(scan_run(t, start_state(), seq![]), scan_run(with_comment(t, c), start_state(), seq![])),
{
    assert(texts(seq![]) =~= texts(seq![]));
    lemma_run(t, c, start_state(), start_state(), seq![], seq![]);
}

// ── The two sources side by side ──

/// How a state of the scanner on `t` stands to one on `t` with the comment:
/// the same state before the end of `t`; a newline that ended `t` read, in
/// the second source up to the `#`; or both past the end, with the same
/// tokens pending but for their places.
pub open spec fn related(t: Seq<char>, c: Seq<char>, s: ScanView, s2: ScanView) -> bool {
    let n = t.len() as int;
    &&& 0 <= s.pos
    &&& s.levels.len() >= 1
    &&& {
        ||| s == s2 && s.pos <= n
        ||| s.pos == n && s2.pos == n + 1 && s.levels == s2.levels && s.pending.len() == 0 && s2.pending.len() == 0
        ||| s.pos == n && s2.pos == with_comment(t, c).len() && s.levels == s2.levels && texts(s.pending) == texts(
            s2.pending,
        )
    }
}

/// One step from related states: the same error, or tokens alike; unless
/// the token is `Eof`, the states after it are related and the measure falls
/// in both sources or in neither.
pub open spec fn steps_alike(t: Seq<char>, c: Seq<char>, s: ScanView, s2: ScanView) -> bool {
    let t2 = with_comment(t, c);
    let (r, n1) = scan_step(t, s);
    let (r2, n2) = scan_step(t2, s2);
    match (r, r2) {
        (Err(x), Err(y)) => x == y,
        (Ok(a), Ok(b)) => text_of(a) == text_of(b) && (a.kind != KindView::Plain(TokenKind::Eof) ==> (related(
            t,
            c,
            n1,
            n2,
        ) && ((0 <= scan_measure(t, n1) < scan_measure(t, s)) == (0 <= scan_measure(t2, n2) < scan_measure(
            t2,
            s2,
        ))))),
        _ => false,
    }
}

proof fn lemma_texts_push(ts: Seq<TokenView>, x: TokenView)
    ensures
        texts(ts.push(x)) == texts(ts).push(text_of(x)),
{
    assert(texts(ts.push(x)) =~= texts(ts).push(text_of(x)));
}

proof fn lemma_texts_front(ts: Seq<TokenView>, us: Seq<TokenView>)
    requires
        texts(ts) == texts(us),
        ts.len() > 0,
    ensures
        us.len() == ts.len(),
        text_of(ts[0]) == text_of(us[0]),
        texts(ts.drop_first()) == texts(us.drop_first()),
{
    assert(texts(ts).len() == ts.len());
    assert(texts(us).len() == us.len());
    assert(texts(ts)[0] == text_of(ts[0]));
    assert(texts(us)[0] == text_of(us[0]));
    assert forall|i: int| 0 <= i < ts.len() - 1 implies texts(ts.drop_first())[i] == texts(us.drop_first())[i] by {
        assert(texts(ts)[i + 1] == text_of(ts[i + 1]));
        assert(texts(us)[i + 1] == text_of(us[i + 1]));
        assert(ts.drop_first()[i] == ts[i + 1]);
        assert(us.drop_first()[i] == us[i + 1]);
    }
    assert(texts(ts.drop_first()) =~= texts(us.drop_first()));
}

/// A run in `t` that stops inside `t`, or at its end before a character it
/// does not keep, stops at the same place in `t + x`.
proof fn lemma_run_end_same(t: Seq<char>, x: Seq<char>, q: int, run: Run)
    requires
        0 <= q <= t.len(),
        x.len() > 0,
        run_end(t, q, run) < t.len() || !keeps(run, x[0]),
    ensures
        run_end(t + x, q, run) == run_end(t, q, run),
    decreases t.len() - q,
{
    let u = t + x;
    if q < t.len() {
        assert(u[q] == t[q]);
        if keeps(run, t[q]) {
            lemma_run_end_same(t, x, q + 1, run);
        }
    } else {
        assert(u[q] == x[0]);
    }
}

/// A run in `t` that reaches the end of `t` goes on in `t + x` as a run from
/// there.
proof fn lemma_run_end_through(t: Seq<char>, x: Seq<char>, q: int, run: Run)
    requires
        0 <= q <= t.len(),
        run_end(t, q, run) == t.len(),
    ensures
        run_end(t + x, q, run) == run_end(t + x, t.len() as int, run),
    decreases t.len() - q,
{
    let u = t + x;
    if q < t.len() {
        assert(u[q] == t[q]);
        lemma_run_end_through(t, x, q + 1, run);
    }
}

/// A comment's run goes to the end of the source.
proof fn lemma_comment_to_end(t: Seq<char>, c: Seq<char>, q: int)
    requires
        one_line(c),
        t.len() + 2 <= q <= with_comment(t, c).len(),
    ensures
        run_end(with_comment(t, c), q, Run::Comment) == with_comment(t, c).len(),
    decreases with_comment(t, c).len() - q,
{
    let u = with_comment(t, c);
    if q < u.len() {
        assert(u[q] == c[q - t.len() - 2]);
        lemma_comment_to_end(t, c, q + 1);
    }
}

/// Places in `t` are the same places in `t + x`.
proof fn lemma_places(t: Seq<char>, x: Seq<char>, i: int)
    requires
        0 <= i <= t.len(),
    ensures
        byte_offset(t + x, i) == byte_offset(t, i),
        col_at(t + x, i) == col_at(t, i),
        line_at(t + x, i) == line_at(t, i),
    decreases i,
{
    let u = t + x;
    assert(u.take(i) =~= t.take(i));
    if i > 0 {
        assert(u[i - 1] == t[i - 1]);
        lemma_places(t, x, i - 1);
    }
}

proof fn lemma_spans(t: Seq<char>, x: Seq<char>, a: int, b: int)
    requires
        0 <= a <= t.len(),
        0 <= b <= t.len(),
    ensures
        span_of(t + x, a, b) == span_of(t, a, b),
{
    lemma_places(t, x, a);
    lemma_places(t, x, b);
}

/// An operator is spelled by its first character, or by it and the one after
/// it, which is then neither a space nor past the end.
proof fn lemma_operator_spelling(ch: char, next: char)
    requires
        operator_kind(ch, next) is Some,
    ensures
        fixed_spelling(operator_kind(ch, next)->0) is Some,
        fixed_spelling(operator_kind(ch, next)->0)->0.len() == 1 || (fixed_spelling(operator_kind(ch, next)->0)->0.len()
            == 2 && next != '\0' && next != ' '),
{
    reveal_strlit("+");
    reveal_strlit("-");
    reveal_strlit("*");
    reveal_strlit("/");
    reveal_strlit("%");
    reveal_strlit("=");
    reveal_strlit("+=");
    reveal_strlit("-=");
    reveal_strlit("*=");
    reveal_strlit("/=");
    reveal_strlit("==");
    reveal_strlit("!=");
    reveal_strlit("<");
    reveal_strlit(">");
    reveal_strlit("<=");
    reveal_strlit(">=");
    reveal_strlit("->");
    reveal_strlit("&&");
    reveal_strlit("||");
    reveal_strlit("!");
    reveal_strlit(".");
    reveal_strlit("@");
    reveal_strlit("(");
    reveal_strlit(")");
    reveal_strlit("[");
    reveal_strlit("]");
    reveal_strlit(",");
    reveal_strlit(":");
}

proof fn lemma_kept_levels(levels: Seq<usize>, count: int)
    ensures
        0 <= kept_levels(levels, count) <= levels.len(),
    decreases levels.len(),
{
    if levels.len() > 0 && levels.last() > count {
        lemma_kept_levels(levels.drop_last(), count);
    }
}

proof fn lemma_close(acc: Seq<TokenView>, acc2: Seq<TokenView>, a: TokenView, b: TokenView)
    requires
        texts(acc) == texts(acc2),
        text_of(a) == text_of(b),
    ensures
        texts(close_tokens(acc, a)) == texts(close_tokens(acc2, b)),
{
    assert(texts(acc).len() == acc.len());
    assert(texts(acc2).len() == acc2.len());
    if acc.len() > 0 {
        assert(texts(acc)[acc.len() - 1] == text_of(acc.last()));
        assert(texts(acc2)[acc2.len() - 1] == text_of(acc2.last()));
    }
    let nl = TokenView { kind: KindView::Plain(TokenKind::Newline), lexeme: seq![], span: a.span };
    let nl2 = TokenView { kind: KindView::Plain(TokenKind::Newline), lexeme: seq![], span: b.span };
    lemma_texts_push(acc, nl);
    lemma_texts_push(acc2, nl2);
    lemma_texts_push(acc.push(nl), a);
    lemma_texts_push(acc2.push(nl2), b);
    lemma_texts_push(acc, a);
    lemma_texts_push(acc2, b);
}

/// The end of input read in both sources, from states with nothing pending
/// and the same levels.
proof fn lemma_end_steps(t: Seq<char>, c: Seq<char>, s: ScanView, s2: ScanView)
    requires
        s.pending.len() == 0,
        s2.pending.len() == 0,
        s.levels == s2.levels,
        s.levels.len() >= 1,
        0 <= s.pos <= t.len(),
        0 <= s2.pos <= with_comment(t, c).len(),
    ensures
        ({
            let t2 = with_comment(t, c);
            let (r, n1) = end_step(t, t.len() as int, s.levels);
            let (r2, n2) = end_step(t2, t2.len() as int, s.levels);
            &&& r is Ok
            &&& r2 is Ok
            &&& text_of(r->Ok_0) == text_of(r2->Ok_0)
            &&& r->Ok_0.kind != KindView::Plain(TokenKind::Eof) ==> (related(t, c, n1, n2) && (0 <= scan_measure(t, n1)
                < scan_measure(t, s)) && (0 <= scan_measure(t2, n2) < scan_measure(t2, s2)))
        }),
{
    let t2 = with_comment(t, c);
    let n = t.len() as int;
    let m = t2.len() as int;
    let levels = s.levels;
    let k = (levels.len() - 1) as nat;
    let ts = Seq::new(k, |i: int| made(KindView::Plain(TokenKind::Dedent), seq![], t, n, n)).push(
        made(KindView::Plain(TokenKind::Eof), seq![], t, n, n),
    );
    let ts2 = Seq::new(k, |i: int| made(KindView::Plain(TokenKind::Dedent), seq![], t2, m, m)).push(
        made(KindView::Plain(TokenKind::Eof), seq![], t2, m, m),
    );
    assert(end_step(t, n, levels).0 == Ok::<TokenView, Seq<char>>(ts[0]));
    assert(end_step(t2, m, levels).0 == Ok::<TokenView, Seq<char>>(ts2[0]));
    assert forall|i: int| 0 <= i < ts.len() implies texts(ts)[i] == texts(ts2)[i] by {
        assert(texts(ts)[i] == text_of(ts[i]));
        assert(texts(ts2)[i] == text_of(ts2[i]));
    }
    assert(texts(ts) =~= texts(ts2));
    lemma_texts_front(ts, ts2);
    assert(texts(ts)[0] == text_of(ts[0]));
    if ts[0].kind != KindView::Plain(TokenKind::Eof) {
        assert(levels.len() >= 2);
    }
}

/// A step from the same state, before the end of `t`, with nothing pending.
#[verifier::rlimit(60)]
proof fn lemma_step_inside(t: Seq<char>, c: Seq<char>, s: ScanView)
    requires
        plain_source(t),
        one_line(c),
        0 <= s.pos <= t.len(),
        s.levels.len() >= 1,
        s.pending.len() == 0,
    ensures
        steps_alike(t, c, s, s),
{
    let t2 = with_comment(t, c);
    let x = seq![' ', '#'] + c;
    let n = t.len() as int;
    assert(t2 =~= t + x);
    assert(t2[n] == ' ');
    assert(t2[n + 1] == '#');
    let p = run_end(t, s.pos, Run::Blank);
    lemma_run_end(t, s.pos, Run::Blank);
    if p < n {
        lemma_run_end_same(t, x, s.pos, Run::Blank);
        let ch = t[p];
        assert(t2[p] == ch);
        assert(ch != '#' && !is_quote(ch));
        if ch == '\n' {
            lemma_newline(t, c, s, p);
        } else if is_operator_start(ch) {
            lemma_operator(t, c, s, p);
        } else if is_digit(ch) {
            lemma_number(t, c, s, p);
        } else {
            let e = run_end(t, p + 1, Run::Word);
            lemma_run_end(t, p + 1, Run::Word);
            lemma_run_end_same(t, x, p + 1, Run::Word);
            assert(t2.subrange(p, e) =~= t.subrange(p, e));
            lemma_spans(t, x, p, e);
            lemma_places(t, x, p + 1);
        }
    } else {
        lemma_run_end_through(t, x, s.pos, Run::Blank);
        assert(run_end(t2, n + 1, Run::Blank) == n + 1);
        assert(run_end(t2, n, Run::Blank) == n + 1);
        lemma_comment_to_end(t, c, n + 2);
        let s_end = ScanView { pos: t2.len() as int, ..s };
        assert(scan_step(t2, s) == scan_step(t2, s_end));
        assert(run_end(t2, t2.len() as int, Run::Blank) == t2.len());
        assert(scan_step(t2, s_end) == end_step(t2, t2.len() as int, s.levels));
        assert(scan_step(t, s) == end_step(t, n, s.levels));
        lemma_end_steps(t, c, s, s);
    }
}

/// A newline before the end of `t`.
#[verifier::rlimit(60)]
proof fn lemma_newline(t: Seq<char>, c: Seq<char>, s: ScanView, p: int)
    requires
        plain_source(t),
        one_line(c),
        0 <= s.pos <= p < t.len(),
        s.levels.len() >= 1,
        s.pending.len() == 0,
        run_end(t, s.pos, Run::Blank) == p,
        run_end(with_comment(t, c), s.pos, Run::Blank) == p,
        t[p] == '\n',
    ensures
        steps_alike(t, c, s, s),
{
    let t2 = with_comment(t, c);
    let x = seq![' ', '#'] + c;
    let n = t.len() as int;
    assert(t2 =~= t + x);
    assert(t2[n] == ' ');
    assert(t2[n + 1] == '#');
    assert(t2[p] == '\n');
    let levels = s.levels;
    let e = run_end(t, p + 1, Run::Space);
    lemma_run_end(t, p + 1, Run::Space);
    lemma_spans(t, x, p, p + 1);
    assert(scan_step(t, s) == newline_step(t, p, levels));
    assert(scan_step(t2, s) == newline_step(t2, p, levels));
    if e < n {
        lemma_run_end_same(t, x, p + 1, Run::Space);
        assert(t2[e] == t[e]);
        lemma_places(t, x, e);
        lemma_spans(t, x, e, e);
        lemma_kept_levels(levels, e - (p + 1));
        assert(newline_step(t2, p, levels) == newline_step(t, p, levels));
    } else {
        lemma_run_end_through(t, x, p + 1, Run::Space);
        assert(run_end(t2, n + 1, Run::Space) == n + 1);
        assert(run_end(t2, n, Run::Space) == n + 1);
    }
}

/// An operator or delimiter before the end of `t`.
#[verifier::rlimit(60)]
proof fn lemma_operator(t: Seq<char>, c: Seq<char>, s: ScanView, p: int)
    requires
        plain_source(t),
        one_line(c),
        0 <= s.pos <= p < t.len(),
        s.levels.len() >= 1,
        s.pending.len() == 0,
        run_end(t, s.pos, Run::Blank) == p,
        run_end(with_comment(t, c), s.pos, Run::Blank) == p,
        is_operator_start(t[p]),
    ensures
        steps_alike(t, c, s, s),
{
    let t2 = with_comment(t, c);
    let x = seq![' ', '#'] + c;
    let n = t.len() as int;
    assert(t2 =~= t + x);
    assert(t2[n] == ' ');
    let ch = t[p];
    assert(t2[p] == ch);
    assert(!is_quote(ch));
    assert(scan_step(t, s) == operator_step(t, p, s.levels));
    assert(scan_step(t2, s) == operator_step(t2, p, s.levels));
    if p + 1 < n {
        assert(t2[p + 1] == t[p + 1]);
    } else {
        assert(char_at(t, p + 1) == '\0');
        assert(char_at(t2, p + 1) == ' ');
        assert(operator_kind(ch, '\0') == operator_kind(ch, ' '));
    }
    assert(char_at(t, p + 1) == char_at(t2, p + 1) || operator_kind(ch, char_at(t, p + 1)) == operator_kind(
        ch,
        char_at(t2, p + 1),
    ));
    let k = operator_kind(ch, char_at(t, p + 1));
    if k is Some {
        lemma_operator_spelling(ch, char_at(t, p + 1));
        let e = p + fixed_spelling(k->0)->0.len();
        assert(e <= n);
        lemma_spans(t, x, p, e);
    } else {
        lemma_places(t, x, p + 1);
    }
}

/// A number before the end of `t`.
#[verifier::rlimit(60)]
proof fn lemma_number(t: Seq<char>, c: Seq<char>, s: ScanView, p: int)
    requires
        plain_source(t),
        one_line(c),
        0 <= s.pos <= p < t.len(),
        s.levels.len() >= 1,
        s.pending.len() == 0,
        run_end(t, s.pos, Run::Blank) == p,
        run_end(with_comment(t, c), s.pos, Run::Blank) == p,
        is_digit(t[p]),
    ensures
        steps_alike(t, c, s, s),
{
    let t2 = with_comment(t, c);
    let x = seq![' ', '#'] + c;
    let n = t.len() as int;
    assert(t2 =~= t + x);
    assert(t2[n] == ' ');
    let ch = t[p];
    assert(t2[p] == ch);
    assert(!is_quote(ch) && ch != '#' && ch != '\n' && !is_operator_start(ch));
    assert(scan_step(t, s) == number_step(t, p, s.levels));
    assert(scan_step(t2, s) == number_step(t2, p, s.levels));
    let d = run_end(t, p + 1, Run::Digit);
    lemma_run_end(t, p + 1, Run::Digit);
    lemma_run_end_same(t, x, p + 1, Run::Digit);
    if d + 1 < n {
        assert(t2[d] == t[d]);
        assert(t2[d + 1] == t[d + 1]);
        lemma_run_end(t, d + 1, Run::Digit);
        lemma_run_end_same(t, x, d + 1, Run::Digit);
    } else if d + 1 == n {
        assert(t2[d + 1] == ' ');
    }
    assert(number_end(t2, p) == number_end(t, p));
    let e = number_end(t, p);
    assert(e <= n);
    assert(t2.subrange(p, e) =~= t.subrange(p, e));
    lemma_spans(t, x, p, e);
}

/// One step from related states.
#[verifier::rlimit(40)]
proof fn lemma_step(t: Seq<char>, c: Seq<char>, s: ScanView, s2: ScanView)
    requires
        plain_source(t),
        one_line(c),
        related(t, c, s, s2),
    ensures
        steps_alike(t, c, s, s2),
{
    let t2 = with_comment(t, c);
    let n = t.len() as int;
    assert(t2.len() == n + 2 + c.len());
    assert(t2[n + 1] == '#');
    if s.pending.len() > 0 {
        if s == s2 && s.pos <= n {
        } else {
            lemma_texts_front(s.pending, s2.pending);
        }
    } else if s == s2 && s.pos <= n {
        lemma_step_inside(t, c, s);
    } else {
        assert(texts(s.pending).len() == s.pending.len());
        assert(texts(s2.pending).len() == s2.pending.len());
        assert(s2.pending.len() == 0);
        assert(run_end(t, n, Run::Blank) == n);
        assert(scan_step(t, s) == end_step(t, n, s.levels));
        let s_end = ScanView { pos: t2.len() as int, ..s2 };
        assert(run_end(t2, t2.len() as int, Run::Blank) == t2.len());
        if s2.pos == n + 1 {
            assert(run_end(t2, n + 1, Run::Blank) == n + 1);
            lemma_comment_to_end(t, c, n + 2);
            assert(scan_step(t2, s2) == scan_step(t2, s_end));
        } else {
            assert(s2.pos == t2.len());
            assert(s2 =~= s_end);
        }
        assert(scan_step(t2, s_end) == end_step(t2, t2.len() as int, s.levels));
        lemma_end_steps(t, c, s, s2);
    }
}

/// Runs from related states, after tokens alike, end alike.
proof fn lemma_run(t: Seq<char>, c: Seq<char>, s: ScanView, s2: ScanView, acc: Seq<TokenView>, acc2: Seq<TokenView>)
    requires
        plain_source(t),
        one_line(c),
        related(t, c, s, s2),
        texts(acc) == texts(acc2),
    ensures
        alike(scan_run(t, s, acc), scan_run(with_comment(t, c), s2, acc2)),
    decreases scan_measure(t, s),
{
    let t2 = with_comment(t, c);
    lemma_step(t, c, s, s2);
    let (r, n1) = scan_step(t, s);
    let (r2, n2) = scan_step(t2, s2);
    if r is Ok {
        let a = r->Ok_0;
        let b = r2->Ok_0;
        if a.kind == KindView::Plain(TokenKind::Eof) {
            lemma_close(acc, acc2, a, b);
        } else if 0 <= scan_measure(t, n1) < scan_measure(t, s) {
            lemma_texts_push(acc, a);
            lemma_texts_push(acc2, b);
            lemma_run(t, c, n1, n2, acc.push(a), acc2.push(b));
        }
    }
}

} // verus!
