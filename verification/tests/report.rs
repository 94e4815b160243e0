use venus_compiler::analyzer::error::{nth_line, VenusError, VenusErrorHandler};
use venus_compiler::lexer::token::Span;

fn error(title: &str, message: &str, hint: Option<&str>, span: Span) -> VenusError {
    VenusError {
        title: title.to_string(),
        message: message.to_string(),
        hint: hint.map(|h| h.to_string()),
        span,
    }
}

#[test]
fn report_with_snippet_and_hint() {
    let h = VenusErrorHandler::new("int x: 5\nfloat speed: 1\n", "main.vs");
    let e = error("Type Mismatch", "M", Some("H"), Span { start: 22, end: 23, line: 2, column: 14 });
    let expected = format!(
        "\n\x1b[1;31m[Type Mismatch]\x1b[0m\n\x1b[1mLocation:\x1b[0m main.vs:2\n\n2 | float speed: 1\n{}\x1b[1;31m^\x1b[0m\n\n\x1b[1mExplanation:\x1b[0m M\n💡 \x1b[1;33mHint:\x1b[0m H\n\n",
        " ".repeat(17)
    );
    assert_eq!(h.report_text(&e), expected);
}

#[test]
fn underline_covers_the_span() {
    let h = VenusErrorHandler::new("abc defg\n", "f.vs");
    let e = error("T", "M", None, Span { start: 4, end: 8, line: 1, column: 5 });
    let expected = format!(
        "\n\x1b[1;31m[T]\x1b[0m\n\x1b[1mLocation:\x1b[0m f.vs:1\n\n1 | abc defg\n{}\x1b[1;31m^^^^\x1b[0m\n\n\x1b[1mExplanation:\x1b[0m M\n\n",
        " ".repeat(8)
    );
    assert_eq!(h.report_text(&e), expected);
}

#[test]
fn line_outside_the_source_has_no_snippet() {
    let h = VenusErrorHandler::new("one line\n", "f.vs");
    let e = error("Runtime Error", "boom", None, Span { start: 0, end: 0, line: 7, column: 1 });
    assert_eq!(
        h.report_text(&e),
        "\n\x1b[1;31m[Runtime Error]\x1b[0m\n\x1b[1mLocation:\x1b[0m f.vs:7\n\n\n\x1b[1mExplanation:\x1b[0m boom\n\n"
    );
}

#[test]
fn line_zero_shows_the_first_line() {
    let h = VenusErrorHandler::new("first\r\nsecond", "f.vs");
    let e = error("T", "M", None, Span { start: 3, end: 1, line: 0, column: 0 });
    let expected = format!(
        "\n\x1b[1;31m[T]\x1b[0m\n\x1b[1mLocation:\x1b[0m f.vs:0\n\n0 | first\n{}\x1b[1;31m^\x1b[0m\n\n\x1b[1mExplanation:\x1b[0m M\n\n",
        " ".repeat(4)
    );
    assert_eq!(h.report_text(&e), expected);
}

#[test]
fn lines_of_a_text() {
    assert_eq!(nth_line("a\nb\r\nc", 1).as_deref(), Some("b"));
    assert_eq!(nth_line("a\nb\r\nc", 2).as_deref(), Some("c"));
    assert_eq!(nth_line("a\n", 1), None);
}
