use venus_compiler::lexer::scanner::{Scanner, INT_LITERAL_OVERFLOW};
use venus_compiler::lexer::token::{Span, Token, TokenKind};

fn kinds(src: &str) -> Vec<TokenKind> {
    let mut s = Scanner::new(src);
    s.scan_all().unwrap().into_iter().map(|t| t.kind).collect()
}

fn scan_err(src: &str) -> String {
    let mut s = Scanner::new(src);
    match s.scan_all() {
        Ok(_) => panic!("expected a lexer error"),
        Err(e) => e,
    }
}

#[test]
fn declaration_tokens() {
    assert_eq!(
        kinds("int age: 14\n"),
        vec![
            TokenKind::KwInt,
            TokenKind::Identifier("age".to_string()),
            TokenKind::Colon,
            TokenKind::IntLiteral(14),
            TokenKind::Newline,
            TokenKind::Eof,
        ]
    );
}

#[test]
fn declaration_spans() {
    let mut s = Scanner::new("int age: 14\n");
    let ts: Vec<Token> = s.scan_all().unwrap();
    assert_eq!(ts[0].span, Span { start: 0, end: 3, line: 1, column: 1 });
    assert_eq!(ts[0].lexeme, "int");
    assert_eq!(ts[1].span, Span { start: 4, end: 7, line: 1, column: 5 });
    assert_eq!(ts[3].span, Span { start: 9, end: 11, line: 1, column: 10 });
    assert_eq!(ts[3].lexeme, "14");
    // The newline token's lexeme is the two characters `\` and `n`.
    assert_eq!(ts[4].lexeme, "\\n");
    // It covers the line break itself.
    assert_eq!(ts[4].span, Span { start: 11, end: 12, line: 1, column: 12 });
    assert_eq!(ts[5].span, Span { start: 12, end: 12, line: 2, column: 1 });
}

#[test]
fn newline_added_before_eof() {
    assert_eq!(
        kinds("x"),
        vec![TokenKind::Identifier("x".to_string()), TokenKind::Newline, TokenKind::Eof]
    );
}

#[test]
fn empty_source_is_just_eof() {
    assert_eq!(kinds(""), vec![TokenKind::Eof]);
}

#[test]
fn indentation_opens_and_closes_blocks() {
    assert_eq!(
        kinds("if(x)\n    y\nz\n"),
        vec![
            TokenKind::KwIf,
            TokenKind::LeftParen,
            TokenKind::Identifier("x".to_string()),
            TokenKind::RightParen,
            TokenKind::Newline,
            TokenKind::Indent,
            TokenKind::Identifier("y".to_string()),
            TokenKind::Newline,
            TokenKind::Dedent,
            TokenKind::Identifier("z".to_string()),
            TokenKind::Newline,
            TokenKind::Eof,
        ]
    );
}

#[test]
fn open_blocks_close_at_end_of_input() {
    assert_eq!(
        kinds("a\n    b\n        c"),
        vec![
            TokenKind::Identifier("a".to_string()),
            TokenKind::Newline,
            TokenKind::Indent,
            TokenKind::Identifier("b".to_string()),
            TokenKind::Newline,
            TokenKind::Indent,
            TokenKind::Identifier("c".to_string()),
            TokenKind::Dedent,
            TokenKind::Dedent,
            TokenKind::Eof,
        ]
    );
}

#[test]
fn indents_and_dedents_balance() {
    let src = "object W\n    func f()\n        int a: 1\n    int b: 2\nint c: 3\n";
    let ks = kinds(src);
    let indents = ks.iter().filter(|k| **k == TokenKind::Indent).count();
    let dedents = ks.iter().filter(|k| **k == TokenKind::Dedent).count();
    assert_eq!(indents, 2);
    assert_eq!(indents, dedents);
}

#[test]
fn blank_and_comment_lines_keep_indentation() {
    assert_eq!(
        kinds("a\n\n# note\n    \nb\n"),
        vec![
            TokenKind::Identifier("a".to_string()),
            TokenKind::Newline,
            TokenKind::Newline,
            TokenKind::Newline,
            TokenKind::Newline,
            TokenKind::Identifier("b".to_string()),
            TokenKind::Newline,
            TokenKind::Eof,
        ]
    );
}

#[test]
fn tabs_are_rejected() {
    assert_eq!(scan_err("if(x)\n\ty\n"), "Tabs are not allowed for indentation at line 2");
}

#[test]
fn inconsistent_dedent_is_rejected() {
    assert_eq!(scan_err("a\n    b\n  c\n"), "Indentation error at line 3");
}

#[test]
fn unterminated_string_is_rejected() {
    assert_eq!(scan_err("string s: \"abc"), "Unterminated string literal at line 1");
}

#[test]
fn unexpected_character_is_rejected() {
    assert_eq!(scan_err("$"), "Unexpected character '$' at line 1, column 2");
}

#[test]
fn single_ampersand_and_pipe_are_rejected() {
    assert_eq!(scan_err("a & b"), "Expected '&' at line 1, column 4");
    assert_eq!(scan_err("a | b"), "Expected '|' at line 1, column 4");
}

#[test]
fn too_large_integer_literal() {
    assert_eq!(scan_err("99999999999999999999"), INT_LITERAL_OVERFLOW);
}

#[test]
fn largest_integer_literal() {
    assert_eq!(
        kinds("9223372036854775807"),
        vec![TokenKind::IntLiteral(i64::MAX), TokenKind::Newline, TokenKind::Eof]
    );
}

#[test]
fn float_literal_keeps_its_text() {
    let ks = kinds("1.5 2. 3");
    assert_eq!(ks[0], TokenKind::FloatLiteral("1.5".to_string()));
    assert_eq!(ks[1], TokenKind::IntLiteral(2));
    assert_eq!(ks[2], TokenKind::Dot);
    assert_eq!(ks[3], TokenKind::IntLiteral(3));
    let f: f64 = match &ks[0] {
        TokenKind::FloatLiteral(t) => t.parse().unwrap(),
        _ => unreachable!(),
    };
    assert_eq!(f, 1.5);
}

#[test]
fn string_literals_with_either_quote() {
    let ks = kinds("\"hi there\" 'x'");
    assert_eq!(ks[0], TokenKind::StringLiteral("hi there".to_string()));
    assert_eq!(ks[1], TokenKind::StringLiteral("x".to_string()));
}

#[test]
fn keywords_and_literals() {
    let ks = kinds("func object struct enum if elif else for while in return import from export true false vec3");
    assert_eq!(
        &ks[..17],
        &[
            TokenKind::KwFunc,
            TokenKind::KwObject,
            TokenKind::KwStruct,
            TokenKind::KwEnum,
            TokenKind::KwIf,
            TokenKind::KwElif,
            TokenKind::KwElse,
            TokenKind::KwFor,
            TokenKind::KwWhile,
            TokenKind::KwIn,
            TokenKind::KwReturn,
            TokenKind::KwImport,
            TokenKind::KwFrom,
            TokenKind::KwExport,
            TokenKind::BoolLiteral(true),
            TokenKind::BoolLiteral(false),
            TokenKind::Identifier("vec3".to_string()),
        ]
    );
}

#[test]
fn operators() {
    let ks = kinds("-> -= - += + *= * /= / % == = != ! <= < >= > && || . @ , [ ]");
    assert_eq!(
        &ks[..25],
        &[
            TokenKind::Arrow,
            TokenKind::MinusEqual,
            TokenKind::Minus,
            TokenKind::PlusEqual,
            TokenKind::Plus,
            TokenKind::StarEqual,
            TokenKind::Star,
            TokenKind::SlashEqual,
            TokenKind::Slash,
            TokenKind::Percent,
            TokenKind::EqualEqual,
            TokenKind::Equal,
            TokenKind::BangEqual,
            TokenKind::Bang,
            TokenKind::LessEqual,
            TokenKind::Less,
            TokenKind::GreaterEqual,
            TokenKind::Greater,
            TokenKind::And,
            TokenKind::Or,
            TokenKind::Dot,
            TokenKind::At,
            TokenKind::Comma,
            TokenKind::LeftBracket,
            TokenKind::RightBracket,
        ]
    );
}

#[test]
fn unicode_identifiers() {
    let ks = kinds("int число: 1");
    assert_eq!(ks[1], TokenKind::Identifier("число".to_string()));
}

#[test]
fn type_keywords() {
    assert!(TokenKind::KwInt.is_type_keyword());
    assert!(TokenKind::Identifier("x".to_string()).is_type_keyword());
    assert!(TokenKind::KwImport.is_type_keyword());
    assert!(!TokenKind::KwIn.is_type_keyword());
    assert!(!TokenKind::Colon.is_type_keyword());
    assert!(!TokenKind::KwExport.is_type_keyword());
}

#[test]
fn eof_keeps_coming() {
    let mut s = Scanner::new("");
    assert_eq!(s.next_token().unwrap().kind, TokenKind::Eof);
    assert_eq!(s.next_token().unwrap().kind, TokenKind::Eof);
}

#[test]
fn default_span_is_zero() {
    assert_eq!(Span::default(), Span { start: 0, end: 0, line: 0, column: 0 });
}

#[test]
fn columns_after_a_string_across_lines() {
    let mut s = Scanner::new("x = \"a\nb\" + 1");
    let ts: Vec<Token> = s.scan_all().unwrap();
    assert_eq!(ts[2].kind, TokenKind::StringLiteral("a\nb".to_string()));
    assert_eq!(ts[2].span, Span { start: 4, end: 9, line: 1, column: 5 });
    assert_eq!(ts[3].kind, TokenKind::Plus);
    assert_eq!(ts[3].span, Span { start: 10, end: 11, line: 2, column: 4 });
    assert_eq!(ts[4].kind, TokenKind::IntLiteral(1));
    assert_eq!(ts[4].span, Span { start: 12, end: 13, line: 2, column: 6 });
    assert_eq!(ts[5].kind, TokenKind::Newline);
    assert_eq!(ts[5].lexeme, "");
    assert_eq!(ts[5].span, Span { start: 13, end: 13, line: 2, column: 7 });
    assert_eq!(ts[6].kind, TokenKind::Eof);
    assert_eq!(ts[6].span, Span { start: 13, end: 13, line: 2, column: 7 });
}

#[test]
fn non_ascii_word_span_counts_bytes() {
    let mut s = Scanner::new("é1 x");
    let ts: Vec<Token> = s.scan_all().unwrap();
    assert_eq!(ts[0].kind, TokenKind::Identifier("é1".to_string()));
    assert_eq!(ts[0].span, Span { start: 0, end: 3, line: 1, column: 1 });
    assert_eq!(ts[1].span, Span { start: 4, end: 5, line: 1, column: 4 });
}

#[test]
fn non_ascii_letter_starts_a_line() {
    let mut s = Scanner::new("é y");
    let ts: Vec<Token> = s.scan_all().unwrap();
    assert_eq!(ts[0].kind, TokenKind::Identifier("é".to_string()));
    assert_eq!(ts[0].span, Span { start: 0, end: 2, line: 1, column: 1 });
    assert_eq!(ts[1].span, Span { start: 3, end: 4, line: 1, column: 3 });
}

#[test]
fn multibyte_characters_on_an_earlier_line() {
    let mut s = Scanner::new("\"ü€\"\nz");
    let ts: Vec<Token> = s.scan_all().unwrap();
    assert_eq!(ts[0].span, Span { start: 0, end: 7, line: 1, column: 1 });
    assert_eq!(ts[1].kind, TokenKind::Newline);
    assert_eq!(ts[1].span, Span { start: 7, end: 8, line: 1, column: 5 });
    assert_eq!(ts[2].span, Span { start: 8, end: 9, line: 2, column: 1 });
}

#[test]
fn block_indented_by_two_spaces_is_rejected() {
    let mut s = Scanner::new("a\n  b\n");
    assert!(s.scan_all().is_err());
    assert_eq!(scan_err("a\n  b\n"), "Indentation error at line 2");
}

#[test]
fn block_indented_by_eight_spaces_is_rejected() {
    assert_eq!(scan_err("a\n        b\n"), "Indentation error at line 2");
}

#[test]
fn nested_blocks_step_by_four() {
    assert_eq!(
        kinds("a\n    b\n        c\n"),
        vec![
            TokenKind::Identifier("a".to_string()),
            TokenKind::Newline,
            TokenKind::Indent,
            TokenKind::Identifier("b".to_string()),
            TokenKind::Newline,
            TokenKind::Indent,
            TokenKind::Identifier("c".to_string()),
            TokenKind::Newline,
            TokenKind::Dedent,
            TokenKind::Dedent,
            TokenKind::Eof,
        ]
    );
}

#[test]
fn a_single_letter_scans() {
    let mut s = Scanner::new("a");
    assert_eq!(s.next_token().unwrap().kind, TokenKind::Identifier("a".to_string()));
}

fn texts(src: &str) -> Vec<(TokenKind, String)> {
    let mut s = Scanner::new(src);
    s.scan_all().unwrap().into_iter().map(|t| (t.kind, t.lexeme)).collect()
}

#[test]
fn trailing_comment_adds_no_tokens() {
    assert_eq!(texts("int a: 1\nb: a + 2"), texts("int a: 1\nb: a + 2 # note"));
    assert_eq!(texts("if(x)\n    y\n"), texts("if(x)\n    y\n # note"));
    assert_eq!(texts("x -"), texts("x - # the end"));
}
