use venus_compiler::lexer::scanner::Scanner;
use venus_compiler::lexer::token::{Span, Token, TokenKind};
use venus_compiler::venus_parser::ast::{AssignOp, BinOp, Expr, Node, Program, TypeExpr};
use venus_compiler::venus_parser::parser::Parser;

fn parse(src: &str) -> Result<Program, String> {
    let tokens = Scanner::new(src).scan_all().unwrap();
    Parser::new(tokens).parse()
}

#[test]
fn declaration_with_colon() {
    let p = parse("int x: 5\n").unwrap();
    match &p.nodes[0] {
        Node::Variable(v) => {
            assert_eq!(v.name, "x");
            assert!(matches!(&v.type_expr, TypeExpr::Named(t) if t == "int"));
            assert!(matches!(&v.value, Some(Expr::IntLiteral(5, _))));
            assert!(v.content.is_empty());
        }
        other => panic!("unexpected {:?}", other),
    }
}

#[test]
fn array_type_declaration() {
    let p = parse("int[] xs: [1, 2]\n").unwrap();
    match &p.nodes[0] {
        Node::Variable(v) => {
            assert!(matches!(&v.type_expr, TypeExpr::Array(inner) if matches!(&**inner, TypeExpr::Named(t) if t == "int")));
            assert!(matches!(&v.value, Some(Expr::ArrayLiteral(items, _)) if items.len() == 2));
        }
        other => panic!("unexpected {:?}", other),
    }
}

#[test]
fn assignment_with_colon() {
    let p = parse("x: 6\nx += 1\n").unwrap();
    assert!(matches!(&p.nodes[0], Node::Assignment(a) if a.op == AssignOp::Assign));
    assert!(matches!(&p.nodes[1], Node::Assignment(a) if a.op == AssignOp::AddAssign));
}

#[test]
fn imports() {
    let p = parse("import std\nfrom std import *\nfrom geometry import area, volume\n").unwrap();
    match (&p.nodes[0], &p.nodes[1], &p.nodes[2]) {
        (Node::Import(a), Node::Import(b), Node::Import(c)) => {
            assert_eq!(a.module_name, "std");
            assert!(!a.is_from);
            assert!(a.items.is_empty());
            assert_eq!(b.items, vec!["*".to_string()]);
            assert!(b.is_from);
            assert_eq!(c.module_name, "geometry");
            assert_eq!(c.items, vec!["area".to_string(), "volume".to_string()]);
        }
        other => panic!("unexpected {:?}", other),
    }
}

#[test]
fn if_elif_else_chain() {
    let src = "if x > 1\n    print(x)\nelif x < 0\n    print(0)\nelse\n    print(1)\n";
    let p = parse(src).unwrap();
    assert_eq!(p.nodes.len(), 1);
    match &p.nodes[0] {
        Node::IfChain(c) => {
            assert!(matches!(&c.condition, Expr::BinaryOp { op: BinOp::Gt, .. }));
            assert_eq!(c.then_body.len(), 1);
            assert_eq!(c.elif_branches.len(), 1);
            assert!(matches!(&c.elif_branches[0].0, Expr::BinaryOp { op: BinOp::Lt, .. }));
            assert_eq!(c.else_body.as_ref().unwrap().len(), 1);
        }
        other => panic!("unexpected {:?}", other),
    }
}

#[test]
fn loops_and_returns() {
    let p = parse("for i in xs\n    print(i)\nwhile x < 3\n    x += 1\nreturn x + 1\nreturn\n").unwrap();
    assert!(matches!(&p.nodes[0], Node::ForLoop(f) if f.var_name == "i" && f.body.len() == 1));
    assert!(matches!(&p.nodes[1], Node::WhileLoop(w) if w.body.len() == 1));
    assert!(matches!(&p.nodes[2], Node::Return(r) if r.value.is_some()));
    assert!(matches!(&p.nodes[3], Node::Return(r) if r.value.is_none()));
}

#[test]
fn equality_binds_looser_than_comparison() {
    let p = parse("1 == 2 < 3\n").unwrap();
    match &p.nodes[0] {
        Node::ExprStmt(Expr::BinaryOp { left, op: BinOp::Eq, right, .. }) => {
            assert!(matches!(**left, Expr::IntLiteral(1, _)));
            assert!(matches!(**right, Expr::BinaryOp { op: BinOp::Lt, .. }));
        }
        other => panic!("unexpected {:?}", other),
    }
}

#[test]
fn function_with_body() {
    let p = parse("func add(int a, int b) -> int\n    return a + b\n").unwrap();
    match &p.nodes[0] {
        Node::Variable(v) => {
            assert_eq!(v.name, "add");
            assert_eq!(v.arguments.as_ref().unwrap().args.len(), 2);
            assert!(matches!(&v.return_type, Some(TypeExpr::Named(t)) if t == "int"));
            assert!(matches!(&v.content[0], Node::Return(_)));
        }
        other => panic!("unexpected {:?}", other),
    }
}

#[test]
fn declaration_needs_a_name() {
    assert_eq!(parse("int: 5\n").unwrap_err(), "Expected variable name");
}

#[test]
fn if_needs_a_block() {
    assert_eq!(
        parse("if x\nprint(x)\n").unwrap_err(),
        "Expected block after if at line 2, col 1 (found Identifier(\"print\"))"
    );
}

#[test]
fn from_needs_import() {
    assert_eq!(
        parse("from std *\n").unwrap_err(),
        "Expected 'import' after module name at line 1, col 10 (found Star)"
    );
}

#[test]
fn for_needs_a_loop_variable() {
    assert_eq!(parse("for 1 in xs\n").unwrap_err(), "Expected loop variable");
}

#[test]
fn import_needs_a_module_name() {
    assert_eq!(parse("import\n").unwrap_err(), "Expected module name after 'import'");
}

#[test]
fn return_value_ends_its_line() {
    assert_eq!(
        parse("return 1 2\n").unwrap_err(),
        "Expected newline at line 1, col 10 (found IntLiteral(2))"
    );
}

#[test]
fn colon_binds_a_declaration() {
    let p = parse("int age: 14\n").unwrap();
    match &p.nodes[0] {
        Node::Variable(v) => {
            assert_eq!(v.name, "age");
            assert!(matches!(&v.type_expr, TypeExpr::Named(t) if t == "int"));
            assert!(matches!(&v.value, Some(Expr::IntLiteral(14, _))));
        }
        other => panic!("unexpected {:?}", other),
    }
}

#[test]
fn hand_built_tokens_parse() {
    let tok = |kind: TokenKind, lexeme: &str| Token { kind, lexeme: lexeme.to_string(), span: Span::default() };
    let tokens = vec![
        tok(TokenKind::KwInt, "int"),
        tok(TokenKind::Identifier("age".to_string()), "age"),
        tok(TokenKind::Colon, ":"),
        tok(TokenKind::IntLiteral(14), "14"),
        tok(TokenKind::Newline, "\\n"),
        tok(TokenKind::Eof, ""),
    ];
    let p = Parser::new(tokens).parse().unwrap();
    assert_eq!(p.nodes.len(), 1);
    match &p.nodes[0] {
        Node::Variable(v) => {
            assert_eq!(v.name, "age");
            assert!(matches!(&v.type_expr, TypeExpr::Named(t) if t == "int"));
            assert!(matches!(&v.value, Some(Expr::IntLiteral(14, _))));
        }
        other => panic!("unexpected {:?}", other),
    }
}

fn parse_kinds(kinds: Vec<TokenKind>) -> Result<Program, String> {
    let tokens = kinds.into_iter().map(|kind| Token { kind, lexeme: String::new(), span: Span::default() }).collect();
    Parser::new(tokens).parse()
}

#[test]
fn identifier_then_eof_is_an_error_here_too() {
    assert_eq!(
        parse_kinds(vec![TokenKind::Identifier("x".to_string()), TokenKind::Eof]).unwrap_err(),
        "Expected newline after expression at line 0, col 0 (found Eof)"
    );
}

#[test]
fn operator_before_eof_is_read_again_here_too() {
    assert_eq!(
        parse_kinds(vec![TokenKind::Identifier("x".to_string()), TokenKind::Plus, TokenKind::Eof]).unwrap_err(),
        "Expected expression at line 0 (found Plus)"
    );
}

#[test]
fn open_parenthesis_before_eof_is_an_error_here_too() {
    assert_eq!(
        parse_kinds(vec![TokenKind::LeftParen, TokenKind::Eof]).unwrap_err(),
        "Expected expression at line 0 (found Eof)"
    );
}
