use venus_compiler::lexer::scanner::Scanner;
use venus_compiler::lexer::token::{Span, Token, TokenKind};
use venus_compiler::parser::ast::{Arg, AssignOp, BinOp, Expr, Node, Program, TypeExpr, UnOp, Variable};
use venus_compiler::parser::parser::Parser;

fn parse(src: &str) -> Result<Program, String> {
    let tokens = Scanner::new(src).scan_all().unwrap();
    Parser::new(tokens).parse()
}

fn var(n: &Node) -> &Variable {
    match n {
        Node::Variable(v) => v,
        other => panic!("expected a variable, found {:?}", other),
    }
}

fn named(t: &TypeExpr) -> &str {
    match t {
        TypeExpr::Named(n) => n.as_str(),
        other => panic!("expected a named type, found {:?}", other),
    }
}

/// The expression a declaration assigns with `:`.
fn declared_value(v: &Variable) -> &Expr {
    let anon = var(&v.content[0]);
    assert!(anon.name.is_none());
    assert_eq!(named(&anon.type_expr), "anonymous");
    match &anon.content[0] {
        Node::ExprStmt(e) => e,
        other => panic!("expected an expression, found {:?}", other),
    }
}

#[test]
fn declaration_with_value() {
    let p = parse("int age: 14\n").unwrap();
    assert_eq!(p.nodes.len(), 1);
    let v = var(&p.nodes[0]);
    assert_eq!(named(&v.type_expr), "int");
    assert_eq!(v.name.as_deref(), Some("age"));
    assert!(v.arguments.is_none());
    assert!(!v.is_export);
    assert_eq!(v.content.len(), 1);
    assert!(matches!(declared_value(v), Expr::IntLiteral(14, _)));
    assert_eq!(v.span.start, 0);
    assert_eq!(v.span.end, 12);
}

#[test]
fn blank_lines_between_nodes() {
    let p = parse("\n\nint a: 1\n\n\nint b: 2\n").unwrap();
    assert_eq!(p.nodes.len(), 2);
}

#[test]
fn assignments_with_colon_and_compound_operators() {
    let p = parse("age: 15\nage += 2\nage -= 1\nage *= 3\nage /= 4\n").unwrap();
    let ops: Vec<AssignOp> = p
        .nodes
        .iter()
        .map(|n| match n {
            Node::Assignment(a) => {
                assert!(matches!(&a.target, Expr::Identifier(name, _) if name == "age"));
                a.op
            }
            other => panic!("expected an assignment, found {:?}", other),
        })
        .collect();
    assert_eq!(
        ops,
        vec![AssignOp::Assign, AssignOp::AddAssign, AssignOp::SubAssign, AssignOp::MulAssign, AssignOp::DivAssign]
    );
}

#[test]
fn multiplication_binds_tighter_than_addition() {
    let p = parse("int r: 1 + 2 * 3\n").unwrap();
    match declared_value(var(&p.nodes[0])) {
        Expr::BinaryOp { left, op: BinOp::Add, right, .. } => {
            assert!(matches!(**left, Expr::IntLiteral(1, _)));
            assert!(matches!(**right, Expr::BinaryOp { op: BinOp::Mul, .. }));
        }
        other => panic!("unexpected {:?}", other),
    }
}

#[test]
fn subtraction_is_left_associative() {
    let p = parse("int r: 10 - 3 - 2\n").unwrap();
    match declared_value(var(&p.nodes[0])) {
        Expr::BinaryOp { left, op: BinOp::Sub, right, .. } => {
            assert!(matches!(**left, Expr::BinaryOp { op: BinOp::Sub, .. }));
            assert!(matches!(**right, Expr::IntLiteral(2, _)));
        }
        other => panic!("unexpected {:?}", other),
    }
}

#[test]
fn unary_operators() {
    let p = parse("int n: -5\nbool b: !true\n").unwrap();
    assert!(matches!(declared_value(var(&p.nodes[0])), Expr::UnaryOp { op: UnOp::Negate, .. }));
    assert!(matches!(declared_value(var(&p.nodes[1])), Expr::UnaryOp { op: UnOp::Not, .. }));
}

#[test]
fn member_calls() {
    let p = parse("std.console.print(\"hi\")\n").unwrap();
    match &p.nodes[0] {
        Node::ExprStmt(Expr::Call { callee, args, .. }) => {
            assert_eq!(args.len(), 1);
            assert!(matches!(&args[0], Expr::StringLiteral(s, _) if s == "hi"));
            match &**callee {
                Expr::MemberAccess { object, member, .. } => {
                    assert_eq!(member, "print");
                    assert!(matches!(&**object, Expr::MemberAccess { member, .. } if member == "console"));
                }
                other => panic!("unexpected {:?}", other),
            }
        }
        other => panic!("unexpected {:?}", other),
    }
}

#[test]
fn index_access_and_arrays() {
    let p = parse("int[] xs: [1, 2, 3]\nxs[0]\n").unwrap();
    let v = var(&p.nodes[0]);
    assert!(matches!(&v.type_expr, TypeExpr::Array(inner) if named(inner) == "int"));
    assert!(matches!(declared_value(v), Expr::ArrayLiteral(items, _) if items.len() == 3));
    assert!(matches!(&p.nodes[1], Node::ExprStmt(Expr::IndexAccess { .. })));
}

#[test]
fn if_block_is_a_variable() {
    let p = parse("if(count > 5)\n    print(count)\n").unwrap();
    let v = var(&p.nodes[0]);
    assert_eq!(named(&v.type_expr), "if");
    assert!(v.name.is_none());
    let args = v.arguments.as_ref().unwrap();
    assert_eq!(args.args.len(), 1);
    assert!(matches!(&args.args[0], Arg::Positional(Expr::BinaryOp { op: BinOp::Gt, .. })));
    assert_eq!(v.content.len(), 1);
    assert!(matches!(&v.content[0], Node::ExprStmt(Expr::Call { .. })));
}

#[test]
fn for_header_uses_in() {
    let p = parse("for(x in xs)\n    print(x)\n").unwrap();
    let v = var(&p.nodes[0]);
    assert_eq!(named(&v.type_expr), "for");
    let args = v.arguments.as_ref().unwrap();
    assert!(matches!(&args.args[0], Arg::Positional(Expr::BinaryOp { op: BinOp::In, .. })));
}

#[test]
fn function_with_typed_parameters_and_return() {
    let p = parse("func add(int a, int b) -> int\n    return: a + b\n").unwrap();
    let f = var(&p.nodes[0]);
    assert_eq!(named(&f.type_expr), "func");
    assert_eq!(f.name.as_deref(), Some("add"));
    let args = &f.arguments.as_ref().unwrap().args;
    assert_eq!(args.len(), 2);
    assert!(matches!(&args[0], Arg::Typed { name, .. } if name == "a"));
    assert!(matches!(&args[1], Arg::Typed { ty: TypeExpr::Named(t), name, .. } if name == "b" && t == "int"));
    assert_eq!(named(f.return_type.as_ref().unwrap()), "int");
    let ret = var(&f.content[0]);
    assert_eq!(named(&ret.type_expr), "return");
    assert!(matches!(declared_value(ret), Expr::BinaryOp { op: BinOp::Add, .. }));
}

#[test]
fn named_arguments() {
    let p = parse("object Window(width: 1920, 7)\n    string title: \"x\"\n").unwrap();
    let v = var(&p.nodes[0]);
    let args = &v.arguments.as_ref().unwrap().args;
    assert!(matches!(&args[0], Arg::Named { name, value: Expr::IntLiteral(1920, _), .. } if name == "width"));
    assert!(matches!(&args[1], Arg::Positional(Expr::IntLiteral(7, _))));
}

#[test]
fn decorators_and_export() {
    let p = parse("@native\n@hardware.GPU\nfunc f()\nexport int x: 1\n").unwrap();
    let f = var(&p.nodes[0]);
    assert_eq!(f.decorators.len(), 2);
    assert_eq!(f.decorators[0].path, vec!["native".to_string()]);
    assert_eq!(f.decorators[1].path, vec!["hardware".to_string(), "GPU".to_string()]);
    assert!(f.content.is_empty());
    let x = var(&p.nodes[1]);
    assert!(x.is_export);
}

#[test]
fn nested_blocks() {
    let p = parse("object A\n    object B\n        int c: 1\n    int d: 2\nint e: 3\n").unwrap();
    assert_eq!(p.nodes.len(), 2);
    let a = var(&p.nodes[0]);
    assert_eq!(a.content.len(), 2);
    assert_eq!(var(&a.content[0]).content.len(), 1);
}

#[test]
fn missing_expression_is_an_error() {
    assert_eq!(parse("int x: \n").unwrap_err(), "Expected expression at line 1 (found Newline)");
}

#[test]
fn array_type_spelled_as_identifier_is_an_expression() {
    assert_eq!(
        parse("array[int] xs: [1]\n").unwrap_err(),
        "Expected newline after expression at line 1, col 12 (found Identifier(\"xs\"))"
    );
}

#[test]
fn unclosed_call_is_an_error() {
    assert_eq!(
        parse("print(1\n").unwrap_err(),
        "Expected ')' after call args at line 1, col 8 (found Newline)"
    );
}

#[test]
fn bad_decorator_is_an_error() {
    assert_eq!(parse("@1\nint x\n").unwrap_err(), "Expected identifier after '@'");
}

#[test]
fn operator_needs_a_right_operand() {
    assert_eq!(parse("x +\n").unwrap_err(), "Expected expression at line 1 (found Newline)");
}

#[test]
fn object_example_from_the_language_guide() {
    let p = parse("object Window(width: 1920, height: 1080)\n    string title: \"FireInc Engine\"\n").unwrap();
    assert_eq!(p.nodes.len(), 1);
    let v = var(&p.nodes[0]);
    assert_eq!(named(&v.type_expr), "object");
    assert_eq!(v.name.as_deref(), Some("Window"));
    let args = &v.arguments.as_ref().unwrap().args;
    assert_eq!(args.len(), 2);
    assert!(matches!(&args[0], Arg::Named { name, value: Expr::IntLiteral(1920, _), .. } if name == "width"));
    assert!(matches!(&args[1], Arg::Named { name, value: Expr::IntLiteral(1080, _), .. } if name == "height"));
    assert_eq!(var(&v.content[0]).name.as_deref(), Some("title"));
}

#[test]
fn parsing_stops_at_the_first_eof() {
    let mut tokens = Scanner::new("int a: 1\n").scan_all().unwrap();
    tokens.extend(Scanner::new("int b: 2\n").scan_all().unwrap());
    let program = Parser::new(tokens).parse().unwrap();
    assert_eq!(program.nodes.len(), 1);
    assert_eq!(var(&program.nodes[0]).name.as_deref(), Some("a"));
}

fn parse_kinds(kinds: Vec<TokenKind>) -> Result<Program, String> {
    let tokens = kinds.into_iter().map(|kind| Token { kind, lexeme: String::new(), span: Span::default() }).collect();
    Parser::new(tokens).parse()
}

#[test]
fn identifier_then_eof_is_an_error() {
    assert_eq!(
        parse_kinds(vec![TokenKind::Identifier("x".to_string()), TokenKind::Eof]).unwrap_err(),
        "Expected newline after expression at line 0, col 0 (found Eof)"
    );
}

#[test]
fn operator_before_eof_is_read_again() {
    assert_eq!(
        parse_kinds(vec![TokenKind::Identifier("x".to_string()), TokenKind::Plus, TokenKind::Eof]).unwrap_err(),
        "Expected expression at line 0 (found Plus)"
    );
}

#[test]
fn open_parenthesis_before_eof_is_an_error() {
    assert_eq!(
        parse_kinds(vec![TokenKind::LeftParen, TokenKind::Eof]).unwrap_err(),
        "Expected expression at line 0 (found Eof)"
    );
}

#[test]
fn export_before_eof_lacks_a_type() {
    assert_eq!(parse_kinds(vec![TokenKind::KwExport, TokenKind::Eof]).unwrap_err(), "Expected a type");
}

#[test]
fn lone_eof_is_an_empty_program() {
    assert_eq!(parse_kinds(vec![TokenKind::Eof]).unwrap().nodes.len(), 0);
}
