//! The compiler's parser: a recursive-descent parser for declarations and
//! a precedence-climbing (Pratt) parser for expressions. Control flow needs
//! no rules of its own: `if(c)`, `for(x in xs)`, `return: e` are Variables.

use vstd::prelude::*;
use crate::lexer::token::{Token, TokenKind, Span, kind_text, located_error, located, kind_text_spec};
use crate::lexer::rules::kind_view;
use crate::lexer::scanner::parser_input;
use crate::parser::ast::{
    Program, Node, Variable, TypeExpr, ArgList, Arg, Decorator, AssignOp, Assignment, Expr, BinOp,
    UnOp, ExprView, expr_view, exprs_view, lemma_exprs_view_push, TypeView, type_view, ArgView, ArgListView,
    arg_view, args_view, arg_list_view, lemma_args_view_push, DecoratorView, decorator_view, strings_view,
    lemma_strings_view_push, NodeView, VariableView, AssignmentView, node_view, nodes_view, variable_view,
    decorators_view, lemma_nodes_view_push, lemma_decorators_view_push, view_span, lemma_view_span,
    opt_string_view, opt_type_view,
};
use crate::text::{owned, decimal_string, decimal};

verus! {

broadcast use vstd::string::group_string_axioms;

/// The name a type keyword (or identifier) gives to a type.
pub open spec fn type_word(k: TokenKind) -> Option<Seq<char>> {
    match k {
        TokenKind::KwInt => Some("int"@),
        TokenKind::KwFloat => Some("float"@),
        TokenKind::KwString => Some("string"@),
        TokenKind::KwBool => Some("bool"@),
        TokenKind::KwStruct => Some("struct"@),
        TokenKind::KwObject => Some("object"@),
        TokenKind::KwBehaviour => Some("behaviour"@),
        TokenKind::KwFunc => Some("func"@),
        TokenKind::KwBuffer => Some("buffer"@),
        TokenKind::KwEnum => Some("enum"@),
        TokenKind::KwTask => Some("task"@),
        TokenKind::KwSignal => Some("signal"@),
        TokenKind::KwVec2 => Some("vec2"@),
        TokenKind::KwVec3 => Some("vec3"@),
        TokenKind::KwVec4 => Some("vec4"@),
        TokenKind::KwMat2 => Some("mat2"@),
        TokenKind::KwMat3 => Some("mat3"@),
        TokenKind::KwMat4 => Some("mat4"@),
        TokenKind::KwTensor => Some("tensor"@),
        TokenKind::KwIf => Some("if"@),
        TokenKind::KwElse => Some("else"@),
        TokenKind::KwElif => Some("elif"@),
        TokenKind::KwFor => Some("for"@),
        TokenKind::KwWhile => Some("while"@),
        TokenKind::KwReturn => Some("return"@),
        TokenKind::KwImport => Some("import"@),
        TokenKind::KwFrom => Some("from"@),
        TokenKind::Identifier(name) => Some(name@),
        _ => None,
    }
}

/// The innermost name of a type: `int[][]` names `int`.
pub open spec fn base_name(t: TypeExpr) -> Seq<char>
    decreases t,
{
    match t {
        TypeExpr::Named(n) => n@,
        TypeExpr::Array(inner) => base_name(*inner),
    }
}

/// Binding power and operator of a binary operator token: `in`, `==`, `!=`
/// bind loosest (1), then comparisons (2), `+` `-` (3), `*` `/` (4).
pub open spec fn binop_of(k: TokenKind) -> Option<(u8, BinOp)> {
    match k {
        TokenKind::KwIn => Some((1, BinOp::In)),
        TokenKind::EqualEqual => Some((1, BinOp::Eq)),
        TokenKind::BangEqual => Some((1, BinOp::NotEq)),
        TokenKind::Less => Some((2, BinOp::Lt)),
        TokenKind::Greater => Some((2, BinOp::Gt)),
        TokenKind::LessEqual => Some((2, BinOp::LtEq)),
        TokenKind::GreaterEqual => Some((2, BinOp::GtEq)),
        TokenKind::Plus => Some((3, BinOp::Add)),
        TokenKind::Minus => Some((3, BinOp::Sub)),
        TokenKind::Star => Some((4, BinOp::Mul)),
        TokenKind::Slash => Some((4, BinOp::Div)),
        _ => None,
    }
}

/// The assignment operator a token stands for at statement level: `:` and
/// the compound `+=`, `-=`, `*=`, `/=`.
pub open spec fn assign_op_of(k: TokenKind) -> Option<AssignOp> {
    match k {
        TokenKind::Colon => Some(AssignOp::Assign),
        TokenKind::PlusEqual => Some(AssignOp::AddAssign),
        TokenKind::MinusEqual => Some(AssignOp::SubAssign),
        TokenKind::StarEqual => Some(AssignOp::MulAssign),
        TokenKind::SlashEqual => Some(AssignOp::DivAssign),
        _ => None,
    }
}

// ── The grammar, as a function of the tokens ──
// Each `*_at` function reads the tokens from a position and gives the view
// of what is parsed there and the position after it, or the message of the
// first error met. Positions only move forward. (A few branches that the
// tokens a parser takes never reach give an empty message.)

/// The kind of the token at `p`.
pub open spec fn tok(ts: Seq<Token>, p: int) -> TokenKind {
    ts[p].kind
}

/// The error for a missing token of a given kind at `p`: `err` located at
/// the token found there.
pub open spec fn missing(ts: Seq<Token>, p: int, err: Seq<char>) -> Seq<char> {
    located(err, ts[p])
}

/// "Expected expression at line L (found <kind>)" for token `t`.
pub open spec fn expected_expression(t: Token) -> Seq<char> {
    "Expected expression at line "@ + decimal(t.span.line as nat) + " (found "@ + kind_text_spec(kind_view(t.kind))
        + ")"@
}

/// The expression that a literal, identifier or type-keyword token stands
/// for on its own.
pub open spec fn atom_view(t: Token) -> Option<ExprView> {
    match t.kind {
        TokenKind::IntLiteral(n) => Some(ExprView::IntLiteral(n, t.span)),
        TokenKind::FloatLiteral(x) => Some(ExprView::FloatLiteral(x@, t.span)),
        TokenKind::StringLiteral(x) => Some(ExprView::StringLiteral(x@, t.span)),
        TokenKind::BoolLiteral(b) => Some(ExprView::BoolLiteral(b, t.span)),
        TokenKind::Identifier(n) => Some(ExprView::Identifier(n@, t.span)),
        TokenKind::LeftParen => None,
        k => if k.spec_is_type_keyword() { Some(ExprView::Identifier(t.lexeme@, t.span)) } else { None },
    }
}

/// An expression: operators from the loosest binding power up.
pub open spec fn expr_at(ts: Seq<Token>, p: int) -> Result<(ExprView, int), Seq<char>>
    decreases ts.len() - p, 7nat,
{
    if !(0 <= p < ts.len()) {
        Err(seq![])
    } else {
        pratt_at(ts, p, 0)
    }
}

/// An operand, then every operator of binding power at least `min` with its
/// right operand (which binds tighter), grouping to the left.
pub open spec fn pratt_at(ts: Seq<Token>, p: int, min: int) -> Result<(ExprView, int), Seq<char>>
    decreases ts.len() - p, 6nat,
{
    if !(0 <= p < ts.len()) {
        Err(seq![])
    } else {
        match unary_at(ts, p) {
            Ok((left, p1)) => if p <= p1 <= ts.len() { pratt_loop(ts, p1, min, left) } else { Err(seq![]) },
            Err(m) => Err(m),
        }
    }
}

pub open spec fn pratt_loop(ts: Seq<Token>, p: int, min: int, left: ExprView) -> Result<(ExprView, int), Seq<char>>
    decreases ts.len() - p, 5nat,
{
    if !(0 <= p < ts.len()) {
        Err(seq![])
    } else {
        match binop_of(tok(ts, p)) {
            Some((prec, op)) => if prec < min {
                Ok((left, p))
            } else {
                match pratt_at(ts, p + 1, prec + 1) {
                    Ok((right, p2)) => if p < p2 <= ts.len() {
                        pratt_loop(
                            ts,
                            p2,
                            min,
                            ExprView::BinaryOp { left: Box::new(left), op, right: Box::new(right), span: Span::zero() },
                        )
                    } else {
                        Err(seq![])
                    },
                    Err(m) => Err(m),
                }
            },
            None => Ok((left, p)),
        }
    }
}

/// `-` or `!` before an operand, or a primary expression.
pub open spec fn unary_at(ts: Seq<Token>, p: int) -> Result<(ExprView, int), Seq<char>>
    decreases ts.len() - p, 5nat,
{
    if !(0 <= p < ts.len()) {
        Err(seq![])
    } else if tok(ts, p) is Minus || tok(ts, p) is Bang {
        let op = if tok(ts, p) is Minus { UnOp::Negate } else { UnOp::Not };
        match unary_at(ts, p + 1) {
            Ok((e, p1)) => Ok((ExprView::UnaryOp { op, operand: Box::new(e), span: Span::zero() }, p1)),
            Err(m) => Err(m),
        }
    } else {
        primary_at(ts, p)
    }
}

/// An array literal, a parenthesized expression or an atom, then its calls,
/// member accesses and indexings. A parser that stands at an `Eof` does not
/// move, and reads the token before it once more: an atom there is the
/// expression again, anything else is reported as the missing expression,
/// but for a `(`, which would open the same group without end and is
/// answered by the missing expression at the `Eof`.
pub open spec fn primary_at(ts: Seq<Token>, p: int) -> Result<(ExprView, int), Seq<char>>
    decreases ts.len() - p, 4nat,
{
    if !(0 <= p < ts.len()) {
        Err(seq![])
    } else if ts[p].kind is Eof {
        // at the end, the token before is read once more
        if !(1 <= p) {
            Err(seq![])
        } else if ts[p - 1].kind is LeftParen {
            // a `(` read again would open the same group without end
            Err(expected_expression(ts[p]))
        } else {
            match atom_view(ts[p - 1]) {
                Some(e) => postfix_at(ts, p, e),
                None => Err(expected_expression(ts[p - 1])),
            }
        }
    } else if !(p + 1 < ts.len()) {
        Err(seq![])
    } else if tok(ts, p) is LeftBracket {
        let items = if tok(ts, p + 1) is RightBracket { Ok((seq![], p + 1)) } else { list_at(ts, p + 1, seq![]) };
        match items {
            Ok((es, p1)) => if !(p < p1 < ts.len()) {
                Err(seq![])
            } else if tok(ts, p1) is RightBracket {
                Ok((ExprView::ArrayLiteral(es, Span::zero()), p1 + 1))
            } else {
                Err(missing(ts, p1, "Expected ']' after array items"@))
            },
            Err(m) => Err(m),
        }
    } else if tok(ts, p) is LeftParen {
        match expr_at(ts, p + 1) {
            Ok((e, p1)) => if !(p < p1 < ts.len()) {
                Err(seq![])
            } else if tok(ts, p1) is RightParen {
                postfix_at(ts, p1 + 1, e)
            } else {
                Err(missing(ts, p1, "Expected ')'"@))
            },
            Err(m) => Err(m),
        }
    } else {
        match atom_view(ts[p]) {
            Some(e) => postfix_at(ts, p + 1, e),
            None => Err(expected_expression(ts[p])),
        }
    }
}

/// Expressions separated by commas, after those in `acc`.
pub open spec fn list_at(ts: Seq<Token>, p: int, acc: Seq<ExprView>) -> Result<(Seq<ExprView>, int), Seq<char>>
    decreases ts.len() - p, 8nat,
{
    if !(0 <= p < ts.len()) {
        Err(seq![])
    } else {
        match expr_at(ts, p) {
            Ok((e, p1)) => if p <= p1 < ts.len() {
                if tok(ts, p1) is Comma { list_at(ts, p1 + 1, acc.push(e)) } else { Ok((acc.push(e), p1)) }
            } else {
                Err(seq![])
            },
            Err(m) => Err(m),
        }
    }
}

/// Calls `(..)`, member accesses `.name` and indexings `[..]` after `e`.
pub open spec fn postfix_at(ts: Seq<Token>, p: int, e: ExprView) -> Result<(ExprView, int), Seq<char>>
    decreases ts.len() - p, 3nat,
{
    if !(0 <= p < ts.len()) {
        Err(seq![])
    } else if tok(ts, p) is LeftParen {
        if !(p + 1 < ts.len()) {
            Err(seq![])
        } else {
            let args = if tok(ts, p + 1) is RightParen { Ok((seq![], p + 1)) } else { list_at(ts, p + 1, seq![]) };
            match args {
                Ok((es, p1)) => if !(p < p1 < ts.len()) {
                    Err(seq![])
                } else if tok(ts, p1) is RightParen {
                    postfix_at(ts, p1 + 1, ExprView::Call { callee: Box::new(e), args: es, span: Span::zero() })
                } else {
                    Err(missing(ts, p1, "Expected ')' after call args"@))
                },
                Err(m) => Err(m),
            }
        }
    } else if tok(ts, p) is Dot {
        if p + 1 < ts.len() && tok(ts, p + 1).spec_is_type_keyword() {
            postfix_at(
                ts,
                p + 2,
                ExprView::MemberAccess { object: Box::new(e), member: ts[p + 1].lexeme@, span: Span::zero() },
            )
        } else {
            Err("Expected property name"@)
        }
    } else if tok(ts, p) is LeftBracket {
        match expr_at(ts, p + 1) {
            Ok((i, p1)) => if !(p < p1 < ts.len()) {
                Err(seq![])
            } else if tok(ts, p1) is RightBracket {
                postfix_at(
                    ts,
                    p1 + 1,
                    ExprView::IndexAccess { object: Box::new(e), index: Box::new(i), span: Span::zero() },
                )
            } else {
                Err(missing(ts, p1, "Expected ']' after index"@))
            },
            Err(m) => Err(m),
        }
    } else {
        Ok((e, p))
    }
}

/// A type: a type keyword or identifier, then any number of `[]` (a type
/// written inside the brackets is read and dropped). At an `Eof` the token
/// before it is read once more.
pub open spec fn type_at(ts: Seq<Token>, p: int) -> Result<(TypeView, int), Seq<char>>
    decreases ts.len() - p, 1nat,
{
    if !(0 <= p < ts.len()) {
        Err("Expected a type"@)
    } else if ts[p].kind is Eof {
        // at the end, the token before is read once more
        if !(1 <= p) {
            Err("Expected a type"@)
        } else {
            match type_word(ts[p - 1].kind) {
                Some(w) => brackets_at(ts, p, TypeView::Named(w)),
                None => Err("Expected a type"@),
            }
        }
    } else if !(p + 1 < ts.len()) {
        Err("Expected a type"@)
    } else {
        match type_word(tok(ts, p)) {
            Some(w) => brackets_at(ts, p + 1, TypeView::Named(w)),
            None => Err("Expected a type"@),
        }
    }
}

pub open spec fn brackets_at(ts: Seq<Token>, p: int, ty: TypeView) -> Result<(TypeView, int), Seq<char>>
    decreases ts.len() - p, 0nat,
{
    if !(0 <= p < ts.len()) {
        Err(seq![])
    } else if tok(ts, p) is LeftBracket {
        if !(p + 1 < ts.len()) {
            Err(seq![])
        } else {
            let inner = if tok(ts, p + 1) is RightBracket {
                Ok(p + 1)
            } else {
                match type_at(ts, p + 1) {
                    Ok((_, q)) => Ok(q),
                    Err(m) => Err(m),
                }
            };
            match inner {
                Ok(q) => if !(p < q < ts.len()) {
                    Err(seq![])
                } else if tok(ts, q) is RightBracket {
                    brackets_at(ts, q + 1, TypeView::Array(Box::new(ty)))
                } else {
                    Err(missing(ts, q, "Expected ']' after '['"@))
                },
                Err(m) => Err(m),
            }
        }
    } else {
        Ok((ty, p))
    }
}

/// A decorator whose `@` is the token before `p`: a dotted path of names.
pub open spec fn decorator_at(ts: Seq<Token>, p: int) -> Result<(DecoratorView, int), Seq<char>> {
    if !(1 <= p < ts.len()) {
        Err(seq![])
    } else if tok(ts, p).spec_is_type_keyword() {
        dots_at(ts, p + 1, seq![ts[p].lexeme@], ts[p - 1].span.start)
    } else {
        Err("Expected identifier after '@'"@)
    }
}

pub open spec fn dots_at(ts: Seq<Token>, p: int, path: Seq<Seq<char>>, start: usize) -> Result<(DecoratorView, int), Seq<char>>
    decreases ts.len() - p,
{
    if !(1 <= p < ts.len()) {
        Err(seq![])
    } else if tok(ts, p) is Dot {
        if p + 1 < ts.len() && tok(ts, p + 1).spec_is_type_keyword() {
            dots_at(ts, p + 2, path.push(ts[p + 1].lexeme@), start)
        } else {
            Err("Expected identifier after '.'"@)
        }
    } else {
        Ok((DecoratorView { path, span: Span { start, end: ts[p - 1].span.end, line: 0, column: 0 } }, p))
    }
}

/// One argument: typed (`int a`, `ref int a`), named (`w: 800`) or
/// positional (an expression).
pub open spec fn arg_at(ts: Seq<Token>, p: int) -> Result<(ArgView, int), Seq<char>> {
    if !(0 <= p < ts.len()) {
        Err(seq![])
    } else {
        let is_ref = tok(ts, p) is KwRef;
        let c = if is_ref { p + 1 } else { p };
        let typed = c < ts.len() && tok(ts, c).spec_is_type_keyword() && c + 1 < ts.len() && tok(ts, c + 1) is Identifier;
        if typed {
            match type_at(ts, c) {
                Ok((ty, q)) => if !(c < q < ts.len()) {
                    Err(seq![])
                } else if tok(ts, q).spec_is_type_keyword() {
                    Ok((ArgView::Typed { ty, name: ts[q].lexeme@, is_ref, span: ts[q].span }, q + 1))
                } else {
                    Err("Expected parameter name"@)
                },
                Err(m) => Err(m),
            }
        } else if tok(ts, p) is Identifier && p + 1 < ts.len() && tok(ts, p + 1) is Colon {
            match expr_at(ts, p + 2) {
                Ok((v, q)) => Ok((ArgView::Named { name: tok(ts, p)->Identifier_0@, value: v, span: ts[p].span }, q)),
                Err(m) => Err(m),
            }
        } else {
            match expr_at(ts, p) {
                Ok((v, q)) => Ok((ArgView::Positional(v), q)),
                Err(m) => Err(m),
            }
        }
    }
}

/// Arguments separated by commas, after those in `acc`.
pub open spec fn args_at(ts: Seq<Token>, p: int, acc: Seq<ArgView>) -> Result<(Seq<ArgView>, int), Seq<char>>
    decreases ts.len() - p,
{
    if !(0 <= p < ts.len()) {
        Err(seq![])
    } else {
        match arg_at(ts, p) {
            Ok((a, q)) => if p <= q < ts.len() {
                if tok(ts, q) is Comma { args_at(ts, q + 1, acc.push(a)) } else { Ok((acc.push(a), q)) }
            } else {
                Err(seq![])
            },
            Err(m) => Err(m),
        }
    }
}

/// The arguments after a `(` (the token before `p`), up to and including
/// the `)`.
pub open spec fn arg_list_at(ts: Seq<Token>, p: int) -> Result<(ArgListView, int), Seq<char>> {
    if !(1 <= p < ts.len()) {
        Err(seq![])
    } else {
        let args = if tok(ts, p) is RightParen { Ok((seq![], p)) } else { args_at(ts, p, seq![]) };
        match args {
            Ok((xs, q)) => if !(p <= q < ts.len()) {
                Err(seq![])
            } else if tok(ts, q) is RightParen {
                Ok((
                    ArgListView { args: xs, span: Span { start: ts[p - 1].span.start, end: ts[q].span.end, line: 0, column: 0 } },
                    q + 1,
                ))
            } else {
                Err(missing(ts, q, "Expected ')' after arguments"@))
            },
            Err(m) => Err(m),
        }
    }
}

/// A variable's name: an identifier (its text) or a type keyword (its
/// spelling), if one follows the type.
pub open spec fn name_at(ts: Seq<Token>, p: int) -> (Option<Seq<char>>, int) {
    if !(0 <= p < ts.len()) {
        (None, p)
    } else {
        match tok(ts, p) {
            TokenKind::Identifier(i) => (Some(i@), p + 1),
            k => if k.spec_is_type_keyword() { (Some(ts[p].lexeme@), p + 1) } else { (None, p) },
        }
    }
}

/// `uses name`, if present.
pub open spec fn uses_at(ts: Seq<Token>, p: int) -> Result<(Seq<Seq<char>>, int), Seq<char>> {
    if 0 <= p < ts.len() && tok(ts, p) is KwUses {
        if p + 1 < ts.len() && tok(ts, p + 1).spec_is_type_keyword() {
            Ok((seq![ts[p + 1].lexeme@], p + 2))
        } else {
            Err("Expected identifier after 'uses'"@)
        }
    } else {
        Ok((seq![], p))
    }
}

/// `(arguments)`, if present.
pub open spec fn opt_args_at(ts: Seq<Token>, p: int) -> Result<(Option<ArgListView>, int), Seq<char>> {
    if 0 <= p < ts.len() && tok(ts, p) is LeftParen {
        match arg_list_at(ts, p + 1) {
            Ok((l, q)) => Ok((Some(l), q)),
            Err(m) => Err(m),
        }
    } else {
        Ok((None, p))
    }
}

/// `-> type`, if present.
pub open spec fn opt_ret_at(ts: Seq<Token>, p: int) -> Result<(Option<TypeView>, int), Seq<char>> {
    if 0 <= p < ts.len() && tok(ts, p) is Arrow {
        match type_at(ts, p + 1) {
            Ok((t, q)) => Ok((Some(t), q)),
            Err(m) => Err(m),
        }
    } else {
        Ok((None, p))
    }
}

/// The anonymous variable that holds the value written with `:`.
pub open spec fn anonymous_value(e: ExprView) -> NodeView {
    NodeView::Variable(VariableView {
        type_expr: TypeView::Named("anonymous"@),
        name: None,
        arguments: None,
        content: seq![NodeView::ExprStmt(e)],
        return_type: None,
        decorators: seq![],
        uses: seq![],
        is_const: false,
        is_export: false,
        is_ref: false,
        span: Span::zero(),
    })
}

/// `: value`, if present: the content it starts.
pub open spec fn opt_value_at(ts: Seq<Token>, p: int) -> Result<(Seq<NodeView>, int), Seq<char>> {
    if 0 <= p < ts.len() && tok(ts, p) is Colon {
        match expr_at(ts, p + 1) {
            Ok((e, q)) => Ok((seq![anonymous_value(e)], q)),
            Err(m) => Err(m),
        }
    } else {
        Ok((seq![], p))
    }
}

/// The position after any blank lines.
pub open spec fn skip_newlines(ts: Seq<Token>, p: int) -> int
    decreases ts.len() - p,
{
    if 0 <= p < ts.len() && tok(ts, p) is Newline {
        skip_newlines(ts, p + 1)
    } else {
        p
    }
}

/// Decorators `@path` each on a line of its own, after those in `acc`.
pub open spec fn decorators_at(ts: Seq<Token>, p: int, acc: Seq<DecoratorView>) -> Result<(Seq<DecoratorView>, int), Seq<char>>
    decreases ts.len() - p,
{
    if !(0 <= p < ts.len()) {
        Err(seq![])
    } else if tok(ts, p) is At {
        match decorator_at(ts, p + 1) {
            Ok((d, q)) => if !(p < q < ts.len()) {
                Err(seq![])
            } else if tok(ts, q) is Newline {
                decorators_at(ts, q + 1, acc.push(d))
            } else {
                Err(missing(ts, q, "Expected newline after decorator"@))
            },
            Err(m) => Err(m),
        }
    } else {
        Ok((acc, p))
    }
}

/// An expression statement, or an assignment when `:`, `+=`, `-=`, `*=` or
/// `/=` follows the first expression; either ends its line.
pub open spec fn statement_at(ts: Seq<Token>, p: int) -> Result<(NodeView, int), Seq<char>> {
    match expr_at(ts, p) {
        Ok((e, p1)) => if !(p <= p1 < ts.len()) {
            Err(seq![])
        } else {
            match assign_op_of(tok(ts, p1)) {
                Some(op) => match expr_at(ts, p1 + 1) {
                    Ok((v, p2)) => if !(p1 < p2 < ts.len()) {
                        Err(seq![])
                    } else if tok(ts, p2) is Newline {
                        Ok((
                            NodeView::Assignment(AssignmentView { target: e, op, value: v, span: view_span(e) }),
                            p2 + 1,
                        ))
                    } else {
                        Err(missing(ts, p2, "Expected newline after assignment"@))
                    },
                    Err(m) => Err(m),
                },
                None => if tok(ts, p1) is Newline {
                    Ok((NodeView::ExprStmt(e), p1 + 1))
                } else {
                    Err(missing(ts, p1, "Expected newline after expression"@))
                },
            }
        },
        Err(m) => Err(m),
    }
}

/// A node: decorators, then an exported declaration, a declaration (a type
/// keyword, or an identifier followed by another), or a statement.
pub open spec fn node_at(ts: Seq<Token>, p: int) -> Result<(NodeView, int), Seq<char>>
    decreases ts.len() - p, 20nat,
{
    if !(0 <= p < ts.len()) {
        Err(seq![])
    } else {
        match decorators_at(ts, p, seq![]) {
            Ok((decos, q)) => if !(p <= q < ts.len()) {
                Err(seq![])
            } else if tok(ts, q) is KwExport {
                match variable_at(ts, q + 1, decos, true) {
                    Ok((v, r)) => Ok((NodeView::Variable(v), r)),
                    Err(m) => Err(m),
                }
            } else if tok(ts, q).spec_is_type_keyword() {
                let decl = if tok(ts, q) is Identifier { q + 1 < ts.len() && tok(ts, q + 1) is Identifier } else { true };
                if decl {
                    match variable_at(ts, q, decos, false) {
                        Ok((v, r)) => Ok((NodeView::Variable(v), r)),
                        Err(m) => Err(m),
                    }
                } else {
                    statement_at(ts, q)
                }
            } else {
                statement_at(ts, q)
            },
            Err(m) => Err(m),
        }
    }
}

/// A declaration: `const`, `ref` and `exclude` markers, the type, the name,
/// `uses`, arguments, return type, `: value`, the end of its line, then an
/// indented block of content.
pub open spec fn variable_at(ts: Seq<Token>, p: int, decos: Seq<DecoratorView>, is_export: bool) -> Result<(VariableView, int), Seq<char>>
    decreases ts.len() - p, 17nat,
{
    if !(0 <= p < ts.len()) {
        Err(seq![])
    } else {
        let is_const = tok(ts, p) is KwConst;
        let p1 = if is_const { p + 1 } else { p };
        let is_ref = tok(ts, p1) is KwRef;
        let p2 = if is_ref { p1 + 1 } else { p1 };
        let p3 = if tok(ts, p2) is KwExclude { p2 + 1 } else { p2 };
        match type_at(ts, p3) {
            Ok((ty, p4)) => if !(p3 <= p4 < ts.len()) {
                Err(seq![])
            } else {
                let (name, p5) = name_at(ts, p4);
                match uses_at(ts, p5) {
                    Ok((uses, p6)) => match opt_args_at(ts, p6) {
                        Ok((args, p7)) => match opt_ret_at(ts, p7) {
                            Ok((ret, p8)) => match opt_value_at(ts, p8) {
                                Ok((content0, p9)) => if !(p <= p9 < ts.len()) {
                                    Err(seq![])
                                } else if !(tok(ts, p9) is Newline) {
                                    Err(missing(ts, p9, "Expected newline after variable declaration"@))
                                } else if !(p9 < skip_newlines(ts, p9 + 1) <= ts.len()) {
                                    Err(seq![])
                                } else {
                                    match body_at(ts, skip_newlines(ts, p9 + 1), content0) {
                                        Ok((content, q)) => if !(p < q <= ts.len()) {
                                            Err(seq![])
                                        } else {
                                            Ok((
                                                VariableView {
                                                    type_expr: ty,
                                                    name,
                                                    arguments: args,
                                                    content,
                                                    return_type: ret,
                                                    decorators: decos,
                                                    uses,
                                                    is_const,
                                                    is_export,
                                                    is_ref,
                                                    span: Span { start: ts[p].span.start, end: ts[q - 1].span.end, line: 0, column: 0 },
                                                },
                                                q,
                                            ))
                                        },
                                        Err(m) => Err(m),
                                    }
                                },
                                Err(m) => Err(m),
                            },
                            Err(m) => Err(m),
                        },
                        Err(m) => Err(m),
                    },
                    Err(m) => Err(m),
                }
            },
            Err(m) => Err(m),
        }
    }
}

/// An indented block, if one starts at `p`: its nodes after `acc`, up to and
/// including the `Dedent`.
pub open spec fn body_at(ts: Seq<Token>, p: int, acc: Seq<NodeView>) -> Result<(Seq<NodeView>, int), Seq<char>>
    decreases ts.len() - p, 16nat,
{
    if 0 <= p < ts.len() && tok(ts, p) is Indent {
        match block_at(ts, p + 1, acc) {
            Ok((ns, q)) => if !(p < q < ts.len()) {
                Err(seq![])
            } else if tok(ts, q) is Dedent {
                Ok((ns, q + 1))
            } else {
                Err(missing(ts, q, "Expected dedent after block"@))
            },
            Err(m) => Err(m),
        }
    } else {
        Ok((acc, p))
    }
}

/// The nodes of a block, after those in `acc`, up to its `Dedent` (or the
/// end); blank lines are skipped.
pub open spec fn block_at(ts: Seq<Token>, p: int, acc: Seq<NodeView>) -> Result<(Seq<NodeView>, int), Seq<char>>
    decreases ts.len() - p, 21nat,
{
    if !(0 <= p < ts.len()) {
        Err(seq![])
    } else if tok(ts, p) is Dedent || tok(ts, p) is Eof {
        Ok((acc, p))
    } else if tok(ts, p) is Newline {
        block_at(ts, p + 1, acc)
    } else {
        match node_at(ts, p) {
            Ok((n, q)) => if p < q <= ts.len() { block_at(ts, q, acc.push(n)) } else { Err(seq![]) },
            Err(m) => Err(m),
        }
    }
}

/// A program: its nodes, after those in `acc`, with blank lines skipped, up
/// to `Eof`.
pub open spec fn program_at(ts: Seq<Token>, p: int, acc: Seq<NodeView>) -> Result<(Seq<NodeView>, int), Seq<char>>
    decreases ts.len() - p,
{
    if !(0 <= p < ts.len()) {
        Err(seq![])
    } else if tok(ts, p) is Eof {
        Ok((acc, p))
    } else if tok(ts, p) is Newline {
        program_at(ts, p + 1, acc)
    } else {
        match node_at(ts, p) {
            Ok((n, q)) => if p < q <= ts.len() { program_at(ts, q, acc.push(n)) } else { Err(seq![]) },
            Err(m) => Err(m),
        }
    }
}

/// "Expected expression at line L (found <kind>)" for token `t`.
fn expected_expression_message(t: &Token) -> (m: String)
    ensures
        m@ == expected_expression(*t),
{
    let mut m = owned("Expected expression at line ");
    m.append(decimal_string(t.span.line as u64).as_str());
    m.append(" (found ");
    m.append(kind_text(&t.kind).as_str());
    m.append(")");
    proof {
        assert(m@ =~= expected_expression(*t));
    }
    m
}

/// Operator precedence: `*` and `/` bind equally and tighter than `+` and
/// `-`, which bind equally and tighter than the comparisons, which bind
/// tighter than `==`, `!=` and `in`.
pub proof fn lemma_precedence_order()
    ensures
        binop_of(TokenKind::Star) matches Some((m, _)) && binop_of(TokenKind::Slash) matches Some((d, _)) && m == d,
        binop_of(TokenKind::Plus) matches Some((a, _)) && binop_of(TokenKind::Minus) matches Some((s, _)) && a == s,
        (binop_of(TokenKind::Slash)->0).0 > (binop_of(TokenKind::Plus)->0).0,
        (binop_of(TokenKind::Plus)->0).0 > (binop_of(TokenKind::Less)->0).0,
        (binop_of(TokenKind::Less)->0).0 == (binop_of(TokenKind::Greater)->0).0,
        (binop_of(TokenKind::Less)->0).0 == (binop_of(TokenKind::LessEqual)->0).0,
        (binop_of(TokenKind::Less)->0).0 == (binop_of(TokenKind::GreaterEqual)->0).0,
        (binop_of(TokenKind::Less)->0).0 > (binop_of(TokenKind::EqualEqual)->0).0,
        (binop_of(TokenKind::EqualEqual)->0).0 == (binop_of(TokenKind::BangEqual)->0).0,
        (binop_of(TokenKind::EqualEqual)->0).0 == (binop_of(TokenKind::KwIn)->0).0,
{
}

/// Different operator tokens stand for different operators.
pub proof fn lemma_operators_distinct(k1: TokenKind, k2: TokenKind)
    ensures
        binop_of(k1) matches Some((_, o1)) && binop_of(k2) matches Some((_, o2)) && o1 == o2 ==> k1 == k2,
{
}

/// What each operator token stands for.
pub proof fn lemma_operator_meanings()
    ensures
        binop_of(TokenKind::Plus) matches Some((_, o)) && o == BinOp::Add,
        binop_of(TokenKind::Minus) matches Some((_, o)) && o == BinOp::Sub,
        binop_of(TokenKind::Star) matches Some((_, o)) && o == BinOp::Mul,
        binop_of(TokenKind::Slash) matches Some((_, o)) && o == BinOp::Div,
        binop_of(TokenKind::EqualEqual) matches Some((_, o)) && o == BinOp::Eq,
        binop_of(TokenKind::BangEqual) matches Some((_, o)) && o == BinOp::NotEq,
        binop_of(TokenKind::Less) matches Some((_, o)) && o == BinOp::Lt,
        binop_of(TokenKind::Greater) matches Some((_, o)) && o == BinOp::Gt,
        binop_of(TokenKind::LessEqual) matches Some((_, o)) && o == BinOp::LtEq,
        binop_of(TokenKind::GreaterEqual) matches Some((_, o)) && o == BinOp::GtEq,
        binop_of(TokenKind::KwIn) matches Some((_, o)) && o == BinOp::In,
{
}

/// `a op b` for two atoms and an operator token, the line ending after
/// them, is the operation the token stands for on the two atoms.
pub proof fn lemma_binary_expression(ts: Seq<Token>, p: int)
    requires
        0 <= p,
        p + 3 < ts.len(),
        atom_view(ts[p]) is Some,
        binop_of(tok(ts, p + 1)) is Some,
        atom_view(ts[p + 2]) is Some,
        tok(ts, p + 3) is Newline,
    ensures
        expr_at(ts, p) == Ok::<(ExprView, int), Seq<char>>((
            ExprView::BinaryOp {
                left: Box::new(atom_view(ts[p])->0),
                op: (binop_of(tok(ts, p + 1))->0).1,
                right: Box::new(atom_view(ts[p + 2])->0),
                span: Span::zero(),
            },
            p + 3,
        )),
{
    let a = atom_view(ts[p])->0;
    let b = atom_view(ts[p + 2])->0;
    let (pw, o) = binop_of(tok(ts, p + 1))->0;
    let ab = ExprView::BinaryOp { left: Box::new(a), op: o, right: Box::new(b), span: Span::zero() };
    lemma_atom(ts, p);
    lemma_atom(ts, p + 2);
    assert(pratt_loop(ts, p + 3, pw + 1, b) == Ok::<(ExprView, int), Seq<char>>((b, p + 3)));
    assert(pratt_at(ts, p + 2, pw + 1) == Ok::<(ExprView, int), Seq<char>>((b, p + 3)));
    assert(pratt_loop(ts, p + 3, 0, ab) == Ok::<(ExprView, int), Seq<char>>((ab, p + 3)));
    assert(pratt_loop(ts, p + 1, 0, a) == Ok::<(ExprView, int), Seq<char>>((ab, p + 3)));
    assert(pratt_at(ts, p, 0) == Ok::<(ExprView, int), Seq<char>>((ab, p + 3)));
}

/// `a + b / c` is a sum whose right operand is the quotient `b / c`, for any
/// three atoms, the line ending after them.
pub proof fn lemma_sum_of_quotient(ts: Seq<Token>, p: int)
    requires
        0 <= p,
        p + 5 < ts.len(),
        atom_view(ts[p]) is Some,
        tok(ts, p + 1) is Plus,
        atom_view(ts[p + 2]) is Some,
        tok(ts, p + 3) is Slash,
        atom_view(ts[p + 4]) is Some,
        tok(ts, p + 5) is Newline,
    ensures
        expr_at(ts, p) == Ok::<(ExprView, int), Seq<char>>((
            ExprView::BinaryOp {
                left: Box::new(atom_view(ts[p])->0),
                op: BinOp::Add,
                right: Box::new(ExprView::BinaryOp {
                    left: Box::new(atom_view(ts[p + 2])->0),
                    op: BinOp::Div,
                    right: Box::new(atom_view(ts[p + 4])->0),
                    span: Span::zero(),
                }),
                span: Span::zero(),
            },
            p + 5,
        )),
{
    let a = atom_view(ts[p])->0;
    let b = atom_view(ts[p + 2])->0;
    let c = atom_view(ts[p + 4])->0;
    let bc = ExprView::BinaryOp { left: Box::new(b), op: BinOp::Div, right: Box::new(c), span: Span::zero() };
    let abc = ExprView::BinaryOp { left: Box::new(a), op: BinOp::Add, right: Box::new(bc), span: Span::zero() };
    lemma_atom(ts, p);
    lemma_atom(ts, p + 2);
    lemma_atom(ts, p + 4);
    assert(pratt_loop(ts, p + 5, 5, c) == Ok::<(ExprView, int), Seq<char>>((c, p + 5)));
    assert(pratt_at(ts, p + 4, 5) == Ok::<(ExprView, int), Seq<char>>((c, p + 5)));
    assert(pratt_loop(ts, p + 5, 4, bc) == Ok::<(ExprView, int), Seq<char>>((bc, p + 5)));
    assert(pratt_loop(ts, p + 3, 4, b) == Ok::<(ExprView, int), Seq<char>>((bc, p + 5)));
    assert(pratt_at(ts, p + 2, 4) == Ok::<(ExprView, int), Seq<char>>((bc, p + 5)));
    assert(pratt_loop(ts, p + 5, 0, abc) == Ok::<(ExprView, int), Seq<char>>((abc, p + 5)));
    assert(pratt_loop(ts, p + 1, 0, a) == Ok::<(ExprView, int), Seq<char>>((abc, p + 5)));
    assert(pratt_at(ts, p, 0) == Ok::<(ExprView, int), Seq<char>>((abc, p + 5)));
}

/// An atom followed by a token that is neither an operator nor a call,
/// member access or index is an operand on its own.
proof fn lemma_atom(ts: Seq<Token>, i: int)
    requires
        0 <= i,
        i + 1 < ts.len(),
        atom_view(ts[i]) is Some,
        !(tok(ts, i + 1) is LeftParen),
        !(tok(ts, i + 1) is Dot),
        !(tok(ts, i + 1) is LeftBracket),
    ensures
        primary_at(ts, i) == Ok::<(ExprView, int), Seq<char>>((atom_view(ts[i])->0, i + 1)),
        unary_at(ts, i) == Ok::<(ExprView, int), Seq<char>>((atom_view(ts[i])->0, i + 1)),
{
    assert(postfix_at(ts, i + 1, atom_view(ts[i])->0) == Ok::<(ExprView, int), Seq<char>>((atom_view(ts[i])->0, i + 1)));
}

/// `r` is what the spec `s` says for an expression: the parsed expression
/// and the position after it, or the same error message.
pub open spec fn expr_result(r: Result<Expr, String>, s: Result<(ExprView, int), Seq<char>>, pos: int) -> bool {
    match s {
        Ok((v, np)) => r is Ok && expr_view(r->Ok_0) == v && pos == np,
        Err(m) => r is Err && r->Err_0@ == m,
    }
}


pub struct Parser {
    tokens: Vec<Token>,
    current: usize,
}

impl Parser {
    /// The tokens being parsed.
    pub closed spec fn tokens(self) -> Seq<Token> {
        self.tokens@
    }

    /// Index of the next token to read.
    pub closed spec fn position(self) -> nat {
        self.current as nat
    }

    /// Parsing can start: tokens that end with `Eof`, and a position in them.
    pub open spec fn ready(self) -> bool {
        parser_input(self.tokens()) && self.position() < self.tokens().len()
    }

    /// Whether the next token is the final `Eof`.
    pub open spec fn done(self) -> bool {
        self.tokens()[self.position() as int].kind is Eof
    }

    /// The invariant of every parsing step: ready, and either some token has
    /// been read or the stream holds more than `Eof`.
    closed spec fn inv(self) -> bool {
        &&& parser_input(self.tokens@)
        &&& self.current < self.tokens@.len()
        &&& (self.current >= 1 || !(self.tokens@[0].kind is Eof))
    }

    closed spec fn at_end(self) -> bool {
        self.tokens@[self.current as int].kind is Eof
    }

    /// What a step keeps: the tokens, the invariant, and no going back.
    closed spec fn step(self, next: Parser) -> bool {
        &&& next.inv()
        &&& next.tokens@ == self.tokens@
        &&& next.current >= self.current
    }

    pub fn new(tokens: Vec<Token>) -> (p: Self)
        ensures
            p.tokens() == tokens@,
            p.position() == 0,
    {
        Self { tokens, current: 0 }
    }

    /// Parses the whole program, skipping blank lines between nodes: the
    /// nodes are those the grammar (`program_at`) reads from the tokens, and
    /// parsing fails exactly where the grammar does, with its message.
    #[verifier::spinoff_prover]
    #[verifier::rlimit(40)]
    pub fn parse(&mut self) -> (r: Result<Program, String>)
        requires
            old(self).ready(),
        ensures
            final(self).ready(),
            final(self).tokens() == old(self).tokens(),
            final(self).position() >= old(self).position(),
            r is Ok ==> final(self).done(),
            match program_at(old(self).tokens(), old(self).position() as int, seq![]) {
                Ok((ns, np)) => r is Ok && nodes_view(r->Ok_0.nodes@) == ns && final(self).position() == np,
                Err(m) => r is Err && r->Err_0@ == m,
            },
    {
        let ghost ts = self.tokens@;
        let ghost c0 = self.current as int;
        let mut nodes: Vec<Node> = Vec::new();
        assert(nodes_view(nodes@) =~= seq![]);
        while !self.is_at_end()
            invariant
                parser_input(self.tokens@),
                self.current < self.tokens@.len(),
                self.tokens@ == old(self).tokens@,
                ts == self.tokens@,
                c0 == old(self).current,
                self.current >= old(self).current,
                program_at(ts, c0, seq![]) == program_at(ts, self.current as int, nodes_view(nodes@)),
            decreases self.tokens@.len() - self.current,
        {
            let ghost it0 = self.current as int;
            // skip extra newlines at the top level
            if self.match_kind(TokenKind::Newline) {
                continue;
            }
            let node = match self.parse_node() {
                Ok(n) => n,
                Err(e) => {
                    assert(program_at(ts, it0, nodes_view(nodes@)) matches Err(m) && m == e@);
                    return Err(e);
                },
            };
            proof {
                lemma_nodes_view_push(nodes@, node);
            }
            nodes.push(node);
        }
        Ok(Program { nodes })
    }

    fn parse_node(&mut self) -> (r: Result<Node, String>)
        requires
            old(self).inv(),
            !old(self).at_end(),
        ensures
            old(self).step(*final(self)),
            r is Ok ==> final(self).current > old(self).current,
            match node_at(old(self).tokens@, old(self).current as int) {
                Ok((n, np)) => r is Ok && node_view(r->Ok_0) == n && final(self).current == np,
                Err(m) => r is Err && r->Err_0@ == m,
            },
        decreases old(self).tokens@.len() - old(self).current, 20nat,
    {
        let ghost ts = self.tokens@;
        let ghost c0 = self.current as int;
        // Collect decorators
        let mut decorators: Vec<Decorator> = Vec::new();
        assert(decorators_view(decorators@) =~= seq![]);
        while self.match_kind(TokenKind::At)
            invariant
                old(self).step(*self),
                ts == self.tokens@,
                c0 == old(self).current,
                self.current > old(self).current || !self.at_end(),
                decorators_at(ts, c0, seq![]) == decorators_at(ts, self.current as int, decorators_view(decorators@)),
            decreases self.tokens@.len() - self.current,
        {
            let ghost it0 = self.current - 1;
            let d = match self.parse_decorator() {
                Ok(d) => d,
                Err(e) => {
                    assert(decorators_at(ts, it0, decorators_view(decorators@)) matches Err(m) && m == e@);
                    return Err(e);
                },
            };
            proof {
                lemma_decorators_view_push(decorators@, d);
            }
            decorators.push(d);
            match self.consume(TokenKind::Newline, "Expected newline after decorator") {
                Ok(_) => {},
                Err(e) => {
                    return Err(e);
                },
            }
        }
        let k = self.peek_kind();
        if matches!(k, TokenKind::KwExport) {
            self.advance(); // consume 'export'
            // After export, we expect a variable declaration
            let v = self.parse_variable_exported(decorators)?;
            Ok(Node::Variable(v))
        } else if k.is_type_keyword() {
            let is_var_decl = if matches!(k, TokenKind::Identifier(_)) {
                // An identifier starts a declaration only when another identifier follows
                matches!(self.peek_next().kind, TokenKind::Identifier(_))
            } else {
                // Built-in types (int, func, object) are always variable declarations
                true
            };
            if is_var_decl {
                let v = self.parse_variable(decorators)?;
                Ok(Node::Variable(v))
            } else {
                // Assignment or Expression Statement
                self.parse_statement_tail()
            }
        } else {
            // Fallback for literals or other expressions
            self.parse_statement_tail()
        }
    }

    /// An expression statement, or an assignment when `:`, `+=`, `-=`, `*=`
    /// or `/=` follows the first expression.
    fn parse_statement_tail(&mut self) -> (r: Result<Node, String>)
        requires
            old(self).inv(),
        ensures
            old(self).step(*final(self)),
            r is Ok ==> final(self).current > old(self).current,
            r matches Ok(Node::Assignment(a)) ==> a.span == a.target.spec_span(),
            match statement_at(old(self).tokens@, old(self).current as int) {
                Ok((n, np)) => r is Ok && node_view(r->Ok_0) == n && final(self).current == np,
                Err(m) => r is Err && r->Err_0@ == m,
            },
        decreases old(self).tokens@.len() - old(self).current, 19nat,
    {
        let ghost ts = self.tokens@;
        let ghost c0 = self.current as int;
        let expr = self.parse_expr()?;
        let k = self.peek_kind();
        let op = if self.at_end_exec() {
            None
        } else {
            match k {
                TokenKind::Colon => Some(AssignOp::Assign),
                TokenKind::PlusEqual => Some(AssignOp::AddAssign),
                TokenKind::MinusEqual => Some(AssignOp::SubAssign),
                TokenKind::StarEqual => Some(AssignOp::MulAssign),
                TokenKind::SlashEqual => Some(AssignOp::DivAssign),
                _ => None,
            }
        };
        assert(op == assign_op_of(tok(ts, self.current as int)));
        match op {
            Some(op) => {
                self.advance();
                let value = self.parse_expr()?;
                self.consume(TokenKind::Newline, "Expected newline after assignment")?;
                let span = expr.span();
                proof {
                    lemma_view_span(expr);
                }
                Ok(Node::Assignment(Assignment { target: expr, op, value, span }))
            },
            None => {
                self.consume(TokenKind::Newline, "Expected newline after expression")?;
                Ok(Node::ExprStmt(expr))
            },
        }
    }

    fn parse_variable(&mut self, decorators: Vec<Decorator>) -> (r: Result<Variable, String>)
        requires
            old(self).inv(),
        ensures
            old(self).step(*final(self)),
            r is Ok ==> final(self).current > old(self).current,
            r matches Ok(v) ==> !v.is_export && v.decorators == decorators,
            match variable_at(old(self).tokens@, old(self).current as int, decorators_view(decorators@), false) {
                Ok((v, np)) => r is Ok && variable_view(r->Ok_0) == v && final(self).current == np,
                Err(m) => r is Err && r->Err_0@ == m,
            },
        decreases old(self).tokens@.len() - old(self).current, 18nat,
    {
        self.parse_variable_inner(decorators, false)
    }

    fn parse_variable_exported(&mut self, decorators: Vec<Decorator>) -> (r: Result<Variable, String>)
        requires
            old(self).inv(),
        ensures
            old(self).step(*final(self)),
            r is Ok ==> final(self).current > old(self).current,
            r matches Ok(v) ==> v.is_export && v.decorators == decorators,
            match variable_at(old(self).tokens@, old(self).current as int, decorators_view(decorators@), true) {
                Ok((v, np)) => r is Ok && variable_view(r->Ok_0) == v && final(self).current == np,
                Err(m) => r is Err && r->Err_0@ == m,
            },
        decreases old(self).tokens@.len() - old(self).current, 18nat,
    {
        self.parse_variable_inner(decorators, true)
    }

    #[verifier::spinoff_prover]
    #[verifier::rlimit(100)]
    fn parse_variable_inner(&mut self, decorators: Vec<Decorator>, is_export: bool) -> (r: Result<Variable, String>)
        requires
            old(self).inv(),
        ensures
            old(self).step(*final(self)),
            r is Ok ==> final(self).current > old(self).current,
            r matches Ok(v) ==> {
                &&& v.is_export == is_export
                &&& v.decorators == decorators
                &&& v.span.start == old(self).tokens@[old(self).current as int].span.start
                &&& v.span.line == 0 && v.span.column == 0
            },
            match variable_at(old(self).tokens@, old(self).current as int, decorators_view(decorators@), is_export) {
                Ok((v, np)) => r is Ok && variable_view(r->Ok_0) == v && final(self).current == np,
                Err(m) => r is Err && r->Err_0@ == m,
            },
        decreases old(self).tokens@.len() - old(self).current, 17nat,
    {
        let ghost ts = self.tokens@;
        let ghost c0 = self.current as int;
        let span_start = self.tokens[self.current].span.start;

        let is_const = self.match_kind(TokenKind::KwConst);
        let is_ref = self.match_kind(TokenKind::KwRef);
        // support exclude
        if self.match_kind(TokenKind::KwExclude) {
        }
        let ghost p3 = self.current as int;
        let type_expr = self.parse_type_expr()?;
        let ghost p4 = self.current as int;
        let name = self.parse_name();
        let ghost p5 = self.current as int;
        let uses = self.parse_uses()?;
        let ghost p6 = self.current as int;
        let arguments = self.parse_opt_args()?;
        let ghost p7 = self.current as int;
        let return_type = self.parse_opt_return()?;
        let ghost p8 = self.current as int;
        let content = self.parse_opt_value()?;
        let ghost p9 = self.current as int;

        // Must end with newline
        self.consume(TokenKind::Newline, "Expected newline after variable declaration")?;
        self.skip_blank_lines();
        let ghost p10 = self.current as int;
        assert(p10 == skip_newlines(ts, p9 + 1));
        let content = self.parse_body(content)?;
        let ghost q = self.current as int;

        let end = self.previous().span.end;
        Ok(Variable {
            type_expr,
            name,
            arguments,
            content,
            return_type,
            decorators,
            uses,
            is_const,
            is_export,
            is_ref,
            span: Span { start: span_start, end, line: 0, column: 0 },
        })
    }

    /// A variable's name, if one follows: an identifier's text or a type
    /// keyword's spelling.
    fn parse_name(&mut self) -> (name: Option<String>)
        requires
            old(self).inv(),
        ensures
            old(self).step(*final(self)),
            name_at(old(self).tokens@, old(self).current as int) == (opt_string_view(name), final(self).current as int),
    {
        let k = self.peek_kind();
        if let TokenKind::Identifier(ident) = k {
            self.advance();
            Some(ident)
        } else if k.is_type_keyword() {
            self.advance();
            Some(self.previous().lexeme.clone())
        } else {
            None
        }
    }

    /// `uses name`, if present.
    fn parse_uses(&mut self) -> (r: Result<Vec<String>, String>)
        requires
            old(self).inv(),
        ensures
            old(self).step(*final(self)),
            match uses_at(old(self).tokens@, old(self).current as int) {
                Ok((u, np)) => r is Ok && strings_view(r->Ok_0@) == u && final(self).current == np,
                Err(m) => r is Err && r->Err_0@ == m,
            },
    {
        let mut uses: Vec<String> = Vec::new();
        assert(strings_view(uses@) =~= seq![]);
        if self.match_kind(TokenKind::KwUses) {
            let t = self.consume_ident("Expected identifier after 'uses'")?;
            proof {
                lemma_strings_view_push(uses@, t.lexeme);
            }
            uses.push(t.lexeme);
        }
        Ok(uses)
    }

    /// `(arguments)`, if present.
    fn parse_opt_args(&mut self) -> (r: Result<Option<ArgList>, String>)
        requires
            old(self).inv(),
        ensures
            old(self).step(*final(self)),
            match opt_args_at(old(self).tokens@, old(self).current as int) {
                Ok((l, np)) => r is Ok && arg_list_view(r->Ok_0) == l && final(self).current == np,
                Err(m) => r is Err && r->Err_0@ == m,
            },
    {
        if self.match_kind(TokenKind::LeftParen) {
            let l = self.parse_arg_list()?;
            Ok(Some(l))
        } else {
            Ok(None)
        }
    }

    /// `-> type`, if present.
    fn parse_opt_return(&mut self) -> (r: Result<Option<TypeExpr>, String>)
        requires
            old(self).inv(),
        ensures
            old(self).step(*final(self)),
            match opt_ret_at(old(self).tokens@, old(self).current as int) {
                Ok((t, np)) => r is Ok && opt_type_view(r->Ok_0) == t && final(self).current == np,
                Err(m) => r is Err && r->Err_0@ == m,
            },
    {
        if self.match_kind(TokenKind::Arrow) {
            let t = self.parse_type_expr()?;
            Ok(Some(t))
        } else {
            Ok(None)
        }
    }

    /// `: value`, if present, wrapped in an anonymous variable: the content
    /// it starts.
    fn parse_opt_value(&mut self) -> (r: Result<Vec<Node>, String>)
        requires
            old(self).inv(),
        ensures
            old(self).step(*final(self)),
            match opt_value_at(old(self).tokens@, old(self).current as int) {
                Ok((c, np)) => r is Ok && nodes_view(r->Ok_0@) == c && final(self).current == np,
                Err(m) => r is Err && r->Err_0@ == m,
            },
    {
        let mut content: Vec<Node> = Vec::new();
        if self.match_kind(TokenKind::Colon) {
            let value_expr = self.parse_expr()?;
            let mut inner: Vec<Node> = Vec::new();
            inner.push(Node::ExprStmt(value_expr));
            let anon = Node::Variable(Variable {
                type_expr: TypeExpr::Named(owned("anonymous")),
                name: None,
                arguments: None,
                content: inner,
                return_type: None,
                decorators: Vec::new(),
                uses: Vec::new(),
                is_const: false,
                is_export: false,
                is_ref: false,
                span: Span { start: 0, end: 0, line: 0, column: 0 },
            });
            proof {
                lemma_nodes_view_push(Seq::<Node>::empty(), inner@[0]);
                assert(Seq::<Node>::empty().push(inner@[0]) =~= inner@);
                assert(nodes_view(Seq::<Node>::empty()) =~= seq![]);
                assert(nodes_view(inner@) =~= seq![NodeView::ExprStmt(expr_view(value_expr))]);
                assert(decorators_view(Seq::<Decorator>::empty()) =~= seq![]);
                assert(strings_view(Seq::<String>::empty()) =~= seq![]);
                assert(node_view(anon) == anonymous_value(expr_view(value_expr)));
                lemma_nodes_view_push(content@, anon);
            }
            content.push(anon);
            assert(nodes_view(content@) =~= seq![anonymous_value(expr_view(value_expr))]);
        } else {
            assert(nodes_view(content@) =~= seq![]);
        }
        Ok(content)
    }

    /// Moves past blank lines.
    fn skip_blank_lines(&mut self)
        requires
            old(self).inv(),
        ensures
            old(self).step(*final(self)),
            final(self).current == skip_newlines(old(self).tokens@, old(self).current as int),
    {
        let ghost ts = self.tokens@;
        let ghost c0 = self.current as int;
        while self.match_kind(TokenKind::Newline)
            invariant
                old(self).step(*self),
                ts == self.tokens@,
                skip_newlines(ts, c0) == skip_newlines(ts, self.current as int),
            decreases self.tokens@.len() - self.current,
        {
        }
    }

    /// An indented block of nodes, if one starts here, added after `acc`.
    fn parse_body(&mut self, acc: Vec<Node>) -> (r: Result<Vec<Node>, String>)
        requires
            old(self).inv(),
        ensures
            old(self).step(*final(self)),
            match body_at(old(self).tokens@, old(self).current as int, nodes_view(acc@)) {
                Ok((c, np)) => r is Ok && nodes_view(r->Ok_0@) == c && final(self).current == np,
                Err(m) => r is Err && r->Err_0@ == m,
            },
        decreases old(self).tokens@.len() - old(self).current, 16nat,
    {
        let ghost ts = self.tokens@;
        let ghost c0 = self.current as int;
        let ghost content0 = nodes_view(acc@);
        let mut content = acc;
        if self.match_kind(TokenKind::Indent) {
            while !self.check(TokenKind::Dedent) && !self.is_at_end()
                invariant
                    old(self).step(*self),
                    ts == self.tokens@,
                    c0 == old(self).current,
                    tok(ts, c0) is Indent,
                    content0 == nodes_view(acc@),
                    self.current > old(self).current,
                    block_at(ts, c0 + 1, content0) == block_at(ts, self.current as int, nodes_view(content@)),
                decreases self.tokens@.len() - self.current,
            {
                let ghost it0 = self.current as int;
                if self.match_kind(TokenKind::Newline) {
                    continue;
                }
                let n = match self.parse_node() {
                    Ok(n) => n,
                    Err(e) => {
                        assert(block_at(ts, it0, nodes_view(content@)) matches Err(m) && m == e@);
                        assert(block_at(ts, c0 + 1, content0) matches Err(m) && m == e@);
                        assert(body_at(ts, c0, content0) matches Err(m) && m == e@);
                        return Err(e);
                    },
                };
                proof {
                    lemma_nodes_view_push(content@, n);
                }
                content.push(n);
            }
            self.consume(TokenKind::Dedent, "Expected dedent after block")?;
        }
        Ok(content)
    }

    // ── Components ──

    /// A type: a type keyword or identifier, then any number of `[]`
    /// (a type inside the brackets is read and dropped).
    fn parse_type_expr(&mut self) -> (r: Result<TypeExpr, String>)
        requires
            old(self).inv(),
        ensures
            old(self).step(*final(self)),
            r is Ok && !old(self).at_end() ==> final(self).current > old(self).current,
            !old(self).at_end() ==> (r matches Ok(t) ==> type_word(old(self).tokens@[old(self).current as int].kind)
                == Some(base_name(t))),
            type_word(old(self).tokens@[old(self).current as int].kind) is None && !old(self).at_end() ==> r is Err,
            match type_at(old(self).tokens@, old(self).current as int) {
                Ok((t, np)) => r is Ok && type_view(r->Ok_0) == t && final(self).current == np,
                Err(m) => r is Err && r->Err_0@ == m,
            },
        decreases old(self).tokens@.len() - old(self).current, 1nat,
    {
        let ghost ts = self.tokens@;
        let ghost c0 = self.current as int;
        self.advance();
        let base: String = match &self.previous().kind {
            TokenKind::KwInt => owned("int"),
            TokenKind::KwFloat => owned("float"),
            TokenKind::KwString => owned("string"),
            TokenKind::KwBool => owned("bool"),
            TokenKind::KwStruct => owned("struct"),
            TokenKind::KwObject => owned("object"),
            TokenKind::KwBehaviour => owned("behaviour"),
            TokenKind::KwFunc => owned("func"),
            TokenKind::KwBuffer => owned("buffer"),
            TokenKind::KwEnum => owned("enum"),
            TokenKind::KwTask => owned("task"),
            TokenKind::KwSignal => owned("signal"),
            TokenKind::KwVec2 => owned("vec2"),
            TokenKind::KwVec3 => owned("vec3"),
            TokenKind::KwVec4 => owned("vec4"),
            TokenKind::KwMat2 => owned("mat2"),
            TokenKind::KwMat3 => owned("mat3"),
            TokenKind::KwMat4 => owned("mat4"),
            TokenKind::KwTensor => owned("tensor"),
            TokenKind::KwIf => owned("if"),
            TokenKind::KwElse => owned("else"),
            TokenKind::KwElif => owned("elif"),
            TokenKind::KwFor => owned("for"),
            TokenKind::KwWhile => owned("while"),
            TokenKind::KwReturn => owned("return"),
            TokenKind::KwImport => owned("import"),
            TokenKind::KwFrom => owned("from"),
            TokenKind::Identifier(name) => name.clone(),
            _ => {
                return Err(owned("Expected a type"));
            },
        };
        let ghost word = base@;

        let mut ty = TypeExpr::Named(base);
        assert(type_at(ts, c0) == brackets_at(ts, self.current as int, type_view(ty)));

        while self.match_kind(TokenKind::LeftBracket)
            invariant
                old(self).step(*self),
                ts == self.tokens@,
                c0 == old(self).current,
                self.current > c0 || old(self).at_end(),
                base_name(ty) == word,
                !old(self).at_end() ==> type_word(ts[c0].kind) == Some(word),
                type_at(ts, c0) == brackets_at(ts, self.current as int, type_view(ty)),
            decreases self.tokens@.len() - self.current,
        {
            let ghost it0 = self.current - 1;
            assert(tok(ts, it0) is LeftBracket);
            if !self.check(TokenKind::RightBracket) {
                // allow `array[int]`: the inner type is read and dropped
                match self.parse_type_expr() {
                    Ok(_inner) => {},
                    Err(e) => {
                        assert(brackets_at(ts, it0, type_view(ty)) matches Err(m) && m == e@);
                        return Err(e);
                    },
                }
            }
            match self.consume(TokenKind::RightBracket, "Expected ']' after '['") {
                Ok(_) => {},
                Err(e) => {
                    assert(brackets_at(ts, it0, type_view(ty)) matches Err(m) && m == e@);
                    return Err(e);
                },
            }
            ty = TypeExpr::Array(Box::new(ty));
        }

        Ok(ty)
    }

    /// A decorator after its `@`: a dotted path of identifiers.
    fn parse_decorator(&mut self) -> (r: Result<Decorator, String>)
        requires
            old(self).inv(),
            old(self).current >= 1,
        ensures
            old(self).step(*final(self)),
            r is Ok ==> final(self).current > old(self).current,
            r matches Ok(d) ==> d.path@.len() >= 1,
            match decorator_at(old(self).tokens@, old(self).current as int) {
                Ok((d, np)) => r is Ok && decorator_view(r->Ok_0) == d && final(self).current == np,
                Err(m) => r is Err && r->Err_0@ == m,
            },
        decreases old(self).tokens@.len() - old(self).current, 1nat,
    {
        let ghost ts = self.tokens@;
        let ghost c0 = self.current as int;
        let start = self.previous().span.start;
        let mut path: Vec<String> = Vec::new();
        let first = self.consume_ident("Expected identifier after '@'")?;
        proof {
            lemma_strings_view_push(path@, first.lexeme);
            assert(strings_view(path@) =~= seq![]);
        }
        path.push(first.lexeme);
        assert(decorator_at(ts, c0) == dots_at(ts, self.current as int, strings_view(path@), start));
        while self.match_kind(TokenKind::Dot)
            invariant
                old(self).step(*self),
                ts == self.tokens@,
                c0 == old(self).current,
                self.current > old(self).current,
                path@.len() >= 1,
                decorator_at(ts, c0) == dots_at(ts, self.current as int, strings_view(path@), start),
            decreases self.tokens@.len() - self.current,
        {
            let ghost it0 = self.current - 1;
            assert(tok(ts, it0) is Dot);
            let t = match self.consume_ident("Expected identifier after '.'") {
                Ok(t) => t,
                Err(e) => {
                    assert(dots_at(ts, it0, strings_view(path@), start) matches Err(m) && m == e@);
                    return Err(e);
                },
            };
            proof {
                lemma_strings_view_push(path@, t.lexeme);
            }
            path.push(t.lexeme);
        }
        let end = self.previous().span.end;
        Ok(Decorator { path, span: Span { start, end, line: 0, column: 0 } })
    }

    /// Arguments after their `(`, up to and including the `)`.
    fn parse_arg_list(&mut self) -> (r: Result<ArgList, String>)
        requires
            old(self).inv(),
            old(self).current >= 1,
        ensures
            old(self).step(*final(self)),
            r is Ok ==> final(self).current > old(self).current,
            match arg_list_at(old(self).tokens@, old(self).current as int) {
                Ok((l, np)) => r is Ok && arg_list_view(Some(r->Ok_0)) == Some(l) && final(self).current == np,
                Err(m) => r is Err && r->Err_0@ == m,
            },
        decreases old(self).tokens@.len() - old(self).current, 10nat,
    {
        let ghost ts = self.tokens@;
        let ghost c0 = self.current as int;
        let start = self.previous().span.start;
        let mut args: Vec<Arg> = Vec::new();

        if !self.check(TokenKind::RightParen) {
            loop
                invariant_except_break
                    args_at(ts, c0, seq![]) == args_at(ts, self.current as int, args_view(args@)),
                invariant
                    old(self).step(*self),
                    ts == self.tokens@,
                    c0 == old(self).current,
                    self.current >= old(self).current,
                    !(tok(ts, c0) is RightParen),
                    1 <= c0 < ts.len(),
                ensures
                    old(self).step(*self),
                    self.current > old(self).current || old(self).at_end(),
                    args_at(ts, c0, seq![]) == Ok::<_, Seq<char>>((args_view(args@), self.current as int)),
                decreases self.tokens@.len() - self.current,
            {
                let ghost it0 = self.current as int;
                let a = match self.parse_arg() {
                    Ok(a) => a,
                    Err(e) => {
                        assert(args_at(ts, it0, args_view(args@)) matches Err(m) && m == e@);
                        assert(arg_list_at(ts, c0) matches Err(m) && m == e@);
                        return Err(e);
                    },
                };
                proof {
                    lemma_args_view_push(args@, a);
                }
                args.push(a);
                if !self.match_kind(TokenKind::Comma) {
                    break;
                }
            }
        } else {
            assert(args_view(args@) =~= seq![]);
        }
        self.consume(TokenKind::RightParen, "Expected ')' after arguments")?;
        let end = self.previous().span.end;
        Ok(ArgList { args, span: Span { start, end, line: 0, column: 0 } })
    }

    /// One argument: typed (`int a`, `ref int a`), named (`w: 800`) or
    /// positional (an expression).
    fn parse_arg(&mut self) -> (r: Result<Arg, String>)
        requires
            old(self).inv(),
        ensures
            old(self).step(*final(self)),
            r is Ok && !old(self).at_end() ==> final(self).current > old(self).current,
            match arg_at(old(self).tokens@, old(self).current as int) {
                Ok((a, np)) => r is Ok && arg_view(r->Ok_0) == a && final(self).current == np,
                Err(m) => r is Err && r->Err_0@ == m,
            },
        decreases old(self).tokens@.len() - old(self).current, 9nat,
    {
        let ghost ts = self.tokens@;
        let ghost c0 = self.current as int;
        let mut is_typed = false;
        let n = self.tokens.len();
        let mut check_idx = self.current;
        let is_ref = if matches!(self.tokens[check_idx].kind, TokenKind::KwRef) {
            check_idx = check_idx + 1;
            true
        } else {
            false
        };

        if check_idx < self.tokens.len() && self.tokens[check_idx].kind.is_type_keyword() {
            if n - check_idx > 1 && matches!(self.tokens[check_idx + 1].kind, TokenKind::Identifier(_)) {
                is_typed = true;
            }
        }

        if is_typed {
            if is_ref {
                self.advance();
            }  // Consume 'ref'
            let ty = self.parse_type_expr()?;
            let name_tok = self.consume_ident("Expected parameter name")?;
            return Ok(Arg::Typed { ty, name: name_tok.lexeme, is_ref, span: name_tok.span });
        }
        // Check for Named (id = expr)

        if let TokenKind::Identifier(name) = self.peek_kind() {
            if matches!(self.peek_next().kind, TokenKind::Colon) {
                self.advance();  // id
                let start_span = self.previous().span;
                self.advance();  // :
                let value = self.parse_expr()?;
                return Ok(Arg::Named { name, value, span: start_span });
            }
        }
        // Positional

        let expr = self.parse_expr()?;
        Ok(Arg::Positional(expr))
    }

    // ── Expressions ──

    fn parse_expr(&mut self) -> (r: Result<Expr, String>)
        requires
            old(self).inv(),
        ensures
            old(self).step(*final(self)),
            r is Ok && !old(self).at_end() ==> final(self).current > old(self).current,
            expr_result(r, expr_at(old(self).tokens@, old(self).current as int), final(self).current as int),
        decreases old(self).tokens@.len() - old(self).current, 6nat,
    {
        self.parse_expr_pratt(0)
    }

    fn get_binop(kind: &TokenKind) -> (r: Option<(u8, BinOp)>)
        ensures
            r == binop_of(*kind),
    {
        match kind {
            TokenKind::KwIn => Some((1, BinOp::In)),
            TokenKind::EqualEqual => Some((1, BinOp::Eq)),
            TokenKind::BangEqual => Some((1, BinOp::NotEq)),
            TokenKind::Less => Some((2, BinOp::Lt)),
            TokenKind::Greater => Some((2, BinOp::Gt)),
            TokenKind::LessEqual => Some((2, BinOp::LtEq)),
            TokenKind::GreaterEqual => Some((2, BinOp::GtEq)),
            TokenKind::Plus => Some((3, BinOp::Add)),
            TokenKind::Minus => Some((3, BinOp::Sub)),
            TokenKind::Star => Some((4, BinOp::Mul)),
            TokenKind::Slash => Some((4, BinOp::Div)),
            _ => None,
        }
    }

    /// Operands joined by operators that bind at least as tightly as
    /// `min_prec`; operators of equal power group to the left.
    fn parse_expr_pratt(&mut self, min_prec: u8) -> (r: Result<Expr, String>)
        requires
            old(self).inv(),
            min_prec <= 5,
        ensures
            old(self).step(*final(self)),
            r is Ok && !old(self).at_end() ==> final(self).current > old(self).current,
            r is Ok ==> (binop_of(final(self).tokens@[final(self).current as int].kind) matches Some(
                (p, _),
            ) ==> p < min_prec),
            expr_result(r, pratt_at(old(self).tokens@, old(self).current as int, min_prec as int), final(self).current as int),
        decreases old(self).tokens@.len() - old(self).current, 5nat,
    {
        let ghost ts = self.tokens@;
        let ghost c0 = self.current as int;
        let mut left = self.parse_unary()?;
        let ghost p1 = self.current as int;
        assert(pratt_at(ts, c0, min_prec as int) == pratt_loop(ts, p1, min_prec as int, expr_view(left)));

        loop
            invariant_except_break
                pratt_at(ts, c0, min_prec as int) == pratt_loop(ts, self.current as int, min_prec as int, expr_view(left)),
            invariant
                old(self).step(*self),
                ts == self.tokens@,
                c0 == old(self).current,
                self.current > old(self).current || old(self).at_end(),
                min_prec <= 5,
            ensures
                old(self).step(*self),
                self.current > old(self).current || old(self).at_end(),
                binop_of(self.tokens@[self.current as int].kind) matches Some((p, _)) ==> p < min_prec,
                pratt_at(ts, c0, min_prec as int) == Ok::<_, Seq<char>>((expr_view(left), self.current as int)),
            decreases self.tokens@.len() - self.current,
        {
            let k = self.peek_kind();
            match Self::get_binop(&k) {
                Some((prec, op)) => {
                    if prec < min_prec {
                        break;
                    }
                    let ghost q = self.current as int;
                    self.advance();
                    let right = self.parse_expr_pratt(prec + 1)?;
                    left = Expr::BinaryOp {
                        left: Box::new(left),
                        op,
                        right: Box::new(right),
                        span: Span { start: 0, end: 0, line: 0, column: 0 },
                    };
                    assert(q + 1 == self.current || self.current > q);
                },
                None => {
                    break;
                },
            }
        }
        Ok(left)
    }

    fn parse_unary(&mut self) -> (r: Result<Expr, String>)
        requires
            old(self).inv(),
        ensures
            old(self).step(*final(self)),
            r is Ok && !old(self).at_end() ==> final(self).current > old(self).current,
            expr_result(r, unary_at(old(self).tokens@, old(self).current as int), final(self).current as int),
        decreases old(self).tokens@.len() - old(self).current, 4nat,
    {
        let minus = self.match_kind(TokenKind::Minus);
        if minus || self.match_kind(TokenKind::Bang) {
            let op = if minus {
                UnOp::Negate
            } else {
                UnOp::Not
            };
            let right = self.parse_unary()?;
            return Ok(
                Expr::UnaryOp {
                    op,
                    operand: Box::new(right),
                    span: Span { start: 0, end: 0, line: 0, column: 0 },
                },
            );
        }
        self.parse_primary()
    }

    /// Expressions separated by commas, up to the first one not followed by
    /// a comma.
    fn parse_list(&mut self) -> (r: Result<Vec<Expr>, String>)
        requires
            old(self).inv(),
        ensures
            old(self).step(*final(self)),
            r is Ok && !old(self).at_end() ==> final(self).current > old(self).current,
            match list_at(old(self).tokens@, old(self).current as int, seq![]) {
                Ok((vs, np)) => r is Ok && exprs_view(r->Ok_0@) == vs && final(self).current == np,
                Err(m) => r is Err && r->Err_0@ == m,
            },
        decreases old(self).tokens@.len() - old(self).current, 7nat,
    {
        let ghost ts = self.tokens@;
        let ghost c0 = self.current as int;
        let mut items: Vec<Expr> = Vec::new();
        loop
            invariant_except_break
                list_at(ts, c0, seq![]) == list_at(ts, self.current as int, exprs_view(items@)),
            invariant
                old(self).step(*self),
                ts == self.tokens@,
                c0 == old(self).current,
                self.current >= old(self).current,
            ensures
                old(self).step(*self),
                self.current > old(self).current || old(self).at_end(),
                list_at(ts, c0, seq![]) == Ok::<_, Seq<char>>((exprs_view(items@), self.current as int)),
            decreases self.tokens@.len() - self.current,
        {
            let e = self.parse_expr()?;
            proof {
                lemma_exprs_view_push(items@, e);
            }
            items.push(e);
            if !self.match_kind(TokenKind::Comma) {
                break;
            }
        }
        Ok(items)
    }

    /// A literal, identifier, array literal or parenthesized expression,
    /// followed by any calls `(..)`, member accesses `.name` and indexings
    /// `[..]`.
    #[verifier::spinoff_prover]
    #[verifier::rlimit(40)]
    fn parse_primary(&mut self) -> (r: Result<Expr, String>)
        requires
            old(self).inv(),
        ensures
            old(self).step(*final(self)),
            r is Ok && !old(self).at_end() ==> final(self).current > old(self).current,
            expr_result(r, primary_at(old(self).tokens@, old(self).current as int), final(self).current as int),
        decreases old(self).tokens@.len() - old(self).current, 3nat,
    {
        let ghost ts = self.tokens@;
        let ghost c0 = self.current as int;
        if self.match_kind(TokenKind::LeftBracket) {
            let items = if !self.check(TokenKind::RightBracket) {
                self.parse_list()?
            } else {
                Vec::new()
            };
            proof {
                assert(exprs_view(items@) == exprs_view(items@));
                if tok(ts, c0 + 1) is RightBracket {
                    assert(items@ == Seq::<Expr>::empty());
                    assert(exprs_view(items@) =~= seq![]);
                }
            }
            self.consume(TokenKind::RightBracket, "Expected ']' after array items")?;
            return Ok(Expr::ArrayLiteral(items, Span { start: 0, end: 0, line: 0, column: 0 }));
        }
        let at_end = self.is_at_end();
        self.advance();
        let token = self.previous().duplicate();
        let is_type_kw = token.kind.is_type_keyword();
        let mut expr = match token.kind {
            TokenKind::IntLiteral(n) => Expr::IntLiteral(n, token.span),
            TokenKind::FloatLiteral(n) => Expr::FloatLiteral(n, token.span),
            TokenKind::StringLiteral(s) => Expr::StringLiteral(s, token.span),
            TokenKind::BoolLiteral(b) => Expr::BoolLiteral(b, token.span),
            TokenKind::Identifier(name) => Expr::Identifier(name, token.span),
            TokenKind::LeftParen => {
                if at_end {
                    // `(` read again at `Eof` would open the same group without end
                    let eof = self.tokens[self.current].duplicate();
                    return Err(expected_expression_message(&eof));
                }
                let e = self.parse_expr()?;
                self.consume(TokenKind::RightParen, "Expected ')'")?;
                e
            },
            kind => {
                if is_type_kw {
                    Expr::Identifier(token.lexeme, token.span)
                } else {
                    let t = Token { kind, lexeme: token.lexeme, span: token.span };
                    return Err(expected_expression_message(&t));
                }
            },
        };
        let ghost a0 = self.current as int;
        let ghost v0 = expr_view(expr);
        assert(primary_at(ts, c0) == postfix_at(ts, a0, v0));

        // Handle trailing calls or member access
        loop
            invariant_except_break
                postfix_at(ts, a0, v0) == postfix_at(ts, self.current as int, expr_view(expr)),
            invariant
                old(self).step(*self),
                ts == self.tokens@,
                c0 == old(self).current,
                primary_at(ts, c0) == postfix_at(ts, a0, v0),
                self.current > old(self).current || old(self).at_end(),
            ensures
                old(self).step(*self),
                self.current > old(self).current || old(self).at_end(),
                postfix_at(ts, a0, v0) == Ok::<_, Seq<char>>((expr_view(expr), self.current as int)),
            decreases self.tokens@.len() - self.current,
        {
            let ghost it0 = self.current as int;
            if self.match_kind(TokenKind::LeftParen) {
                proof {
                    assert(tok(ts, it0) is LeftParen);
                }
                let args = if !self.check(TokenKind::RightParen) {
                    match self.parse_list() {
                        Ok(a) => a,
                        Err(e) => {
                            assert(postfix_at(ts, it0, expr_view(expr)) matches Err(m) && m == e@);
                            return Err(e);
                        },
                    }
                } else {
                    Vec::new()
                };
                proof {
                    if tok(ts, it0 + 1) is RightParen {
                        assert(exprs_view(args@) =~= seq![]);
                    }
                }
                self.consume(TokenKind::RightParen, "Expected ')' after call args")?;
                expr = Expr::Call {
                    callee: Box::new(expr),
                    args,
                    span: Span { start: 0, end: 0, line: 0, column: 0 },
                };
            } else if self.match_kind(TokenKind::Dot) {
                proof {
                    assert(tok(ts, it0) is Dot);
                }
                let t = match self.consume_ident("Expected property name") {
                    Ok(t) => t,
                    Err(e) => {
                        assert(postfix_at(ts, it0, expr_view(expr)) matches Err(m) && m == e@);
                        return Err(e);
                    },
                };
                expr = Expr::MemberAccess {
                    object: Box::new(expr),
                    member: t.lexeme,
                    span: Span { start: 0, end: 0, line: 0, column: 0 },
                };
            } else if self.match_kind(TokenKind::LeftBracket) {
                proof {
                    assert(tok(ts, it0) is LeftBracket);
                }
                let index = match self.parse_expr() {
                    Ok(i) => i,
                    Err(e) => {
                        assert(postfix_at(ts, it0, expr_view(expr)) matches Err(m) && m == e@);
                        return Err(e);
                    },
                };
                self.consume(TokenKind::RightBracket, "Expected ']' after index")?;
                expr = Expr::IndexAccess {
                    object: Box::new(expr),
                    index: Box::new(index),
                    span: Span { start: 0, end: 0, line: 0, column: 0 },
                };
            } else {
                break;
            }
        }

        Ok(expr)
    }

    // ── Utilities ──

    /// Consumes the next token when it is of `kind`'s variant.
    fn match_kind(&mut self, kind: TokenKind) -> (b: bool)
        requires
            old(self).inv(),
        ensures
            old(self).step(*final(self)),
            b == (!old(self).at_end() && old(self).tokens@[old(self).current as int].kind.tag()
                == kind.tag()),
            final(self).current == old(self).current + if b { 1int } else { 0int },
    {
        if self.check(kind) {
            self.advance();
            true
        } else {
            false
        }
    }

    /// Consumes the next token when it is of `kind`'s variant, else fails
    /// with `err` located at that token.
    fn consume(&mut self, kind: TokenKind, err: &str) -> (r: Result<Token, String>)
        requires
            old(self).inv(),
        ensures
            old(self).step(*final(self)),
            r is Ok == (!old(self).at_end() && old(self).tokens@[old(self).current as int].kind.tag()
                == kind.tag()),
            r is Ok ==> final(self).current == old(self).current + 1 && r->Ok_0
                == old(self).tokens@[old(self).current as int],
            r is Err ==> final(self).current == old(self).current,
            r is Err ==> r->Err_0@ == located(err@, old(self).tokens@[old(self).current as int]),
    {
        if self.check(kind) {
            self.advance();
            Ok(self.previous().duplicate())
        } else {
            Err(located_error(err, &self.tokens[self.current]))
        }
    }

    /// Consumes an identifier, or a type keyword standing for a name.
    fn consume_ident(&mut self, err: &str) -> (r: Result<Token, String>)
        requires
            old(self).inv(),
        ensures
            old(self).step(*final(self)),
            r is Ok == old(self).tokens@[old(self).current as int].kind.spec_is_type_keyword(),
            r is Ok ==> final(self).current == old(self).current + 1 && r->Ok_0
                == old(self).tokens@[old(self).current as int],
            r is Err ==> final(self).current == old(self).current && r->Err_0@ == err@,
    {
        if self.tokens[self.current].kind.is_type_keyword() {
            self.advance();
            Ok(self.previous().duplicate())
        } else {
            Err(owned(err))
        }
    }

    /// Whether the next token is of `kind`'s variant (payloads are not
    /// compared); never at the end.
    fn check(&self, kind: TokenKind) -> (b: bool)
        requires
            self.inv(),
        ensures
            b == (!self.at_end() && self.tokens@[self.current as int].kind.tag() == kind.tag()),
    {
        if self.is_at_end() {
            return false;
        }
        self.tokens[self.current].kind.same_variant(&kind)
    }

    /// Moves past the next token, unless it is `Eof`.
    fn advance(&mut self)
        requires
            old(self).inv(),
        ensures
            old(self).step(*final(self)),
            final(self).current == if old(self).at_end() {
                old(self).current as int
            } else {
                old(self).current + 1
            },
            final(self).current >= 1,
    {
        let n = self.tokens.len();
        if !self.is_at_end() {
            self.current = self.current + 1;
        }
        assert(self.current <= n);
    }

    fn is_at_end(&self) -> (b: bool)
        requires
            self.current < self.tokens@.len(),
        ensures
            b == self.at_end(),
    {
        matches!(self.tokens[self.current].kind, TokenKind::Eof)
    }

    fn at_end_exec(&self) -> (b: bool)
        requires
            self.current < self.tokens@.len(),
        ensures
            b == self.at_end(),
    {
        self.is_at_end()
    }

    fn peek_kind(&self) -> (k: TokenKind)
        requires
            self.current < self.tokens@.len(),
        ensures
            k == self.tokens@[self.current as int].kind,
    {
        self.tokens[self.current].kind.duplicate()
    }

    fn peek_next(&self) -> (t: &Token)
        requires
            self.current < self.tokens@.len(),
        ensures
            *t == if self.current + 1 >= self.tokens@.len() {
                self.tokens@[self.current as int]
            } else {
                self.tokens@[self.current + 1]
            },
    {
        if self.tokens.len() - self.current <= 1 {
            &self.tokens[self.current]
        } else {
            &self.tokens[self.current + 1]
        }
    }

    fn previous(&self) -> (t: &Token)
        requires
            1 <= self.current <= self.tokens@.len(),
        ensures
            *t == self.tokens@[self.current - 1],
    {
        &self.tokens[self.current - 1]
    }
}

} // verus!
